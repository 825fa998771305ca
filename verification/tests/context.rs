use rendering::decimal::push_decimal;
use rendering::{Content, Context, Event, IntoHtml, Node, Tag, TagType};

#[test]
fn new_context_is_neutral() {
    assert_eq!(Context::new().tag_type, TagType::Neutral);
}

#[test]
fn render_tag_opening() {
    let ctx = Context { tag_type: TagType::Opening };
    let mut buf = String::new();
    ctx.render_tag("p", &mut buf);
    assert_eq!(buf, "<p>");
}

#[test]
fn render_tag_closing() {
    let ctx = Context { tag_type: TagType::Closing };
    let mut buf = String::new();
    ctx.render_tag("p", &mut buf);
    assert_eq!(buf, "</p>");
}

#[test]
fn render_tag_neutral_writes_a_start_tag() {
    let ctx = Context::new();
    let mut buf = String::new();
    ctx.render_tag("h1", &mut buf);
    assert_eq!(buf, "<h1>");
}

#[test]
fn render_tag_takes_any_name() {
    let ctx = Context { tag_type: TagType::Closing };
    let mut buf = String::from("x");
    ctx.render_tag("", &mut buf);
    ctx.render_tag("a b", &mut buf);
    ctx.render_tag("<>/", &mut buf);
    assert_eq!(buf, "x</></a b></<>/>");
}

#[test]
fn decimal_notation() {
    let cases: [(i32, &str); 11] = [
        (0, "0"),
        (1, "1"),
        (9, "9"),
        (10, "10"),
        (42, "42"),
        (100, "100"),
        (1000000, "1000000"),
        (-1, "-1"),
        (-10, "-10"),
        (i32::MAX, "2147483647"),
        (i32::MIN, "-2147483648"),
    ];
    for (n, expected) in cases {
        let mut buf = String::from("h");
        push_decimal(n, &mut buf);
        assert_eq!(buf, format!("h{}", expected));
        assert_eq!(buf, format!("h{}", n));
    }
}

#[test]
fn tag_renders_by_mode() {
    let mut buf = String::new();
    let mut ctx = Context { tag_type: TagType::Opening };
    let mut tag = Tag::Header(3);
    tag.render(&mut ctx, &mut buf);
    ctx.tag_type = TagType::Closing;
    tag.render(&mut ctx, &mut buf);
    ctx.tag_type = TagType::Neutral;
    tag.render(&mut ctx, &mut buf);
    assert_eq!(buf, "<h3></h3><h3>");
    assert_eq!(ctx.tag_type, TagType::Neutral);
    assert_eq!(tag, Tag::Header(3));
}

#[test]
fn tag_without_a_name_renders_nothing() {
    let mut buf = String::from("kept");
    let mut ctx = Context { tag_type: TagType::Opening };
    Tag::Table(vec![]).render(&mut ctx, &mut buf);
    Tag::TableHead.render(&mut ctx, &mut buf);
    Tag::TableRow.render(&mut ctx, &mut buf);
    Tag::TableCell.render(&mut ctx, &mut buf);
    Tag::Strong.render(&mut ctx, &mut buf);
    Tag::Code.render(&mut ctx, &mut buf);
    Tag::FootnoteDefinition("n".to_string()).render(&mut ctx, &mut buf);
    Tag::Image("u".to_string(), "t".to_string()).render(&mut ctx, &mut buf);
    assert_eq!(buf, "kept");
    assert_eq!(ctx.tag_type, TagType::Opening);
}

#[test]
fn event_text_renders_verbatim() {
    let mut buf = String::from(">");
    let mut ctx = Context::new();
    let mut event = Event::Text("a<b".to_string());
    event.render(&mut ctx, &mut buf);
    assert_eq!(buf, ">a<b");
    assert_eq!(ctx.tag_type, TagType::Neutral);
    assert_eq!(event, Event::Text("a<b".to_string()));
}

#[test]
fn node_leaves_the_context_neutral() {
    let mut buf = String::new();
    let mut ctx = Context::new();
    let mut node = Node::Block(
        Tag::Paragraph,
        Content { nodes: vec![Node::Item(Event::Text("x".to_string()))] },
    );
    node.render(&mut ctx, &mut buf);
    assert_eq!(buf, "<p>x</p>\n");
    assert_eq!(ctx.tag_type, TagType::Neutral);

    let mut leaf = Node::Item(Event::Text("y".to_string()));
    leaf.render(&mut ctx, &mut buf);
    assert_eq!(buf, "<p>x</p>\ny");
    assert_eq!(ctx.tag_type, TagType::Neutral);
}

#[test]
fn content_renders_nodes_in_order() {
    let mut buf = String::new();
    let mut ctx = Context::new();
    let mut content = Content {
        nodes: vec![
            Node::Item(Event::Text("1".to_string())),
            Node::Block(Tag::Header(1), Content { nodes: vec![] }),
            Node::Item(Event::Text("2".to_string())),
        ],
    };
    content.render(&mut ctx, &mut buf);
    assert_eq!(buf, "1<h1></h1>\n2");
    assert_eq!(ctx.tag_type, TagType::Neutral);
    assert_eq!(content.nodes.len(), 3);
}
