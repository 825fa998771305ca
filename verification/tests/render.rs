use rendering::{into_html, Content, Event, Node, Tag};

fn text(s: &str) -> Node {
    Node::Item(Event::Text(s.to_string()))
}

fn block(tag: Tag, nodes: Vec<Node>) -> Node {
    Node::Block(tag, Content { nodes })
}

fn render(nodes: Vec<Node>) -> String {
    let mut content = Content { nodes };
    assert!(content.is_renderable());
    let mut buf = String::new();
    into_html(&mut content, &mut buf);
    buf
}

#[test]
fn paragraph_with_text() {
    assert_eq!(render(vec![block(Tag::Paragraph, vec![text("hello")])]), "<p>hello</p>\n");
}

#[test]
fn header_with_text() {
    assert_eq!(render(vec![block(Tag::Header(2), vec![text("Title")])]), "<h2>Title</h2>\n");
}

#[test]
fn paragraph_then_header() {
    let out = render(vec![
        block(Tag::Paragraph, vec![text("first")]),
        block(Tag::Header(1), vec![text("second")]),
    ]);
    assert_eq!(out, "<p>first</p>\n<h1>second</h1>\n");
}

#[test]
fn empty_content_writes_nothing() {
    assert_eq!(render(vec![]), "");
}

#[test]
fn empty_paragraph() {
    assert_eq!(render(vec![block(Tag::Paragraph, vec![])]), "<p></p>\n");
}

#[test]
fn paragraph_wraps_any_text() {
    for body in ["", " ", "a", "two words", "line\nbreak", "caf\u{e9} \u{1f600}", "a < b & c > d"] {
        let out = render(vec![block(Tag::Paragraph, vec![text(body)])]);
        assert_eq!(out, format!("<p>{}</p>\n", body));
    }
}

#[test]
fn header_levels_one_to_six() {
    let expected = [
        "<h1>x</h1>\n",
        "<h2>x</h2>\n",
        "<h3>x</h3>\n",
        "<h4>x</h4>\n",
        "<h5>x</h5>\n",
        "<h6>x</h6>\n",
    ];
    for level in 1..=6 {
        let out = render(vec![block(Tag::Header(level), vec![text("x")])]);
        assert_eq!(out, expected[(level - 1) as usize]);
    }
}

#[test]
fn header_level_is_not_validated() {
    assert_eq!(render(vec![block(Tag::Header(0), vec![])]), "<h0></h0>\n");
    assert_eq!(render(vec![block(Tag::Header(7), vec![])]), "<h7></h7>\n");
    assert_eq!(render(vec![block(Tag::Header(10), vec![])]), "<h10></h10>\n");
    assert_eq!(render(vec![block(Tag::Header(-3), vec![])]), "<h-3></h-3>\n");
    assert_eq!(
        render(vec![block(Tag::Header(i32::MAX), vec![])]),
        "<h2147483647></h2147483647>\n"
    );
    assert_eq!(
        render(vec![block(Tag::Header(i32::MIN), vec![])]),
        "<h-2147483648></h-2147483648>\n"
    );
}

#[test]
fn text_is_not_escaped() {
    assert_eq!(
        render(vec![block(Tag::Paragraph, vec![text("<b>&amp;\"</b>")])]),
        "<p><b>&amp;\"</b></p>\n"
    );
}

#[test]
fn several_leaves_stand_between_the_tags() {
    let out = render(vec![block(Tag::Header(3), vec![text("a"), text("b"), text(""), text("c")])]);
    assert_eq!(out, "<h3>abc</h3>\n");
}

#[test]
fn top_level_text_is_written_bare() {
    assert_eq!(render(vec![text("a"), text("b")]), "ab");
}

#[test]
fn kinds_without_a_name_write_no_tag() {
    assert_eq!(render(vec![block(Tag::BlockQuote, vec![text("q")])]), "q\n");
    assert_eq!(render(vec![block(Tag::Rule, vec![])]), "\n");
    assert_eq!(render(vec![block(Tag::CodeBlock("rust".to_string()), vec![text("fn")])]), "fn\n");
    assert_eq!(render(vec![block(Tag::List(Some(1)), vec![block(Tag::Item, vec![text("i")])])]), "i\n\n");
    assert_eq!(render(vec![block(Tag::Emphasis, vec![text("e")])]), "e\n");
    assert_eq!(
        render(vec![block(Tag::Link("u".to_string(), "t".to_string()), vec![text("l")])]),
        "l\n"
    );
}

#[test]
fn nested_blocks_close_in_reverse_order() {
    let out = render(vec![block(
        Tag::Paragraph,
        vec![
            text("a"),
            block(Tag::Header(2), vec![text("b"), block(Tag::Paragraph, vec![text("c")])]),
            text("d"),
        ],
    )]);
    assert_eq!(out, "<p>a<h2>b<p>c</p>\n</h2>\nd</p>\n");
}

#[test]
fn block_inside_a_kind_without_a_name() {
    let out = render(vec![block(Tag::BlockQuote, vec![block(Tag::Paragraph, vec![text("q")])])]);
    assert_eq!(out, "<p>q</p>\n\n");
}

#[test]
fn buffer_is_only_appended_to() {
    let mut content = Content { nodes: vec![block(Tag::Paragraph, vec![text("new")])] };
    let mut buf = String::from("<!-- old -->");
    into_html(&mut content, &mut buf);
    assert_eq!(buf, "<!-- old --><p>new</p>\n");
}

#[test]
fn rendering_twice_gives_the_same_text() {
    let mut content = Content {
        nodes: vec![
            block(Tag::Header(1), vec![text("T")]),
            block(Tag::Paragraph, vec![text("x"), block(Tag::Strong, vec![text("y")])]),
        ],
    };
    let mut first = String::new();
    into_html(&mut content, &mut first);
    let mut second = String::new();
    into_html(&mut content, &mut second);
    assert_eq!(first, "<h1>T</h1>\n<p>xy\n</p>\n");
    assert_eq!(first, second);

    let mut both = String::new();
    into_html(&mut content, &mut both);
    into_html(&mut content, &mut both);
    assert_eq!(both, format!("{}{}", first, first));
}

#[test]
fn rendering_leaves_the_tree_as_it_was() {
    let mut content = Content { nodes: vec![block(Tag::Paragraph, vec![text("x")]), text("y")] };
    let mut buf = String::new();
    into_html(&mut content, &mut buf);
    assert_eq!(content, Content { nodes: vec![block(Tag::Paragraph, vec![text("x")]), text("y")] });
}

#[test]
fn two_documents_in_a_row_are_one_document() {
    let single = render(vec![
        block(Tag::Paragraph, vec![text("a")]),
        text("b"),
        block(Tag::Header(4), vec![text("c")]),
    ]);
    let mut buf = render(vec![block(Tag::Paragraph, vec![text("a")])]);
    let mut rest = Content { nodes: vec![text("b"), block(Tag::Header(4), vec![text("c")])] };
    into_html(&mut rest, &mut buf);
    assert_eq!(buf, single);
    assert_eq!(single, "<p>a</p>\nb<h4>c</h4>\n");
}
