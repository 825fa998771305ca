//! The tags of rendered text open and close in pairs, properly nested.
//!
//! Text is read as any reader of HTML reads it: a `<` starts a tag, which runs
//! to the next `>`; a tag whose first character is `/` closes, any other opens.
//! The tags are then matched with a stack. Rendering does not escape text, so
//! the law below is stated of trees whose leaf texts hold no `<`.

use vstd::prelude::*;

use crate::context::{tag_markup, TagType};
use crate::decimal::lemma_decimal_digits;
use crate::document::{nodes_html, Content, Node, Tag};

verus! {

/// A tag as it is read in HTML text, with its name.
pub enum Markup {
    /// `<name>`
    Open(Seq<char>),
    /// `</name>`
    Close(Seq<char>),
    /// A `<` that no `>` follows.
    Unclosed,
}

/// The position of the first `>` in `text`, or the length of `text` if there
/// is none.
pub open spec fn first_gt(text: Seq<char>) -> int
    decreases text.len(),
{
    if text.len() == 0 {
        0
    } else if text[0] == '>' {
        0
    } else {
        1 + first_gt(text.skip(1))
    }
}

/// The first `>` of a text stands within it, or the text has none.
pub proof fn lemma_first_gt_bounds(text: Seq<char>)
    ensures
        0 <= first_gt(text) <= text.len(),
        first_gt(text) < text.len() ==> text[first_gt(text)] == '>',
        forall|i: int| 0 <= i < first_gt(text) ==> text[i] != '>',
    decreases text.len(),
{
    if text.len() > 0 && text[0] != '>' {
        lemma_first_gt_bounds(text.skip(1));
        assert forall|i: int| 0 <= i < first_gt(text) implies text[i] != '>' by {
            if i > 0 {
                assert(text[i] == text.skip(1)[i - 1]);
            }
        }
    }
}

/// The tags of `text`, in the order in which they stand in it.
pub open spec fn tags(text: Seq<char>) -> Seq<Markup>
    decreases text.len(),
{
    if text.len() == 0 {
        Seq::empty()
    } else if text[0] != '<' {
        tags(text.skip(1))
    } else {
        let end = first_gt(text);
        proof {
            lemma_first_gt_bounds(text);
        }
        if end >= text.len() {
            seq![Markup::Unclosed]
        } else {
            let inner = text.subrange(1, end);
            let tag = if inner.len() > 0 && inner[0] == '/' {
                Markup::Close(inner.skip(1))
            } else {
                Markup::Open(inner)
            };
            seq![tag] + tags(text.skip(end + 1))
        }
    }
}

/// Whether `tags` can be matched with a stack that holds the names in `open`,
/// innermost last: a start tag puts its name on the stack, an end tag must
/// name the top of the stack and takes it off, and in the end the stack is
/// empty.
pub open spec fn nested(tags: Seq<Markup>, open: Seq<Seq<char>>) -> bool
    decreases tags.len(),
{
    if tags.len() == 0 {
        open.len() == 0
    } else {
        match tags[0] {
            Markup::Open(name) => nested(tags.skip(1), open.push(name)),
            Markup::Close(name) => open.len() > 0 && open.last() == name && nested(
                tags.skip(1),
                open.drop_last(),
            ),
            Markup::Unclosed => false,
        }
    }
}

/// Whether the tags of `text` are balanced: every start tag is closed by an end
/// tag of its name, and tags close in the reverse of the order in which they
/// opened.
pub open spec fn tags_balanced(text: Seq<char>) -> bool {
    nested(tags(text), Seq::empty())
}

/// The number of start tags among `tags`.
pub open spec fn opening_count(tags: Seq<Markup>) -> nat
    decreases tags.len(),
{
    if tags.len() == 0 {
        0
    } else {
        opening_count(tags.skip(1)) + if tags[0] is Open {
            1nat
        } else {
            0nat
        }
    }
}

/// The number of end tags among `tags`.
pub open spec fn closing_count(tags: Seq<Markup>) -> nat
    decreases tags.len(),
{
    if tags.len() == 0 {
        0
    } else {
        closing_count(tags.skip(1)) + if tags[0] is Close {
            1nat
        } else {
            0nat
        }
    }
}

/// Tags that match with a stack are as many end tags as there are start tags
/// and names on the stack together.
pub proof fn lemma_nested_counts(tags: Seq<Markup>, open: Seq<Seq<char>>)
    requires
        nested(tags, open),
    ensures
        opening_count(tags) + open.len() == closing_count(tags),
    decreases tags.len(),
{
    if tags.len() > 0 {
        match tags[0] {
            Markup::Open(name) => lemma_nested_counts(tags.skip(1), open.push(name)),
            Markup::Close(_) => lemma_nested_counts(tags.skip(1), open.drop_last()),
            Markup::Unclosed => {},
        }
    }
}

/// The tags that the blocks of a sequence of nodes stand for, in document
/// order.
pub open spec fn nodes_markup(nodes: Seq<Node>) -> Seq<Markup>
    decreases nodes, 0nat,
{
    if nodes.len() == 0 {
        Seq::empty()
    } else {
        nodes_markup(nodes.drop_last()) + nodes.last().markup()
    }
}

/// Whether no leaf text of a sequence of nodes holds a `<`.
pub open spec fn nodes_markup_free(nodes: Seq<Node>) -> bool {
    forall|i: int| 0 <= i < nodes.len() ==> (#[trigger] nodes[i]).markup_free()
}

impl Node {
    /// Whether no leaf text below this node holds a `<`.
    pub open spec fn markup_free(self) -> bool
        decreases self,
    {
        match self {
            Node::Item(event) => !event.html().contains('<'),
            Node::Block(_, content) => forall|i: int|
                0 <= i < content.nodes@.len() ==> (#[trigger] content.nodes@[i]).markup_free(),
        }
    }

    /// The tags that this node stands for: none for a leaf; for a block of a
    /// kind that has a name, a start tag, the tags of its content and an end
    /// tag; for a block of any other kind, the tags of its content.
    pub open spec fn markup(self) -> Seq<Markup>
        decreases self, 1nat,
    {
        match self {
            Node::Item(_) => Seq::empty(),
            Node::Block(tag, content) => match tag.name() {
                Some(name) => seq![Markup::Open(name)] + nodes_markup(content.nodes@)
                    + seq![Markup::Close(name)],
                None => nodes_markup(content.nodes@),
            },
        }
    }
}

impl Content {
    /// Whether no leaf text of this content holds a `<`.
    pub open spec fn markup_free(self) -> bool {
        nodes_markup_free(self@)
    }

    /// The tags that the blocks of this content stand for, in document order.
    pub open spec fn markup(self) -> Seq<Markup> {
        nodes_markup(self@)
    }
}

/// Text without a `<` holds no tag.
pub proof fn lemma_tags_after_text(text: Seq<char>, rest: Seq<char>)
    requires
        !text.contains('<'),
    ensures
        tags(text + rest) == tags(rest),
    decreases text.len(),
{
    if text.len() > 0 {
        lemma_tags_after_text(text.skip(1), rest);
        assert((text + rest).skip(1) =~= text.skip(1) + rest);
    }
}

/// In text that holds no `>`, followed by a `>`, the first `>` is that one.
proof fn lemma_first_gt_after(inner: Seq<char>, rest: Seq<char>)
    requires
        !inner.contains('>'),
    ensures
        first_gt(inner + seq!['>'] + rest) == inner.len(),
    decreases inner.len(),
{
    let text = inner + seq!['>'] + rest;
    if inner.len() > 0 {
        lemma_first_gt_after(inner.skip(1), rest);
        assert(text.skip(1) =~= inner.skip(1) + seq!['>'] + rest);
    }
}

/// The text of a start tag is read back as that start tag.
pub proof fn lemma_tags_after_open(name: Seq<char>, rest: Seq<char>)
    requires
        name.len() > 0,
        name[0] != '/',
        !name.contains('>'),
    ensures
        tags(tag_markup(TagType::Opening, name) + rest) == seq![Markup::Open(name)] + tags(rest),
{
    let text = tag_markup(TagType::Opening, name) + rest;
    lemma_first_gt_after(name, rest);
    assert(text.skip(1) =~= name + seq!['>'] + rest);
    assert(text.subrange(1, (name.len() + 1) as int) =~= name);
    assert(text.skip((name.len() + 2) as int) =~= rest);
}

/// The text of an end tag is read back as that end tag.
pub proof fn lemma_tags_after_close(name: Seq<char>, rest: Seq<char>)
    requires
        !name.contains('>'),
    ensures
        tags(tag_markup(TagType::Closing, name) + rest) == seq![Markup::Close(name)] + tags(rest),
{
    let text = tag_markup(TagType::Closing, name) + rest;
    let inner = seq!['/'] + name;
    lemma_first_gt_after(inner, rest);
    assert(text.skip(1) =~= inner + seq!['>'] + rest);
    assert(text.subrange(1, (inner.len() + 1) as int) =~= inner);
    assert(inner.skip(1) =~= name);
    assert(text.skip((inner.len() + 2) as int) =~= rest);
}

/// The name of an element starts with a letter and holds no `>`.
pub proof fn lemma_name_shape(tag: Tag)
    requires
        tag.name() is Some,
    ensures
        tag.name()->0.len() > 0,
        tag.name()->0[0] != '/',
        !tag.name()->0.contains('>'),
{
    if let Tag::Header(level) = tag {
        if level < 0 {
            lemma_decimal_digits((-level) as nat);
        } else {
            lemma_decimal_digits(level as nat);
        }
    }
}

/// Reading the text of a node back gives the tags that the node stands for,
/// followed by the tags of whatever text comes after it.
pub proof fn lemma_tags_of_node(node: Node, rest: Seq<char>)
    requires
        node.markup_free(),
    ensures
        tags(node.html() + rest) == node.markup() + tags(rest),
    decreases node, 1nat,
{
    match node {
        Node::Item(event) => {
            lemma_tags_after_text(event.html(), rest);
        },
        Node::Block(tag, content) => {
            let inner = nodes_html(content.nodes@);
            let line_end = seq!['\n'] + rest;
            assert(tags(line_end) == tags(rest)) by {
                lemma_tags_after_text(seq!['\n'], rest);
            }
            let closing = tag.html(TagType::Closing) + line_end;
            lemma_tags_of_nodes(content.nodes@, closing);
            assert(node.html() + rest =~= tag.html(TagType::Opening) + (inner + closing));
            if let Some(name) = tag.name() {
                lemma_name_shape(tag);
                lemma_tags_after_close(name, line_end);
                lemma_tags_after_open(name, inner + closing);
            }
        },
    }
}

/// Reading the text of a sequence of nodes back gives the tags that its blocks
/// stand for, followed by the tags of whatever text comes after it.
pub proof fn lemma_tags_of_nodes(nodes: Seq<Node>, rest: Seq<char>)
    requires
        nodes_markup_free(nodes),
    ensures
        tags(nodes_html(nodes) + rest) == nodes_markup(nodes) + tags(rest),
    decreases nodes, 0nat,
{
    if nodes.len() > 0 {
        let front = nodes.drop_last();
        let last = nodes.last();
        lemma_tags_of_node(last, rest);
        lemma_tags_of_nodes(front, last.html() + rest);
        assert(nodes_html(nodes) + rest =~= nodes_html(front) + (last.html() + rest));
    }
}

/// The tags of a node leave the stack as they found it: they match with a
/// stack exactly if what follows them does.
pub proof fn lemma_markup_nested(node: Node, after: Seq<Markup>, open: Seq<Seq<char>>)
    ensures
        nested(node.markup() + after, open) == nested(after, open),
    decreases node, 1nat,
{
    if let Node::Block(tag, content) = node {
        let inner = nodes_markup(content.nodes@);
        match tag.name() {
            Some(name) => {
                let closing = seq![Markup::Close(name)] + after;
                let all = node.markup() + after;
                assert(all.skip(1) =~= inner + closing);
                lemma_nodes_markup_nested(content.nodes@, closing, open.push(name));
                assert(closing.skip(1) =~= after);
                assert(open.push(name).drop_last() =~= open);
            },
            None => {
                lemma_nodes_markup_nested(content.nodes@, after, open);
            },
        }
    }
}

/// The tags of a sequence of nodes leave the stack as they found it.
pub proof fn lemma_nodes_markup_nested(nodes: Seq<Node>, after: Seq<Markup>, open: Seq<Seq<char>>)
    ensures
        nested(nodes_markup(nodes) + after, open) == nested(after, open),
    decreases nodes, 0nat,
{
    if nodes.len() > 0 {
        let front = nodes.drop_last();
        let last = nodes.last();
        lemma_markup_nested(last, after, open);
        lemma_nodes_markup_nested(front, last.markup() + after, open);
        assert(nodes_markup(nodes) + after =~= nodes_markup(front) + (last.markup() + after));
    }
}

/// The tags that the blocks of a document stand for are balanced, whatever the
/// document: they match with a stack that starts and ends empty, so every
/// block that opens is closed once, under the same name and after everything
/// inside it, and as many tags open as close.
pub proof fn lemma_markup_balanced(content: Content)
    ensures
        nested(content.markup(), Seq::empty()),
        opening_count(content.markup()) == closing_count(content.markup()),
{
    lemma_nodes_markup_nested(content@, Seq::empty(), Seq::empty());
    lemma_nested_counts(content.markup(), Seq::empty());
}

/// The tags of a rendered document are balanced: read back from the text,
/// they are the tags of the blocks of the tree in document order, they match
/// with a stack that starts and ends empty, and as many of them open as
/// close. This holds of every tree whose leaf texts hold no `<`.
pub proof fn lemma_rendered_tags_balanced(content: Content)
    requires
        content.markup_free(),
    ensures
        tags(content.html()) == content.markup(),
        tags_balanced(content.html()),
        opening_count(tags(content.html())) == closing_count(tags(content.html())),
{
    lemma_tags_of_nodes(content@, Seq::empty());
    lemma_markup_balanced(content);
}

} // verus!
