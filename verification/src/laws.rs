//! What holds of the text of every document.

use vstd::prelude::*;

use crate::context::TagType;
use crate::decimal::digit_char;
use crate::document::{nodes_html, Content, Event, Node, Tag};

verus! {

/// The text of a single node standing alone is the text of that node.
pub proof fn lemma_html_of_one(nodes: Seq<Node>)
    requires
        nodes.len() == 1,
    ensures
        nodes_html(nodes) == nodes[0].html(),
{
    assert(nodes_html(nodes.drop_last()) =~= Seq::empty());
}

/// Nodes are rendered one after the other: the text of two sequences of nodes
/// put together is the text of the first followed by the text of the second.
pub proof fn lemma_html_of_concat(first: Seq<Node>, second: Seq<Node>)
    ensures
        nodes_html(first + second) == nodes_html(first) + nodes_html(second),
    decreases second.len(),
{
    if second.len() > 0 {
        lemma_html_of_concat(first, second.drop_last());
        assert((first + second).drop_last() =~= first + second.drop_last());
    }
}

/// A document without nodes has no text: nothing is written for it.
pub proof fn lemma_empty_content(content: Content)
    requires
        content@.len() == 0,
    ensures
        content.renderable(),
        content.html() == Seq::<char>::empty(),
{
}

/// A document that is a paragraph around one piece of text is `<p>`, the text
/// as it is, `</p>` and a line feed.
pub proof fn lemma_paragraph_of_text(document: Content, inner: Content, text: String)
    requires
        document@ == seq![Node::Block(Tag::Paragraph, inner)],
        inner@ == seq![Node::Item(Event::Text(text))],
    ensures
        document.renderable(),
        document.html() == seq!['<', 'p', '>'] + text@ + seq!['<', '/', 'p', '>', '\n'],
{
    lemma_html_of_one(inner@);
    lemma_html_of_one(document@);
    assert(Node::Item(Event::Text(text)).renderable());
}

/// A header of a level from 1 to 6 is `<hN>`, the text of what it contains,
/// `</hN>` and a line feed, where `N` is the digit of the level.
pub proof fn lemma_header_of_level(level: i32, inner: Content)
    requires
        1 <= level <= 6,
    ensures
        Node::Block(Tag::Header(level), inner).html() == seq!['<', 'h', digit_char(level as int), '>']
            + inner.html() + seq!['<', '/', 'h', digit_char(level as int), '>', '\n'],
{
}

/// The text of a sequence of nodes is the texts of its nodes joined in order.
pub proof fn lemma_html_is_joined(nodes: Seq<Node>)
    ensures
        nodes_html(nodes) == nodes.map_values(|node: Node| node.html()).flatten(),
    decreases nodes.len(),
{
    if nodes.len() > 0 {
        let texts = nodes.map_values(|node: Node| node.html());
        let front = nodes.drop_last();
        lemma_html_is_joined(front);
        let front_texts = front.map_values(|node: Node| node.html());
        assert(texts =~= front_texts.push(nodes.last().html()));
        front_texts.lemma_flatten_push(nodes.last().html());
    }
}

/// The text that a leaf holds; a block holds none of its own.
pub open spec fn leaf_text(node: Node) -> Seq<char> {
    match node {
        Node::Item(event) => event.html(),
        Node::Block(_, _) => Seq::empty(),
    }
}

/// The texts of the leaves among `nodes`, joined in order.
pub open spec fn inline_text(nodes: Seq<Node>) -> Seq<char> {
    nodes.map_values(|node: Node| leaf_text(node)).flatten()
}

/// A block that contains leaves only is its start tag, then the texts of the
/// leaves in order and nothing else, then its end tag and a line feed: inline
/// text stands between the two tags and is never mixed with them.
pub proof fn lemma_block_of_leaves(tag: Tag, inner: Content)
    requires
        forall|i: int| 0 <= i < inner@.len() ==> #[trigger] inner@[i] is Item,
    ensures
        Node::Block(tag, inner).html() == tag.html(TagType::Opening) + inline_text(inner@)
            + tag.html(TagType::Closing) + seq!['\n'],
{
    lemma_html_is_joined(inner@);
    assert(inner@.map_values(|node: Node| node.html()) =~= inner@.map_values(
        |node: Node| leaf_text(node),
    ));
}

/// Rendering one tree twice gives the same text both times. Let the first
/// rendering turn a buffer that held `before` into one that holds `after`, and
/// the second, of the same tree, turn `other_before` into `other_after`. Then
/// both appended the same characters, and buffers that were equal before are
/// equal after.
pub proof fn lemma_same_tree_same_text(
    content: Content,
    before: Seq<char>,
    after: Seq<char>,
    other_before: Seq<char>,
    other_after: Seq<char>,
)
    requires
        after == before + content.html(),
        other_after == other_before + content.html(),
    ensures
        after.skip(before.len() as int) == other_after.skip(other_before.len() as int),
        before == other_before ==> after == other_after,
{
}

} // verus!
