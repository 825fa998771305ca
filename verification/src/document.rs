//! The document model: tags, inline events, and the tree of nodes they form,
//! together with the text that each of them stands for in HTML.

use vstd::prelude::*;

use crate::context::{tag_markup, TagType};
use crate::decimal::signed_decimal;

verus! {

/// How the cells of a table column are aligned.
#[derive(Clone, Copy, PartialEq, Eq, Debug)]
pub enum Alignment {
    /// No alignment was asked for.
    Unaligned,
    Left,
    Center,
    Right,
}

/// The kind of a markup element.
#[derive(PartialEq, Eq, Debug)]
pub enum Tag {
    /// A paragraph.
    Paragraph,
    /// A thematic break.
    Rule,
    /// A heading of the given level. Levels from 1 to 6 are usual; no level
    /// is refused.
    Header(i32),
    /// A block quotation.
    BlockQuote,
    /// A code block with its info string.
    CodeBlock(String),
    /// A list; an ordered one holds the number of its first item.
    List(Option<usize>),
    /// An item of a list.
    Item,
    /// The definition of the footnote with the given label.
    FootnoteDefinition(String),
    /// A table with the alignment of each of its columns.
    Table(Vec<Alignment>),
    /// The head of a table.
    TableHead,
    /// A row of a table.
    TableRow,
    /// A cell of a table.
    TableCell,
    /// Emphasised text.
    Emphasis,
    /// Strongly emphasised text.
    Strong,
    /// Inline code.
    Code,
    /// A link to a destination, with a title.
    Link(String, String),
    /// An image at a destination, with a title.
    Image(String, String),
}

/// One unit of inline markup.
#[derive(PartialEq, Eq, Debug)]
pub enum Event {
    /// The marker that starts an element.
    Start(Tag),
    /// The marker that ends an element.
    End(Tag),
    /// Literal text.
    Text(String),
    /// A block of raw HTML.
    Html(String),
    /// Raw HTML within a line.
    InlineHtml(String),
    /// A reference to the footnote with the given label.
    FootnoteReference(String),
    /// A line break that the source text has and the output need not keep.
    SoftBreak,
    /// A line break that the output must keep.
    HardBreak,
}

/// A node of the document tree.
#[derive(PartialEq, Eq, Debug)]
pub enum Node {
    /// An element with its kind and what it contains.
    Block(Tag, Content),
    /// A leaf holding one inline event.
    Item(Event),
}

/// An ordered sequence of nodes: a whole document, or the inside of a block.
#[derive(PartialEq, Eq, Debug)]
pub struct Content {
    /// The nodes, in document order.
    pub nodes: Vec<Node>,
}

impl Tag {
    /// The name under which this kind of element is written, if it has one.
    /// A heading is named `h` followed by its level in decimal, whatever the
    /// level is.
    pub open spec fn name(self) -> Option<Seq<char>> {
        match self {
            Tag::Paragraph => Some(seq!['p']),
            Tag::Header(level) => Some(seq!['h'] + signed_decimal(level as int)),
            _ => None,
        }
    }

    /// The text of this element's tag in the given mode. A kind without a name
    /// has no tag text.
    pub open spec fn html(self, mode: TagType) -> Seq<char> {
        match self.name() {
            Some(name) => tag_markup(mode, name),
            None => Seq::empty(),
        }
    }
}

impl Event {
    /// Whether this event may stand at a leaf of a tree that is rendered: only
    /// literal text may.
    pub open spec fn renderable(self) -> bool {
        self is Text
    }

    /// The text of this event: literal text stands for itself, character by
    /// character; no other event has a text.
    pub open spec fn html(self) -> Seq<char> {
        match self {
            Event::Text(text) => text@,
            _ => Seq::empty(),
        }
    }

    /// Tells whether this event is literal text.
    pub fn is_renderable(&self) -> (ok: bool)
        ensures
            ok == self.renderable(),
    {
        match self {
            Event::Text(_) => true,
            _ => false,
        }
    }
}

/// The text of a sequence of nodes: the texts of its nodes, one after the other.
pub open spec fn nodes_html(nodes: Seq<Node>) -> Seq<char>
    decreases nodes, 0nat,
{
    if nodes.len() == 0 {
        Seq::empty()
    } else {
        nodes_html(nodes.drop_last()) + nodes.last().html()
    }
}

impl Node {
    /// Whether every leaf below this node holds literal text.
    pub open spec fn renderable(self) -> bool
        decreases self,
    {
        match self {
            Node::Item(event) => event.renderable(),
            Node::Block(_, content) => forall|i: int|
                0 <= i < content.nodes@.len() ==> (#[trigger] content.nodes@[i]).renderable(),
        }
    }

    /// The text of this node. A block is its start tag, the text of its
    /// content, its end tag and a line feed; a leaf is the text of its event.
    pub open spec fn html(self) -> Seq<char>
        decreases self, 1nat,
    {
        match self {
            Node::Item(event) => event.html(),
            Node::Block(tag, content) => tag.html(TagType::Opening) + nodes_html(content.nodes@)
                + tag.html(TagType::Closing) + seq!['\n'],
        }
    }

    /// Tells whether every leaf below this node holds literal text.
    pub fn is_renderable(&self) -> (ok: bool)
        ensures
            ok == self.renderable(),
        decreases self,
    {
        match self {
            Node::Item(event) => event.is_renderable(),
            Node::Block(_, content) => content.is_renderable(),
        }
    }
}

impl View for Content {
    type V = Seq<Node>;

    open spec fn view(&self) -> Seq<Node> {
        self.nodes@
    }
}

impl Content {
    /// Whether every leaf of this content holds literal text.
    pub open spec fn renderable(self) -> bool {
        forall|i: int| 0 <= i < self@.len() ==> (#[trigger] self@[i]).renderable()
    }

    /// The text of this content.
    pub open spec fn html(self) -> Seq<char> {
        nodes_html(self@)
    }

    /// Tells whether every leaf of this content holds literal text.
    pub fn is_renderable(&self) -> (ok: bool)
        ensures
            ok == self.renderable(),
        decreases self,
    {
        let mut i: usize = 0;
        while i < self.nodes.len()
            invariant
                i <= self.nodes.len(),
                forall|j: int| 0 <= j < i ==> (#[trigger] self@[j]).renderable(),
            decreases self.nodes.len() - i,
        {
            if !self.nodes[i].is_renderable() {
                assert(!self@[i as int].renderable());
                return false;
            }
            i += 1;
        }
        true
    }
}

} // verus!
