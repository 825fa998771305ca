//! The walk over a document tree that writes its HTML text.
//!
//! The walk visits every node once, in document order, and only ever appends
//! to the buffer. It starts in neutral mode. For a block it puts the context in
//! opening mode and writes the start tag, goes back to neutral mode for the
//! content, writes the end tag in closing mode and a line feed, and leaves the
//! context neutral again. A leaf is therefore always written in neutral mode.

use vstd::prelude::*;
use vstd::string::StringExecFns;

use crate::balance::{lemma_rendered_tags_balanced, tags_balanced};
use crate::context::{Context, TagType};
use crate::decimal::push_decimal;
use crate::document::{nodes_html, Content, Event, Node, Tag};

verus! {

/// A value that can be written as HTML text under a rendering state `C`.
///
/// `render` takes `self` by mutable reference so that a source which is used up
/// as it is read can implement the trait. The document types of this crate are
/// left as they were.
pub trait IntoHtml<C> {
    /// Whether this value can be rendered under `ctx`.
    spec fn renders(&self, ctx: &C) -> bool;

    /// The text that rendering this value under `ctx` appends.
    spec fn fragment(&self, ctx: &C) -> Seq<char>;

    /// Appends the text of this value to `buf`. What `buf` held before stays as
    /// it was.
    fn render(&mut self, ctx: &mut C, buf: &mut String)
        requires
            old(self).renders(old(ctx)),
        ensures
            final(buf)@ == old(buf)@ + old(self).fragment(old(ctx)),
    ;
}

/// Why a tree was not rendered.
#[derive(Clone, Copy, PartialEq, Eq, Debug)]
pub enum RenderError {
    /// A leaf of the tree holds something other than literal text: an inline
    /// event that has no rendering, or a start or end marker that should have
    /// become part of a block.
    MalformedTree,
}

impl Tag {
    /// Writes the tag of this kind of element in the mode of `context`; a
    /// heading's name is built from its level first.
    fn write_html(&self, context: &Context, buf: &mut String)
        ensures
            final(buf)@ == old(buf)@ + self.html(context.tag_type),
    {
        match self {
            Tag::Paragraph => {
                proof {
                    reveal_strlit("p");
                }
                context.render_tag("p", buf);
            },
            Tag::Header(level) => {
                proof {
                    reveal_strlit("h");
                }
                let mut name = String::from_str("h");
                push_decimal(*level, &mut name);
                context.render_tag(name.as_str(), buf);
            },
            _ => (),
        }
    }
}

impl Event {
    /// Writes literal text. The walk only comes here in neutral mode, and a
    /// tree that can be rendered has nothing but literal text at its leaves.
    fn write_html(&self, context: &Context, buf: &mut String)
        requires
            self.renderable(),
            context.tag_type == TagType::Neutral,
        ensures
            final(buf)@ == old(buf)@ + self.html(),
    {
        match self {
            Event::Text(text) => buf.append(text.as_str()),
            _ => unreached(),
        }
    }
}

impl Node {
    /// Writes this node and everything below it.
    fn write_html(&self, context: &mut Context, buf: &mut String)
        requires
            self.renderable(),
            old(context).tag_type == TagType::Neutral,
        ensures
            final(buf)@ == old(buf)@ + self.html(),
            final(context).tag_type == TagType::Neutral,
        decreases self,
    {
        match self {
            Node::Block(tag, content) => {
                context.tag_type = TagType::Opening;
                tag.write_html(context, buf);

                context.tag_type = TagType::Neutral;
                content.write_html(context, buf);

                context.tag_type = TagType::Closing;
                tag.write_html(context, buf);
                proof {
                    reveal_strlit("\n");
                }
                buf.append("\n");
                context.tag_type = TagType::Neutral;
            },
            Node::Item(event) => event.write_html(context, buf),
        }
    }
}

impl Content {
    /// Writes the nodes one after the other.
    fn write_html(&self, context: &mut Context, buf: &mut String)
        requires
            self.renderable(),
            old(context).tag_type == TagType::Neutral,
        ensures
            final(buf)@ == old(buf)@ + self.html(),
            final(context).tag_type == TagType::Neutral,
        decreases self,
    {
        let mut i: usize = 0;
        while i < self.nodes.len()
            invariant
                i <= self.nodes.len(),
                self.renderable(),
                context.tag_type == TagType::Neutral,
                buf@ == old(buf)@ + nodes_html(self@.take(i as int)),
            decreases self.nodes.len() - i,
        {
            self.nodes[i].write_html(context, buf);
            assert(self@.take(i + 1).drop_last() =~= self@.take(i as int));
            i += 1;
        }
        assert(self@.take(i as int) =~= self@);
    }
}

impl IntoHtml<Context> for Tag {
    open spec fn renders(&self, ctx: &Context) -> bool {
        true
    }

    open spec fn fragment(&self, ctx: &Context) -> Seq<char> {
        self.html(ctx.tag_type)
    }

    /// Writes the start or the end tag of this kind of element, according to
    /// the mode of `context`; nothing for a kind that has no name.
    fn render(&mut self, context: &mut Context, buf: &mut String)
        ensures
            *final(self) == *old(self),
            *final(context) == *old(context),
    {
        self.write_html(context, buf);
    }
}

impl IntoHtml<Context> for Event {
    open spec fn renders(&self, ctx: &Context) -> bool {
        self.renderable() && ctx.tag_type == TagType::Neutral
    }

    open spec fn fragment(&self, ctx: &Context) -> Seq<char> {
        self.html()
    }

    /// Writes literal text as it is. No other event can be rendered, and none
    /// while a tag is being written.
    fn render(&mut self, context: &mut Context, buf: &mut String)
        ensures
            *final(self) == *old(self),
            *final(context) == *old(context),
    {
        self.write_html(context, buf);
    }
}

impl IntoHtml<Context> for Node {
    open spec fn renders(&self, ctx: &Context) -> bool {
        self.renderable() && ctx.tag_type == TagType::Neutral
    }

    open spec fn fragment(&self, ctx: &Context) -> Seq<char> {
        self.html()
    }

    /// Writes a block as its start tag, its content, its end tag and a line
    /// feed, and a leaf as the text of its event. The context is neutral again
    /// when the node has been written.
    fn render(&mut self, context: &mut Context, buf: &mut String)
        ensures
            *final(self) == *old(self),
            final(context).tag_type == TagType::Neutral,
    {
        self.write_html(context, buf);
    }
}

impl IntoHtml<Context> for Content {
    open spec fn renders(&self, ctx: &Context) -> bool {
        self.renderable() && ctx.tag_type == TagType::Neutral
    }

    open spec fn fragment(&self, ctx: &Context) -> Seq<char> {
        self.html()
    }

    /// Writes every node, in order. The context is neutral again when the last
    /// one has been written.
    fn render(&mut self, context: &mut Context, buf: &mut String)
        ensures
            *final(self) == *old(self),
            final(context).tag_type == TagType::Neutral,
    {
        self.write_html(context, buf);
    }
}

/// Appends the HTML text of `content` to `buf`, walking the tree once with a
/// fresh context. The tree is left as it was. If no leaf text holds a `<`, the
/// tags of the text that was appended are balanced.
///
/// A tree with a leaf that is not literal text cannot be rendered; see
/// [`try_into_html`] for a tree that has not been examined.
pub fn into_html(content: &mut Content, buf: &mut String)
    requires
        old(content).renderable(),
    ensures
        final(buf)@ == old(buf)@ + old(content).html(),
        *final(content) == *old(content),
        old(content).markup_free() ==> tags_balanced(old(content).html()),
{
    let mut context = Context::new();
    content.render(&mut context, buf);
    proof {
        if content.markup_free() {
            lemma_rendered_tags_balanced(*content);
        }
    }
}

/// Renders `content` as [`into_html`] does if every leaf of the tree is
/// literal text. Otherwise nothing is written and the error says that the tree
/// is malformed.
pub fn try_into_html(content: &mut Content, buf: &mut String) -> (res: Result<(), RenderError>)
    ensures
        res is Ok <==> old(content).renderable(),
        res is Ok ==> final(buf)@ == old(buf)@ + old(content).html(),
        res is Err ==> final(buf)@ == old(buf)@,
        *final(content) == *old(content),
{
    if content.is_renderable() {
        into_html(content, buf);
        Ok(())
    } else {
        Err(RenderError::MalformedTree)
    }
}

} // verus!
