//! The state that one rendering pass carries: whether the next tag to be
//! written opens or closes its block.

use vstd::prelude::*;
use vstd::string::StringExecFns;

verus! {

/// What the renderer is writing at the moment.
#[derive(Clone, Copy, PartialEq, Eq, Debug, Structural)]
pub enum TagType {
    /// The start tag of a block.
    Opening,
    /// The end tag of a block.
    Closing,
    /// No tag: inline content, or nothing yet.
    Neutral,
}

/// The state of one rendering pass.
#[derive(Debug)]
pub struct Context {
    /// Which side of a block is being written.
    pub tag_type: TagType,
}

/// The text of a tag called `name`, written in mode `mode`: `</name>` when
/// closing, `<name>` in every other mode.
pub open spec fn tag_markup(mode: TagType, name: Seq<char>) -> Seq<char> {
    match mode {
        TagType::Closing => seq!['<', '/'] + name + seq!['>'],
        _ => seq!['<'] + name + seq!['>'],
    }
}

impl Context {
    /// A context in neutral mode, as every rendering pass starts with.
    pub fn new() -> (ctx: Context)
        ensures
            ctx.tag_type == TagType::Neutral,
    {
        Context { tag_type: TagType::Neutral }
    }

    /// Appends the tag called `tag` to `buf`, as a start or an end tag according
    /// to the current mode. The name is written as it is given.
    pub fn render_tag(&self, tag: &str, buf: &mut String)
        ensures
            final(buf)@ == old(buf)@ + tag_markup(self.tag_type, tag@),
    {
        proof {
            reveal_strlit("<");
            reveal_strlit("</");
            reveal_strlit(">");
        }
        match self.tag_type {
            TagType::Closing => buf.append("</"),
            _ => buf.append("<"),
        }
        buf.append(tag);
        buf.append(">");
    }
}

} // verus!
