//! Renders a tree of markup nodes as a fragment of HTML text.
//!
//! A document is a [`Content`]: an ordered sequence of [`Node`]s, each either a
//! block with a [`Tag`] and nested content or a leaf holding one inline
//! [`Event`]. [`into_html`] walks such a tree once, in document order, and
//! appends the start tag, the content and the end tag of every block to a
//! buffer that the caller owns. Text is written as it is, without escaping, and
//! nothing is written around the fragment.
//!
//! Only literal text may stand at a leaf. [`into_html`] is for trees that are
//! known to be so; [`try_into_html`] examines the tree first.
//!
//! What the walk appends is defined in [`document`]. The module [`laws`] proves
//! what follows from that definition for every tree, and [`balance`] proves that
//! the tags of a rendered fragment open and close in properly nested pairs.

pub mod balance;
pub mod context;
pub mod decimal;
pub mod document;
pub mod laws;
pub mod render;

pub use context::{Context, TagType};
pub use document::{Alignment, Content, Event, Node, Tag};
pub use render::{into_html, try_into_html, IntoHtml, RenderError};
