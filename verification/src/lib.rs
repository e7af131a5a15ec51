//! Markdown (CommonMark) renderer for fixed-width ANSI terminals.
//!
//! A document is a stream of semantic events. The stream is built into a tree
//! of boxes, the tree is laid out under a maximum width, and the laid-out tree
//! is written out row by row as styled runs of text.

pub mod ansi_renderer;
pub mod dombox;
pub mod event;
pub mod highlight;
pub mod invariants;
pub mod layout;
pub mod markdown;
pub mod render;
pub mod style;
pub mod text;
pub mod xy;

pub use crate::ansi_renderer::render_ansi;
use vstd::prelude::*;

verus! {

/// The width of the terminal where none can be found out.
pub const DEFAULT_COLS: u16 = 80;

/// How the rendered text is written out.
#[derive(Debug, Copy, Clone, PartialEq, Eq, Structural)]
pub enum OutputKind {
    /// With the escape codes that show colours and attributes.
    Color,
    /// Without any escape code: the spacing and the border glyphs only.
    Plain,
}

} // verus!
