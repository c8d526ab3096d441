//! A character-grid abstraction and a composable layout engine.
//!
//! The crate is built around four ideas:
//!
//! - [`terminal::Rectangle`]: a normalized, axis-aligned integer rectangle
//!   used for all sizing and positioning.
//! - Grids of [`terminal::Cell`]s (a glyph plus a [`style::Style`]), exposed
//!   through the [`terminal::Metadata`], [`terminal::TerminalConst`] and
//!   [`terminal::TerminalMut`] traits.
//! - Windowed views ([`terminal::ViewConst`], [`terminal::ViewMut`]) that make
//!   a sub-rectangle of a grid behave like its own grid.
//! - Layout widgets ([`widgets::builtins`]) that negotiate bounding boxes
//!   inside a parent area and draw themselves through views.
//!
//! Every public operation carries a contract; the layout negotiation and the
//! view windowing are specified exactly over sequences of cells.

pub mod draw;
pub mod errors;
pub mod style;
pub mod terminal;
pub mod widgets;

use vstd::prelude::*;

pub use errors::Error;

verus! {

/// The result type used throughout the crate.
pub type Result<T> = core::result::Result<T, Error>;

} // verus!
