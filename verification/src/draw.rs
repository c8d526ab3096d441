//! The seam between a terminal and whatever renders it.
//!
//! The crate does not perform I/O itself: a [`Renderer`] is anything that
//! can walk a terminal's cells in row-major order and emit them somewhere.
//! Renderers are consumed, not implemented, by the core; the only renderer
//! here is [`DummyTarget`], which does nothing.

use vstd::prelude::*;

use crate::errors::Error;
use crate::terminal::Cell;

verus! {

/// Renders a terminal's contents to some output.
///
/// An implementor is handed the terminal's dimensions and its cells in
/// row-major order, and emits bytes or pixels; the core only ever calls
/// this through [`crate::terminal::TerminalConst::display`].
pub trait Renderer: Sized {
    /// Render a terminal of the given (width, height) whose cells are
    /// given in row-major order, one row of `width` cells after another.
    ///
    /// An implementor reports its own failures through the returned
    /// [`Error`], most often [`Error::Io`] or [`Error::RenderError`].
    fn render(&mut self, dimensions: (usize, usize), cells: &Vec<Cell>) -> (r: Result<(), Error>)
        requires
            cells@.len() == dimensions.0 * dimensions.1,
    ;
}

/// A render target that does nothing at all.
pub struct DummyTarget;

impl Renderer for DummyTarget {
    fn render(&mut self, _dimensions: (usize, usize), _cells: &Vec<Cell>) -> (r: Result<
        (),
        Error,
    >) {
        Ok(())
    }
}

} // verus!
