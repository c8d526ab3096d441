//! Errors that the grid and layout operations can produce.
//!
//! Geometry functions that would produce an invalid state (an underflow, an
//! inverted rectangle) return `None` instead; the errors here are for grid
//! access and layout negotiation, and are propagated upward so that a caller
//! can recover, for example by growing the terminal after a
//! [`Error::RequestRescale`].

use vstd::prelude::*;

verus! {

/// The errors that may occur while drawing to or laying out a terminal.
#[derive(Copy, Clone, Debug, PartialEq, Eq)]
#[non_exhaustive]
pub enum Error {
    /// A generic I/O failure, surfaced from an external renderer.
    Io,
    /// An external renderer failed to render the screen.
    RenderError,
    /// An out-of-bounds index into the flat character buffer. Holds the
    /// linear index, not x,y coordinates.
    OutOfBoundsIndex(usize),
    /// An out-of-bounds access by coordinate. Either coordinate may be
    /// unknown.
    OutOfBoundsCoordinate {
        /// The out-of-bounds x coordinate, when one can be provided.
        x: Option<usize>,
        /// The out-of-bounds y coordinate, when one can be provided.
        y: Option<usize>,
    },
    /// A layout computation ran out of space; the held size is a *hint* for a
    /// terminal size that may fit, not necessarily an exact minimum.
    RequestRescale {
        /// The requested new width.
        new_width: usize,
        /// The requested new height.
        new_height: usize,
    },
    /// Explicitly unimplemented behaviour, distinct from a panic, so that
    /// callers can catch it.
    Todo,
    /// An escape hatch for failures outside this crate's own vocabulary,
    /// for use by renderers and widgets defined elsewhere; carries a short
    /// description of what went wrong.
    Generic(&'static str),
}

impl Error {
    /// An [`Error::OutOfBoundsCoordinate`] with both coordinates unknown.
    #[must_use]
    pub fn oob() -> (r: Self)
        ensures
            r == (Error::OutOfBoundsCoordinate { x: None, y: None }),
    {
        Self::OutOfBoundsCoordinate { x: None, y: None }
    }

    /// An [`Error::OutOfBoundsCoordinate`] with the given coordinates.
    #[must_use]
    pub fn oob_with(coordinate: (usize, usize)) -> (r: Self)
        ensures
            r == (Error::OutOfBoundsCoordinate {
                x: Some(coordinate.0),
                y: Some(coordinate.1),
            }),
    {
        let (x, y) = coordinate;
        Self::OutOfBoundsCoordinate { x: Some(x), y: Some(y) }
    }

    /// An [`Error::OutOfBoundsIndex`] with the given linear index.
    #[must_use]
    pub fn oobi(index: usize) -> (r: Self)
        ensures
            r == Error::OutOfBoundsIndex(index),
    {
        Self::OutOfBoundsIndex(index)
    }

    /// An [`Error::RequestRescale`] hinting at the given width and height.
    #[must_use]
    pub fn rescale(size: (usize, usize)) -> (r: Self)
        ensures
            r == (Error::RequestRescale { new_width: size.0, new_height: size.1 }),
    {
        let (x, y) = size;
        Self::RequestRescale { new_width: x, new_height: y }
    }
}

} // verus!
