//! Terminals: grids of [`Cell`]s addressed through [`Rectangle`] geometry.
//!
//! A terminal is anything that implements [`Metadata`] (its dimensions and
//! default style, together with the specification-level model of its cells),
//! [`TerminalConst`] (read access) and [`TerminalMut`] (write access). The
//! marker trait [`Terminal`] is implemented automatically for any type with
//! all three.
//!
//! The model of a terminal is a row-major sequence of cells of length
//! `width * height`; the cell at `(x, y)` sits at linear index
//! `y * width + x`.

pub mod const_size;
pub mod const_size_ref;
pub mod constant_boxed;
pub mod debug;
pub mod dummy;
pub mod interactive;
pub mod max_size;
pub mod rectangle;
pub mod rescale;
pub mod view;
pub mod view_mut;
pub mod view_split;

use vstd::prelude::*;

use crate::style::Style;

pub use const_size::ConstantSize;
pub use const_size_ref::ConstantSizeRef;
pub use constant_boxed::ConstantBoxed;
pub use interactive::KeyState;
pub use interactive::MouseButton;
pub use interactive::UpdateInfo;
pub use interactive::UpdateResult;
pub use max_size::MaxSize;
pub use rectangle::Rectangle;
pub use rescale::Rescale;
pub use view::ViewConst;
pub use view_mut::ViewMut;
pub use view_split::ViewSplit;

verus! {

/// One character position in the terminal: a glyph and its styling.
#[derive(Copy, Clone, Debug, Hash, Eq, PartialEq)]
pub struct Cell {
    /// The character inside the cell.
    pub character: char,
    /// The character's styling.
    pub style: Style,
}

impl Cell {
    /// Create a new cell with the given character and an unset style.
    #[must_use]
    pub fn new(character: char) -> (r: Self)
        ensures
            r.character == character,
            r.style.is_unset(),
    {
        Self { character, style: Style::new() }
    }
}

impl Default for Cell {
    /// A blank space with an unset style.
    fn default() -> (r: Self)
        ensures
            r.character == ' ',
            r.style.is_unset(),
    {
        Self::new(' ')
    }
}

/// Access to a terminal's dimensions, default style, and its
/// specification-level model.
///
/// The model is: a width, a height, a default style, and a row-major
/// sequence of cells. The invariant [`Metadata::inv`] ties them together;
/// [`Metadata::lemma_model`] is the proof obligation that the model is
/// consistent, which every implementor discharges.
pub trait Metadata: Sized {
    /// The terminal's width, in cells.
    spec fn spec_width(&self) -> nat;

    /// The terminal's height, in cells.
    spec fn spec_height(&self) -> nat;

    /// The terminal's default style.
    spec fn spec_default_style(&self) -> Style;

    /// The terminal's cells in row-major order.
    spec fn spec_cells(&self) -> Seq<Cell>;

    /// The implementor's internal invariant. Constructors establish it and
    /// every method of these traits preserves it.
    spec fn inv(&self) -> bool;

    /// The model is consistent: there are exactly `width * height` cells,
    /// and the dimensions fit the machine.
    proof fn lemma_model(&self)
        requires
            self.inv(),
        ensures
            self.spec_cells().len() == self.spec_width() * self.spec_height(),
            self.spec_width() * self.spec_height() <= usize::MAX,
            self.spec_width() <= usize::MAX,
            self.spec_height() <= usize::MAX,
    ;

    /// What writing cells leaves alone: everything about the terminal
    /// except the cells themselves. For a plain grid that is its
    /// dimensions and default style; for a view it also says the window
    /// rectangle is unchanged and the parent keeps its own frame, so the
    /// relation survives nesting.
    spec fn spec_frame(&self, next: Self) -> bool;

    /// The frame relation holds from a terminal to itself.
    proof fn lemma_frame_refl(&self)
        ensures
            self.spec_frame(*self),
    ;

    /// The frame relation composes across successive writes.
    proof fn lemma_frame_trans(&self, mid: Self, next: Self)
        requires
            self.spec_frame(mid),
            mid.spec_frame(next),
        ensures
            self.spec_frame(next),
    ;

    /// The frame relation preserves the dimensions and the default style.
    proof fn lemma_frame_model(&self, next: Self)
        requires
            self.spec_frame(next),
        ensures
            next.spec_width() == self.spec_width(),
            next.spec_height() == self.spec_height(),
            next.spec_default_style() == self.spec_default_style(),
    ;

    /// Returns the terminal's dimensions as (width, height).
    fn dimensions(&self) -> (r: (usize, usize))
        requires
            self.inv(),
        ensures
            r.0 == self.spec_width(),
            r.1 == self.spec_height(),
    ;

    /// Returns the terminal's default style.
    fn default_style(&self) -> (r: Style)
        requires
            self.inv(),
        ensures
            r == self.spec_default_style(),
    ;

    /// Returns the terminal's width.
    fn width(&self) -> (r: usize)
        requires
            self.inv(),
        ensures
            r == self.spec_width(),
    {
        let (w, _) = self.dimensions();
        w
    }

    /// Returns the terminal's height.
    fn height(&self) -> (r: usize)
        requires
            self.inv(),
        ensures
            r == self.spec_height(),
    {
        let (_, h) = self.dimensions();
        h
    }

    /// A [`Rectangle`] with the terminal's width and height, anchored at
    /// the origin.
    fn bounding_box(&self) -> (r: Rectangle)
        requires
            self.inv(),
        ensures
            r == (Rectangle {
                left: 0,
                top: 0,
                right: self.spec_width() as usize,
                bottom: self.spec_height() as usize,
            }),
            r.wf(),
    {
        let (w, h) = self.dimensions();
        let r = Rectangle::of_size((w, h));
        assert(r.right == self.spec_width());
        r
    }
}

/// Read access to a terminal's cells.
pub trait TerminalConst: Metadata {
    /// A copy of the terminal's cells, in row-major order.
    fn cells(&self) -> (r: Vec<Cell>)
        requires
            self.inv(),
        ensures
            r@ == self.spec_cells(),
    ;

    /// The cell at `(x, y)`, or `None` when the coordinate is out of
    /// bounds.
    fn cell(&self, x: usize, y: usize) -> (r: Option<&Cell>)
        requires
            self.inv(),
        ensures
            x < self.spec_width() && y < self.spec_height() ==> (r matches Some(c) && *c
                == self.spec_cells()[y * self.spec_width() + x]),
            !(x < self.spec_width() && y < self.spec_height()) ==> r is None,
    ;

    /// A read-only [`ViewConst`] of this terminal over the given rectangle,
    /// or `None` when the rectangle reaches outside the terminal.
    fn view<'s>(&'s self, rect: Rectangle) -> (r: Option<ViewConst<'s, Self>>)
        requires
            self.inv(),
            rect.wf(),
        ensures
            r matches Some(v) ==> {
                &&& rect.right <= self.spec_width()
                &&& rect.bottom <= self.spec_height()
                &&& v.inv()
                &&& v.spec_rect() == rect
                &&& v.spec_parent() == *self
            },
            r is None ==> !(rect.right <= self.spec_width() && rect.bottom
                <= self.spec_height()),
    {
        ViewConst::new(self, rect)
    }

    /// Hand this terminal's dimensions and cells to a
    /// [`crate::draw::Renderer`].
    fn display<R: crate::draw::Renderer>(&self, renderer: &mut R) -> (r: Result<
        (),
        crate::errors::Error,
    >)
        requires
            self.inv(),
    {
        proof {
            self.lemma_model();
        }
        let dimensions = self.dimensions();
        let cells = self.cells();
        renderer.render(dimensions, &cells)
    }
}

/// Write access to a terminal's cells.
pub trait TerminalMut: Metadata {
    /// Replace the cell at `(x, y)`. Returns whether the coordinate was in
    /// bounds; out of bounds, the terminal is unchanged.
    fn set_cell(&mut self, x: usize, y: usize, cell: Cell) -> (ok: bool)
        requires
            old(self).inv(),
        ensures
            final(self).inv(),
            old(self).spec_frame(*final(self)),
            final(self).spec_width() == old(self).spec_width(),
            final(self).spec_height() == old(self).spec_height(),
            final(self).spec_default_style() == old(self).spec_default_style(),
            ok <==> (x < old(self).spec_width() && y < old(self).spec_height()),
            ok ==> final(self).spec_cells() == old(self).spec_cells().update(
                y * old(self).spec_width() + x,
                cell,
            ),
            !ok ==> final(self).spec_cells() == old(self).spec_cells(),
    ;

    /// Consume this terminal and return a mutable [`ViewMut`] over the
    /// given rectangle; out of bounds, the terminal comes back unchanged as
    /// the error value.
    fn view_mut(self, rect: Rectangle) -> (r: core::result::Result<ViewMut<Self>, Self>)
        requires
            self.inv(),
            rect.wf(),
        ensures
            r matches Ok(v) ==> {
                &&& rect.right <= self.spec_width()
                &&& rect.bottom <= self.spec_height()
                &&& v.inv()
                &&& v.spec_rect() == rect
                &&& v.spec_parent() == self
            },
            r matches Err(t) ==> t == self && !(rect.right <= self.spec_width() && rect.bottom
                <= self.spec_height()),
    {
        ViewMut::new(self, rect)
    }
}

/// A marker trait for types with both [`TerminalConst`] and
/// [`TerminalMut`]; implemented automatically.
pub trait Terminal: TerminalConst + TerminalMut {

}

impl<T: TerminalConst + TerminalMut> Terminal for T {

}

/// A terminal whose logical size can change at runtime, up to a capacity.
pub trait Rescalable: Metadata {
    /// Whether a rescale to `new_size` succeeds on this terminal.
    spec fn spec_can_rescale(&self, new_size: (usize, usize)) -> bool;

    /// The size hint handed back when a rescale to `new_size` fails.
    spec fn spec_rescale_hint(&self, new_size: (usize, usize)) -> (usize, usize);

    /// What a successful rescale leaves alone: for a capped grid, the
    /// whole backing store and the default style, so that content hidden
    /// by shrinking reappears on regrowing.
    spec fn spec_rescale_frame(&self, next: Self) -> bool;

    /// Try to rescale the terminal to a new (width, height).
    ///
    /// Rescaling does not reflow or clear the existing content: cells in
    /// the overlap of the old and new logical windows keep their content,
    /// cells outside the new window become invisible but are not cleared,
    /// and cells inside the new window may hold stale content from an
    /// earlier, different size — redraw after a successful rescale. On
    /// failure the terminal is unchanged and the error holds a size
    /// *hint* for a maximum area; the terminal can always be rescaled to
    /// a size within the hint.
    fn rescale(&mut self, new_size: (usize, usize)) -> (r: core::result::Result<
        (),
        (usize, usize),
    >)
        requires
            old(self).inv(),
        ensures
            final(self).inv(),
            r is Ok <==> old(self).spec_can_rescale(new_size),
            r is Ok ==> final(self).spec_width() == new_size.0 && final(self).spec_height()
                == new_size.1,
            r is Ok ==> old(self).spec_rescale_frame(*final(self)),
            r is Ok ==> forall|x: int, y: int|
                0 <= x < old(self).spec_width() && x < new_size.0 && 0 <= y < old(
                    self,
                ).spec_height() && y < new_size.1 ==> #[trigger] final(self).spec_cells()[y
                    * new_size.0 + x] == old(self).spec_cells()[y * old(self).spec_width() + x],
            r matches Err(hint) ==> hint == old(self).spec_rescale_hint(new_size) && *final(self)
                == *old(self),
    ;
}

} // verus!
