//! The [`ViewSplit`] convenience layer: partition a terminal into two
//! views along one axis at its center.

use vstd::prelude::*;

use crate::style::Style;
use crate::terminal::Cell;
use crate::terminal::Metadata;
use crate::terminal::Rectangle;
use crate::terminal::Rescalable;
use crate::terminal::Terminal;
use crate::terminal::TerminalConst;
use crate::terminal::TerminalMut;
use crate::terminal::ViewConst;
use crate::terminal::ViewMut;
use crate::widgets::Direction;

verus! {

/// Splits a terminal into halves along either axis. Read-only splits
/// borrow the terminal; mutable splits consume the splitter and hand the
/// terminal back through [`ViewMut::into_inner`].
pub struct ViewSplit<T> {
    child: T,
}

impl<T> ViewSplit<T> {
    /// The terminal being split.
    pub closed spec fn spec_child(&self) -> T {
        self.child
    }

    /// Make a new [`ViewSplit`] around the terminal to split.
    pub fn new(child: T) -> (r: Self)
        ensures
            r.spec_child() == child,
    {
        Self { child }
    }

    /// Convert the [`ViewSplit`] back into the terminal it was created
    /// with.
    pub fn into_inner(self) -> (r: T)
        ensures
            r == self.spec_child(),
    {
        self.child
    }

    /// Get a reference to the terminal inside the [`ViewSplit`].
    pub fn inner(&self) -> (r: &T)
        ensures
            r == &self.spec_child(),
    {
        &self.child
    }
}

impl<T: TerminalConst> ViewSplit<T> {
    /// The left half: from the left edge to the centre column.
    pub open spec fn spec_left_rect(&self) -> Rectangle {
        Rectangle {
            left: 0,
            top: 0,
            right: (self.spec_child().spec_width() / 2) as usize,
            bottom: self.spec_child().spec_height() as usize,
        }
    }

    /// The right half: from the centre column to the right edge.
    pub open spec fn spec_right_rect(&self) -> Rectangle {
        Rectangle {
            left: (self.spec_child().spec_width() / 2) as usize,
            top: 0,
            right: self.spec_child().spec_width() as usize,
            bottom: self.spec_child().spec_height() as usize,
        }
    }

    /// The top half: from the top edge to the centre row.
    pub open spec fn spec_top_rect(&self) -> Rectangle {
        Rectangle {
            left: 0,
            top: 0,
            right: self.spec_child().spec_width() as usize,
            bottom: (self.spec_child().spec_height() / 2) as usize,
        }
    }

    /// The bottom half: from the centre row to the bottom edge.
    pub open spec fn spec_bottom_rect(&self) -> Rectangle {
        Rectangle {
            left: 0,
            top: (self.spec_child().spec_height() / 2) as usize,
            right: self.spec_child().spec_width() as usize,
            bottom: self.spec_child().spec_height() as usize,
        }
    }

    /// The split rectangle for the given [`Direction`].
    pub open spec fn spec_split_rect(&self, direction: Direction) -> Rectangle {
        match direction {
            Direction::Down => self.spec_bottom_rect(),
            Direction::Up => self.spec_top_rect(),
            Direction::Left => self.spec_left_rect(),
            Direction::Right => self.spec_right_rect(),
        }
    }

    /// The rectangle that `split(direction)` views, computed on the
    /// running terminal.
    fn split_rect(&self, direction: Direction) -> (r: Rectangle)
        requires
            self.spec_child().inv(),
        ensures
            r == self.spec_split_rect(direction),
            r.wf(),
            r.right <= self.spec_child().spec_width(),
            r.bottom <= self.spec_child().spec_height(),
    {
        proof {
            self.child.lemma_model();
        }
        let bounds = self.child.bounding_box();
        let center_x = bounds.center_x();
        let center_y = bounds.center_y();
        match direction {
            Direction::Down => Rectangle {
                left: 0,
                top: center_y,
                right: bounds.right,
                bottom: bounds.bottom,
            },
            Direction::Up => Rectangle { left: 0, top: 0, right: bounds.right, bottom: center_y },
            Direction::Left => Rectangle { left: 0, top: 0, right: center_x, bottom: bounds.bottom },
            Direction::Right => Rectangle {
                left: center_x,
                top: 0,
                right: bounds.right,
                bottom: bounds.bottom,
            },
        }
    }

    /// Select a read-only split based on the given [`Direction`].
    pub fn split(&self, direction: Direction) -> (r: ViewConst<'_, T>)
        requires
            self.spec_child().inv(),
        ensures
            r.inv(),
            r.spec_parent() == self.spec_child(),
            r.spec_rect() == self.spec_split_rect(direction),
    {
        let rect = self.split_rect(direction);
        match ViewConst::new(&self.child, rect) {
            Some(v) => v,
            None => {
                proof {
                    assert(false);
                }
                vstd::pervasive::unreached()
            },
        }
    }

    /// Split the terminal into left/right halves and view the left one.
    pub fn split_left(&self) -> (r: ViewConst<'_, T>)
        requires
            self.spec_child().inv(),
        ensures
            r.inv(),
            r.spec_parent() == self.spec_child(),
            r.spec_rect() == self.spec_left_rect(),
    {
        self.split(Direction::Left)
    }

    /// Split the terminal into left/right halves and view the right one.
    pub fn split_right(&self) -> (r: ViewConst<'_, T>)
        requires
            self.spec_child().inv(),
        ensures
            r.inv(),
            r.spec_parent() == self.spec_child(),
            r.spec_rect() == self.spec_right_rect(),
    {
        self.split(Direction::Right)
    }

    /// Split the terminal into top/bottom halves and view the top one.
    pub fn split_top(&self) -> (r: ViewConst<'_, T>)
        requires
            self.spec_child().inv(),
        ensures
            r.inv(),
            r.spec_parent() == self.spec_child(),
            r.spec_rect() == self.spec_top_rect(),
    {
        self.split(Direction::Up)
    }

    /// Split the terminal into top/bottom halves and view the bottom one.
    pub fn split_bottom(&self) -> (r: ViewConst<'_, T>)
        requires
            self.spec_child().inv(),
        ensures
            r.inv(),
            r.spec_parent() == self.spec_child(),
            r.spec_rect() == self.spec_bottom_rect(),
    {
        self.split(Direction::Down)
    }
}

impl<T: Terminal> ViewSplit<T> {
    /// Select a mutable split based on the given [`Direction`], consuming
    /// the splitter; get the terminal back through
    /// [`ViewMut::into_inner`].
    pub fn split_mut(self, direction: Direction) -> (r: ViewMut<T>)
        requires
            self.spec_child().inv(),
        ensures
            r.inv(),
            r.spec_parent() == self.spec_child(),
            r.spec_rect() == self.spec_split_rect(direction),
    {
        let rect = self.split_rect(direction);
        match ViewMut::new(self.child, rect) {
            Ok(v) => v,
            Err(_) => {
                proof {
                    assert(false);
                }
                vstd::pervasive::unreached()
            },
        }
    }

    /// Split the terminal into left/right halves and mutably view the
    /// left one.
    pub fn split_left_mut(self) -> (r: ViewMut<T>)
        requires
            self.spec_child().inv(),
        ensures
            r.inv(),
            r.spec_parent() == self.spec_child(),
            r.spec_rect() == self.spec_left_rect(),
    {
        self.split_mut(Direction::Left)
    }

    /// Split the terminal into left/right halves and mutably view the
    /// right one.
    pub fn split_right_mut(self) -> (r: ViewMut<T>)
        requires
            self.spec_child().inv(),
        ensures
            r.inv(),
            r.spec_parent() == self.spec_child(),
            r.spec_rect() == self.spec_right_rect(),
    {
        self.split_mut(Direction::Right)
    }

    /// Split the terminal into top/bottom halves and mutably view the top
    /// one.
    pub fn split_top_mut(self) -> (r: ViewMut<T>)
        requires
            self.spec_child().inv(),
        ensures
            r.inv(),
            r.spec_parent() == self.spec_child(),
            r.spec_rect() == self.spec_top_rect(),
    {
        self.split_mut(Direction::Up)
    }

    /// Split the terminal into top/bottom halves and mutably view the
    /// bottom one.
    pub fn split_bottom_mut(self) -> (r: ViewMut<T>)
        requires
            self.spec_child().inv(),
        ensures
            r.inv(),
            r.spec_parent() == self.spec_child(),
            r.spec_rect() == self.spec_bottom_rect(),
    {
        self.split_mut(Direction::Down)
    }
}

impl<T: Metadata> Metadata for ViewSplit<T> {
    open spec fn spec_width(&self) -> nat {
        self.spec_child().spec_width()
    }

    open spec fn spec_height(&self) -> nat {
        self.spec_child().spec_height()
    }

    open spec fn spec_default_style(&self) -> Style {
        self.spec_child().spec_default_style()
    }

    open spec fn spec_cells(&self) -> Seq<Cell> {
        self.spec_child().spec_cells()
    }

    open spec fn inv(&self) -> bool {
        self.spec_child().inv()
    }

    proof fn lemma_model(&self) {
        self.child.lemma_model();
    }

    open spec fn spec_frame(&self, next: Self) -> bool {
        self.spec_child().spec_frame(next.spec_child())
    }

    proof fn lemma_frame_refl(&self) {
        self.child.lemma_frame_refl();
    }

    proof fn lemma_frame_trans(&self, mid: Self, next: Self) {
        self.child.lemma_frame_trans(mid.spec_child(), next.spec_child());
    }

    proof fn lemma_frame_model(&self, next: Self) {
        self.spec_child().lemma_frame_model(next.spec_child());
    }

    fn dimensions(&self) -> (r: (usize, usize)) {
        let r = self.child.dimensions();
        assert(r.0 == self.spec_width());
        assert(r.1 == self.spec_height());
        r
    }

    fn default_style(&self) -> (r: Style) {
        self.child.default_style()
    }
}

impl<T: TerminalConst> TerminalConst for ViewSplit<T> {
    fn cells(&self) -> (r: Vec<Cell>) {
        self.child.cells()
    }

    fn cell(&self, x: usize, y: usize) -> (r: Option<&Cell>) {
        self.child.cell(x, y)
    }
}

impl<T: TerminalMut> TerminalMut for ViewSplit<T> {
    fn set_cell(&mut self, x: usize, y: usize, cell: Cell) -> (ok: bool) {
        self.child.set_cell(x, y, cell)
    }
}

impl<T: Rescalable> Rescalable for ViewSplit<T> {
    open spec fn spec_can_rescale(&self, new_size: (usize, usize)) -> bool {
        self.spec_child().spec_can_rescale(new_size)
    }

    open spec fn spec_rescale_hint(&self, new_size: (usize, usize)) -> (usize, usize) {
        self.spec_child().spec_rescale_hint(new_size)
    }

    open spec fn spec_rescale_frame(&self, next: Self) -> bool {
        self.spec_child().spec_rescale_frame(next.spec_child())
    }

    fn rescale(&mut self, new_size: (usize, usize)) -> (r: core::result::Result<
        (),
        (usize, usize),
    >) {
        self.child.rescale(new_size)
    }
}

} // verus!
