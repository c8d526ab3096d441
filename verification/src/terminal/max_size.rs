//! The capped, rescalable terminal [`MaxSize`].

use vstd::prelude::*;

use crate::style::Style;
use crate::terminal::view::lemma_window_cell;
use crate::terminal::view::lemma_window_update;
use crate::terminal::view::window_of;
use crate::terminal::Cell;
use crate::terminal::Metadata;
use crate::terminal::Rectangle;
use crate::terminal::Rescalable;
use crate::terminal::TerminalConst;
use crate::terminal::TerminalMut;

verus! {

/// A rescalable terminal that allocates its maximum capacity once and then
/// exposes a logical size no larger than that capacity.
///
/// Rescaling does not reflow or clear the content: cells outside the new
/// logical bounds become invisible but are not cleared, and cells inside
/// may hold stale content from a previous size. Redraw after a rescale.
pub struct MaxSize<const MAX_WIDTH: usize, const MAX_HEIGHT: usize> {
    /// The full `MAX_WIDTH * MAX_HEIGHT` storage, in row-major order of
    /// rows of `MAX_WIDTH` cells.
    cells: Vec<Cell>,
    /// The terminal's default style.
    default_style: Style,
    /// The logical (width, height), at most the maximum.
    dimensions: (usize, usize),
}

impl<const MAX_WIDTH: usize, const MAX_HEIGHT: usize> MaxSize<MAX_WIDTH, MAX_HEIGHT> {
    /// The window of the storage that the logical size exposes.
    pub closed spec fn spec_window(&self) -> Rectangle {
        Rectangle { left: 0, top: 0, right: self.dimensions.0, bottom: self.dimensions.1 }
    }

    /// Creates a new [`MaxSize`] at its maximum size, full of blank cells.
    #[must_use]
    pub fn new() -> (r: Self)
        requires
            MAX_WIDTH * MAX_HEIGHT <= usize::MAX,
        ensures
            r.inv(),
            r.spec_width() == MAX_WIDTH,
            r.spec_height() == MAX_HEIGHT,
            r.spec_default_style().is_unset(),
            forall|i: int|
                0 <= i < r.spec_cells().len() ==> (#[trigger] r.spec_cells()[i]).character == ' '
                    && r.spec_cells()[i].style.is_unset(),
    {
        let total = MAX_WIDTH * MAX_HEIGHT;
        let mut cells: Vec<Cell> = Vec::new();
        let mut i: usize = 0;
        while i < total
            invariant
                i <= total,
                cells@.len() == i,
                forall|j: int|
                    0 <= j < i ==> (#[trigger] cells@[j]).character == ' '
                        && cells@[j].style.is_unset(),
            decreases total - i,
        {
            cells.push(Cell::default());
            i += 1;
        }
        let r = Self {
            cells,
            default_style: Style::new(),
            dimensions: (MAX_WIDTH, MAX_HEIGHT),
        };
        proof {
            r.lemma_model();
            let rect = r.spec_window();
            let w = rect.spec_width();
            assert forall|i: int| 0 <= i < r.spec_cells().len() implies (
            #[trigger] r.spec_cells()[i]).character == ' ' && r.spec_cells()[i].style.is_unset() by {
                assert(w > 0) by (nonlinear_arith)
                    requires
                        0 <= i < w * rect.spec_height(),
                        rect.spec_height() >= 0,
                ;
                vstd::arithmetic::div_mod::lemma_fundamental_div_mod(i, w);
                assert(0 <= i % w < w && 0 <= i / w < rect.spec_height()) by (nonlinear_arith)
                    requires
                        0 <= i < w * rect.spec_height(),
                        w > 0,
                        i == (i / w) * w + (i % w),
                        0 <= i % w < w,
                ;
                lemma_window_cell(r.cells@, MAX_WIDTH as nat, MAX_HEIGHT as nat, rect, i % w, i / w);
                assert((i / w) * w + (i % w) == i);
            }
        }
        r
    }
}

impl<const MAX_WIDTH: usize, const MAX_HEIGHT: usize> Metadata for MaxSize<
    MAX_WIDTH,
    MAX_HEIGHT,
> {
    open spec fn spec_width(&self) -> nat {
        self.spec_window().spec_width() as nat
    }

    open spec fn spec_height(&self) -> nat {
        self.spec_window().spec_height() as nat
    }

    closed spec fn spec_default_style(&self) -> Style {
        self.default_style
    }

    closed spec fn spec_cells(&self) -> Seq<Cell> {
        window_of(self.cells@, MAX_WIDTH as nat, self.spec_window())
    }

    closed spec fn inv(&self) -> bool {
        &&& self.cells@.len() == MAX_WIDTH * MAX_HEIGHT
        &&& MAX_WIDTH * MAX_HEIGHT <= usize::MAX
        &&& self.dimensions.0 <= MAX_WIDTH
        &&& self.dimensions.1 <= MAX_HEIGHT
    }

    proof fn lemma_model(&self) {
        assert(self.spec_width() * self.spec_height() <= MAX_WIDTH * MAX_HEIGHT)
            by (nonlinear_arith)
            requires
                self.spec_width() <= MAX_WIDTH,
                self.spec_height() <= MAX_HEIGHT,
        ;
    }

    open spec fn spec_frame(&self, next: Self) -> bool {
        next.spec_width() == self.spec_width() && next.spec_height() == self.spec_height()
            && next.spec_default_style() == self.spec_default_style()
    }

    proof fn lemma_frame_refl(&self) {
    }

    proof fn lemma_frame_trans(&self, mid: Self, next: Self) {
    }

    proof fn lemma_frame_model(&self, next: Self) {
    }

    fn dimensions(&self) -> (r: (usize, usize)) {
        let r = self.dimensions;
        assert(r.0 == self.spec_width());
        assert(r.1 == self.spec_height());
        r
    }

    fn default_style(&self) -> (r: Style) {
        self.default_style
    }
}

impl<const MAX_WIDTH: usize, const MAX_HEIGHT: usize> TerminalConst for MaxSize<
    MAX_WIDTH,
    MAX_HEIGHT,
> {
    fn cells(&self) -> (r: Vec<Cell>) {
        proof {
            self.lemma_model();
        }
        let (w, h) = self.dimensions();
        let mut out: Vec<Cell> = Vec::new();
        let mut y: usize = 0;
        while y < h
            invariant
                self.inv(),
                w == self.spec_width(),
                h == self.spec_height(),
                y <= h,
                out@ =~= self.spec_cells().take(y * w as int),
            decreases h - y,
        {
            let mut x: usize = 0;
            while x < w
                invariant
                    self.inv(),
                    w == self.spec_width(),
                    h == self.spec_height(),
                    y < h,
                    x <= w,
                    out@ =~= self.spec_cells().take(y * w as int + x),
                decreases w - x,
            {
                proof {
                    lemma_window_cell(
                        self.cells@,
                        MAX_WIDTH as nat,
                        MAX_HEIGHT as nat,
                        self.spec_window(),
                        x as int,
                        y as int,
                    );
                }
                assert(y * MAX_WIDTH + x < MAX_WIDTH * MAX_HEIGHT) by (nonlinear_arith)
                    requires
                        x < w,
                        y < h,
                        w <= MAX_WIDTH,
                        h <= MAX_HEIGHT,
                ;
                out.push(self.cells[y * MAX_WIDTH + x]);
                assert(out@ =~= self.spec_cells().take(y * w as int + (x + 1)));
                x += 1;
            }
            assert(y * w as int + w == (y + 1) * w as int) by (nonlinear_arith);
            y += 1;
        }
        proof {
            assert(h * w as int == self.spec_window().spec_width()
                * self.spec_window().spec_height()) by (nonlinear_arith)
                requires
                    w == self.spec_window().spec_width(),
                    h == self.spec_window().spec_height(),
            ;
            assert(out@ =~= self.spec_cells());
        }
        out
    }

    fn cell(&self, x: usize, y: usize) -> (r: Option<&Cell>) {
        proof {
            self.lemma_model();
        }
        let (w, h) = self.dimensions();
        if x < w && y < h {
            proof {
                lemma_window_cell(
                    self.cells@,
                    MAX_WIDTH as nat,
                    MAX_HEIGHT as nat,
                    self.spec_window(),
                    x as int,
                    y as int,
                );
            }
            assert(y * MAX_WIDTH + x < MAX_WIDTH * MAX_HEIGHT) by (nonlinear_arith)
                requires
                    x < w,
                    y < h,
                    w <= MAX_WIDTH,
                    h <= MAX_HEIGHT,
            ;
            Some(&self.cells[y * MAX_WIDTH + x])
        } else {
            None
        }
    }
}

impl<const MAX_WIDTH: usize, const MAX_HEIGHT: usize> TerminalMut for MaxSize<
    MAX_WIDTH,
    MAX_HEIGHT,
> {
    fn set_cell(&mut self, x: usize, y: usize, cell: Cell) -> (ok: bool) {
        proof {
            self.lemma_model();
        }
        let (w, h) = self.dimensions();
        if x < w && y < h {
            proof {
                lemma_window_cell(
                    self.cells@,
                    MAX_WIDTH as nat,
                    MAX_HEIGHT as nat,
                    self.spec_window(),
                    x as int,
                    y as int,
                );
                lemma_window_update(
                    self.cells@,
                    MAX_WIDTH as nat,
                    MAX_HEIGHT as nat,
                    self.spec_window(),
                    x as int,
                    y as int,
                    cell,
                );
            }
            assert(y * MAX_WIDTH + x < MAX_WIDTH * MAX_HEIGHT) by (nonlinear_arith)
                requires
                    x < w,
                    y < h,
                    w <= MAX_WIDTH,
                    h <= MAX_HEIGHT,
            ;
            self.cells.set(y * MAX_WIDTH + x, cell);
            true
        } else {
            false
        }
    }
}

impl<const MAX_WIDTH: usize, const MAX_HEIGHT: usize> MaxSize<MAX_WIDTH, MAX_HEIGHT> {
    /// Whether a rescale succeeds depends only on the requested size and
    /// the capacity, never on the terminal's current size: any size that
    /// once fit can always be returned to, so rescaling down and then
    /// back up reports the original dimensions again.
    pub proof fn lemma_rescale_any_order(t1: Self, t2: Self, new_size: (usize, usize))
        requires
            t1.inv(),
        ensures
            t1.spec_can_rescale(new_size) == t2.spec_can_rescale(new_size),
            t1.spec_can_rescale((t1.spec_width() as usize, t1.spec_height() as usize)),
    {
    }

    /// Two rescales that return a grid to its original dimensions restore
    /// its original window, cell for cell: the backing store was never
    /// touched, so the same window shows the same content.
    pub proof fn lemma_rescale_restores(t0: Self, t1: Self, t2: Self)
        requires
            t0.spec_rescale_frame(t1),
            t1.spec_rescale_frame(t2),
            t2.spec_width() == t0.spec_width(),
            t2.spec_height() == t0.spec_height(),
        ensures
            t2.spec_cells() == t0.spec_cells(),
    {
        assert(t2.spec_cells() =~= t0.spec_cells());
    }
}

impl<const MAX_WIDTH: usize, const MAX_HEIGHT: usize> Rescalable for MaxSize<
    MAX_WIDTH,
    MAX_HEIGHT,
> {
    /// A rescale succeeds exactly when the new size is within the
    /// allocated maximum.
    open spec fn spec_can_rescale(&self, new_size: (usize, usize)) -> bool {
        new_size.0 <= MAX_WIDTH && new_size.1 <= MAX_HEIGHT
    }

    /// A successful rescale touches no cell of the backing store and
    /// keeps the default style; only the logical window moves.
    closed spec fn spec_rescale_frame(&self, next: Self) -> bool {
        next.cells@ == self.cells@ && next.default_style == self.default_style
    }

    /// The hint is the new size, clamped to the maximum on each axis.
    open spec fn spec_rescale_hint(&self, new_size: (usize, usize)) -> (usize, usize) {
        (
            if new_size.0 <= MAX_WIDTH {
                new_size.0
            } else {
                MAX_WIDTH
            },
            if new_size.1 <= MAX_HEIGHT {
                new_size.1
            } else {
                MAX_HEIGHT
            },
        )
    }

    fn rescale(&mut self, new_size: (usize, usize)) -> (r: core::result::Result<
        (),
        (usize, usize),
    >) {
        proof {
            self.lemma_model();
        }
        let (new_width, new_height) = new_size;
        if new_width <= MAX_WIDTH && new_height <= MAX_HEIGHT {
            let ghost before = *self;
            self.dimensions = (new_width, new_height);
            proof {
                assert forall|x: int, y: int|
                    0 <= x < before.spec_width() && x < new_size.0 && 0 <= y
                        < before.spec_height() && y < new_size.1 implies (
                #[trigger] self.spec_cells()[y * new_size.0 + x]) == before.spec_cells()[y
                    * before.spec_width() + x] by {
                    lemma_window_cell(
                        self.cells@,
                        MAX_WIDTH as nat,
                        MAX_HEIGHT as nat,
                        self.spec_window(),
                        x,
                        y,
                    );
                    lemma_window_cell(
                        before.cells@,
                        MAX_WIDTH as nat,
                        MAX_HEIGHT as nat,
                        before.spec_window(),
                        x,
                        y,
                    );
                }
            }
            Ok(())
        } else {
            let hint_x = if new_width <= MAX_WIDTH {
                new_width
            } else {
                MAX_WIDTH
            };
            let hint_y = if new_height <= MAX_HEIGHT {
                new_height
            } else {
                MAX_HEIGHT
            };
            Err((hint_x, hint_y))
        }
    }
}

} // verus!
