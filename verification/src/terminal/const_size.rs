//! The fixed-size terminal [`ConstantSize`].

use vstd::prelude::*;

use crate::style::Style;
use crate::terminal::Cell;
use crate::terminal::Metadata;
use crate::terminal::TerminalConst;
use crate::terminal::TerminalMut;

verus! {

/// A terminal of constant size: the dimensions are part of the type and
/// never change, and the storage is fully initialized to blank cells at
/// construction.
pub struct ConstantSize<const WIDTH: usize, const HEIGHT: usize> {
    /// The cells, in row-major order; always exactly `WIDTH * HEIGHT` of
    /// them.
    cells: Vec<Cell>,
    /// The terminal's default style.
    pub default_style: Style,
}

impl<const WIDTH: usize, const HEIGHT: usize> ConstantSize<WIDTH, HEIGHT> {
    /// Creates a new [`ConstantSize`] full of blank cells of the unset
    /// style.
    ///
    /// The dimensions are given as generic arguments:
    /// `ConstantSize::<20, 20>::new()`.
    #[must_use]
    pub fn new() -> (r: Self)
        requires
            WIDTH * HEIGHT <= usize::MAX,
        ensures
            r.inv(),
            r.spec_width() == WIDTH,
            r.spec_height() == HEIGHT,
            r.spec_default_style().is_unset(),
            forall|i: int|
                0 <= i < r.spec_cells().len() ==> (#[trigger] r.spec_cells()[i]).character == ' '
                    && r.spec_cells()[i].style.is_unset(),
    {
        let total = WIDTH * HEIGHT;
        let mut cells: Vec<Cell> = Vec::new();
        let mut i: usize = 0;
        while i < total
            invariant
                i <= total,
                cells@.len() == i,
                forall|j: int|
                    0 <= j < i ==> (#[trigger] cells@[j]).character == ' '
                        && cells@[j].style.is_unset(),
            decreases total - i,
        {
            cells.push(Cell::default());
            i += 1;
        }
        Self { cells, default_style: Style::new() }
    }
}

impl<const WIDTH: usize, const HEIGHT: usize> Metadata for ConstantSize<WIDTH, HEIGHT> {
    open spec fn spec_width(&self) -> nat {
        WIDTH as nat
    }

    open spec fn spec_height(&self) -> nat {
        HEIGHT as nat
    }

    closed spec fn spec_default_style(&self) -> Style {
        self.default_style
    }

    closed spec fn spec_cells(&self) -> Seq<Cell> {
        self.cells@
    }

    closed spec fn inv(&self) -> bool {
        self.cells@.len() == WIDTH * HEIGHT && WIDTH * HEIGHT <= usize::MAX
    }

    proof fn lemma_model(&self) {
    }

    open spec fn spec_frame(&self, next: Self) -> bool {
        next.spec_default_style() == self.spec_default_style()
    }

    proof fn lemma_frame_refl(&self) {
    }

    proof fn lemma_frame_trans(&self, mid: Self, next: Self) {
    }

    proof fn lemma_frame_model(&self, next: Self) {
    }

    fn dimensions(&self) -> (r: (usize, usize)) {
        let r = (WIDTH, HEIGHT);
        assert(r.0 == self.spec_width());
        assert(r.1 == self.spec_height());
        r
    }

    fn default_style(&self) -> (r: Style) {
        self.default_style
    }
}

impl<const WIDTH: usize, const HEIGHT: usize> TerminalConst for ConstantSize<WIDTH, HEIGHT> {
    fn cells(&self) -> (r: Vec<Cell>) {
        let mut out: Vec<Cell> = Vec::new();
        let mut i: usize = 0;
        let n = self.cells.len();
        while i < n
            invariant
                i <= n,
                n == self.cells@.len(),
                out@ =~= self.cells@.take(i as int),
            decreases n - i,
        {
            out.push(self.cells[i]);
            assert(out@ =~= self.cells@.take(i + 1));
            i += 1;
        }
        assert(out@ =~= self.cells@);
        out
    }

    fn cell(&self, x: usize, y: usize) -> (r: Option<&Cell>) {
        if x < WIDTH && y < HEIGHT {
            assert(y * WIDTH + x < WIDTH * HEIGHT) by (nonlinear_arith)
                requires
                    x < WIDTH,
                    y < HEIGHT,
            ;
            Some(&self.cells[y * WIDTH + x])
        } else {
            None
        }
    }
}

impl<const WIDTH: usize, const HEIGHT: usize> TerminalMut for ConstantSize<WIDTH, HEIGHT> {
    fn set_cell(&mut self, x: usize, y: usize, cell: Cell) -> (ok: bool) {
        if x < WIDTH && y < HEIGHT {
            assert(y * WIDTH + x < WIDTH * HEIGHT) by (nonlinear_arith)
                requires
                    x < WIDTH,
                    y < HEIGHT,
            ;
            self.cells.set(y * WIDTH + x, cell);
            true
        } else {
            false
        }
    }
}

} // verus!
