//! The fully dynamic terminal [`Rescale`].

use vstd::prelude::*;

use crate::style::Style;
use crate::terminal::Cell;
use crate::terminal::Metadata;
use crate::terminal::Rescalable;
use crate::terminal::TerminalConst;
use crate::terminal::TerminalMut;

verus! {

/// A dynamically allocating, fully rescalable terminal: unlike
/// [`crate::terminal::MaxSize`] it has no capacity limit, and rescaling
/// reallocates, keeping the content of the overlap and blanking new
/// cells.
pub struct Rescale {
    /// The cells, in row-major order; always exactly `width * height`.
    cells: Vec<Cell>,
    /// The terminal's default style.
    default_style: Style,
    /// The current width, in cells.
    width: usize,
    /// The current height, in cells.
    height: usize,
}

impl Rescale {
    /// Create a new [`Rescale`] terminal of the given (width, height),
    /// full of blank cells.
    #[must_use]
    pub fn new(size: (usize, usize)) -> (r: Self)
        requires
            size.0 * size.1 <= usize::MAX,
        ensures
            r.inv(),
            r.spec_width() == size.0,
            r.spec_height() == size.1,
            r.spec_default_style().is_unset(),
            forall|i: int|
                0 <= i < r.spec_cells().len() ==> (#[trigger] r.spec_cells()[i]).character == ' '
                    && r.spec_cells()[i].style.is_unset(),
    {
        let (width, height) = size;
        let total = width * height;
        let mut cells: Vec<Cell> = Vec::new();
        let mut i: usize = 0;
        while i < total
            invariant
                i <= total,
                cells@.len() == i,
                forall|j: int|
                    0 <= j < i ==> (#[trigger] cells@[j]).character == ' '
                        && cells@[j].style.is_unset(),
            decreases total - i,
        {
            cells.push(Cell::default());
            i += 1;
        }
        Self { cells, default_style: Style::new(), width, height }
    }
}

impl Metadata for Rescale {
    closed spec fn spec_width(&self) -> nat {
        self.width as nat
    }

    closed spec fn spec_height(&self) -> nat {
        self.height as nat
    }

    closed spec fn spec_default_style(&self) -> Style {
        self.default_style
    }

    closed spec fn spec_cells(&self) -> Seq<Cell> {
        self.cells@
    }

    closed spec fn inv(&self) -> bool {
        self.cells@.len() == self.width * self.height && self.width * self.height <= usize::MAX
    }

    proof fn lemma_model(&self) {
    }

    open spec fn spec_frame(&self, next: Self) -> bool {
        next.spec_width() == self.spec_width() && next.spec_height() == self.spec_height()
            && next.spec_default_style() == self.spec_default_style()
    }

    proof fn lemma_frame_refl(&self) {
    }

    proof fn lemma_frame_trans(&self, mid: Self, next: Self) {
    }

    proof fn lemma_frame_model(&self, next: Self) {
    }

    fn dimensions(&self) -> (r: (usize, usize)) {
        let r = (self.width, self.height);
        assert(r.0 == self.spec_width());
        assert(r.1 == self.spec_height());
        r
    }

    fn default_style(&self) -> (r: Style) {
        self.default_style
    }
}

impl TerminalConst for Rescale {
    fn cells(&self) -> (r: Vec<Cell>) {
        let mut out: Vec<Cell> = Vec::new();
        let mut i: usize = 0;
        let n = self.cells.len();
        while i < n
            invariant
                i <= n,
                n == self.cells@.len(),
                out@ =~= self.cells@.take(i as int),
            decreases n - i,
        {
            out.push(self.cells[i]);
            assert(out@ =~= self.cells@.take(i + 1));
            i += 1;
        }
        assert(out@ =~= self.cells@);
        out
    }

    fn cell(&self, x: usize, y: usize) -> (r: Option<&Cell>) {
        if x < self.width && y < self.height {
            assert(y * self.width + x < self.width * self.height) by (nonlinear_arith)
                requires
                    x < self.width,
                    y < self.height,
            ;
            Some(&self.cells[y * self.width + x])
        } else {
            None
        }
    }
}

impl TerminalMut for Rescale {
    fn set_cell(&mut self, x: usize, y: usize, cell: Cell) -> (ok: bool) {
        if x < self.width && y < self.height {
            assert(y * self.width + x < self.width * self.height) by (nonlinear_arith)
                requires
                    x < self.width,
                    y < self.height,
            ;
            self.cells.set(y * self.width + x, cell);
            true
        } else {
            false
        }
    }
}

impl Rescalable for Rescale {
    /// A rescale succeeds for every size whose area the machine can
    /// address.
    open spec fn spec_can_rescale(&self, new_size: (usize, usize)) -> bool {
        new_size.0 * new_size.1 <= usize::MAX
    }

    /// When a size cannot be addressed, the hint is the current size,
    /// which always can.
    open spec fn spec_rescale_hint(&self, new_size: (usize, usize)) -> (usize, usize) {
        (self.spec_width() as usize, self.spec_height() as usize)
    }

    /// The storage is reallocated: the default style survives, and every
    /// cell of the new grid outside the old bounds is a blank space of
    /// that style; the trait contract separately promises the overlap's
    /// content.
    open spec fn spec_rescale_frame(&self, next: Self) -> bool {
        &&& next.spec_default_style() == self.spec_default_style()
        &&& forall|x: int, y: int|
            0 <= x < next.spec_width() && 0 <= y < next.spec_height() && (x >= self.spec_width()
                || y >= self.spec_height()) ==> #[trigger] next.spec_cells()[y * next.spec_width()
                + x] == (Cell { character: ' ', style: self.spec_default_style() })
    }

    fn rescale(&mut self, new_size: (usize, usize)) -> (r: core::result::Result<
        (),
        (usize, usize),
    >) {
        proof {
            self.lemma_model();
        }
        let (new_width, new_height) = new_size;
        let total = match new_width.checked_mul(new_height) {
            Some(v) => v,
            None => {
                return Err((self.width, self.height));
            },
        };
        let ghost before = *self;
        let mut cells: Vec<Cell> = Vec::new();
        let mut y: usize = 0;
        while y < new_height
            invariant
                *self == before,
                self.inv(),
                y <= new_height,
                new_width * new_height <= usize::MAX,
                cells@.len() == y * new_width,
                forall|yy: int, xx: int|
                    0 <= yy < y && 0 <= xx < new_width ==> #[trigger] cells@[yy * new_width + xx]
                        == if xx < self.spec_width() && yy < self.spec_height() {
                        self.spec_cells()[yy * self.spec_width() + xx]
                    } else {
                        Cell { character: ' ', style: self.spec_default_style() }
                    },
            decreases new_height - y,
        {
            let mut x: usize = 0;
            while x < new_width
                invariant
                    *self == before,
                    self.inv(),
                    y < new_height,
                    x <= new_width,
                    new_width * new_height <= usize::MAX,
                    cells@.len() == y * new_width + x,
                    forall|yy: int, xx: int|
                        0 <= yy < y && 0 <= xx < new_width
                            ==> #[trigger] cells@[yy * new_width + xx] == if xx
                            < self.spec_width() && yy < self.spec_height() {
                            self.spec_cells()[yy * self.spec_width() + xx]
                        } else {
                            Cell { character: ' ', style: self.spec_default_style() }
                        },
                    forall|xx: int|
                        0 <= xx < x ==> #[trigger] cells@[y * new_width + xx] == if xx
                            < self.spec_width() && y < self.spec_height() {
                            self.spec_cells()[y * self.spec_width() + xx]
                        } else {
                            Cell { character: ' ', style: self.spec_default_style() }
                        },
                decreases new_width - x,
            {
                let kept = if x < self.width && y < self.height {
                    assert(y * self.width + x < self.width * self.height) by (nonlinear_arith)
                        requires
                            x < self.width,
                            y < self.height,
                    ;
                    self.cells[y * self.width + x]
                } else {
                    Cell { character: ' ', style: self.default_style }
                };
                assert(y * new_width + x + 1 <= new_width * new_height) by (nonlinear_arith)
                    requires
                        x < new_width,
                        y < new_height,
                ;
                proof {
                    assert forall|yy: int, xx: int|
                        0 <= yy < y && 0 <= xx < new_width implies #[trigger] (yy * new_width
                        + xx) < y * new_width + x by {
                        vstd::arithmetic::mul::lemma_mul_inequality(
                            yy + 1,
                            y as int,
                            new_width as int,
                        );
                        assert(yy * new_width + xx < (yy + 1) * new_width) by (nonlinear_arith)
                            requires
                                0 <= xx < new_width,
                        ;
                    }
                }
                cells.push(kept);
                x += 1;
            }
            assert(y * new_width + new_width == (y + 1) * new_width) by (nonlinear_arith);
            y += 1;
        }
        proof {
            assert(new_height * new_width == new_width * new_height) by (nonlinear_arith);
        }
        self.cells = cells;
        self.width = new_width;
        self.height = new_height;
        proof {
            assert forall|x: int, y2: int|
                0 <= x < before.spec_width() && x < new_size.0 && 0 <= y2 < before.spec_height()
                    && y2 < new_size.1 implies (#[trigger] self.spec_cells()[y2 * new_size.0 + x])
                == before.spec_cells()[y2 * before.spec_width() + x] by {
                assert(0 <= y2 * new_width + x < new_width * new_height) by (nonlinear_arith)
                    requires
                        0 <= x < new_width,
                        0 <= y2 < new_height,
                ;
                assert(self.spec_cells()[y2 * new_width + x] == before.spec_cells()[y2
                    * before.spec_width() + x]);
            }
            assert forall|x: int, y2: int|
                0 <= x < self.spec_width() && 0 <= y2 < self.spec_height() && (x
                    >= before.spec_width() || y2 >= before.spec_height()) implies (
            #[trigger] self.spec_cells()[y2 * self.spec_width() + x]) == (Cell {
                character: ' ',
                style: before.spec_default_style(),
            }) by {
                assert(0 <= y2 * new_width + x < new_width * new_height) by (nonlinear_arith)
                    requires
                        0 <= x < new_width,
                        0 <= y2 < new_height,
                ;
            }
        }
        Ok(())
    }
}

} // verus!
