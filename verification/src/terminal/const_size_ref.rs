//! The fixed-size terminal [`ConstantSizeRef`], built over caller-provided
//! storage.

use vstd::prelude::*;

use crate::style::Style;
use crate::terminal::Cell;
use crate::terminal::Metadata;
use crate::terminal::TerminalConst;
use crate::terminal::TerminalMut;

verus! {

/// A [`crate::terminal::ConstantSize`]-shaped terminal created from
/// storage the caller already holds, handed back by
/// [`ConstantSizeRef::into_inner`].
pub struct ConstantSizeRef<const WIDTH: usize, const HEIGHT: usize> {
    /// The caller's cells, in row-major order; exactly `WIDTH * HEIGHT`.
    characters: Vec<Cell>,
    /// The terminal's default style.
    pub default_style: Style,
}

impl<const WIDTH: usize, const HEIGHT: usize> ConstantSizeRef<WIDTH, HEIGHT> {
    /// Creates a new [`ConstantSizeRef`] over the given row-major cells,
    /// whose number must match the dimensions.
    #[must_use]
    pub fn new(terminal: Vec<Cell>) -> (r: Self)
        requires
            terminal@.len() == WIDTH * HEIGHT,
            WIDTH * HEIGHT <= usize::MAX,
        ensures
            r.inv(),
            r.spec_width() == WIDTH,
            r.spec_height() == HEIGHT,
            r.spec_cells() == terminal@,
            r.spec_default_style().is_unset(),
    {
        Self { characters: terminal, default_style: Style::new() }
    }

    /// Consume the terminal and hand the storage back.
    pub fn into_inner(self) -> (r: Vec<Cell>)
        ensures
            r@ == self.spec_cells(),
    {
        self.characters
    }
}

impl<const WIDTH: usize, const HEIGHT: usize> Metadata for ConstantSizeRef<WIDTH, HEIGHT> {
    open spec fn spec_width(&self) -> nat {
        WIDTH as nat
    }

    open spec fn spec_height(&self) -> nat {
        HEIGHT as nat
    }

    closed spec fn spec_default_style(&self) -> Style {
        self.default_style
    }

    closed spec fn spec_cells(&self) -> Seq<Cell> {
        self.characters@
    }

    closed spec fn inv(&self) -> bool {
        self.characters@.len() == WIDTH * HEIGHT && WIDTH * HEIGHT <= usize::MAX
    }

    proof fn lemma_model(&self) {
    }

    open spec fn spec_frame(&self, next: Self) -> bool {
        next.spec_default_style() == self.spec_default_style()
    }

    proof fn lemma_frame_refl(&self) {
    }

    proof fn lemma_frame_trans(&self, mid: Self, next: Self) {
    }

    proof fn lemma_frame_model(&self, next: Self) {
    }

    fn dimensions(&self) -> (r: (usize, usize)) {
        let r = (WIDTH, HEIGHT);
        assert(r.0 == self.spec_width());
        assert(r.1 == self.spec_height());
        r
    }

    fn default_style(&self) -> (r: Style) {
        self.default_style
    }
}

impl<const WIDTH: usize, const HEIGHT: usize> TerminalConst for ConstantSizeRef<WIDTH, HEIGHT> {
    fn cells(&self) -> (r: Vec<Cell>) {
        let mut out: Vec<Cell> = Vec::new();
        let mut i: usize = 0;
        let n = self.characters.len();
        while i < n
            invariant
                i <= n,
                n == self.characters@.len(),
                out@ =~= self.characters@.take(i as int),
            decreases n - i,
        {
            out.push(self.characters[i]);
            assert(out@ =~= self.characters@.take(i + 1));
            i += 1;
        }
        assert(out@ =~= self.characters@);
        out
    }

    fn cell(&self, x: usize, y: usize) -> (r: Option<&Cell>) {
        if x < WIDTH && y < HEIGHT {
            assert(y * WIDTH + x < WIDTH * HEIGHT) by (nonlinear_arith)
                requires
                    x < WIDTH,
                    y < HEIGHT,
            ;
            Some(&self.characters[y * WIDTH + x])
        } else {
            None
        }
    }
}

impl<const WIDTH: usize, const HEIGHT: usize> TerminalMut for ConstantSizeRef<WIDTH, HEIGHT> {
    fn set_cell(&mut self, x: usize, y: usize, cell: Cell) -> (ok: bool) {
        if x < WIDTH && y < HEIGHT {
            assert(y * WIDTH + x < WIDTH * HEIGHT) by (nonlinear_arith)
                requires
                    x < WIDTH,
                    y < HEIGHT,
            ;
            self.characters.set(y * WIDTH + x, cell);
            true
        } else {
            false
        }
    }
}

} // verus!
