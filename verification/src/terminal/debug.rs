//! The [`Debug`] terminal wrapper, which renders the terminal's state on
//! every write.

use vstd::prelude::*;

use crate::draw::Renderer;
use crate::style::Style;
use crate::terminal::Cell;
use crate::terminal::Metadata;
use crate::terminal::Terminal;
use crate::terminal::TerminalConst;
use crate::terminal::TerminalMut;

verus! {

/// Wraps a terminal and a renderer; every time a cell is written, the
/// terminal's state before the write is rendered, so each step of a draw
/// can be watched.
pub struct Debug<T, D> {
    /// The terminal being watched.
    pub terminal: T,
    /// The renderer the state is sent to.
    pub display: D,
}

impl<T: Terminal, D: Renderer> Debug<T, D> {
    /// Create a new [`Debug`] wrapper.
    #[must_use]
    pub fn new(terminal: T, display: D) -> (r: Debug<T, D>)
        ensures
            r.terminal == terminal,
    {
        Debug { terminal, display }
    }

    /// Get the wrapped terminal.
    #[must_use]
    pub fn terminal(&self) -> (r: &T)
        ensures
            r == &self.terminal,
    {
        &self.terminal
    }
}

impl<T: Terminal, D: Renderer> Metadata for Debug<T, D> {
    open spec fn spec_width(&self) -> nat {
        self.terminal.spec_width()
    }

    open spec fn spec_height(&self) -> nat {
        self.terminal.spec_height()
    }

    open spec fn spec_default_style(&self) -> Style {
        self.terminal.spec_default_style()
    }

    open spec fn spec_cells(&self) -> Seq<Cell> {
        self.terminal.spec_cells()
    }

    open spec fn inv(&self) -> bool {
        self.terminal.inv()
    }

    proof fn lemma_model(&self) {
        self.terminal.lemma_model();
    }

    open spec fn spec_frame(&self, next: Self) -> bool {
        self.terminal.spec_frame(next.terminal)
    }

    proof fn lemma_frame_refl(&self) {
        self.terminal.lemma_frame_refl();
    }

    proof fn lemma_frame_trans(&self, mid: Self, next: Self) {
        self.terminal.lemma_frame_trans(mid.terminal, next.terminal);
    }

    proof fn lemma_frame_model(&self, next: Self) {
        self.terminal.lemma_frame_model(next.terminal);
    }

    fn dimensions(&self) -> (r: (usize, usize)) {
        let r = self.terminal.dimensions();
        assert(r.0 == self.spec_width());
        assert(r.1 == self.spec_height());
        r
    }

    fn default_style(&self) -> (r: Style) {
        self.terminal.default_style()
    }
}

impl<T: Terminal, D: Renderer> TerminalConst for Debug<T, D> {
    fn cells(&self) -> (r: Vec<Cell>) {
        self.terminal.cells()
    }

    fn cell(&self, x: usize, y: usize) -> (r: Option<&Cell>) {
        self.terminal.cell(x, y)
    }
}

impl<T: Terminal, D: Renderer> TerminalMut for Debug<T, D> {
    fn set_cell(&mut self, x: usize, y: usize, cell: Cell) -> (ok: bool) {
        proof {
            self.terminal.lemma_model();
        }
        let dimensions = self.terminal.dimensions();
        let cells = self.terminal.cells();
        let _ = self.display.render(dimensions, &cells);
        self.terminal.set_cell(x, y, cell)
    }
}

} // verus!
