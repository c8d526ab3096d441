//! The empty terminal [`Dummy`].

use vstd::prelude::*;

use crate::style::Style;
use crate::terminal::Cell;
use crate::terminal::Metadata;
use crate::terminal::TerminalConst;
use crate::terminal::TerminalMut;

verus! {

/// A terminal with no cells at all: its dimensions are `(0, 0)`, reads
/// return `None` and writes change nothing.
#[derive(Eq, PartialEq, Structural, Debug, Default, Hash, Copy, Clone)]
pub struct Dummy;

impl Metadata for Dummy {
    open spec fn spec_width(&self) -> nat {
        0
    }

    open spec fn spec_height(&self) -> nat {
        0
    }

    open spec fn spec_default_style(&self) -> Style {
        Style {
            fg_colour: None,
            bg_colour: None,
            font_weight: None,
            underline: None,
            invert: None,
            strikethrough: None,
            italic: None,
        }
    }

    open spec fn spec_cells(&self) -> Seq<Cell> {
        Seq::empty()
    }

    open spec fn inv(&self) -> bool {
        true
    }

    proof fn lemma_model(&self) {
    }

    open spec fn spec_frame(&self, _next: Self) -> bool {
        true
    }

    proof fn lemma_frame_refl(&self) {
    }

    proof fn lemma_frame_trans(&self, mid: Self, next: Self) {
    }

    proof fn lemma_frame_model(&self, next: Self) {
    }

    fn dimensions(&self) -> (r: (usize, usize)) {
        let r = (0usize, 0usize);
        assert(r.1 == self.spec_height());
        r
    }

    fn default_style(&self) -> (r: Style) {
        Style::new()
    }
}

impl TerminalConst for Dummy {
    fn cells(&self) -> (r: Vec<Cell>) {
        let out: Vec<Cell> = Vec::new();
        assert(out@ =~= self.spec_cells());
        out
    }

    fn cell(&self, _x: usize, _y: usize) -> (r: Option<&Cell>) {
        None
    }
}

impl TerminalMut for Dummy {
    fn set_cell(&mut self, _x: usize, _y: usize, _cell: Cell) -> (ok: bool) {
        false
    }
}

} // verus!
