//! The [`Uv`] widget: a coordinate map over the background colours.

use vstd::prelude::*;

use crate::errors::Error;
use crate::style::Colour;
use crate::style::Style;
use crate::terminal::Cell;
use crate::terminal::Terminal;
use crate::terminal::TerminalConst;
use crate::terminal::UpdateInfo;
use crate::terminal::UpdateResult;
use crate::widgets::Widget;

verus! {

/// The colour channel for a coordinate: the coordinate scaled so that
/// the last cell of the axis reaches 255.
pub open spec fn spec_channel(c: int, extent: int) -> int {
    c * 255 / extent
}

/// A coordinate map: each cell's background becomes a colour built from
/// its own coordinates, red growing rightward and blue growing downward.
/// The character and the other style properties are kept. Useful for
/// seeing where a view lands in a terminal.
pub struct Uv;

impl Uv {
    /// The cell the map writes at `(x, y)` in a terminal of the given
    /// dimensions, over the cell that was there.
    #[verifier::inline]
    pub open spec fn spec_shade(x: int, y: int, width: int, height: int, old_cell: Cell) -> Cell {
        Cell {
            character: old_cell.character,
            style: Style {
                bg_colour: Some(
                    Colour::Rgb24(
                        spec_channel(x, width) as u8,
                        0,
                        spec_channel(y, height) as u8,
                    ),
                ),
                ..old_cell.style
            },
        }
    }
}

impl Widget for Uv {
    /// Nothing changes and no event is reported.
    open spec fn spec_update(
        &self,
        next: Self,
        update_info: UpdateInfo,
        width: nat,
        height: nat,
        r: Result<UpdateResult, Error>,
    ) -> bool {
        next == *self && r == Ok::<UpdateResult, Error>(UpdateResult::NoEvent)
    }

    /// Every cell's background becomes the colour of its coordinates;
    /// everything else about each cell is kept.
    open spec fn spec_draw(
        &self,
        width: nat,
        height: nat,
        style: Style,
        old_cells: Seq<Cell>,
        new_cells: Seq<Cell>,
        r: Result<UpdateResult, Error>,
    ) -> bool {
        &&& r == Ok::<UpdateResult, Error>(UpdateResult::NoEvent)
        &&& new_cells.len() == old_cells.len()
        &&& forall|j: int|
            0 <= j < old_cells.len() ==> #[trigger] new_cells[j] == Uv::spec_shade(
                j % (width as int),
                j / (width as int),
                width as int,
                height as int,
                old_cells[j],
            )
    }

    fn update<T: TerminalConst>(&mut self, _update_info: UpdateInfo, _terminal: &T) -> (r: Result<
        UpdateResult,
        Error,
    >) {
        Ok(UpdateResult::NoEvent)
    }

    #[verifier::loop_isolation(false)]
    fn draw<T: Terminal>(&self, terminal: T) -> (res: (T, Result<UpdateResult, Error>)) {
        let ghost orig = terminal;
        let mut t = terminal;
        proof {
            t.lemma_model();
            t.lemma_frame_refl();
        }
        let (w, h) = t.dimensions();
        if w == 0 || h == 0 {
            proof {
                assert(w * h == 0) by (nonlinear_arith)
                    requires
                        w == 0 || h == 0,
                ;
                assert(t.spec_cells().len() == 0);
            }
            return (t, Ok(UpdateResult::NoEvent));
        }
        let mut y: usize = 0;
        while y < h
            invariant
                t.inv(),
                orig.spec_frame(t),
                t.spec_width() == w,
                t.spec_height() == h,
                t.spec_default_style() == orig.spec_default_style(),
                t.spec_cells().len() == orig.spec_cells().len(),
                y <= h,
                w > 0,
                forall|j: int|
                    0 <= j < orig.spec_cells().len() ==> #[trigger] t.spec_cells()[j] == if j < y
                        * w {
                        Uv::spec_shade(
                            j % (w as int),
                            j / (w as int),
                            w as int,
                            h as int,
                            orig.spec_cells()[j],
                        )
                    } else {
                        orig.spec_cells()[j]
                    },
            decreases h - y,
        {
            let mut x: usize = 0;
            while x < w
                invariant
                    t.inv(),
                    orig.spec_frame(t),
                    t.spec_width() == w,
                    t.spec_height() == h,
                    t.spec_default_style() == orig.spec_default_style(),
                    t.spec_cells().len() == orig.spec_cells().len(),
                    y < h,
                    x <= w,
                    forall|j: int|
                        0 <= j < orig.spec_cells().len() ==> #[trigger] t.spec_cells()[j] == if j
                            < y * w + x {
                            Uv::spec_shade(
                                j % (w as int),
                                j / (w as int),
                                w as int,
                                h as int,
                                orig.spec_cells()[j],
                            )
                        } else {
                            orig.spec_cells()[j]
                        },
                decreases w - x,
            {
                assert(y * w + x < w * h) by (nonlinear_arith)
                    requires
                        x < w,
                        y < h,
                ;
                let old_cell = match t.cell(x, y) {
                    Some(cell) => *cell,
                    None => {
                        proof {
                            assert(false);
                        }
                        Cell::new(' ')
                    },
                };
                // x * 255 / w <= 255 because x < w
                assert(0 <= x * 255 / (w as int) <= 255 && x * 255 < u128::MAX)
                    by (nonlinear_arith)
                    requires
                        0 <= x < w,
                        w <= usize::MAX,
                ;
                assert(0 <= y * 255 / (h as int) <= 255 && y * 255 < u128::MAX)
                    by (nonlinear_arith)
                    requires
                        0 <= y < h,
                        h <= usize::MAX,
                ;
                let red = (((x as u128) * 255) / (w as u128)) as u8;
                let blue = (((y as u128) * 255) / (h as u128)) as u8;
                let shaded = Cell {
                    character: old_cell.character,
                    style: Style {
                        bg_colour: Some(Colour::Rgb24(red, 0, blue)),
                        ..old_cell.style
                    },
                };
                let ghost before = t;
                let ok = t.set_cell(x, y, shaded);
                proof {
                    assert(ok);
                    orig.lemma_frame_trans(before, t);
                    vstd::arithmetic::div_mod::lemma_fundamental_div_mod_converse(
                        y * (w as int) + x,
                        w as int,
                        y as int,
                        x as int,
                    );
                    assert(shaded == Uv::spec_shade(
                        x as int,
                        y as int,
                        w as int,
                        h as int,
                        orig.spec_cells()[y * (w as int) + x],
                    ));
                }
                x += 1;
            }
            assert(y * w + w == (y + 1) * w) by (nonlinear_arith);
            y += 1;
        }
        proof {
            assert(h * w == w * h) by (nonlinear_arith);
        }
        (t, Ok(UpdateResult::NoEvent))
    }
}

} // verus!
