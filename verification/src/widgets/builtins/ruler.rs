//! The [`Ruler`] widget: marks one edge of the terminal with coordinate
//! digits.

use vstd::prelude::*;

use crate::errors::Error;
use crate::style::Style;
use crate::terminal::Cell;
use crate::terminal::Terminal;
use crate::terminal::TerminalConst;
use crate::terminal::UpdateInfo;
use crate::terminal::UpdateResult;
use crate::widgets::Direction;
use crate::widgets::Widget;

verus! {

/// The character for a digit under a radix of at most 36: `0` to `9`,
/// then `a` to `z`.
pub open spec fn spec_digit_char(d: int) -> char {
    if d < 10 {
        (48 + d) as char
    } else {
        (87 + d) as char
    }
}

/// The executable form of [`spec_digit_char`].
fn digit_char(d: u32) -> (c: char)
    requires
        d < 36,
    ensures
        c == spec_digit_char(d as int),
{
    if d < 10 {
        let b: u8 = 48u8 + (d as u8);
        b as char
    } else {
        let b: u8 = 87u8 + (d as u8);
        b as char
    }
}

/// Marks the given edge of the terminal with each cell's coordinate,
/// written as a digit under the ruler's radix: the top or bottom row
/// shows x-coordinates, the left or right column shows y-coordinates.
pub struct Ruler {
    /// The radix the coordinates are written in; between 2 and 36.
    pub radix: u32,
    /// The edge being marked.
    pub direction: Direction,
}

impl Default for Ruler {
    /// A hexadecimal ruler along the bottom of the terminal.
    fn default() -> (r: Self)
        ensures
            r.radix == 16,
            r.direction == Direction::Down,
    {
        Self { radix: 16, direction: Direction::Down }
    }
}

impl Ruler {
    /// Whether the ruler's radix is usable: between 2 and 36.
    pub open spec fn wf(&self) -> bool {
        2 <= self.radix <= 36
    }

    /// Initializes a [`Ruler`] with the given radix and direction, or
    /// `None` when the radix is outside `2..=36`.
    #[must_use]
    pub fn new(radix: u32, direction: Direction) -> (r: Option<Self>)
        ensures
            2 <= radix <= 36 ==> (r matches Some(v) && v.radix == radix && v.direction
                == direction && v.wf()),
            !(2 <= radix <= 36) ==> r is None,
    {
        if radix <= 36 && radix >= 2 {
            Some(Self { radix, direction })
        } else {
            None
        }
    }

    /// The cell the ruler writes for coordinate `c` over the cell that
    /// was there.
    #[verifier::inline]
    pub open spec fn spec_mark(&self, c: int, old_cell: Cell) -> Cell {
        Cell { character: spec_digit_char(c % (self.radix as int)), style: old_cell.style }
    }

    /// Where the ruler writes, for a terminal of the given dimensions:
    /// the row or column along its edge; `None` where the terminal has no
    /// such line.
    pub open spec fn spec_line(&self, width: nat, height: nat) -> Option<(bool, int)> {
        match self.direction {
            Direction::Up => if height > 0 {
                Some((true, 0))
            } else {
                None
            },
            Direction::Down => if height > 0 {
                Some((true, height - 1))
            } else {
                None
            },
            Direction::Left => if width > 0 {
                Some((false, 0))
            } else {
                None
            },
            Direction::Right => if width > 0 {
                Some((false, width - 1))
            } else {
                None
            },
        }
    }
}

impl Widget for Ruler {
    /// Nothing changes and no event is reported.
    open spec fn spec_update(
        &self,
        next: Self,
        update_info: UpdateInfo,
        width: nat,
        height: nat,
        r: Result<UpdateResult, Error>,
    ) -> bool {
        next == *self && r == Ok::<UpdateResult, Error>(UpdateResult::NoEvent)
    }

    /// Along a horizontal edge, the cell in column `x` shows `x` modulo
    /// the radix; along a vertical edge, the cell in row `y` shows `y`
    /// modulo the radix. Styles are kept; every other cell is untouched.
    /// A ruler whose radix is outside `2..=36` (which
    /// [`Ruler::new`] never builds) draws nothing and reports
    /// [`Error::Todo`].
    open spec fn spec_draw(
        &self,
        width: nat,
        height: nat,
        style: Style,
        old_cells: Seq<Cell>,
        new_cells: Seq<Cell>,
        r: Result<UpdateResult, Error>,
    ) -> bool {
        &&& r == if self.wf() {
            Ok::<UpdateResult, Error>(UpdateResult::NoEvent)
        } else {
            Err::<UpdateResult, Error>(Error::Todo)
        }
        &&& new_cells.len() == old_cells.len()
        &&& !self.wf() ==> new_cells == old_cells
        &&& self.wf() ==> match self.spec_line(width, height) {
            Some((horizontal, line)) => forall|j: int|
                0 <= j < old_cells.len() ==> #[trigger] new_cells[j] == if horizontal {
                    if j / (width as int) == line {
                        self.spec_mark(j % (width as int), old_cells[j])
                    } else {
                        old_cells[j]
                    }
                } else {
                    if j % (width as int) == line {
                        self.spec_mark(j / (width as int), old_cells[j])
                    } else {
                        old_cells[j]
                    }
                },
            None => new_cells == old_cells,
        }
    }

    fn update<T: TerminalConst>(&mut self, _update_info: UpdateInfo, _terminal: &T) -> (r: Result<
        UpdateResult,
        Error,
    >) {
        Ok(UpdateResult::NoEvent)
    }

    #[verifier::loop_isolation(false)]
    fn draw<T: Terminal>(&self, terminal: T) -> (res: (T, Result<UpdateResult, Error>)) {
        let ghost orig = terminal;
        let mut t = terminal;
        proof {
            t.lemma_model();
            t.lemma_frame_refl();
        }
        let (w, h) = t.dimensions();
        let radix = self.radix;
        if radix < 2 || radix > 36 {
            return (t, Err(Error::Todo));
        }
        if w == 0 || h == 0 {
            proof {
                assert(w * h == 0) by (nonlinear_arith)
                    requires
                        w == 0 || h == 0,
                ;
                assert(t.spec_cells().len() == 0);
                assert(t.spec_cells() =~= orig.spec_cells());
            }
            return (t, Ok(UpdateResult::NoEvent));
        }
        let horizontal = match self.direction {
            Direction::Up | Direction::Down => true,
            Direction::Left | Direction::Right => false,
        };
        let line: usize = match self.direction {
            Direction::Up => 0,
            Direction::Down => h - 1,
            Direction::Left => 0,
            Direction::Right => w - 1,
        };
        let count = if horizontal {
            w
        } else {
            h
        };
        let mut c: usize = 0;
        while c < count
            invariant
                t.inv(),
                orig.spec_frame(t),
                t.spec_width() == w,
                t.spec_height() == h,
                t.spec_default_style() == orig.spec_default_style(),
                t.spec_cells().len() == orig.spec_cells().len(),
                c <= count,
                forall|j: int|
                    0 <= j < orig.spec_cells().len() ==> #[trigger] t.spec_cells()[j] == if (
                    horizontal && j / (w as int) == line && j % (w as int) < c) || (!horizontal && j
                        % (w as int) == line && j / (w as int) < c) {
                        self.spec_mark(
                            if horizontal {
                                j % (w as int)
                            } else {
                                j / (w as int)
                            },
                            orig.spec_cells()[j],
                        )
                    } else {
                        orig.spec_cells()[j]
                    },
            decreases count - c,
        {
            let (x, y) = if horizontal {
                (c, line)
            } else {
                (line, c)
            };
            let digit_index = c % (radix as usize);
            let digit = digit_char(digit_index as u32);
            let old_cell = match t.cell(x, y) {
                Some(cell) => *cell,
                None => {
                    proof {
                        assert(false);
                    }
                    Cell::new(' ')
                },
            };
            assert(x < w && y < h);
            assert(y * w + x < w * h) by (nonlinear_arith)
                requires
                    x < w,
                    y < h,
            ;
            let ghost before = t;
            let ok = t.set_cell(x, y, Cell { character: digit, ..old_cell });
            proof {
                assert(ok);
                orig.lemma_frame_trans(before, t);
                vstd::arithmetic::div_mod::lemma_fundamental_div_mod_converse(
                    y * (w as int) + x,
                    w as int,
                    y as int,
                    x as int,
                );
                assert(digit_index == (c as int) % (radix as int));
                assert(digit == spec_digit_char((c as int) % (radix as int)));
                assert forall|j: int| 0 <= j < orig.spec_cells().len() implies (
                #[trigger] t.spec_cells()[j]) == (if (horizontal && j / (w as int) == line && j % (
                w as int) < c + 1) || (!horizontal && j % (w as int) == line && j / (w as int) < c
                    + 1) {
                    self.spec_mark(
                        if horizontal {
                            j % (w as int)
                        } else {
                            j / (w as int)
                        },
                        orig.spec_cells()[j],
                    )
                } else {
                    orig.spec_cells()[j]
                }) by {
                    vstd::arithmetic::div_mod::lemma_fundamental_div_mod(j, w as int);
                    vstd::arithmetic::div_mod::lemma_mod_division_less_than_divisor(j, w as int);
                    if j == y * (w as int) + x {
                        assert(j % (w as int) == x && j / (w as int) == y);
                        assert(t.spec_cells()[j] == Cell { character: digit, style: old_cell.style });
                        assert(old_cell == orig.spec_cells()[j]);
                    } else {
                        assert(t.spec_cells()[j] == before.spec_cells()[j]);
                        assert((w as int) * (j / (w as int)) == (j / (w as int)) * (w as int))
                            by (nonlinear_arith);
                        if horizontal && j / (w as int) == line && j % (w as int) == c {
                            assert(j == y * (w as int) + x);
                            assert(false);
                        }
                        if !horizontal && j % (w as int) == line && j / (w as int) == c {
                            assert(j == y * (w as int) + x);
                            assert(false);
                        }
                    }
                }
            }
            c += 1;
        }
        proof {
            vstd::arithmetic::div_mod::lemma_mod_division_less_than_divisor(0, 1);
            assert forall|j: int| 0 <= j < orig.spec_cells().len() implies (#[trigger] t.spec_cells()[j]) == (if horizontal {
                if j / (w as int) == line {
                    self.spec_mark(j % (w as int), orig.spec_cells()[j])
                } else {
                    orig.spec_cells()[j]
                }
            } else {
                if j % (w as int) == line {
                    self.spec_mark(j / (w as int), orig.spec_cells()[j])
                } else {
                    orig.spec_cells()[j]
                }
            }) by {
                vstd::arithmetic::div_mod::lemma_fundamental_div_mod(j, w as int);
                vstd::arithmetic::div_mod::lemma_mod_division_less_than_divisor(j, w as int);
                assert(j / (w as int) < h) by (nonlinear_arith)
                    requires
                        0 <= j < w * h,
                        w > 0,
                        j == (w as int) * (j / (w as int)) + j % (w as int),
                        0 <= j % (w as int) < w,
                ;
            }
        }
        (t, Ok(UpdateResult::NoEvent))
    }
}

} // verus!
