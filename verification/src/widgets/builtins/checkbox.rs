//! The [`Checkbox`] widget: a tickbox followed by an entry text.

use vstd::arithmetic::div_mod::lemma_fundamental_div_mod;
use vstd::prelude::*;
use vstd::string::StrSliceExecFns;

use crate::errors::Error;
use crate::style::Style;
use crate::terminal::Cell;
use crate::terminal::MouseButton;
use crate::terminal::KeyState;
use crate::terminal::Rectangle;
use crate::terminal::Terminal;
use crate::terminal::TerminalConst;
use crate::terminal::UpdateInfo;
use crate::terminal::UpdateResult;
use crate::widgets::BoundingBox;
use crate::widgets::Widget;

verus! {

/// A checkbox: a four-character tickbox (`[x] ` or `[ ] `) followed by
/// its entry text, drawn from the terminal's first cell and wrapping at
/// its right edge. The tickbox keeps its own style; the entry keeps its.
#[derive(Debug, Clone, Copy, Eq, PartialEq, Hash)]
pub struct Checkbox<'a> {
    /// The entry of the checkbox.
    pub entry: &'a str,
    /// Whether the checkbox is checked.
    pub checked: bool,
    /// The style of the tickbox.
    pub box_style: Style,
    /// The style of the entry text.
    pub entry_style: Style,
}

impl<'a> Checkbox<'a> {
    /// All the characters the checkbox draws: the tickbox, then the
    /// entry.
    pub open spec fn spec_chars(&self) -> Seq<char> {
        (if self.checked {
            "[x] "@
        } else {
            "[ ] "@
        }) + self.entry@
    }

    /// The style of the checkbox's character `i`: the tickbox style for
    /// the first four characters, the entry style after.
    pub open spec fn spec_style_at(&self, i: int) -> Style {
        if i < 4 {
            self.box_style
        } else {
            self.entry_style
        }
    }

    /// The box the combined tickbox-and-entry text needs inside the
    /// available rectangle: the full available width (or less, if the
    /// text is short), and as many rows as wrapping it at that width
    /// needs, capped at the available height.
    pub open spec fn spec_box(&self, rect: Rectangle) -> Rectangle {
        let len = self.spec_chars().len() as int;
        let rw = rect.spec_width();
        let rh = rect.spec_height();
        if rw == 0 {
            Rectangle { left: 0, top: 0, right: 0, bottom: 0 }
        } else {
            let rows = if len % rw == 0 {
                len / rw
            } else {
                len / rw + 1
            };
            let height = if rows < rh {
                rows
            } else {
                rh
            };
            let width = if len < rw {
                len
            } else {
                rw
            };
            Rectangle { left: 0, top: 0, right: width as usize, bottom: height as usize }
        }
    }

    /// Create a new, unchecked [`Checkbox`] with the given entry and
    /// unset styles.
    #[must_use]
    pub fn new(entry: &'a str) -> (r: Self)
        ensures
            r.entry@ == entry@,
            !r.checked,
            r.box_style.is_unset(),
            r.entry_style.is_unset(),
    {
        Self { entry, checked: false, box_style: Style::new(), entry_style: Style::new() }
    }

    /// Check the [`Checkbox`]: `[ ]` becomes `[x]`.
    #[must_use]
    pub fn checked(self) -> (r: Self)
        ensures
            r == (Checkbox { checked: true, ..self }),
    {
        Self { checked: true, ..self }
    }

    /// Uncheck the [`Checkbox`]: `[x]` becomes `[ ]`.
    #[must_use]
    pub fn unchecked(self) -> (r: Self)
        ensures
            r == (Checkbox { checked: false, ..self }),
    {
        Self { checked: false, ..self }
    }
}

impl Widget for Checkbox<'_> {
    /// A left click inside the bounding box, or pressing the keyboard
    /// key 0x28, toggles the checkbox and reports an interaction; any
    /// other event leaves it unchanged.
    open spec fn spec_update(
        &self,
        next: Self,
        update_info: UpdateInfo,
        width: nat,
        height: nat,
        r: Result<UpdateResult, Error>,
    ) -> bool {
        match update_info {
            UpdateInfo::CellClicked(x, y, MouseButton::LeftClick) => {
                if self.spec_box(
                    crate::widgets::builtins::screen_rect(width, height),
                ).spec_contains((x, y)) {
                    next == (Checkbox { checked: !self.checked, ..*self }) && r == Ok::<
                        UpdateResult,
                        Error,
                    >(UpdateResult::Interacted)
                } else {
                    next == *self && r == Ok::<UpdateResult, Error>(UpdateResult::NoEvent)
                }
            },
            UpdateInfo::KeyboardInput(code, KeyState::KeyDown) => if code == 0x28 {
                next == (Checkbox { checked: !self.checked, ..*self }) && r == Ok::<
                    UpdateResult,
                    Error,
                >(UpdateResult::Interacted)
            } else {
                next == *self && r == Ok::<UpdateResult, Error>(UpdateResult::NoEvent)
            },
            _ => next == *self && r == Ok::<UpdateResult, Error>(UpdateResult::NoEvent),
        }
    }

    /// The tickbox and the entry are written cell by cell from the first,
    /// each character keeping the cell's style where its segment's style
    /// leaves a property unset; past the terminal's area, the
    /// out-of-bounds linear index is reported.
    open spec fn spec_draw(
        &self,
        width: nat,
        height: nat,
        style: Style,
        old_cells: Seq<Cell>,
        new_cells: Seq<Cell>,
        r: Result<UpdateResult, Error>,
    ) -> bool {
        let chars = self.spec_chars();
        let area = width * height;
        let count = if chars.len() <= area {
            chars.len() as int
        } else {
            area as int
        };
        &&& new_cells.len() == old_cells.len()
        &&& forall|j: int|
            0 <= j < old_cells.len() ==> #[trigger] new_cells[j] == if j < count {
                Cell {
                    character: chars[j],
                    style: self.spec_style_at(j).spec_inherits(old_cells[j].style),
                }
            } else {
                old_cells[j]
            }
        &&& r == if chars.len() <= area {
            Ok::<UpdateResult, Error>(UpdateResult::NoEvent)
        } else {
            Err::<UpdateResult, Error>(Error::OutOfBoundsIndex(area as usize))
        }
    }

    fn update<T: TerminalConst>(&mut self, update_info: UpdateInfo, terminal: &T) -> (r: Result<
        UpdateResult,
        Error,
    >) {
        let bounds = terminal.bounding_box();
        match update_info {
            UpdateInfo::CellClicked(x, y, MouseButton::LeftClick) => {
                match self.bounding_box(bounds) {
                    Ok(b) => if b.contains((x, y)) {
                        self.checked = !self.checked;
                        Ok(UpdateResult::Interacted)
                    } else {
                        Ok(UpdateResult::NoEvent)
                    },
                    Err(_) => Ok(UpdateResult::NoEvent),
                }
            },
            UpdateInfo::KeyboardInput(code, KeyState::KeyDown) => if code == 0x28 {
                self.checked = !self.checked;
                Ok(UpdateResult::Interacted)
            } else {
                Ok(UpdateResult::NoEvent)
            },
            _ => Ok(UpdateResult::NoEvent),
        }
    }

    #[verifier::loop_isolation(false)]
    fn draw<T: Terminal>(&self, terminal: T) -> (res: (T, Result<UpdateResult, Error>)) {
        let ghost orig = terminal;
        let mut t = terminal;
        proof {
            t.lemma_model();
            t.lemma_frame_refl();
            reveal_strlit("[x] ");
            reveal_strlit("[ ] ");
        }
        let prefix: &str = if self.checked {
            "[x] "
        } else {
            "[ ] "
        };
        assert(prefix@ =~= self.spec_chars().take(4));
        assert(self.spec_chars().len() == 4 + self.entry@.len());
        let (w, h) = t.dimensions();
        let area = w * h;
        let entry_len = self.entry.unicode_len();
        // whether all 4 + entry_len characters fit in the area, computed
        // without overflowing
        let fits = entry_len <= area && 4 <= area - entry_len;
        let count = if fits && entry_len + 4 < area {
            entry_len + 4
        } else {
            area
        };
        let ghost len = self.spec_chars().len();
        let mut i: usize = 0;
        while i < count
            invariant
                t.inv(),
                orig.spec_frame(t),
                t.spec_width() == w,
                t.spec_height() == h,
                t.spec_default_style() == orig.spec_default_style(),
                t.spec_cells().len() == orig.spec_cells().len(),
                orig.spec_cells().len() == area,
                area == w * h,
                len == self.spec_chars().len(),
                count <= len,
                count <= area,
                fits <==> len <= area,
                i <= count,
                forall|j: int|
                    0 <= j < area ==> #[trigger] t.spec_cells()[j] == if j < i {
                        Cell {
                            character: self.spec_chars()[j],
                            style: self.spec_style_at(j).spec_inherits(
                                orig.spec_cells()[j].style,
                            ),
                        }
                    } else {
                        orig.spec_cells()[j]
                    },
            decreases count - i,
        {
            assert(w > 0) by (nonlinear_arith)
                requires
                    i < count,
                    count <= w * h,
                    0 <= i,
                    h >= 0,
            ;
            let x = i % w;
            let y = i / w;
            proof {
                lemma_fundamental_div_mod(i as int, w as int);
                assert(x < w && y < h) by (nonlinear_arith)
                    requires
                        0 <= i < w * h,
                        w > 0,
                        i == w * y + x,
                        0 <= x < w,
                        0 <= y,
                ;
                assert(y * w + x == i) by (nonlinear_arith)
                    requires
                        i == w * y + x,
                ;
            }
            let character = if i < 4 {
                prefix.get_char(i)
            } else {
                self.entry.get_char(i - 4)
            };
            let segment_style = if i < 4 {
                self.box_style
            } else {
                self.entry_style
            };
            let old_cell = match t.cell(x, y) {
                Some(c) => *c,
                None => {
                    proof {
                        assert(false);
                    }
                    Cell::new(' ')
                },
            };
            let ghost before = t;
            let new_cell = Cell { character, style: segment_style.inherits(old_cell.style) };
            proof {
                assert(character == self.spec_chars()[i as int]);
            }
            let ok = t.set_cell(x, y, new_cell);
            proof {
                assert(ok);
                orig.lemma_frame_trans(before, t);
            }
            i += 1;
        }
        if fits {
            (t, Ok(UpdateResult::NoEvent))
        } else {
            (t, Err(Error::OutOfBoundsIndex(area)))
        }
    }
}

impl BoundingBox for Checkbox<'_> {
    /// The box the combined tickbox-and-entry text needs: the full
    /// available width (or less, if the text is short), and as many rows
    /// as wrapping it at that width needs, capped at the available
    /// height.
    open spec fn spec_bounding_box(&self, rect: Rectangle) -> Result<Rectangle, Error> {
        Ok(self.spec_box(rect))
    }

    /// The checkbox paints every cell of a rectangle exactly when its
    /// text has at least as many characters as the rectangle has cells.
    open spec fn spec_completely_covers(&self, rectangle: Rectangle) -> bool {
        self.spec_chars().len() >= rectangle.spec_width() * rectangle.spec_height()
    }

    fn bounding_box(&self, rect: Rectangle) -> (r: Result<Rectangle, Error>) {
        proof {
            reveal_strlit("[x] ");
            reveal_strlit("[ ] ");
        }
        let entry_len = self.entry.unicode_len();
        let len: u128 = (entry_len as u128) + 4;
        let (rw, rh) = rect.dimensions();
        if rw == 0 {
            return Ok(Rectangle::of_size((0, 0)));
        }
        let q: u128 = len / (rw as u128);
        let rows: u128 = if len % (rw as u128) == 0 {
            q
        } else {
            q + 1
        };
        let height: usize = if rows < (rh as u128) {
            proof {
                lemma_fundamental_div_mod(len as int, rw as int);
            }
            rows as usize
        } else {
            rh
        };
        let width: usize = if len < (rw as u128) {
            entry_len + 4
        } else {
            rw
        };
        proof {
            lemma_fundamental_div_mod(len as int, rw as int);
        }
        Ok(Rectangle::of_size((width, height)))
    }

    fn completely_covers(&self, rectangle: Rectangle) -> (r: bool) {
        proof {
            reveal_strlit("[x] ");
            reveal_strlit("[ ] ");
        }
        let entry_len = self.entry.unicode_len();
        let len: u128 = (entry_len as u128) + 4;
        let (w, h) = rectangle.dimensions();
        assert(w * h <= u128::MAX) by (nonlinear_arith)
            requires
                0 <= w <= usize::MAX,
                0 <= h <= usize::MAX,
        ;
        let area: u128 = (w as u128) * (h as u128);
        len >= area
    }
}

} // verus!
