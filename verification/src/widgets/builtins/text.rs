//! The [`Text`] widget: a run of characters laid out row-major from the
//! terminal's first cell.

use vstd::arithmetic::div_mod::lemma_fundamental_div_mod;
use vstd::prelude::*;
use vstd::string::StrSliceExecFns;

use crate::errors::Error;
use crate::style::Style;
use crate::terminal::Cell;
use crate::terminal::Rectangle;
use crate::terminal::Terminal;
use crate::terminal::TerminalConst;
use crate::terminal::UpdateInfo;
use crate::terminal::UpdateResult;
use crate::widgets::BoundingBox;
use crate::widgets::Widget;

verus! {

/// The cells with the first `count` characters of `chars` written over
/// them: character `i` lands in cell `i`, keeping its own style only where
/// the written style leaves a property unset.
/// Whether `new_cells` is `old_cells` with the first `count` characters
/// of `chars` written over it: character `i` lands in cell `i`, which
/// keeps its own style where the written style leaves a property unset.
pub open spec fn overlaid(
    old_cells: Seq<Cell>,
    chars: Seq<char>,
    count: int,
    style: Style,
    new_cells: Seq<Cell>,
) -> bool {
    &&& new_cells.len() == old_cells.len()
    &&& forall|j: int|
        0 <= j < old_cells.len() ==> #[trigger] new_cells[j] == if j < count {
            Cell { character: chars[j], style: style.spec_inherits(old_cells[j].style) }
        } else {
            old_cells[j]
        }
}

/// Text drawn from the top-left of the terminal, wrapping at the
/// terminal's right edge.
pub struct Text<'a> {
    /// The text to display.
    pub text: &'a str,
    /// The style with which to display it.
    pub style: Style,
}

impl<'a> Text<'a> {
    /// Create a new [`Text`] with an unset style.
    #[must_use]
    pub fn new(text: &'a str) -> (r: Self)
        ensures
            r.text@ == text@,
            r.style.is_unset(),
    {
        Self { text, style: Style::new() }
    }

    /// Apply a [`Style`] to the [`Text`].
    #[must_use]
    pub fn styled(self, style: Style) -> (r: Self)
        ensures
            r.text@ == self.text@,
            r.style == style,
    {
        Self { style, ..self }
    }
}

impl Widget for Text<'_> {
    /// Nothing changes and no event is reported.
    open spec fn spec_update(
        &self,
        next: Self,
        update_info: UpdateInfo,
        width: nat,
        height: nat,
        r: Result<UpdateResult, Error>,
    ) -> bool {
        next == *self && r == Ok::<UpdateResult, Error>(UpdateResult::NoEvent)
    }

    /// When the text fits in the terminal's area, every character is
    /// written, cell by cell from the first; otherwise the first `area`
    /// characters are written and the out-of-bounds linear index (the
    /// area) is reported.
    open spec fn spec_draw(
        &self,
        width: nat,
        height: nat,
        style: Style,
        old_cells: Seq<Cell>,
        new_cells: Seq<Cell>,
        r: Result<UpdateResult, Error>,
    ) -> bool {
        let chars = self.text@;
        let area = width * height;
        if chars.len() <= area {
            &&& r == Ok::<UpdateResult, Error>(UpdateResult::NoEvent)
            &&& overlaid(old_cells, chars, chars.len() as int, self.style, new_cells)
        } else {
            &&& r == Err::<UpdateResult, Error>(Error::OutOfBoundsIndex(area as usize))
            &&& overlaid(old_cells, chars, area as int, self.style, new_cells)
        }
    }

    fn update<T: TerminalConst>(&mut self, _update_info: UpdateInfo, _terminal: &T) -> (r: Result<
        UpdateResult,
        Error,
    >) {
        Ok(UpdateResult::NoEvent)
    }

    #[verifier::loop_isolation(false)]
    fn draw<T: Terminal>(&self, terminal: T) -> (res: (T, Result<UpdateResult, Error>)) {
        let ghost orig = terminal;
        let mut t = terminal;
        proof {
            t.lemma_model();
            t.lemma_frame_refl();
        }
        let (w, h) = t.dimensions();
        let area = w * h;
        let len = self.text.unicode_len();
        let count = if len < area {
            len
        } else {
            area
        };
        let mut i: usize = 0;
        while i < count
            invariant
                t.inv(),
                orig.spec_frame(t),
                w == orig.spec_width(),
                h == orig.spec_height(),
                t.spec_width() == w,
                t.spec_height() == h,
                t.spec_default_style() == orig.spec_default_style(),
                area == w * h,
                len == self.text@.len(),
                count <= len,
                count <= area,
                i <= count,
                t.spec_cells().len() == orig.spec_cells().len(),
                orig.spec_cells().len() == area,
                overlaid(orig.spec_cells(), self.text@, i as int, self.style, t.spec_cells()),
            decreases count - i,
        {
            assert(w > 0) by (nonlinear_arith)
                requires
                    i < count,
                    count <= w * h,
                    0 <= i,
                    h >= 0,
            ;
            let x = i % w;
            let y = i / w;
            proof {
                lemma_fundamental_div_mod(i as int, w as int);
                assert(i == w * y + x);
                assert(x < w && y < h) by (nonlinear_arith)
                    requires
                        0 <= i < w * h,
                        w > 0,
                        i == w * y + x,
                        0 <= x < w,
                        0 <= y,
                ;
                assert(y * w + x == i) by (nonlinear_arith)
                    requires
                        i == w * y + x,
                ;
            }
            let character = self.text.get_char(i);
            let old_cell = match t.cell(x, y) {
                Some(c) => *c,
                None => {
                    proof {
                        assert(false);
                    }
                    Cell::new(' ')
                },
            };
            let ghost before = t;
            let new_cell = Cell { character, style: self.style.inherits(old_cell.style) };
            let ok = t.set_cell(x, y, new_cell);
            proof {
                assert(ok);
                orig.lemma_frame_trans(before, t);
                assert(0 <= i < orig.spec_cells().len());
                assert(t.spec_cells() == before.spec_cells().update(i as int, new_cell));
            }
            i += 1;
        }
        if len <= area {
            (t, Ok(UpdateResult::NoEvent))
        } else {
            (t, Err(Error::OutOfBoundsIndex(area)))
        }
    }
}

impl BoundingBox for Text<'_> {
    /// The text takes the full available width (or less, if it is short),
    /// and as many rows as wrapping it at that width needs, capped at the
    /// available height. An available rectangle of zero width yields the
    /// zero-size box.
    open spec fn spec_bounding_box(&self, rect: Rectangle) -> Result<Rectangle, Error> {
        let len = self.text@.len() as int;
        let rw = rect.spec_width();
        let rh = rect.spec_height();
        if rw == 0 {
            Ok(Rectangle { left: 0, top: 0, right: 0, bottom: 0 })
        } else {
            let rows = if len % rw == 0 {
                len / rw
            } else {
                len / rw + 1
            };
            let height = if rows < rh {
                rows
            } else {
                rh
            };
            let width = if len < rw {
                len
            } else {
                rw
            };
            Ok(Rectangle { left: 0, top: 0, right: width as usize, bottom: height as usize })
        }
    }

    /// The text paints every cell of a rectangle exactly when it has at
    /// least as many characters as the rectangle has cells.
    open spec fn spec_completely_covers(&self, rectangle: Rectangle) -> bool {
        self.text@.len() >= rectangle.spec_width() * rectangle.spec_height()
    }

    fn bounding_box(&self, rect: Rectangle) -> (r: Result<Rectangle, Error>) {
        let len = self.text.unicode_len();
        let (rw, rh) = rect.dimensions();
        if rw == 0 {
            return Ok(Rectangle::of_size((0, 0)));
        }
        let q = len / rw;
        let rows = if len % rw == 0 {
            q
        } else {
            proof {
                lemma_fundamental_div_mod(len as int, rw as int);
                assert(q + 1 <= len) by (nonlinear_arith)
                    requires
                        len == rw * q + len as int % rw as int,
                        1 <= len as int % rw as int,
                        rw >= 1,
                        q >= 0,
                ;
            }
            q + 1
        };
        let height = if rows < rh {
            rows
        } else {
            rh
        };
        let width = if len < rw {
            len
        } else {
            rw
        };
        Ok(Rectangle::of_size((width, height)))
    }

    fn completely_covers(&self, rectangle: Rectangle) -> (r: bool) {
        let len = self.text.unicode_len();
        let (w, h) = rectangle.dimensions();
        match w.checked_mul(h) {
            Some(area) => len >= area,
            None => {
                assert(w * h > usize::MAX >= len);
                false
            },
        }
    }
}

} // verus!
