//! The [`CenteredText`] widget: text centered in the terminal.

use vstd::arithmetic::div_mod::lemma_fundamental_div_mod;
use vstd::arithmetic::div_mod::lemma_fundamental_div_mod_converse;
use vstd::prelude::*;
use vstd::string::StrSliceExecFns;

use crate::errors::Error;
use crate::style::Style;
use crate::terminal::view::lemma_window_update;
use crate::terminal::view::unchanged_outside;
use crate::terminal::view::window_of;
use crate::terminal::Cell;
use crate::terminal::Metadata;
use crate::terminal::MouseButton;
use crate::terminal::Rectangle;
use crate::terminal::Terminal;
use crate::terminal::TerminalConst;
use crate::terminal::UpdateInfo;
use crate::terminal::UpdateResult;
use crate::terminal::ViewMut;
use crate::widgets::builtins::text::overlaid;
use crate::widgets::BoundingBox;
use crate::widgets::Widget;

verus! {

/// Text wrapped to the available width and centered on both axes of the
/// available rectangle.
#[derive(Eq, PartialEq, Copy, Clone, Hash, Debug)]
pub struct CenteredText<'a> {
    /// The text to be displayed.
    pub prompt_text: &'a str,
    /// The styling behind the prompt.
    pub style: Style,
}

impl<'a> CenteredText<'a> {
    /// The box the text occupies inside the available rectangle: the
    /// text's wrapped dimensions (full available width, as many rows as
    /// wrapping needs, each capped by the available rectangle),
    /// re-anchored so that its center sits at the center of the available
    /// rectangle.
    pub open spec fn spec_box(&self, rect: Rectangle) -> Rectangle {
        let len = self.prompt_text@.len() as int;
        let rw = rect.spec_width();
        let rh = rect.spec_height();
        let width = if len < rw {
            len
        } else {
            rw
        };
        let rows = if rw == 0 {
            0
        } else if len % rw == 0 {
            len / rw
        } else {
            len / rw + 1
        };
        let height = if rows < rh {
            rows
        } else {
            rh
        };
        let left = rect.left + rw / 2 - width / 2;
        let top = rect.top + rh / 2 - height / 2;
        Rectangle {
            left: left as usize,
            top: top as usize,
            right: (left + width) as usize,
            bottom: (top + height) as usize,
        }
    }

    /// The box the text occupies lies inside the available rectangle.
    pub proof fn lemma_box_in_rect(&self, rect: Rectangle)
        requires
            rect.wf(),
        ensures
            self.spec_box(rect).wf(),
            rect.left <= self.spec_box(rect).left,
            self.spec_box(rect).right <= rect.right,
            rect.top <= self.spec_box(rect).top,
            self.spec_box(rect).bottom <= rect.bottom,
    {
        let b = self.spec_box(rect);
        let len = self.prompt_text@.len() as int;
        let rw = rect.spec_width();
        let rh = rect.spec_height();
        let width = if len < rw {
            len
        } else {
            rw
        };
        let rows = if rw == 0 {
            0
        } else if len % rw == 0 {
            len / rw
        } else {
            len / rw + 1
        };
        let height = if rows < rh {
            rows
        } else {
            rh
        };
        assert(0 <= width <= rw);
        assert(0 <= height <= rh);
        assert(width / 2 <= rw / 2);
        assert(rw / 2 + (width - width / 2) <= rw);
        assert(height / 2 <= rh / 2);
        assert(rh / 2 + (height - height / 2) <= rh);
    }

    /// Initializes a [`CenteredText`] with the given text and an unset
    /// style.
    #[must_use]
    pub fn new(text: &'a str) -> (r: Self)
        ensures
            r.prompt_text@ == text@,
            r.style.is_unset(),
    {
        Self { prompt_text: text, style: Style::new() }
    }

    /// Apply a [`Style`] to the text.
    #[must_use]
    pub fn style(self, style: Style) -> (r: Self)
        ensures
            r.prompt_text@ == self.prompt_text@,
            r.style == style,
    {
        Self { style, ..self }
    }
}

impl Widget for CenteredText<'_> {
    /// A left click inside the bounding box ends the widget's lifecycle;
    /// any other click reports no event, and any other update reports that
    /// no redraw is needed. The widget itself never changes.
    open spec fn spec_update(
        &self,
        next: Self,
        update_info: UpdateInfo,
        width: nat,
        height: nat,
        r: Result<UpdateResult, Error>,
    ) -> bool {
        &&& next == *self
        &&& r == match update_info {
            UpdateInfo::CellClicked(x, y, MouseButton::LeftClick) => {
                if self.spec_box(
                    crate::widgets::builtins::screen_rect(width, height),
                ).spec_contains((x, y)) {
                    Ok::<UpdateResult, Error>(UpdateResult::LifecycleEnd)
                } else {
                    Ok::<UpdateResult, Error>(UpdateResult::NoEvent)
                }
            },
            UpdateInfo::CellClicked(_, _, _) => Ok::<UpdateResult, Error>(UpdateResult::NoEvent),
            _ => Ok::<UpdateResult, Error>(UpdateResult::NoRedraw),
        }
    }

    /// The text is written row-major into the window under its bounding
    /// box, each character keeping the cell's style where the text style
    /// leaves a property unset; cells outside that window are untouched.
    /// When the text has more characters than the box has cells, the box
    /// is filled and the first coordinate below it is reported out of
    /// bounds.
    open spec fn spec_draw(
        &self,
        width: nat,
        height: nat,
        style: Style,
        old_cells: Seq<Cell>,
        new_cells: Seq<Cell>,
        r: Result<UpdateResult, Error>,
    ) -> bool {
        {
            let b = self.spec_box(crate::widgets::builtins::screen_rect(width, height));
            {
                let chars = self.prompt_text@;
                let area = b.spec_width() * b.spec_height();
                let count = if chars.len() <= area {
                    chars.len() as int
                } else {
                    area
                };
                &&& overlaid(
                    window_of(old_cells, width, b),
                    chars,
                    count,
                    self.style,
                    window_of(new_cells, width, b),
                )
                &&& unchanged_outside(old_cells, new_cells, width, b)
                &&& r == if chars.len() <= area {
                    Ok::<UpdateResult, Error>(UpdateResult::NoEvent)
                } else {
                    Err::<UpdateResult, Error>(
                        Error::OutOfBoundsCoordinate { x: Some(b.left), y: Some(b.bottom) },
                    )
                }
            }
        }
    }

    fn update<T: TerminalConst>(&mut self, update_info: UpdateInfo, terminal: &T) -> (r: Result<
        UpdateResult,
        Error,
    >) {
        let bounds = terminal.bounding_box();
        match update_info {
            UpdateInfo::CellClicked(x, y, MouseButton::LeftClick) => {
                match self.bounding_box(bounds) {
                    Ok(b) => if b.contains((x, y)) {
                        Ok(UpdateResult::LifecycleEnd)
                    } else {
                        Ok(UpdateResult::NoEvent)
                    },
                    Err(_) => Ok(UpdateResult::NoEvent),
                }
            },
            UpdateInfo::CellClicked(_, _, _) => Ok(UpdateResult::NoEvent),
            _ => Ok(UpdateResult::NoRedraw),
        }
    }

    #[verifier::loop_isolation(false)]
    fn draw<T: Terminal>(&self, terminal: T) -> (res: (T, Result<UpdateResult, Error>)) {
        let ghost orig = terminal;
        proof {
            terminal.lemma_model();
            terminal.lemma_frame_refl();
        }
        let bounds = terminal.bounding_box();
        let (w, h) = terminal.dimensions();
        let b = match self.bounding_box(bounds) {
            Ok(b) => b,
            Err(_) => {
                proof {
                    assert(false);
                }
                vstd::pervasive::unreached()
            },
        };
        proof {
            self.lemma_box_in_rect(bounds);
        }
        assert(b.right <= w && b.bottom <= h);
        let mut v = match ViewMut::new(terminal, b) {
            Ok(v) => v,
            Err(_) => {
                proof {
                    assert(false);
                }
                vstd::pervasive::unreached()
            },
        };
        let (bw, bh) = v.dimensions();
        assert(bw * bh <= w * h) by (nonlinear_arith)
            requires
                bw <= w,
                bh <= h,
        ;
        let area = bw * bh;
        let len = self.prompt_text.unicode_len();
        let count = if len < area {
            len
        } else {
            area
        };
        let ghost chars = self.prompt_text@;
        let mut i: usize = 0;
        while i < count
            invariant
                v.inv(),
                v.spec_rect() == b,
                orig.spec_frame(v.spec_parent()),
                v.spec_parent().spec_width() == w,
                v.spec_parent().spec_height() == h,
                v.spec_parent().spec_default_style() == orig.spec_default_style(),
                v.spec_parent().spec_cells().len() == orig.spec_cells().len(),
                i <= count,
                unchanged_outside(orig.spec_cells(), v.spec_parent().spec_cells(), w as nat, b),
                overlaid(
                    window_of(orig.spec_cells(), w as nat, b),
                    chars,
                    i as int,
                    self.style,
                    window_of(v.spec_parent().spec_cells(), w as nat, b),
                ),
            decreases count - i,
        {
            assert(bw > 0) by (nonlinear_arith)
                requires
                    i < count,
                    count <= bw * bh,
                    0 <= i,
                    bh >= 0,
            ;
            let x = i % bw;
            let y = i / bw;
            proof {
                lemma_fundamental_div_mod(i as int, bw as int);
                assert(x < bw && y < bh) by (nonlinear_arith)
                    requires
                        0 <= i < bw * bh,
                        bw > 0,
                        i == bw * y + x,
                        0 <= x < bw,
                        0 <= y,
                ;
                assert(y * bw + x == i) by (nonlinear_arith)
                    requires
                        i == bw * y + x,
                ;
            }
            let character = self.prompt_text.get_char(i);
            let old_cell = match v.cell(x, y) {
                Some(c) => *c,
                None => {
                    proof {
                        assert(false);
                    }
                    Cell::new(' ')
                },
            };
            let ghost before = v.spec_parent();
            let new_cell = Cell { character, style: self.style.inherits(old_cell.style) };
            proof {
                assert(v.spec_cells()[y * bw + x] == window_of(
                    v.spec_parent().spec_cells(),
                    w as nat,
                    b,
                )[i as int]);
            }
            let ok = v.write_cell(x, y, new_cell);
            proof {
                assert(ok);
                orig.lemma_frame_trans(before, v.spec_parent());
                let target = (b.top + y) * (w as int) + b.left + x;
                crate::terminal::view::lemma_window_cell(
                    before.spec_cells(),
                    w as nat,
                    h as nat,
                    b,
                    x as int,
                    y as int,
                );
                assert(v.spec_parent().spec_cells() == before.spec_cells().update(
                    target,
                    new_cell,
                ));
                lemma_window_update(
                    before.spec_cells(),
                    w as nat,
                    h as nat,
                    b,
                    x as int,
                    y as int,
                    new_cell,
                );
                // the written parent index lies inside the window footprint
                lemma_fundamental_div_mod_converse(
                    target,
                    w as int,
                    b.top + y,
                    b.left + x,
                );
                assert(y * bw + x == i) by (nonlinear_arith)
                    requires
                        i == bw * y + x,
                ;
            }
            i += 1;
        }
        proof {
            v.lemma_inv();
        }
        let t2 = v.into_inner();
        if len <= area {
            (t2, Ok(UpdateResult::NoEvent))
        } else {
            (t2, Err(Error::OutOfBoundsCoordinate { x: Some(b.left()), y: Some(b.bottom()) }))
        }
    }
}

impl BoundingBox for CenteredText<'_> {
    /// The text's wrapped dimensions (full available width, as many rows
    /// as wrapping needs, each capped by the available rectangle),
    /// re-anchored so that the box's center sits at the center of the
    /// available rectangle.
    open spec fn spec_bounding_box(&self, rect: Rectangle) -> Result<Rectangle, Error> {
        Ok(self.spec_box(rect))
    }

    /// The text paints every cell of a rectangle exactly when it has at
    /// least as many characters as the rectangle has cells.
    open spec fn spec_completely_covers(&self, rectangle: Rectangle) -> bool {
        self.prompt_text@.len() >= rectangle.spec_width() * rectangle.spec_height()
    }

    fn bounding_box(&self, rect: Rectangle) -> (r: Result<Rectangle, Error>) {
        let len = self.prompt_text.unicode_len();
        let (rw, rh) = rect.dimensions();
        let width = if len < rw {
            len
        } else {
            rw
        };
        let rows = if rw == 0 {
            0
        } else if len % rw == 0 {
            len / rw
        } else {
            let q = len / rw;
            proof {
                lemma_fundamental_div_mod(len as int, rw as int);
                assert(q + 1 <= len) by (nonlinear_arith)
                    requires
                        len == rw * q + len as int % rw as int,
                        1 <= len as int % rw as int,
                        rw >= 1,
                        q >= 0,
                ;
            }
            q + 1
        };
        let height = if rows < rh {
            rows
        } else {
            rh
        };
        proof {
            self.lemma_box_in_rect(rect);
        }
        assert(self.spec_bounding_box(rect) == Ok::<Rectangle, Error>(self.spec_box(rect)));
        let left = rect.left() + rw / 2 - width / 2;
        let top = rect.top() + rh / 2 - height / 2;
        Ok(Rectangle { left, top, right: left + width, bottom: top + height })
    }

    fn completely_covers(&self, rectangle: Rectangle) -> (r: bool) {
        let len = self.prompt_text.unicode_len();
        let (w, h) = rectangle.dimensions();
        match w.checked_mul(h) {
            Some(area) => len >= area,
            None => {
                assert(w * h > usize::MAX >= len);
                false
            },
        }
    }
}

} // verus!
