//! The [`CenteredPrompt`] widget: a centered body text with a row of
//! buttons underneath.

use vstd::prelude::*;

use crate::errors::Error;
use crate::style::Style;
use crate::terminal::Cell;
use crate::terminal::Rectangle;
use crate::terminal::view::unchanged_outside;
use crate::terminal::Terminal;
use crate::terminal::TerminalConst;
use crate::terminal::UpdateInfo;
use crate::terminal::UpdateResult;
use crate::widgets::builtins::buttons::lemma_cursor_bounds;
use crate::widgets::builtins::buttons::lemma_rows_monotone;
use crate::widgets::builtins::buttons::spec_cursor;
use crate::widgets::builtins::buttons::spec_placement;
use crate::widgets::builtins::buttons::spec_row_extent_at;
use crate::widgets::builtins::buttons::spec_rows;
use crate::widgets::builtins::centered_text::CenteredText;
use crate::widgets::builtins::screen_rect;
use crate::widgets::BoundingBox;
use crate::widgets::Widget;

verus! {

/// A prompt: a centered body text, and a list of buttons flowed across
/// the rows under the text's box, one of which can be selected.
#[derive(Copy, Clone)]
pub struct CenteredPrompt<'a> {
    /// The body text of the prompt.
    pub centered_text: CenteredText<'a>,
    /// The text of each button.
    pub buttons: &'a [&'a str],
    /// The style for the selected button.
    pub selected_button_style: Style,
    /// The style for the unselected buttons.
    pub unselected_button_style: Style,
    /// The button currently hovered over, if any.
    pub hovered_button: Option<usize>,
}

impl<'a> CenteredPrompt<'a> {
    /// The button labels, as sequences of characters.
    pub open spec fn spec_labels(&self) -> Seq<Seq<char>> {
        Seq::new(self.buttons@.len(), |i: int| self.buttons@[i]@)
    }

    /// The style laid over button `i`'s cells: the selected or the
    /// unselected button style, over the body text's style, over whatever
    /// was in the cell.
    pub open spec fn spec_style_of(&self, i: int, old_style: crate::style::Style)
        -> crate::style::Style {
        (if self.hovered_button == Some(i as usize) {
            self.selected_button_style
        } else {
            self.unselected_button_style
        }).spec_inherits(self.centered_text.style.spec_inherits(old_style))
    }

    /// The total number of characters of the labels `s..e`.
    pub open spec fn spec_sum_lens(&self, s: int, e: int) -> int
        decreases e - s,
    {
        if s >= e {
            0
        } else {
            self.spec_labels()[s].len() + self.spec_sum_lens(s + 1, e)
        }
    }

    /// The shift that centers the flow row holding label `i`: half the
    /// width left over beside the row's labels.
    pub open spec fn spec_row_shift(&self, i: int, w: int) -> int {
        (w - spec_row_extent_at(self.spec_labels(), i, w)) / 2
    }

    /// The linear cell index of character `k` of label `i` in the
    /// centered button flow whose first row is terminal row `top`.
    pub open spec fn spec_button_cell(&self, i: int, k: int, w: int, top: int) -> int {
        (top + spec_placement(self.spec_labels(), i, w).0) * w + self.spec_row_shift(i, w)
            + spec_placement(self.spec_labels(), i, w).1 + k
    }

    /// Whether linear cell `p` lies under some character of one of the
    /// first `upto` labels of the centered button flow below `top`.
    pub open spec fn spec_prompt_covered(&self, upto: int, w: int, top: int, p: int) -> bool {
        exists|i: int|
            0 <= i < upto && (top + (#[trigger] spec_placement(self.spec_labels(), i, w)).0) * w
                + self.spec_row_shift(i, w) + spec_placement(self.spec_labels(), i, w).1 <= p < (top
                + spec_placement(self.spec_labels(), i, w).0) * w + self.spec_row_shift(i, w)
                + spec_placement(self.spec_labels(), i, w).1 + spec_placement(
                self.spec_labels(),
                i,
                w,
            ).2
    }


    /// Create a new [`CenteredPrompt`] with the given body text and
    /// buttons; the selected button is underlined, and nothing is
    /// selected yet.
    #[must_use]
    pub fn new(text: &'a str, buttons: &'a [&'a str]) -> (r: Self)
        ensures
            r.centered_text.prompt_text@ == text@,
            r.centered_text.style.is_unset(),
            r.buttons@ == buttons@,
            r.selected_button_style == (Style {
                underline: Some(true),
                fg_colour: None,
                bg_colour: None,
                font_weight: None,
                invert: None,
                strikethrough: None,
                italic: None,
            }),
            r.unselected_button_style.is_unset(),
            r.hovered_button is None,
    {
        Self {
            centered_text: CenteredText::new(text),
            selected_button_style: Style::new().underlined(),
            unselected_button_style: Style::new(),
            hovered_button: None,
            buttons,
        }
    }

    /// The currently selected button's index, if any.
    #[must_use]
    pub fn selected(&self) -> (r: Option<usize>)
        ensures
            r == self.hovered_button,
    {
        self.hovered_button
    }

    /// Select a button by its index, left to right; an index past the
    /// buttons changes nothing.
    #[must_use]
    pub fn select(self, selection: usize) -> (r: Self)
        ensures
            selection < self.buttons@.len() ==> r == (CenteredPrompt {
                hovered_button: Some(selection),
                ..self
            }),
            selection >= self.buttons@.len() ==> r == self,
    {
        if selection < self.buttons.len() {
            Self { hovered_button: Some(selection), ..self }
        } else {
            self
        }
    }

    /// Deselect.
    #[must_use]
    pub fn select_none(self) -> (r: Self)
        ensures
            r == (CenteredPrompt { hovered_button: None, ..self }),
    {
        Self { hovered_button: None, ..self }
    }

    /// Select the rightmost button, or nothing when there are no
    /// buttons.
    #[must_use]
    pub fn select_rightmost(self) -> (r: Self)
        ensures
            self.buttons@.len() > 0 ==> r == (CenteredPrompt {
                hovered_button: Some((self.buttons@.len() - 1) as usize),
                ..self
            }),
            self.buttons@.len() == 0 ==> r == (CenteredPrompt { hovered_button: None, ..self }),
    {
        let n = self.buttons.len();
        if n == 0 {
            self.select_none()
        } else {
            self.select(n - 1)
        }
    }

    /// Select the rightmost button; right is not last in all languages,
    /// so this alias exists.
    #[must_use]
    pub fn select_last(self) -> (r: Self)
        ensures
            self.buttons@.len() > 0 ==> r == (CenteredPrompt {
                hovered_button: Some((self.buttons@.len() - 1) as usize),
                ..self
            }),
            self.buttons@.len() == 0 ==> r == (CenteredPrompt { hovered_button: None, ..self }),
    {
        self.select_rightmost()
    }

    /// Select the leftmost button, or change nothing when there are no
    /// buttons.
    #[must_use]
    pub fn select_leftmost(self) -> (r: Self)
        ensures
            self.buttons@.len() > 0 ==> r == (CenteredPrompt {
                hovered_button: Some(0usize),
                ..self
            }),
            self.buttons@.len() == 0 ==> r == self,
    {
        self.select(0)
    }

    /// Select the leftmost button; left is not first in all languages,
    /// so this alias exists.
    #[must_use]
    pub fn select_first(self) -> (r: Self)
        ensures
            self.buttons@.len() > 0 ==> r == (CenteredPrompt {
                hovered_button: Some(0usize),
                ..self
            }),
            self.buttons@.len() == 0 ==> r == self,
    {
        self.select_leftmost()
    }

    /// Select the button to the right of the selection; with no
    /// selection, the rightmost button.
    #[must_use]
    pub fn move_right(self) -> (r: Self)
        ensures
            match self.hovered_button {
                Some(i) => if i + 1 < self.buttons@.len() {
                    r == (CenteredPrompt { hovered_button: Some((i + 1) as usize), ..self })
                } else {
                    r == self
                },
                None => if self.buttons@.len() > 0 {
                    r == (CenteredPrompt {
                        hovered_button: Some((self.buttons@.len() - 1) as usize),
                        ..self
                    })
                } else {
                    r == (CenteredPrompt { hovered_button: None, ..self })
                },
            },
    {
        let n = self.buttons.len();
        match self.hovered_button {
            Some(i) => {
                if n > 0 && i < n - 1 {
                    self.select(i + 1)
                } else {
                    self
                }
            },
            None => self.select_rightmost(),
        }
    }

    /// Select the button to the left of the selection; with no
    /// selection, or at the leftmost button, the leftmost button.
    #[must_use]
    pub fn move_left(self) -> (r: Self)
        ensures
            match self.hovered_button {
                Some(i) => if i >= 1 && i - 1 < self.buttons@.len() {
                    r == (CenteredPrompt { hovered_button: Some((i - 1) as usize), ..self })
                } else if i >= 1 {
                    r == self
                } else if self.buttons@.len() > 0 {
                    r == (CenteredPrompt { hovered_button: Some(0usize), ..self })
                } else {
                    r == self
                },
                None => if self.buttons@.len() > 0 {
                    r == (CenteredPrompt { hovered_button: Some(0usize), ..self })
                } else {
                    r == self
                },
            },
    {
        match self.hovered_button {
            Some(i) => {
                if i >= 1 {
                    self.select(i - 1)
                } else {
                    self.select_leftmost()
                }
            },
            None => self.select_leftmost(),
        }
    }

    /// Every label's length is part of the total of its row.
    proof fn lemma_sum_lens_bounds(&self, s: int, j: int, e: int)
        requires
            0 <= s <= j <= e <= self.spec_labels().len(),
        ensures
            0 <= self.spec_sum_lens(s, j),
            self.spec_sum_lens(s, j) + self.spec_sum_lens(j, e) == self.spec_sum_lens(s, e),
        decreases j - s,
    {
        if s < j {
            self.lemma_sum_lens_bounds(s + 1, j, e);
        }
    }

    /// In a group whose lengths sum to zero, every label is empty.
    proof fn lemma_sum_lens_zero(&self, s: int, i: int, e: int)
        requires
            0 <= s <= i < e <= self.spec_labels().len(),
            self.spec_sum_lens(s, e) == 0,
        ensures
            self.spec_labels()[i].len() == 0,
    {
        self.lemma_sum_lens_bounds(s, i, e);
        self.lemma_sum_lens_bounds(i + 1, e, e);
        assert(self.spec_sum_lens(i, e) == self.spec_labels()[i].len() + self.spec_sum_lens(
            i + 1,
            e,
        ));
    }

    /// Every offset within a group's total length falls under one of the
    /// group's labels.
    proof fn lemma_sum_pick(&self, s: int, e: int, q: int)
        requires
            0 <= s <= e <= self.spec_labels().len(),
            0 <= q < self.spec_sum_lens(s, e),
        ensures
            exists|i: int|
                s <= i < e && #[trigger] self.spec_sum_lens(s, i) <= q < self.spec_sum_lens(s, i)
                    + self.spec_labels()[i].len(),
        decreases e - s,
    {
        assert(s < e);
        if q < self.spec_labels()[s].len() {
            assert(self.spec_sum_lens(s, s) == 0);
        } else {
            let head = self.spec_labels()[s].len() as int;
            assert(self.spec_sum_lens(s, e) == head + self.spec_sum_lens(s + 1, e));
            self.lemma_sum_pick(s + 1, e, q - head);
            let i = choose|i: int|
                s + 1 <= i < e && #[trigger] self.spec_sum_lens(s + 1, i) <= q - head
                    < self.spec_sum_lens(s + 1, i) + self.spec_labels()[i].len();
            assert(self.spec_sum_lens(s, i) == head + self.spec_sum_lens(s + 1, i));
            assert(s <= i < e && self.spec_sum_lens(s, i) <= q < self.spec_sum_lens(s, i)
                + self.spec_labels()[i].len());
        }
    }

    /// Within one complete flow row, every label's row extent is the
    /// row's total length.
    proof fn lemma_row_extent(&self, s: int, i: int, e: int, row: int, w: int)
        requires
            0 <= s <= i < e <= self.spec_labels().len(),
            forall|j: int|
                s <= j < e ==> #[trigger] spec_placement(self.spec_labels(), j, w) == (
                    row,
                    self.spec_sum_lens(s, j),
                    self.spec_labels()[j].len() as int,
                ),
            e == self.spec_labels().len() || spec_placement(self.spec_labels(), e, w).0 != row,
        ensures
            spec_row_extent_at(self.spec_labels(), i, w) == self.spec_sum_lens(s, e),
        decreases e - i,
    {
        if i + 1 == e {
            self.lemma_sum_lens_bounds(s, i, e);
            assert(self.spec_sum_lens(i + 1, i + 1) == 0);
            assert(self.spec_sum_lens(i, e) == self.spec_labels()[i].len() + self.spec_sum_lens(
                i + 1,
                e,
            ));
        } else {
            self.lemma_row_extent(s, i + 1, e, row, w);
        }
    }

    /// A cell covered by one of the first `upto` labels lies above the
    /// row after every one of their rows.
    proof fn lemma_covered_below(&self, upto: int, w: int, top: int, row: int, p: int)
        requires
            0 <= w,
            0 <= top,
            forall|i: int|
                0 <= i < upto ==> {
                    let pl = #[trigger] spec_placement(self.spec_labels(), i, w);
                    &&& 0 <= pl.0 < row
                    &&& 0 <= pl.1
                    &&& 0 <= pl.2
                    &&& 0 <= self.spec_row_shift(i, w)
                    &&& self.spec_row_shift(i, w) + pl.1 + pl.2 <= w
                },
            self.spec_prompt_covered(upto, w, top, p),
        ensures
            p < (top + row) * w,
    {
        let i = choose|i: int|
            0 <= i < upto && (top + (#[trigger] spec_placement(self.spec_labels(), i, w)).0) * w
                + self.spec_row_shift(i, w) + spec_placement(self.spec_labels(), i, w).1 <= p < (top
                + spec_placement(self.spec_labels(), i, w).0) * w + self.spec_row_shift(i, w)
                + spec_placement(self.spec_labels(), i, w).1 + spec_placement(
                self.spec_labels(),
                i,
                w,
            ).2;
        let pl = spec_placement(self.spec_labels(), i, w);
        assert(p < (top + pl.0) * w + w);
        assert((top + pl.0) * w + w == (top + pl.0 + 1) * w) by (nonlinear_arith);
        vstd::arithmetic::mul::lemma_mul_inequality(top + pl.0 + 1, top + row, w);
    }

    /// Coverage only grows with the label count.
    proof fn lemma_covered_mono(&self, a: int, b: int, w: int, top: int, p: int)
        requires
            0 <= a <= b,
            self.spec_prompt_covered(a, w, top, p),
        ensures
            self.spec_prompt_covered(b, w, top, p),
    {
        let i = choose|i: int|
            0 <= i < a && (top + (#[trigger] spec_placement(self.spec_labels(), i, w)).0) * w
                + self.spec_row_shift(i, w) + spec_placement(self.spec_labels(), i, w).1 <= p < (top
                + spec_placement(self.spec_labels(), i, w).0) * w + self.spec_row_shift(i, w)
                + spec_placement(self.spec_labels(), i, w).1 + spec_placement(
                self.spec_labels(),
                i,
                w,
            ).2;
        assert(0 <= i < b);
    }
}

impl<'a> CenteredPrompt<'a> {
    /// Draw one button label at `(x, y)`: its characters land in the
    /// cells `x .. x + len` of row `y`, each styled with the button's
    /// style over the body text's style over the old cell; nothing else
    /// changes.
    #[verifier::loop_isolation(false)]
    fn draw_label<T: Terminal>(&self, terminal: T, index: usize, x: usize, y: usize) -> (t2: T)
        requires
            terminal.inv(),
            index < self.spec_labels().len(),
            y < terminal.spec_height(),
            x + self.spec_labels()[index as int].len() <= terminal.spec_width(),
        ensures
            t2.inv(),
            terminal.spec_frame(t2),
            t2.spec_width() == terminal.spec_width(),
            t2.spec_height() == terminal.spec_height(),
            t2.spec_default_style() == terminal.spec_default_style(),
            t2.spec_cells().len() == terminal.spec_cells().len(),
            forall|k: int|
                0 <= k < self.spec_labels()[index as int].len() ==> #[trigger] t2.spec_cells()[y
                    * terminal.spec_width() + x + k] == (Cell {
                    character: self.spec_labels()[index as int][k],
                    style: self.spec_style_of(
                        index as int,
                        terminal.spec_cells()[y * terminal.spec_width() + x + k].style,
                    ),
                }),
            forall|p: int|
                0 <= p < terminal.spec_cells().len() && !(y * terminal.spec_width() + x <= p < y
                    * terminal.spec_width() + x + self.spec_labels()[index as int].len())
                    ==> #[trigger] t2.spec_cells()[p] == terminal.spec_cells()[p],
    {
        let ghost mid = terminal.spec_cells();
        let ghost labels = self.spec_labels();
        let mut t = terminal;
        proof {
            t.lemma_model();
            t.lemma_frame_refl();
        }
        let (w, h) = t.dimensions();
        let label = self.buttons[index];
        let len = label.unicode_len();
        let selected = match self.hovered_button {
            Some(sel) => sel == index,
            None => false,
        };
        let button_style = if selected {
            self.selected_button_style
        } else {
            self.unselected_button_style
        };
        let mut k: usize = 0;
        while k < len
            invariant
                t.inv(),
                terminal.spec_frame(t),
                t.spec_width() == w,
                t.spec_height() == h,
                t.spec_default_style() == terminal.spec_default_style(),
                t.spec_cells().len() == mid.len(),
                k <= len,
                forall|kk: int|
                    0 <= kk < k ==> #[trigger] t.spec_cells()[y * (w as int) + x + kk] == (Cell {
                        character: labels[index as int][kk],
                        style: self.spec_style_of(
                            index as int,
                            mid[y * (w as int) + x + kk].style,
                        ),
                    }),
                forall|p: int|
                    0 <= p < mid.len() && !(y * (w as int) + x <= p < y * (w as int) + x + k)
                        ==> #[trigger] t.spec_cells()[p] == mid[p],
            decreases len - k,
        {
            assert(y * w + x + k < w * h) by (nonlinear_arith)
                requires
                    y < h,
                    x + k < x + len <= w,
                    0 <= y,
                    0 <= x,
                    0 <= k,
            ;
            let character = label.get_char(k);
            let old_cell = match t.cell(x + k, y) {
                Some(c) => *c,
                None => {
                    proof {
                        assert(false);
                    }
                    Cell::new(' ')
                },
            };
            let layered = button_style.inherits(self.centered_text.style.inherits(old_cell.style));
            let ghost before = t;
            let ok = t.set_cell(x + k, y, Cell { character, style: layered });
            proof {
                assert(ok);
                terminal.lemma_frame_trans(before, t);
                assert(y * (w as int) + (x + k) == y * (w as int) + x + k);
            }
            k += 1;
        }
        t
    }

    /// Draw one row of the button flow, horizontally centered: labels
    /// `s..e`, whose lengths sum to `total`, land contiguously on
    /// terminal row `y`, shifted right by `(width - total) / 2`, each
    /// styled with its button's style over the body text's style over
    /// the old cell. Nothing outside that centered span changes.
    #[verifier::loop_isolation(false)]
    #[verifier::rlimit(100)]
    fn flow_row<T: Terminal>(&self, terminal: T, y: usize, s: usize, e: usize, total: usize) -> (t2:
        T)
        requires
            terminal.inv(),
            s <= e <= self.spec_labels().len(),
            total <= terminal.spec_width(),
            y < terminal.spec_height(),
            self.spec_sum_lens(s as int, e as int) == total,
        ensures
            t2.inv(),
            terminal.spec_frame(t2),
            t2.spec_width() == terminal.spec_width(),
            t2.spec_height() == terminal.spec_height(),
            t2.spec_default_style() == terminal.spec_default_style(),
            t2.spec_cells().len() == terminal.spec_cells().len(),
            forall|i: int, k: int|
                s <= i < e && 0 <= k < self.spec_labels()[i].len()
                    ==> #[trigger] t2.spec_cells()[y * terminal.spec_width() + (
                terminal.spec_width() - total) / 2 + self.spec_sum_lens(s as int, i) + k] == (Cell {
                    character: self.spec_labels()[i][k],
                    style: self.spec_style_of(
                        i,
                        terminal.spec_cells()[y * terminal.spec_width() + (terminal.spec_width()
                            - total) / 2 + self.spec_sum_lens(s as int, i) + k].style,
                    ),
                }),
            forall|p: int|
                0 <= p < terminal.spec_cells().len() && !(y * terminal.spec_width() + (
                terminal.spec_width() - total) / 2 <= p < y * terminal.spec_width() + (
                terminal.spec_width() - total) / 2 + total) ==> #[trigger] t2.spec_cells()[p]
                    == terminal.spec_cells()[p],
            forall|p: int|
                0 <= p < terminal.spec_cells().len() && !(y * terminal.spec_width() <= p < (y + 1)
                    * terminal.spec_width()) ==> #[trigger] t2.spec_cells()[p]
                    == terminal.spec_cells()[p],
    {
        let ghost mid = terminal.spec_cells();
        let ghost labels = self.spec_labels();
        let mut t = terminal;
        proof {
            t.lemma_model();
            t.lemma_frame_refl();
        }
        let (w, h) = t.dimensions();
        let shift = (w - total) / 2;
        proof {
            assert(y * (w as int) + w == (y + 1) * (w as int)) by (nonlinear_arith);
            assert((y + 1) * w <= h * w <= w * h) by (nonlinear_arith)
                requires
                    y + 1 <= h,
                    0 <= w,
                    0 <= h,
            ;
        }
        let mut j: usize = s;
        let mut col: usize = shift;
        while j < e
            invariant
                t.inv(),
                terminal.spec_frame(t),
                t.spec_width() == w,
                t.spec_height() == h,
                t.spec_default_style() == terminal.spec_default_style(),
                t.spec_cells().len() == mid.len(),
                s <= j <= e,
                col - shift == self.spec_sum_lens(s as int, j as int),
                col <= shift + total,
                forall|i: int, k: int|
                    s <= i < j && 0 <= k < labels[i].len() ==> #[trigger] t.spec_cells()[y * (
                    w as int) + shift + self.spec_sum_lens(s as int, i) + k] == (Cell {
                        character: labels[i][k],
                        style: self.spec_style_of(
                            i,
                            mid[y * (w as int) + shift + self.spec_sum_lens(s as int, i)
                                + k].style,
                        ),
                    }),
                forall|p: int|
                    0 <= p < mid.len() && !(y * (w as int) + shift <= p < y * (w as int) + col)
                        ==> #[trigger] t.spec_cells()[p] == mid[p],
            decreases e - j,
        {
            let label = self.buttons[j];
            let len = label.unicode_len();
            proof {
                self.lemma_sum_lens_bounds(s as int, j as int, e as int);
                self.lemma_sum_lens_bounds(j as int + 1, e as int, e as int);
                assert(self.spec_sum_lens(j as int, e as int) == len + self.spec_sum_lens(
                    j as int + 1,
                    e as int,
                ));
                assert(col - shift + len <= total);
                assert(shift + total <= w);
            }
            let ghost tprev = t;
            let ghost tb = t.spec_cells();
            let t_next = self.draw_label(t, j, col, y);
            proof {
                terminal.lemma_frame_trans(t, t_next);
            }
            t = t_next;
            proof {
                self.lemma_sum_lens_bounds(s as int, j as int + 1, e as int);
                assert(self.spec_sum_lens(s as int, j as int + 1) == self.spec_sum_lens(
                    s as int,
                    j as int,
                ) + len);
                assert forall|i: int, k: int|
                    s <= i < j + 1 && 0 <= k < labels[i].len() implies #[trigger] t.spec_cells()[y
                    * (w as int) + shift + self.spec_sum_lens(s as int, i) + k] == (Cell {
                    character: labels[i][k],
                    style: self.spec_style_of(
                        i,
                        mid[y * (w as int) + shift + self.spec_sum_lens(s as int, i) + k].style,
                    ),
                }) by {
                    if i == j {
                        assert(y * (w as int) + shift + self.spec_sum_lens(s as int, i) + k == y
                            * (w as int) + col + k);
                        assert(t.spec_cells()[y * tprev.spec_width() + col + k] == (Cell {
                            character: labels[i][k],
                            style: self.spec_style_of(i, tb[y * tprev.spec_width() + col
                                + k].style),
                        }));
                        assert(tb[y * (w as int) + col + k] == mid[y * (w as int) + col + k]);
                    } else {
                        self.lemma_sum_lens_bounds(s as int, i, i + 1);
                        assert(self.spec_sum_lens(i + 1, i + 1) == 0);
                        assert(self.spec_sum_lens(i, i + 1) == labels[i].len()
                            + self.spec_sum_lens(i + 1, i + 1));
                        self.lemma_sum_lens_bounds(s as int, i + 1, j as int);
                        self.lemma_sum_lens_bounds(i + 1, j as int, j as int);
                        let idx = y * (w as int) + shift + self.spec_sum_lens(s as int, i) + k;
                        assert(self.spec_sum_lens(s as int, i) + k < self.spec_sum_lens(
                            s as int,
                            i + 1,
                        ));
                        assert(idx < y * (w as int) + col);
                        assert(t.spec_cells()[idx] == tb[idx]);
                    }
                }
            }
            col = col + len;
            j += 1;
        }
        proof {
            assert forall|p: int|
                0 <= p < mid.len() && !(y * (w as int) <= p < (y + 1) * (w as int)) implies (
            #[trigger] t.spec_cells()[p]) == mid[p] by {
                assert(y * (w as int) <= y * (w as int) + shift);
                assert(y * (w as int) + col <= (y + 1) * (w as int));
            }
        }
        t
    }

    /// Flow the button labels into the rows of `terminal` from row `top`
    /// down: labels group greedily into rows, each row drawn horizontally
    /// centered by [`CenteredPrompt::flow_row`], so each label's
    /// characters land at its [`CenteredPrompt::spec_button_cell`]
    /// positions, styled over the cells found there; every cell under no
    /// label — and every row above `top` — is untouched.
    #[verifier::loop_isolation(false)]
    #[verifier::rlimit(100)]
    fn flow_buttons<T: Terminal>(&self, terminal: T, top: usize) -> (t2: T)
        requires
            terminal.inv(),
            top <= terminal.spec_height(),
            forall|j: int|
                0 <= j < self.spec_labels().len() ==> (#[trigger] self.spec_labels()[j]).len()
                    <= terminal.spec_width(),
            spec_rows(
                self.spec_labels(),
                self.spec_labels().len() as int,
                terminal.spec_width() as int,
            ) <= terminal.spec_height() - top,
        ensures
            t2.inv(),
            terminal.spec_frame(t2),
            t2.spec_width() == terminal.spec_width(),
            t2.spec_height() == terminal.spec_height(),
            t2.spec_default_style() == terminal.spec_default_style(),
            t2.spec_cells().len() == terminal.spec_cells().len(),
            unchanged_outside(
                terminal.spec_cells(),
                t2.spec_cells(),
                terminal.spec_width(),
                Rectangle {
                    left: 0,
                    top,
                    right: terminal.spec_width() as usize,
                    bottom: terminal.spec_height() as usize,
                },
            ),
            forall|i: int, k: int|
                0 <= i < self.spec_labels().len() && 0 <= k < self.spec_labels()[i].len()
                    ==> t2.spec_cells()[#[trigger] self.spec_button_cell(
                    i,
                    k,
                    terminal.spec_width() as int,
                    top as int,
                )] == (Cell {
                    character: self.spec_labels()[i][k],
                    style: self.spec_style_of(
                        i,
                        terminal.spec_cells()[self.spec_button_cell(
                            i,
                            k,
                            terminal.spec_width() as int,
                            top as int,
                        )].style,
                    ),
                }),
            forall|p: int|
                0 <= p < terminal.spec_cells().len() && !self.spec_prompt_covered(
                    self.spec_labels().len() as int,
                    terminal.spec_width() as int,
                    top as int,
                    p,
                ) ==> #[trigger] t2.spec_cells()[p] == terminal.spec_cells()[p],
    {
        let ghost mid = terminal.spec_cells();
        let ghost labels = self.spec_labels();
        let mut t = terminal;
        proof {
            t.lemma_model();
            t.lemma_frame_refl();
        }
        let (w, h) = t.dimensions();
        let n = self.buttons.len();
        let ghost rows = spec_rows(labels, n as int, w as int);
        proof {
            lemma_cursor_bounds(labels, n as int, w as int);
            assert(top * w <= h * w <= w * h) by (nonlinear_arith)
                requires
                    top <= h,
                    0 <= w,
                    0 <= h,
            ;
        }
        let mut s: usize = 0;
        let mut row: usize = 0;
        while s < n
            invariant
                t.inv(),
                terminal.spec_frame(t),
                t.spec_width() == w,
                t.spec_height() == h,
                t.spec_default_style() == terminal.spec_default_style(),
                t.spec_cells().len() == mid.len(),
                mid.len() == w * h,
                n == labels.len(),
                n == self.buttons@.len(),
                labels == self.spec_labels(),
                forall|j: int| 0 <= j < n ==> (#[trigger] labels[j]).len() <= w,
                s <= n,
                row <= s,
                rows == spec_rows(labels, n as int, w as int),
                rows <= h - top,
                s == 0 ==> row == 0,
                s > 0 ==> {
                    &&& spec_cursor(labels, s as int, w as int).1 == row - 1
                    &&& s < n ==> spec_cursor(labels, s as int, w as int).0 + labels[
                        s as int].len() > w
                },
                forall|p: int| 0 <= p < top * (w as int) ==> #[trigger] t.spec_cells()[p]
                    == mid[p],
                forall|i: int, k: int|
                    0 <= i < s && 0 <= k < labels[i].len()
                        ==> t.spec_cells()[#[trigger] self.spec_button_cell(
                        i,
                        k,
                        w as int,
                        top as int,
                    )] == (Cell {
                        character: labels[i][k],
                        style: self.spec_style_of(
                            i,
                            mid[self.spec_button_cell(i, k, w as int, top as int)].style,
                        ),
                    }),
                forall|p: int|
                    0 <= p < mid.len() && !self.spec_prompt_covered(
                        s as int,
                        w as int,
                        top as int,
                        p,
                    ) ==> #[trigger] t.spec_cells()[p] == mid[p],
                forall|i: int|
                    0 <= i < s ==> {
                        let pl = #[trigger] spec_placement(labels, i, w as int);
                        &&& 0 <= pl.0 < row
                        &&& 0 <= pl.1
                        &&& 0 <= pl.2
                        &&& 0 <= self.spec_row_shift(i, w as int)
                        &&& self.spec_row_shift(i, w as int) + pl.1 + pl.2 <= w
                    },
            decreases n - s,
        {
            proof {
                lemma_cursor_bounds(labels, s as int, w as int);
                assert(spec_placement(labels, s as int, w as int) == (
                    row as int,
                    0int,
                    labels[s as int].len() as int,
                ));
            }
            // find the end of this row and its total length
            let mut e: usize = s;
            let mut total: usize = 0;
            while e < n && self.buttons[e].unicode_len() <= w - total
                invariant
                    s <= e <= n,
                    s < n,
                    n == labels.len(),
                    n == self.buttons@.len(),
                    labels == self.spec_labels(),
                    forall|j: int| 0 <= j < n ==> (#[trigger] labels[j]).len() <= w,
                    spec_placement(labels, s as int, w as int) == (
                        row as int,
                        0int,
                        labels[s as int].len() as int,
                    ),
                    total <= w,
                    e == s ==> total == 0,
                    e > s ==> (total as int, row as int) == spec_cursor(labels, e as int, w as int),
                    total == self.spec_sum_lens(s as int, e as int),
                    forall|jj: int|
                        s <= jj < e ==> #[trigger] spec_placement(labels, jj, w as int) == (
                            row as int,
                            self.spec_sum_lens(s as int, jj),
                            labels[jj].len() as int,
                        ),
                decreases n - e,
            {
                proof {
                    if e > s {
                        assert(spec_placement(labels, e as int, w as int) == (
                            row as int,
                            total as int,
                            labels[e as int].len() as int,
                        ));
                    }
                    self.lemma_sum_lens_bounds(s as int, e as int, e as int + 1);
                    assert(self.spec_sum_lens(e as int + 1, e as int + 1) == 0);
                    assert(self.spec_sum_lens(e as int, e as int + 1) == labels[e as int].len());
                    assert(self.spec_sum_lens(s as int, s as int) == 0);
                }
                total = total + self.buttons[e].unicode_len();
                e += 1;
            }
            proof {
                assert(e > s);
                if e < n {
                    assert(spec_cursor(labels, e as int, w as int) == (total as int, row as int));
                    assert(spec_placement(labels, e as int, w as int).0 == row + 1);
                }
                // the whole group shares one row extent, so one shift
                assert forall|i: int|
                    s <= i < e implies #[trigger] spec_row_extent_at(labels, i, w as int)
                    == total by {
                    self.lemma_row_extent(s as int, i, e as int, row as int, w as int);
                }
                assert forall|i: int|
                    s <= i < e implies {
                    let pl = #[trigger] spec_placement(labels, i, w as int);
                    &&& 0 <= pl.0 < row + 1
                    &&& 0 <= pl.1
                    &&& 0 <= pl.2
                    &&& 0 <= self.spec_row_shift(i, w as int)
                    &&& self.spec_row_shift(i, w as int) + pl.1 + pl.2 <= w
                } by {
                    self.lemma_sum_lens_bounds(s as int, i, e as int);
                    self.lemma_sum_lens_bounds(s as int, i + 1, e as int);
                    self.lemma_sum_lens_bounds(i + 1, e as int, e as int);
                    self.lemma_sum_lens_bounds(s as int, i, i + 1);
                    assert(self.spec_sum_lens(i + 1, i + 1) == 0);
                    assert(self.spec_sum_lens(i, i + 1) == labels[i].len() + self.spec_sum_lens(
                        i + 1,
                        i + 1,
                    ));
                    assert(spec_row_extent_at(labels, i, w as int) == total);
                }
            }
            if total > 0 {
                proof {
                    // a nonempty row is counted, so its terminal row exists
                    assert(spec_rows(labels, e as int, w as int) == row + 1);
                    lemma_rows_monotone(labels, e as int, n as int, w as int);
                    assert(row < rows);
                    assert(top + row < h);
                }
                let ghost tprev = t;
                let t_next = self.flow_row(t, top + row, s, e, total);
                proof {
                    terminal.lemma_frame_trans(t, t_next);
                }
                t = t_next;
                proof {
                    assert forall|p: int| 0 <= p < top * (w as int) implies (
                    #[trigger] t.spec_cells()[p]) == mid[p] by {
                        vstd::arithmetic::mul::lemma_mul_inequality(
                            top as int,
                            top + row,
                            w as int,
                        );
                        assert(p < (top + row) * (w as int));
                    }
                    let y = (top + row) as int;
                    assert((top + row) * (w as int) + w == (top + row + 1) * (w as int))
                        by (nonlinear_arith);
                    assert forall|i: int, k: int|
                        0 <= i < e && 0 <= k < labels[i].len() implies t.spec_cells()[
                    #[trigger] self.spec_button_cell(i, k, w as int, top as int)] == (Cell {
                        character: labels[i][k],
                        style: self.spec_style_of(
                            i,
                            mid[self.spec_button_cell(i, k, w as int, top as int)].style,
                        ),
                    }) by {
                        let idx = self.spec_button_cell(i, k, w as int, top as int);
                        if i < s {
                            let pl = spec_placement(labels, i, w as int);
                            assert(idx < (top + pl.0) * (w as int) + w);
                            assert((top + pl.0) * (w as int) + w == (top + pl.0 + 1) * (w as int))
                                by (nonlinear_arith);
                            vstd::arithmetic::mul::lemma_mul_inequality(
                                top + pl.0 + 1,
                                top + row,
                                w as int,
                            );
                            assert((top + pl.0) * (w as int) >= 0) by (nonlinear_arith)
                                requires
                                    top + pl.0 >= 0,
                                    w >= 0,
                            ;
                            assert(0 <= idx);
                            vstd::arithmetic::mul::lemma_mul_inequality(
                                top + row,
                                h as int,
                                w as int,
                            );
                            assert((h as int) * (w as int) == (w as int) * (h as int))
                                by (nonlinear_arith);
                            assert(idx < mid.len());
                            assert(!(y * (w as int) <= idx < (y + 1) * (w as int)));
                            assert(t.spec_cells()[idx] == tprev.spec_cells()[idx]);
                        } else {
                            let pl = spec_placement(labels, i, w as int);
                            assert(pl == (
                                row as int,
                                self.spec_sum_lens(s as int, i),
                                labels[i].len() as int,
                            ));
                            assert(spec_row_extent_at(labels, i, w as int) == total);
                            self.lemma_sum_lens_bounds(s as int, i, e as int);
                            self.lemma_sum_lens_bounds(s as int, i + 1, e as int);
                            self.lemma_sum_lens_bounds(i + 1, e as int, e as int);
                            self.lemma_sum_lens_bounds(s as int, i, i + 1);
                            assert(self.spec_sum_lens(i + 1, i + 1) == 0);
                            assert(self.spec_sum_lens(i, i + 1) == labels[i].len()
                                + self.spec_sum_lens(i + 1, i + 1));
                            assert(idx == y * (w as int) + ((w as int) - total) / 2
                                + self.spec_sum_lens(s as int, i) + k);
                            assert(idx < y * (w as int) + w);
                            vstd::arithmetic::mul::lemma_mul_inequality(
                                top + row + 1,
                                h as int,
                                w as int,
                            );
                            assert((y + 1) * (w as int) == y * (w as int) + w)
                                by (nonlinear_arith);
                            assert((h as int) * (w as int) == (w as int) * (h as int))
                                by (nonlinear_arith);
                            assert(0 <= idx < mid.len());
                            assert(t.spec_cells()[y * tprev.spec_width() + (tprev.spec_width()
                                - total) / 2 + self.spec_sum_lens(s as int, i) + k] == (Cell {
                                character: labels[i][k],
                                style: self.spec_style_of(
                                    i,
                                    tprev.spec_cells()[y * tprev.spec_width() + (
                                    tprev.spec_width() - total) / 2 + self.spec_sum_lens(
                                        s as int,
                                        i,
                                    ) + k].style,
                                ),
                            }));
                            assert(idx >= y * (w as int));
                            assert(!self.spec_prompt_covered(
                                s as int,
                                w as int,
                                top as int,
                                idx,
                            )) by {
                                if self.spec_prompt_covered(s as int, w as int, top as int, idx) {
                                    self.lemma_covered_below(
                                        s as int,
                                        w as int,
                                        top as int,
                                        row as int,
                                        idx,
                                    );
                                }
                            }
                            assert(tprev.spec_cells()[idx] == mid[idx]);
                        }
                    }
                    assert forall|p: int|
                        0 <= p < mid.len() && !self.spec_prompt_covered(
                            e as int,
                            w as int,
                            top as int,
                            p,
                        ) implies (#[trigger] t.spec_cells()[p]) == mid[p] by {
                        assert(!self.spec_prompt_covered(s as int, w as int, top as int, p)) by {
                            if self.spec_prompt_covered(s as int, w as int, top as int, p) {
                                self.lemma_covered_mono(s as int, e as int, w as int, top as int, p);
                            }
                        }
                        assert(tprev.spec_cells()[p] == mid[p]);
                        let shift = ((w as int) - total) / 2;
                        if y * (w as int) + shift <= p < y * (w as int) + shift + total {
                            self.lemma_sum_pick(s as int, e as int, p - (y * (w as int) + shift));
                            let i = choose|i: int|
                                s <= i < e && #[trigger] self.spec_sum_lens(s as int, i) <= p - (y
                                    * (w as int) + shift) < self.spec_sum_lens(s as int, i)
                                    + self.spec_labels()[i].len();
                            assert(spec_placement(labels, i, w as int) == (
                                row as int,
                                self.spec_sum_lens(s as int, i),
                                labels[i].len() as int,
                            ));
                            assert(spec_row_extent_at(labels, i, w as int) == total);
                            assert(self.spec_prompt_covered(e as int, w as int, top as int, p));
                            assert(false);
                        } else {
                            assert(t.spec_cells()[p] == tprev.spec_cells()[p]);
                        }
                    }
                }
            } else {
                proof {
                    assert forall|i: int, k: int|
                        0 <= i < e && 0 <= k < labels[i].len() implies t.spec_cells()[
                    #[trigger] self.spec_button_cell(i, k, w as int, top as int)] == (Cell {
                        character: labels[i][k],
                        style: self.spec_style_of(
                            i,
                            mid[self.spec_button_cell(i, k, w as int, top as int)].style,
                        ),
                    }) by {
                        if i >= s {
                            self.lemma_sum_lens_zero(s as int, i, e as int);
                        }
                    }
                    assert forall|p: int|
                        0 <= p < mid.len() && !self.spec_prompt_covered(
                            e as int,
                            w as int,
                            top as int,
                            p,
                        ) implies (#[trigger] t.spec_cells()[p]) == mid[p] by {
                        assert(!self.spec_prompt_covered(s as int, w as int, top as int, p)) by {
                            if self.spec_prompt_covered(s as int, w as int, top as int, p) {
                                self.lemma_covered_mono(s as int, e as int, w as int, top as int, p);
                            }
                        }
                    }
                }
            }
            s = e;
            row += 1;
        }
        proof {
            let band = Rectangle { left: 0, top, right: w, bottom: h };
            assert(unchanged_outside(mid, t.spec_cells(), w as nat, band)) by {
                assert forall|p: int|
                    0 <= p < mid.len() && !(band.left <= p % (w as int) < band.right && band.top
                        <= p / (w as int) < band.bottom) implies (#[trigger] t.spec_cells()[p])
                    == mid[p] by {
                    assert(w > 0) by (nonlinear_arith)
                        requires
                            0 <= p < w * h,
                            0 <= h,
                    ;
                    vstd::arithmetic::div_mod::lemma_fundamental_div_mod(p, w as int);
                    vstd::arithmetic::div_mod::lemma_mod_division_less_than_divisor(p, w as int);
                    assert(p / (w as int) < h) by (nonlinear_arith)
                        requires
                            p == (w as int) * (p / (w as int)) + p % (w as int),
                            0 <= p < w * h,
                            0 <= p % (w as int) < w,
                            w > 0,
                    ;
                    assert(p / (w as int) < top);
                    assert(p < top * (w as int)) by (nonlinear_arith)
                        requires
                            p == (w as int) * (p / (w as int)) + p % (w as int),
                            p / (w as int) < top,
                            p % (w as int) < w,
                            w > 0,
                    ;
                }
            }
        }
        t
    }
}

impl Widget for CenteredPrompt<'_> {
    /// Reacting to events is not implemented for the prompt; every
    /// update reports [`Error::Todo`] and changes nothing.
    open spec fn spec_update(
        &self,
        next: Self,
        update_info: UpdateInfo,
        width: nat,
        height: nat,
        r: Result<UpdateResult, Error>,
    ) -> bool {
        next == *self && r == Err::<UpdateResult, Error>(Error::Todo)
    }

    /// The body text draws centered; then the button labels flow into
    /// the rows under the text's box, grouped greedily, each row
    /// horizontally centered: character `k` of label `i` lands at
    /// [`CenteredPrompt::spec_button_cell`], its button's style laid over
    /// the body text's style over the old cell, and every cell under no
    /// label is untouched by the second stage. A label wider than the
    /// terminal reports [`Error::Todo`]; a flow needing more rows than
    /// remain under the text reports out of bounds; either way the
    /// buttons are not drawn.
    open spec fn spec_draw(
        &self,
        width: nat,
        height: nat,
        style: Style,
        old_cells: Seq<Cell>,
        new_cells: Seq<Cell>,
        r: Result<UpdateResult, Error>,
    ) -> bool {
        exists|mid: Seq<Cell>, r1: Result<UpdateResult, Error>|
            {
                &&& #[trigger] self.centered_text.spec_draw(
                    width,
                    height,
                    style,
                    old_cells,
                    mid,
                    r1,
                )
                &&& mid.len() == old_cells.len()
                &&& match r1 {
                    Err(e1) => r == Err::<UpdateResult, Error>(e1) && new_cells == mid,
                    Ok(_) => {
                        let b = self.centered_text.spec_box(screen_rect(width, height));
                        let labels = self.spec_labels();
                        let n = labels.len() as int;
                        let w = width as int;
                        if exists|i: int| 0 <= i < n && (#[trigger] labels[i]).len() > w {
                            r == Err::<UpdateResult, Error>(Error::Todo) && new_cells == mid
                        } else if spec_rows(labels, n, w) > height - b.bottom {
                            r == Err::<UpdateResult, Error>(
                                Error::OutOfBoundsCoordinate { x: None, y: None },
                            ) && new_cells == mid
                        } else {
                            &&& r == Ok::<UpdateResult, Error>(UpdateResult::NoEvent)
                            &&& new_cells.len() == mid.len()
                            &&& unchanged_outside(
                                mid,
                                new_cells,
                                width,
                                Rectangle {
                                    left: 0,
                                    top: b.bottom,
                                    right: width as usize,
                                    bottom: height as usize,
                                },
                            )
                            &&& forall|i: int, k: int|
                                0 <= i < n && 0 <= k < labels[i].len()
                                    ==> new_cells[#[trigger] self.spec_button_cell(
                                    i,
                                    k,
                                    w,
                                    b.bottom as int,
                                )] == (Cell {
                                    character: labels[i][k],
                                    style: self.spec_style_of(
                                        i,
                                        mid[self.spec_button_cell(
                                            i,
                                            k,
                                            w,
                                            b.bottom as int,
                                        )].style,
                                    ),
                                })
                            &&& forall|p: int|
                                0 <= p < mid.len() && !self.spec_prompt_covered(
                                    n,
                                    w,
                                    b.bottom as int,
                                    p,
                                ) ==> #[trigger] new_cells[p] == mid[p]
                        }
                    },
                }
            }
    }

    fn update<T: TerminalConst>(&mut self, _update_info: UpdateInfo, _terminal: &T) -> (r: Result<
        UpdateResult,
        Error,
    >) {
        Err(Error::Todo)
    }

    fn draw<T: Terminal>(&self, terminal: T) -> (res: (T, Result<UpdateResult, Error>)) {
        proof {
            terminal.lemma_model();
            terminal.lemma_frame_refl();
        }
        let bounds = terminal.bounding_box();
        let (w, h) = terminal.dimensions();
        let (t1, r1) = self.centered_text.draw(terminal);
        let ghost mid = t1.spec_cells();
        match r1 {
            Err(e1) => (t1, Err(e1)),
            Ok(_) => {
                proof {
                    t1.lemma_model();
                    self.centered_text.lemma_box_in_rect(bounds);
                }
                let b = match self.centered_text.bounding_box(bounds) {
                    Ok(b) => b,
                    Err(_) => {
                        proof {
                            assert(false);
                        }
                        vstd::pervasive::unreached()
                    },
                };
                let ghost labels = self.spec_labels();
                let n = self.buttons.len();
                // a label wider than the terminal cannot be flowed
                let mut too_long = false;
                let mut i: usize = 0;
                while i < n
                    invariant
                        i <= n,
                        n == labels.len(),
                        labels == self.spec_labels(),
                        too_long <==> exists|j: int| 0 <= j < i && (#[trigger] labels[j]).len()
                            > w,
                    decreases n - i,
                {
                    let len = self.buttons[i].unicode_len();
                    if len > w {
                        too_long = true;
                        proof {
                            assert(labels[i as int].len() > w);
                        }
                    } else {
                        proof {
                            assert(labels[i as int].len() <= w);
                        }
                    }
                    i += 1;
                }
                if too_long {
                    return (t1, Err(Error::Todo));
                }
                // how many rows the flow needs
                let mut cx: usize = 0;
                let mut cy: usize = 0;
                i = 0;
                while i < n
                    invariant
                        i <= n,
                        n == labels.len(),
                        labels == self.spec_labels(),
                        forall|j: int| 0 <= j < n ==> (#[trigger] labels[j]).len() <= w,
                        (cx as int, cy as int) == spec_cursor(labels, i as int, w as int),
                        cx <= w,
                        cy <= i,
                    decreases n - i,
                {
                    let len = self.buttons[i].unicode_len();
                    if len > w - cx {
                        cx = len;
                        cy = cy + 1;
                    } else {
                        cx = cx + len;
                    }
                    i += 1;
                }
                let avail = h - b.bottom();
                let rows = if cx > 0 {
                    match cy.checked_add(1) {
                        Some(v) => v,
                        None => {
                            // more rows than any terminal has
                            proof {
                                assert(spec_rows(labels, n as int, w as int) > h - b.bottom);
                            }
                            return (t1, Err(Error::oob()));
                        },
                    }
                } else {
                    cy
                };
                assert(rows == spec_rows(labels, n as int, w as int));
                if rows > avail {
                    return (t1, Err(Error::oob()));
                }
                let t2 = self.flow_buttons(t1, b.bottom());
                proof {
                    terminal.lemma_frame_trans(t1, t2);
                }
                (t2, Ok(UpdateResult::NoEvent))
            },
        }
    }
}

} // verus!
