//! The [`Buttons`] widget: a row of labels that wraps at the terminal's
//! right edge.

use vstd::prelude::*;
use vstd::string::StrSliceExecFns;

use crate::errors::Error;
use crate::style::Style;
use crate::terminal::Cell;
use crate::terminal::Rectangle;
use crate::terminal::Terminal;
use crate::terminal::TerminalConst;
use crate::terminal::UpdateInfo;
use crate::terminal::UpdateResult;
use crate::widgets::BoundingBox;
use crate::widgets::Widget;

verus! {

/// The cursor (column, row) after flowing the first `k` labels into rows
/// of the given width: a label that cannot finish on the current row
/// wraps to the next; a label wider than a whole row is hard-truncated to
/// the row's width on a row of its own.
pub open spec fn spec_cursor(labels: Seq<Seq<char>>, k: int, width: int) -> (int, int)
    decreases k,
{
    if k <= 0 {
        (0, 0)
    } else {
        let prev = spec_cursor(labels, k - 1, width);
        let len = labels[k - 1].len() as int;
        if len > width {
            (
                0,
                (if prev.0 > 0 {
                    prev.1 + 1
                } else {
                    prev.1
                }) + 1,
            )
        } else if prev.0 + len > width {
            (len, prev.1 + 1)
        } else {
            (prev.0 + len, prev.1)
        }
    }
}

/// Where label `k` lands in the flow: its (row, column) and how many of
/// its characters are drawn (all of them, or a whole row's width when the
/// label is wider than a row).
pub open spec fn spec_placement(labels: Seq<Seq<char>>, k: int, width: int) -> (int, int, int) {
    let prev = spec_cursor(labels, k, width);
    let len = labels[k].len() as int;
    if len > width {
        (
            if prev.0 > 0 {
                prev.1 + 1
            } else {
                prev.1
            },
            0,
            width,
        )
    } else if prev.0 + len > width {
        (prev.1 + 1, 0, len)
    } else {
        (prev.1, prev.0, len)
    }
}

/// How many rows flowing the first `k` labels takes.
pub open spec fn spec_rows(labels: Seq<Seq<char>>, k: int, width: int) -> int {
    let end = spec_cursor(labels, k, width);
    if end.0 > 0 {
        end.1 + 1
    } else {
        end.1
    }
}

/// The widest row extent the flow of the first `k` labels reaches.
pub open spec fn spec_flow_width(labels: Seq<Seq<char>>, k: int, width: int) -> int
    decreases k,
{
    if k <= 0 {
        0
    } else {
        let w = spec_flow_width(labels, k - 1, width);
        let p = spec_placement(labels, k - 1, width);
        if p.1 + p.2 > w {
            p.1 + p.2
        } else {
            w
        }
    }
}

/// Whether linear cell `p` of a terminal `width` cells wide lies under
/// some character of one of the first `upto` labels of the flow, on a
/// row below `height`.
pub open spec fn spec_flow_covered(
    labels: Seq<Seq<char>>,
    upto: int,
    width: int,
    height: int,
    p: int,
) -> bool {
    exists|i: int|
        0 <= i < upto && (#[trigger] spec_placement(labels, i, width)).0 < height
            && spec_placement(labels, i, width).0 * width + spec_placement(labels, i, width).1
            <= p < spec_placement(labels, i, width).0 * width + spec_placement(labels, i, width).1
            + spec_placement(labels, i, width).2
}

/// The extent of the row containing label `i`: the column one past the
/// last character of the last label on that row.
pub open spec fn spec_row_extent_at(labels: Seq<Seq<char>>, i: int, width: int) -> int
    decreases labels.len() - i,
{
    if i < 0 || i >= labels.len() {
        0
    } else if i + 1 >= labels.len() || spec_placement(labels, i + 1, width).0 != spec_placement(
        labels,
        i,
        width,
    ).0 {
        spec_placement(labels, i, width).1 + spec_placement(labels, i, width).2
    } else {
        spec_row_extent_at(labels, i + 1, width)
    }
}

/// The row count of a flow never shrinks as labels are added.
pub proof fn lemma_rows_monotone(labels: Seq<Seq<char>>, j: int, m: int, width: int)
    requires
        width >= 0,
        0 <= j <= m,
    ensures
        spec_rows(labels, j, width) <= spec_rows(labels, m, width),
    decreases m - j,
{
    if j < m {
        lemma_cursor_bounds(labels, m - 1, width);
        lemma_rows_monotone(labels, j, m - 1, width);
    }
}

/// The cursor's column stays within the row width, and its row never
/// moves back as labels are added.
pub proof fn lemma_cursor_bounds(labels: Seq<Seq<char>>, k: int, width: int)
    requires
        width >= 0,
    ensures
        0 <= spec_cursor(labels, k, width).0 <= width,
        0 <= spec_cursor(labels, k, width).1,
        k > 0 ==> spec_cursor(labels, k - 1, width).1 <= spec_cursor(labels, k, width).1,
    decreases k,
{
    if k > 0 {
        lemma_cursor_bounds(labels, k - 1, width);
    }
}

/// Placement rows never move back as labels are added, and each
/// placement lies at or below its cursor's row.
pub proof fn lemma_rows_monotonic(labels: Seq<Seq<char>>, i: int, j: int, width: int)
    requires
        width >= 0,
        0 <= i <= j,
    ensures
        spec_placement(labels, i, width).0 <= spec_placement(labels, j, width).0,
        spec_cursor(labels, i, width).1 <= spec_placement(labels, i, width).0,
    decreases j - i,
{
    lemma_cursor_bounds(labels, i, width);
    lemma_cursor_bounds(labels, i + 1, width);
    if i < j {
        lemma_rows_monotonic(labels, i + 1, j, width);
        lemma_cursor_bounds(labels, j, width);
    }
}

/// A list of labels flowed into rows, left to right, wrapping at the
/// right edge; one label can be selected by index.
#[derive(Copy, Clone)]
pub struct Buttons<'a> {
    /// The labels to display.
    pub buttons: &'a [&'a str],
    /// The style for the selected label.
    pub selected_button_style: Style,
    /// The style for the unselected labels.
    pub unselected_button_style: Style,
    /// The index of the currently hovered label, if any.
    pub hovered_button: Option<usize>,
}

impl<'a> Buttons<'a> {
    /// The labels, as sequences of characters.
    pub open spec fn spec_labels(&self) -> Seq<Seq<char>> {
        Seq::new(self.buttons@.len(), |i: int| self.buttons@[i]@)
    }

    /// The style for label `i`.
    pub open spec fn spec_style_of(&self, i: int) -> Style {
        if self.hovered_button == Some(i as usize) {
            self.selected_button_style
        } else {
            self.unselected_button_style
        }
    }

    /// Create a new [`Buttons`] widget over the given labels, with unset
    /// styles and no selection.
    #[must_use]
    pub fn new(buttons: &'a [&'a str]) -> (r: Self)
        ensures
            r.buttons@ == buttons@,
            r.selected_button_style.is_unset(),
            r.unselected_button_style.is_unset(),
            r.hovered_button is None,
    {
        Self {
            buttons,
            selected_button_style: Style::new(),
            unselected_button_style: Style::new(),
            hovered_button: None,
        }
    }

    /// The currently selected label's index, if any.
    #[must_use]
    pub fn selected(&self) -> (r: Option<usize>)
        ensures
            r == self.hovered_button,
    {
        self.hovered_button
    }

    /// Select a label by its index, left to right; an index past the
    /// labels changes nothing.
    #[must_use]
    pub fn select(self, selection: usize) -> (r: Self)
        ensures
            selection < self.buttons@.len() ==> r == (Buttons {
                hovered_button: Some(selection),
                ..self
            }),
            selection >= self.buttons@.len() ==> r == self,
    {
        if selection < self.buttons.len() {
            Self { hovered_button: Some(selection), ..self }
        } else {
            self
        }
    }

    /// Deselect.
    #[must_use]
    pub fn select_none(self) -> (r: Self)
        ensures
            r == (Buttons { hovered_button: None, ..self }),
    {
        Self { hovered_button: None, ..self }
    }

    /// Select the rightmost label, or nothing when there are no labels.
    #[must_use]
    pub fn select_rightmost(self) -> (r: Self)
        ensures
            self.buttons@.len() > 0 ==> r == (Buttons {
                hovered_button: Some((self.buttons@.len() - 1) as usize),
                ..self
            }),
            self.buttons@.len() == 0 ==> r == (Buttons { hovered_button: None, ..self }),
    {
        let n = self.buttons.len();
        if n == 0 {
            self.select_none()
        } else {
            self.select(n - 1)
        }
    }

    /// Select the rightmost label; right is not last in all languages,
    /// so this alias exists.
    #[must_use]
    pub fn select_last(self) -> (r: Self)
        ensures
            self.buttons@.len() > 0 ==> r == (Buttons {
                hovered_button: Some((self.buttons@.len() - 1) as usize),
                ..self
            }),
            self.buttons@.len() == 0 ==> r == (Buttons { hovered_button: None, ..self }),
    {
        self.select_rightmost()
    }

    /// Select the leftmost label, or change nothing when there are no
    /// labels.
    #[must_use]
    pub fn select_leftmost(self) -> (r: Self)
        ensures
            self.buttons@.len() > 0 ==> r == (Buttons { hovered_button: Some(0usize), ..self }),
            self.buttons@.len() == 0 ==> r == self,
    {
        self.select(0)
    }

    /// Select the leftmost label; left is not first in all languages, so
    /// this alias exists.
    #[must_use]
    pub fn select_first(self) -> (r: Self)
        ensures
            self.buttons@.len() > 0 ==> r == (Buttons { hovered_button: Some(0usize), ..self }),
            self.buttons@.len() == 0 ==> r == self,
    {
        self.select_leftmost()
    }

    /// Select the label to the right of the selection; with no selection,
    /// the rightmost label.
    #[must_use]
    pub fn move_right(self) -> (r: Self)
        ensures
            match self.hovered_button {
                Some(i) => if i + 1 < self.buttons@.len() {
                    r == (Buttons { hovered_button: Some((i + 1) as usize), ..self })
                } else {
                    r == self
                },
                None => if self.buttons@.len() > 0 {
                    r == (Buttons {
                        hovered_button: Some((self.buttons@.len() - 1) as usize),
                        ..self
                    })
                } else {
                    r == (Buttons { hovered_button: None, ..self })
                },
            },
    {
        let n = self.buttons.len();
        match self.hovered_button {
            Some(i) => {
                if n > 0 && i < n - 1 {
                    self.select(i + 1)
                } else {
                    self
                }
            },
            None => self.select_rightmost(),
        }
    }

    /// Select the label to the left of the selection; with no selection,
    /// or at the leftmost label, the leftmost label.
    #[must_use]
    pub fn move_left(self) -> (r: Self)
        ensures
            match self.hovered_button {
                Some(i) => if i >= 1 && i - 1 < self.buttons@.len() {
                    r == (Buttons { hovered_button: Some((i - 1) as usize), ..self })
                } else if i >= 1 {
                    r == self
                } else if self.buttons@.len() > 0 {
                    r == (Buttons { hovered_button: Some(0usize), ..self })
                } else {
                    r == self
                },
                None => if self.buttons@.len() > 0 {
                    r == (Buttons { hovered_button: Some(0usize), ..self })
                } else {
                    r == self
                },
            },
    {
        match self.hovered_button {
            Some(i) => {
                if i >= 1 {
                    self.select(i - 1)
                } else {
                    self.select_leftmost()
                }
            },
            None => self.select_leftmost(),
        }
    }
}

impl Widget for Buttons<'_> {
    /// Reacting to events is not implemented for the bare label flow;
    /// every update reports [`Error::Todo`] and changes nothing.
    open spec fn spec_update(
        &self,
        next: Self,
        update_info: UpdateInfo,
        width: nat,
        height: nat,
        r: Result<UpdateResult, Error>,
    ) -> bool {
        next == *self && r == Err::<UpdateResult, Error>(Error::Todo)
    }

    /// Every label lands at its flow placement, each drawn character
    /// keeping the cell's style where the label's style leaves a property
    /// unset, and every cell not under a drawn label — the remainders of
    /// wrapped rows included — is untouched. When the flow needs more
    /// rows than the terminal has, the labels on the rows that exist are
    /// drawn and the rest are reported out of bounds.
    open spec fn spec_draw(
        &self,
        width: nat,
        height: nat,
        style: Style,
        old_cells: Seq<Cell>,
        new_cells: Seq<Cell>,
        r: Result<UpdateResult, Error>,
    ) -> bool {
        let labels = self.spec_labels();
        let w = width as int;
        let fits = labels.len() == 0 || spec_placement(labels, labels.len() - 1, w).0 < height;
        &&& new_cells.len() == old_cells.len()
        &&& r == if fits {
            Ok::<UpdateResult, Error>(UpdateResult::NoEvent)
        } else {
            Err::<UpdateResult, Error>(Error::OutOfBoundsCoordinate { x: None, y: None })
        }
        &&& forall|i: int, k: int|
            0 <= i < labels.len() && 0 <= k < spec_placement(labels, i, w).2 && spec_placement(
                labels,
                i,
                w,
            ).0 < height ==> #[trigger] new_cells[spec_placement(labels, i, w).0 * w
                + spec_placement(labels, i, w).1 + k] == Cell {
                character: labels[i][k],
                style: self.spec_style_of(i).spec_inherits(
                    old_cells[spec_placement(labels, i, w).0 * w + spec_placement(labels, i, w).1
                        + k].style,
                ),
            }
        &&& fits ==> forall|p: int|
            spec_cursor(labels, labels.len() as int, w).1 * w + spec_cursor(
                labels,
                labels.len() as int,
                w,
            ).0 <= p < old_cells.len() ==> #[trigger] new_cells[p] == old_cells[p]
        &&& forall|p: int|
            0 <= p < old_cells.len() && !spec_flow_covered(
                labels,
                labels.len() as int,
                w,
                height as int,
                p,
            ) ==> #[trigger] new_cells[p] == old_cells[p]
    }

    fn update<T: TerminalConst>(&mut self, _update_info: UpdateInfo, _terminal: &T) -> (r: Result<
        UpdateResult,
        Error,
    >) {
        Err(Error::Todo)
    }

    #[verifier::loop_isolation(false)]
    #[verifier::rlimit(80)]
    fn draw<T: Terminal>(&self, terminal: T) -> (res: (T, Result<UpdateResult, Error>)) {
        let ghost orig = terminal;
        let mut t = terminal;
        proof {
            t.lemma_model();
            t.lemma_frame_refl();
        }
        let (w, h) = t.dimensions();
        let ghost labels = self.spec_labels();
        let n = self.buttons.len();
        let mut cx: usize = 0;
        let mut cy: usize = 0;
        let mut i: usize = 0;
        let mut overflowed = false;
        while i < n && !overflowed
            invariant
                t.inv(),
                orig.spec_frame(t),
                t.spec_width() == w,
                t.spec_height() == h,
                t.spec_default_style() == orig.spec_default_style(),
                t.spec_cells().len() == orig.spec_cells().len(),
                orig.spec_cells().len() == w * h,
                n == labels.len(),
                labels == self.spec_labels(),
                i <= n,
                !overflowed ==> (cx as int, cy as int) == spec_cursor(labels, i as int, w as int),
                !overflowed ==> cx <= w && (cy < h || (cx == 0 && cy <= h)),
                overflowed ==> spec_placement(labels, i as int - 1, w as int).0 >= h && i >= 1,
                !overflowed && i > 0 ==> spec_placement(labels, i as int - 1, w as int).0 < h,
                !overflowed ==> forall|j: int|
                    0 <= j < i ==> #[trigger] spec_placement(labels, j, w as int).0 * (w as int)
                        + spec_placement(labels, j, w as int).1 + spec_placement(
                        labels,
                        j,
                        w as int,
                    ).2 <= cy * (w as int) + cx,
                forall|j: int, k: int|
                    0 <= j < i && 0 <= k < spec_placement(labels, j, w as int).2 && spec_placement(
                        labels,
                        j,
                        w as int,
                    ).0 < h ==> #[trigger] t.spec_cells()[spec_placement(labels, j, w as int).0 * (
                    w as int) + spec_placement(labels, j, w as int).1 + k] == (Cell {
                        character: labels[j][k],
                        style: self.spec_style_of(j).spec_inherits(
                            orig.spec_cells()[spec_placement(labels, j, w as int).0 * (w as int)
                                + spec_placement(labels, j, w as int).1 + k].style,
                        ),
                    }),
                forall|p: int|
                    (if overflowed {
                        h * (w as int)
                    } else {
                        cy * (w as int) + cx
                    }) <= p < w * h ==> #[trigger] t.spec_cells()[p] == orig.spec_cells()[p],
                forall|p: int|
                    0 <= p < w * h && !spec_flow_covered(labels, i as int, w as int, h as int, p)
                        ==> #[trigger] t.spec_cells()[p] == orig.spec_cells()[p],
            decreases n - i,
        {
            proof {
                lemma_cursor_bounds(labels, i as int, w as int);
                lemma_cursor_bounds(labels, i + 1, w as int);
            }
            let label = self.buttons[i];
            let len = label.unicode_len();
            // decide this label's placement from the cursor
            let (row, col, dlen) = if len > w {
                let row = if cx > 0 {
                    match cy.checked_add(1) {
                        Some(v) => v,
                        None => {
                            overflowed = true;
                            proof {
                                assert(spec_placement(labels, i as int, w as int).0 >= h);
                            }
                            i += 1;
                            continue ;
                        },
                    }
                } else {
                    cy
                };
                (row, 0usize, w)
            } else if len > w - cx {
                let row = match cy.checked_add(1) {
                    Some(v) => v,
                    None => {
                        overflowed = true;
                        proof {
                            assert(spec_placement(labels, i as int, w as int).0 >= h);
                        }
                        i += 1;
                        continue ;
                    },
                };
                (row, 0usize, len)
            } else {
                (cy, cx, len)
            };
            if row >= h {
                overflowed = true;
                proof {
                    assert(spec_placement(labels, i as int, w as int).0 >= h);
                    assert forall|p: int|
                        0 <= p < w * h && !spec_flow_covered(
                            labels,
                            i as int + 1,
                            w as int,
                            h as int,
                            p,
                        ) implies #[trigger] t.spec_cells()[p] == orig.spec_cells()[p] by {
                        assert(!spec_flow_covered(labels, i as int, w as int, h as int, p));
                    }
                }
                i += 1;
                continue ;
            }
            let style = match self.hovered_button {
                Some(sel) => if sel == i {
                    self.selected_button_style
                } else {
                    self.unselected_button_style
                },
                None => self.unselected_button_style,
            };
            assert(style == self.spec_style_of(i as int));
            assert(cy * w + cx <= row * w + col) by (nonlinear_arith)
                requires
                    (row == cy && col == cx) || (row == cy + 1 && col == 0 && cx <= w),
                    0 <= cy,
                    0 <= cx,
                    w >= 0,
            ;
            // draw the label's characters on its row
            let mut k: usize = 0;
            while k < dlen
                invariant
                    t.inv(),
                    orig.spec_frame(t),
                    t.spec_width() == w,
                    t.spec_height() == h,
                    t.spec_default_style() == orig.spec_default_style(),
                    t.spec_cells().len() == orig.spec_cells().len(),
                    k <= dlen,
                    (row as int, col as int, dlen as int) == spec_placement(
                        labels,
                        i as int,
                        w as int,
                    ),
                    row < h,
                    col + dlen <= w,
                    i < n,
                    dlen <= labels[i as int].len(),
                    style == self.spec_style_of(i as int),
                    forall|j: int|
                        0 <= j < i ==> #[trigger] spec_placement(labels, j, w as int).0 * (w as int)
                            + spec_placement(labels, j, w as int).1 + spec_placement(
                            labels,
                            j,
                            w as int,
                        ).2 <= row * (w as int) + col,
                    forall|j: int, kk: int|
                        0 <= j < i && 0 <= kk < spec_placement(labels, j, w as int).2
                            && spec_placement(labels, j, w as int).0 < h
                            ==> #[trigger] t.spec_cells()[spec_placement(labels, j, w as int).0 * (
                        w as int) + spec_placement(labels, j, w as int).1 + kk] == (Cell {
                            character: labels[j][kk],
                            style: self.spec_style_of(j).spec_inherits(
                                orig.spec_cells()[spec_placement(labels, j, w as int).0 * (
                                w as int) + spec_placement(labels, j, w as int).1 + kk].style,
                            ),
                        }),
                    forall|kk: int|
                        0 <= kk < k ==> #[trigger] t.spec_cells()[row * (w as int) + col + kk]
                            == (Cell {
                            character: labels[i as int][kk],
                            style: self.spec_style_of(i as int).spec_inherits(
                                orig.spec_cells()[row * (w as int) + col + kk].style,
                            ),
                        }),
                    forall|p: int|
                        row * (w as int) + col + k <= p < w * h
                            ==> #[trigger] t.spec_cells()[p] == orig.spec_cells()[p],
                    forall|p: int|
                        0 <= p < w * h && !spec_flow_covered(
                            labels,
                            i as int,
                            w as int,
                            h as int,
                            p,
                        ) && !(row * (w as int) + col <= p < row * (w as int) + col + k)
                            ==> #[trigger] t.spec_cells()[p] == orig.spec_cells()[p],
                decreases dlen - k,
            {
                assert(row * w + col + k < w * h) by (nonlinear_arith)
                    requires
                        row < h,
                        col + k < col + dlen <= w,
                        0 <= row,
                        0 <= col,
                        0 <= k,
                ;
                let character = label.get_char(k);
                let old_cell = match t.cell(col + k, row) {
                    Some(c) => *c,
                    None => {
                        proof {
                            assert(false);
                        }
                        Cell::new(' ')
                    },
                };
                let ghost before = t;
                let new_cell = Cell { character, style: style.inherits(old_cell.style) };
                let ok = t.set_cell(col + k, row, new_cell);
                proof {
                    assert(ok);
                    orig.lemma_frame_trans(before, t);
                    assert(row * (w as int) + (col + k) == row * (w as int) + col + k);
                    assert forall|j: int, kk: int|
                        0 <= j < i && 0 <= kk < spec_placement(labels, j, w as int).2
                            && spec_placement(labels, j, w as int).0 < h implies (
                    #[trigger] t.spec_cells()[spec_placement(labels, j, w as int).0 * (w as int)
                        + spec_placement(labels, j, w as int).1 + kk]) == (Cell {
                        character: labels[j][kk],
                        style: self.spec_style_of(j).spec_inherits(
                            orig.spec_cells()[spec_placement(labels, j, w as int).0 * (w as int)
                                + spec_placement(labels, j, w as int).1 + kk].style,
                        ),
                    }) by {
                        lemma_cursor_bounds(labels, j, w as int);
                        lemma_rows_monotonic(labels, j, j, w as int);
                        assert(spec_placement(labels, j, w as int).0 * (w as int)
                            + spec_placement(labels, j, w as int).1 + spec_placement(
                            labels,
                            j,
                            w as int,
                        ).2 <= row * (w as int) + col);
                        assert(spec_placement(labels, j, w as int).0 * (w as int)
                            + spec_placement(labels, j, w as int).1 + kk < row * (w as int) + col);
                        assert(spec_placement(labels, j, w as int).0 * (w as int)
                            + spec_placement(labels, j, w as int).1 + kk != row * (w as int) + (col
                            + k));
                        let pos = spec_placement(labels, j, w as int).0 * (w as int)
                            + spec_placement(labels, j, w as int).1 + kk;
                        assert(spec_placement(labels, j, w as int).0 >= 0 && spec_placement(
                            labels,
                            j,
                            w as int,
                        ).1 >= 0) by (nonlinear_arith)
                            requires
                                spec_cursor(labels, j, w as int).0 >= 0,
                                spec_cursor(labels, j, w as int).1 >= 0,
                                spec_placement(labels, j, w as int).0 >= spec_cursor(
                                    labels,
                                    j,
                                    w as int,
                                ).1,
                                spec_placement(labels, j, w as int).1 == 0 || spec_placement(
                                    labels,
                                    j,
                                    w as int,
                                ).1 == spec_cursor(labels, j, w as int).0,
                        ;
                        assert(pos >= 0) by (nonlinear_arith)
                            requires
                                spec_placement(labels, j, w as int).0 >= 0,
                                spec_placement(labels, j, w as int).1 >= 0,
                                kk >= 0,
                                w >= 0,
                                pos == spec_placement(labels, j, w as int).0 * (w as int)
                                    + spec_placement(labels, j, w as int).1 + kk,
                        ;
                        assert(0 <= pos < before.spec_cells().len());
                        assert(t.spec_cells() == before.spec_cells().update(
                            row * (w as int) + (col + k),
                            new_cell,
                        ));
                        assert(before.spec_cells()[pos] == (Cell {
                            character: labels[j][kk],
                            style: self.spec_style_of(j).spec_inherits(
                                orig.spec_cells()[pos].style,
                            ),
                        }));
                        assert(t.spec_cells()[pos] == before.spec_cells()[pos]);
                    }
                }
                k += 1;
            }
            proof {
                assert forall|p: int|
                    0 <= p < w * h && !spec_flow_covered(
                        labels,
                        i as int + 1,
                        w as int,
                        h as int,
                        p,
                    ) implies #[trigger] t.spec_cells()[p] == orig.spec_cells()[p] by {
                    assert(!spec_flow_covered(labels, i as int, w as int, h as int, p));
                    if row * (w as int) + col <= p < row * (w as int) + col + dlen {
                        assert(spec_flow_covered(labels, i as int + 1, w as int, h as int, p));
                    }
                }
            }
            // move the cursor past this label
            let new_cx = if len > w {
                0
            } else if len > w - cx {
                len
            } else {
                cx + len
            };
            let new_cy = if len > w {
                row + 1
            } else if len > w - cx {
                row
            } else {
                cy
            };
            proof {
                assert((new_cx as int, new_cy as int) == spec_cursor(labels, i + 1, w as int));
                assert(new_cy * (w as int) + new_cx >= row * (w as int) + col + dlen)
                    by (nonlinear_arith)
                    requires
                        (new_cy == row + 1 && new_cx == 0 && col + dlen <= w) || (new_cy == row
                            && new_cx == col + dlen),
                        0 <= row,
                        0 <= col,
                        0 <= dlen,
                        col + dlen <= w,
                ;
            }
            cx = new_cx;
            cy = new_cy;
            i += 1;
        }
        proof {
            if overflowed {
                lemma_rows_monotonic(labels, i as int - 1, n as int - 1, w as int);
                assert forall|j: int, k: int|
                    0 <= j < n && 0 <= k < spec_placement(labels, j, w as int).2 && spec_placement(
                        labels,
                        j,
                        w as int,
                    ).0 < h implies #[trigger] t.spec_cells()[spec_placement(labels, j, w as int).0
                    * (w as int) + spec_placement(labels, j, w as int).1 + k] == Cell {
                    character: labels[j][k],
                    style: self.spec_style_of(j).spec_inherits(
                        orig.spec_cells()[spec_placement(labels, j, w as int).0 * (w as int)
                            + spec_placement(labels, j, w as int).1 + k].style,
                    ),
                } by {
                    if j >= i {
                        lemma_rows_monotonic(labels, i as int - 1, j, w as int);
                    }
                }
                lemma_rows_monotonic(labels, i as int - 1, n as int - 1, w as int);
                assert(spec_placement(labels, n as int - 1, w as int).0 >= h);
            }
        }
        if overflowed {
            (t, Err(Error::oob()))
        } else {
            (t, Ok(UpdateResult::NoEvent))
        }
    }
}

impl BoundingBox for Buttons<'_> {
    /// The flow's extent: its widest row and the rows it takes; when it
    /// takes more rows than the available rectangle has, a rescale to the
    /// flow's own extent is requested (clamped to the machine limit).
    open spec fn spec_bounding_box(&self, rect: Rectangle) -> Result<Rectangle, Error> {
        let labels = self.spec_labels();
        let w = rect.spec_width();
        let rows = spec_rows(labels, labels.len() as int, w);
        let flow_w = spec_flow_width(labels, labels.len() as int, w);
        if rows <= rect.spec_height() {
            Ok(Rectangle { left: 0, top: 0, right: flow_w as usize, bottom: rows as usize })
        } else {
            Err(
                Error::RequestRescale {
                    new_width: flow_w as usize,
                    new_height: if rows <= usize::MAX {
                        rows as usize
                    } else {
                        usize::MAX
                    },
                },
            )
        }
    }

    /// The flow paints every cell of the rectangle exactly when it
    /// reaches every row of the rectangle and fills every one of its own
    /// rows to the full width, leaving no wrapped-row remainder.
    open spec fn spec_completely_covers(&self, rectangle: Rectangle) -> bool {
        let labels = self.spec_labels();
        let w = rectangle.spec_width();
        &&& rectangle.spec_height() <= spec_rows(labels, labels.len() as int, w)
        &&& forall|i: int|
            0 <= i < labels.len() ==> #[trigger] spec_row_extent_at(labels, i, w) == w
    }

    #[verifier::loop_isolation(false)]
    fn bounding_box(&self, rect: Rectangle) -> (r: Result<Rectangle, Error>) {
        let ghost labels = self.spec_labels();
        let (w, rh) = rect.dimensions();
        let n = self.buttons.len();
        let mut cx: usize = 0;
        let mut cy: u128 = 0;
        let mut flow_w: usize = 0;
        let mut i: usize = 0;
        while i < n
            invariant
                n == labels.len(),
                labels == self.spec_labels(),
                i <= n,
                (cx as int, cy as int) == spec_cursor(labels, i as int, w as int),
                cx <= w,
                cy <= 2 * (i as int),
                flow_w == spec_flow_width(labels, i as int, w as int),
                flow_w <= w,
            decreases n - i,
        {
            proof {
                lemma_cursor_bounds(labels, i as int, w as int);
                lemma_cursor_bounds(labels, i + 1, w as int);
                lemma_rows_monotonic(labels, i as int, i as int, w as int);
            }
            let label = self.buttons[i];
            let len = label.unicode_len();
            let (new_cx, new_cy, end) = if len > w {
                (0usize, (if cx > 0 {
                    cy + 1
                } else {
                    cy
                }) + 1, w)
            } else if len > w - cx {
                (len, cy + 1, len)
            } else {
                (cx + len, cy, cx + len)
            };
            if end > flow_w {
                flow_w = end;
            }
            cx = new_cx;
            cy = new_cy;
            i += 1;
        }
        let rows: u128 = if cx > 0 {
            cy + 1
        } else {
            cy
        };
        if rows <= (rh as u128) {
            proof {
                assert(rows <= usize::MAX);
            }
            Ok(Rectangle { left: 0, top: 0, right: flow_w, bottom: rows as usize })
        } else {
            let hint_rows: usize = if rows <= (usize::MAX as u128) {
                rows as usize
            } else {
                usize::MAX
            };
            Err(Error::RequestRescale { new_width: flow_w, new_height: hint_rows })
        }
    }

    #[verifier::loop_isolation(false)]
    #[verifier::rlimit(100)]
    fn completely_covers(&self, rectangle: Rectangle) -> (r: bool) {
        let ghost labels = self.spec_labels();
        let (w, h) = rectangle.dimensions();
        let n = self.buttons.len();
        // first pass: record each label's placement
        let mut placements: Vec<(u128, usize, usize)> = Vec::new();
        let mut cx: usize = 0;
        let mut cy: u128 = 0;
        let mut i: usize = 0;
        while i < n
            invariant
                i <= n,
                n == labels.len(),
                labels == self.spec_labels(),
                (cx as int, cy as int) == spec_cursor(labels, i as int, w as int),
                cx <= w,
                cy <= 2 * (i as int),
                placements@.len() == i,
                forall|j: int|
                    0 <= j < i ==> ((#[trigger] placements@[j]).0 as int,
                    placements@[j].1 as int, placements@[j].2 as int) == spec_placement(
                        labels,
                        j,
                        w as int,
                    ),
            decreases n - i,
        {
            proof {
                lemma_cursor_bounds(labels, i as int, w as int);
                lemma_rows_monotonic(labels, i as int, i as int, w as int);
            }
            let len = self.buttons[i].unicode_len();
            let (prow, pcol, plen) = if len > w {
                let prow = if cx > 0 {
                    cy + 1
                } else {
                    cy
                };
                (prow, 0usize, w)
            } else if len > w - cx {
                (cy + 1, 0usize, len)
            } else {
                (cy, cx, len)
            };
            placements.push((prow, pcol, plen));
            let (new_cx, new_cy) = if len > w {
                (0usize, prow + 1)
            } else if len > w - cx {
                (len, cy + 1)
            } else {
                (cx + len, cy)
            };
            cx = new_cx;
            cy = new_cy;
            i += 1;
        }
        let rows: u128 = if cx > 0 {
            cy + 1
        } else {
            cy
        };
        assert(rows == spec_rows(labels, n as int, w as int));
        if (h as u128) > rows {
            return false;
        }
        // second pass, backward: check that every row is exactly full
        let mut all_full = true;
        let mut ext: usize = 0;
        let mut j: usize = n;
        while j > 0
            invariant
                j <= n,
                n == labels.len(),
                labels == self.spec_labels(),
                placements@.len() == n,
                forall|m: int|
                    0 <= m < n ==> ((#[trigger] placements@[m]).0 as int, placements@[m].1 as int,
                    placements@[m].2 as int) == spec_placement(labels, m, w as int),
                j < n ==> ext as int == spec_row_extent_at(labels, j as int, w as int),
                all_full <==> forall|m: int|
                    j <= m < n ==> #[trigger] spec_row_extent_at(labels, m, w as int) == w,
            decreases j,
        {
            let m = j - 1;
            let (prow, pcol, plen) = placements[m];
            let last_in_row = if m + 1 == n {
                true
            } else {
                let (next_row, _, _) = placements[m + 1];
                next_row != prow
            };
            if last_in_row {
                proof {
                    lemma_cursor_bounds(labels, m as int, w as int);
                    assert(spec_placement(labels, m as int, w as int).1 + spec_placement(
                        labels,
                        m as int,
                        w as int,
                    ).2 <= w);
                }
                ext = pcol + plen;
            }
            proof {
                assert(ext as int == spec_row_extent_at(labels, m as int, w as int));
            }
            if ext != w {
                all_full = false;
            }
            j = m;
        }
        all_full
    }
}

} // verus!
