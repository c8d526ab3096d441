//! Read-only windowed views, and the window model shared with
//! [`crate::terminal::view_mut`].
//!
//! A view makes a sub-rectangle of a parent terminal behave like its own
//! terminal: local `(x, y)` translates to parent
//! `(x + rect.left, y + rect.top)`, and the view's cell sequence is the
//! rectangular window [`window_of`] cut out of the parent's row-major
//! sequence. The lemmas here pin that mapping down: each window index maps
//! to exactly one parent index, so a write through a window touches exactly
//! one parent cell ([`lemma_window_update`]), and a window over the whole
//! parent is the parent's sequence itself ([`lemma_window_whole`]).

use vstd::arithmetic::div_mod::lemma_fundamental_div_mod;
use vstd::arithmetic::div_mod::lemma_fundamental_div_mod_converse;
use vstd::prelude::*;

use crate::style::Style;
use crate::terminal::Cell;
use crate::terminal::Metadata;
use crate::terminal::Rectangle;
use crate::terminal::TerminalConst;

verus! {

/// The rectangular window that `rect` cuts out of the row-major sequence
/// `cells` of a parent terminal `parent_width` cells wide: element
/// `y * rect.spec_width() + x` of the window is the parent cell at
/// `(rect.left + x, rect.top + y)`.
pub open spec fn window_of(cells: Seq<Cell>, parent_width: nat, rect: Rectangle) -> Seq<Cell> {
    Seq::new(
        (rect.spec_width() * rect.spec_height()) as nat,
        |i: int|
            cells[(rect.top + i / rect.spec_width()) * parent_width + rect.left + (
            i % rect.spec_width())],
    )
}

/// Each in-bounds local coordinate of a window maps to an in-bounds parent
/// index, and the window holds that parent cell there.
pub proof fn lemma_window_cell(
    cells: Seq<Cell>,
    parent_width: nat,
    parent_height: nat,
    rect: Rectangle,
    x: int,
    y: int,
)
    requires
        rect.wf(),
        rect.right <= parent_width,
        rect.bottom <= parent_height,
        cells.len() == parent_width * parent_height,
        0 <= x < rect.spec_width(),
        0 <= y < rect.spec_height(),
    ensures
        0 <= y * rect.spec_width() + x < rect.spec_width() * rect.spec_height(),
        0 <= (rect.top + y) * parent_width + rect.left + x < parent_width * parent_height,
        window_of(cells, parent_width, rect)[y * rect.spec_width() + x] == cells[(rect.top + y)
            * parent_width + rect.left + x],
{
    let w = rect.spec_width();
    let h = rect.spec_height();
    let i = y * w + x;
    assert(0 <= y * w + x < w * h) by (nonlinear_arith)
        requires
            0 <= x < w,
            0 <= y < h,
    ;
    lemma_fundamental_div_mod_converse(i, w, y, x);
    assert((rect.top + y) * parent_width + rect.left + x < parent_width * parent_height)
        by (nonlinear_arith)
        requires
            0 <= x < w,
            0 <= y < h,
            rect.left + w <= parent_width,
            rect.top + h <= parent_height,
            w == rect.spec_width(),
            h == rect.spec_height(),
    ;
}

/// Writing one parent cell through a window is the same as updating the
/// window at the corresponding local index: the window of the updated
/// parent sequence is the updated window.
pub proof fn lemma_window_update(
    cells: Seq<Cell>,
    parent_width: nat,
    parent_height: nat,
    rect: Rectangle,
    x: int,
    y: int,
    cell: Cell,
)
    requires
        rect.wf(),
        rect.right <= parent_width,
        rect.bottom <= parent_height,
        cells.len() == parent_width * parent_height,
        0 <= x < rect.spec_width(),
        0 <= y < rect.spec_height(),
    ensures
        window_of(
            cells.update((rect.top + y) * parent_width + rect.left + x, cell),
            parent_width,
            rect,
        ) =~= window_of(cells, parent_width, rect).update(y * rect.spec_width() + x, cell),
{
    let w = rect.spec_width();
    let h = rect.spec_height();
    let target = (rect.top + y) * parent_width + rect.left + x;
    lemma_window_cell(cells, parent_width, parent_height, rect, x, y);
    let updated = cells.update(target, cell);
    assert forall|j: int| 0 <= j < w * h implies window_of(updated, parent_width, rect)[j]
        == window_of(cells, parent_width, rect).update(y * w + x, cell)[j] by {
        assert(w > 0) by (nonlinear_arith)
            requires
                0 <= j < w * h,
                h >= 0,
        ;
        let xj = j % w;
        let yj = j / w;
        lemma_fundamental_div_mod(j, w);
        assert(0 <= xj < w && 0 <= yj < h) by (nonlinear_arith)
            requires
                0 <= j < w * h,
                w > 0,
                j == yj * w + xj,
                0 <= xj < w,
        ;
        lemma_window_cell(updated, parent_width, parent_height, rect, xj, yj);
        lemma_window_cell(cells, parent_width, parent_height, rect, xj, yj);
        let pj = (rect.top + yj) * parent_width + rect.left + xj;
        if j == y * w + x {
            lemma_fundamental_div_mod_converse(j, w, y, x);
        } else {
            // distinct local coordinates reach distinct parent indices
            if pj == target {
                lemma_fundamental_div_mod_converse(
                    pj,
                    parent_width as int,
                    rect.top + yj,
                    rect.left + xj,
                );
                lemma_fundamental_div_mod_converse(
                    target,
                    parent_width as int,
                    rect.top + y,
                    rect.left + x,
                );
                assert(yj == y && xj == x);
                assert(j == y * w + x);
            }
        }
    }
}

/// Whether two row-major cell sequences of a parent `parent_width` cells
/// wide agree on every cell outside the footprint of `rect`: only cells at
/// `(x, y)` with `rect.left <= x < rect.right` and
/// `rect.top <= y < rect.bottom` may differ.
pub open spec fn unchanged_outside(
    old_cells: Seq<Cell>,
    new_cells: Seq<Cell>,
    parent_width: nat,
    rect: Rectangle,
) -> bool {
    &&& new_cells.len() == old_cells.len()
    &&& forall|j: int|
        0 <= j < old_cells.len() && !(rect.left <= j % (parent_width as int) < rect.right
            && rect.top <= j / (parent_width as int) < rect.bottom) ==> #[trigger] new_cells[j]
            == old_cells[j]
}

/// A write through a window touches nothing outside the window: updating
/// the parent cell that local `(x, y)` translates to leaves every cell
/// outside the rectangle's footprint as it was.
pub proof fn lemma_write_stays_in_window(
    cells: Seq<Cell>,
    parent_width: nat,
    parent_height: nat,
    rect: Rectangle,
    x: int,
    y: int,
    cell: Cell,
)
    requires
        rect.wf(),
        rect.right <= parent_width,
        rect.bottom <= parent_height,
        cells.len() == parent_width * parent_height,
        0 <= x < rect.spec_width(),
        0 <= y < rect.spec_height(),
    ensures
        unchanged_outside(
            cells,
            cells.update((rect.top + y) * parent_width + rect.left + x, cell),
            parent_width,
            rect,
        ),
{
    let target = (rect.top + y) * parent_width + rect.left + x;
    lemma_window_cell(cells, parent_width, parent_height, rect, x, y);
    lemma_fundamental_div_mod_converse(
        target,
        parent_width as int,
        rect.top + y,
        rect.left + x,
    );
    assert(target % (parent_width as int) == rect.left + x);
    assert(target / (parent_width as int) == rect.top + y);
}

/// A window over the whole of a parent is the parent's sequence itself.
pub proof fn lemma_window_whole(cells: Seq<Cell>, width: nat, height: nat)
    requires
        cells.len() == width * height,
        width <= usize::MAX,
        height <= usize::MAX,
    ensures
        window_of(
            cells,
            width,
            Rectangle { left: 0, top: 0, right: width as usize, bottom: height as usize },
        ) =~= cells,
{
    let rect = Rectangle { left: 0, top: 0, right: width as usize, bottom: height as usize };
    assert forall|i: int| 0 <= i < width * height implies window_of(cells, width, rect)[i]
        == cells[i] by {
        assert(width > 0) by (nonlinear_arith)
            requires
                0 <= i < width * height,
        ;
        lemma_fundamental_div_mod(i, width as int);
        assert((i / width as int) * width + (i % width as int) == i);
    }
}

/// A view over a terminal's whole bounding box exposes exactly the
/// terminal's own cell sequence, in the same order.
pub proof fn lemma_whole_view<T: TerminalConst>(v: ViewConst<T>)
    requires
        v.inv(),
        v.spec_rect() == (Rectangle {
            left: 0,
            top: 0,
            right: v.spec_parent().spec_width() as usize,
            bottom: v.spec_parent().spec_height() as usize,
        }),
    ensures
        v.spec_cells() =~= v.spec_parent().spec_cells(),
{
    v.spec_parent().lemma_model();
    lemma_window_whole(
        v.spec_parent().spec_cells(),
        v.spec_parent().spec_width(),
        v.spec_parent().spec_height(),
    );
}

/// A read-only window onto a parent terminal.
///
/// The view borrows its parent for its own lifetime; its local coordinate
/// space runs from `(0, 0)` to the rectangle's dimensions.
pub struct ViewConst<'a, T> {
    /// The parent terminal containing the viewed cells.
    parent: &'a T,
    /// The area of the parent that the view exposes.
    rect: Rectangle,
    /// The default style, copied from the parent at construction.
    default_style: Style,
}

impl<'a, T: Metadata> ViewConst<'a, T> {
    /// The parent terminal.
    pub closed spec fn spec_parent(&self) -> T {
        *self.parent
    }

    /// The window rectangle, in parent coordinates.
    pub closed spec fn spec_rect(&self) -> Rectangle {
        self.rect
    }

    /// Create a view of `terminal` over `rect`, or `None` when the
    /// rectangle reaches outside the terminal's bounding box.
    pub fn new(terminal: &'a T, rect: Rectangle) -> (r: Option<Self>)
        requires
            terminal.inv(),
            rect.wf(),
        ensures
            r matches Some(v) ==> {
                &&& rect.right <= terminal.spec_width()
                &&& rect.bottom <= terminal.spec_height()
                &&& v.inv()
                &&& v.spec_rect() == rect
                &&& v.spec_parent() == *terminal
            },
            r is None ==> !(rect.right <= terminal.spec_width() && rect.bottom
                <= terminal.spec_height()),
    {
        proof {
            terminal.lemma_model();
        }
        let bounds = terminal.bounding_box();
        if bounds.contains_rect(rect) {
            let default_style = terminal.default_style();
            Some(Self { parent: terminal, rect, default_style })
        } else {
            None
        }
    }

    /// A well-formed view sits over a well-formed parent, with a
    /// well-formed window rectangle inside the parent's bounds.
    pub proof fn lemma_inv(&self)
        requires
            self.inv(),
        ensures
            self.spec_parent().inv(),
            self.spec_rect().wf(),
            self.spec_rect().right <= self.spec_parent().spec_width(),
            self.spec_rect().bottom <= self.spec_parent().spec_height(),
    {
    }
}

impl<'a, T: Metadata> Metadata for ViewConst<'a, T> {
    open spec fn spec_width(&self) -> nat {
        self.spec_rect().spec_width() as nat
    }

    open spec fn spec_height(&self) -> nat {
        self.spec_rect().spec_height() as nat
    }

    open spec fn spec_default_style(&self) -> Style {
        self.spec_parent().spec_default_style()
    }

    open spec fn spec_cells(&self) -> Seq<Cell> {
        window_of(
            self.spec_parent().spec_cells(),
            self.spec_parent().spec_width(),
            self.spec_rect(),
        )
    }

    closed spec fn inv(&self) -> bool {
        &&& self.parent.inv()
        &&& self.rect.wf()
        &&& self.rect.right <= self.parent.spec_width()
        &&& self.rect.bottom <= self.parent.spec_height()
        &&& self.default_style == self.parent.spec_default_style()
    }

    open spec fn spec_frame(&self, next: Self) -> bool {
        next.spec_rect() == self.spec_rect() && self.spec_parent().spec_frame(next.spec_parent())
    }

    proof fn lemma_frame_refl(&self) {
        self.parent.lemma_frame_refl();
    }

    proof fn lemma_frame_trans(&self, mid: Self, next: Self) {
        self.parent.lemma_frame_trans(mid.spec_parent(), next.spec_parent());
    }

    proof fn lemma_frame_model(&self, next: Self) {
        self.spec_parent().lemma_frame_model(next.spec_parent());
    }

    proof fn lemma_model(&self) {
        self.parent.lemma_model();
        assert(self.spec_cells().len() == self.spec_width() * self.spec_height());
        assert(self.spec_width() * self.spec_height() <= self.parent.spec_width()
            * self.parent.spec_height()) by (nonlinear_arith)
            requires
                self.spec_width() <= self.parent.spec_width(),
                self.spec_height() <= self.parent.spec_height(),
        ;
    }

    fn dimensions(&self) -> (r: (usize, usize)) {
        let r = self.rect.dimensions();
        assert(r.0 == self.spec_width());
        assert(r.1 == self.spec_height());
        r
    }

    fn default_style(&self) -> (r: Style) {
        self.default_style
    }
}

impl<'a, T: TerminalConst> TerminalConst for ViewConst<'a, T> {
    fn cells(&self) -> (r: Vec<Cell>) {
        proof {
            self.lemma_model();
            self.parent.lemma_model();
        }
        let (w, h) = self.dimensions();
        let left = self.rect.left();
        let top = self.rect.top();
        let mut out: Vec<Cell> = Vec::new();
        let mut y: usize = 0;
        while y < h
            invariant
                self.inv(),
                w == self.spec_width(),
                h == self.spec_height(),
                left == self.spec_rect().left,
                top == self.spec_rect().top,
                y <= h,
                out@ =~= self.spec_cells().take(y * w as int),
            decreases h - y,
        {
            let mut x: usize = 0;
            while x < w
                invariant
                    self.inv(),
                    w == self.spec_width(),
                    h == self.spec_height(),
                    left == self.spec_rect().left,
                    top == self.spec_rect().top,
                    y < h,
                    x <= w,
                    out@ =~= self.spec_cells().take(y * w as int + x),
                decreases w - x,
            {
                proof {
                    self.parent.lemma_model();
                    lemma_window_cell(
                        self.spec_parent().spec_cells(),
                        self.spec_parent().spec_width(),
                        self.spec_parent().spec_height(),
                        self.spec_rect(),
                        x as int,
                        y as int,
                    );
                }
                let cell = match self.parent.cell(x + left, y + top) {
                    Some(c) => *c,
                    None => {
                        proof {
                            assert(false);
                        }
                        Cell::new(' ')
                    },
                };
                out.push(cell);
                assert(out@ =~= self.spec_cells().take(y * w as int + (x + 1)));
                x += 1;
            }
            assert(y * w as int + w == (y + 1) * w as int) by (nonlinear_arith);
            y += 1;
        }
        proof {
            assert(h * w as int == self.spec_rect().spec_width()
                * self.spec_rect().spec_height()) by (nonlinear_arith)
                requires
                    w == self.spec_rect().spec_width(),
                    h == self.spec_rect().spec_height(),
            ;
            assert(out@ =~= self.spec_cells());
        }
        out
    }

    fn cell(&self, x: usize, y: usize) -> (r: Option<&Cell>) {
        proof {
            self.lemma_model();
            self.parent.lemma_model();
        }
        let (w, h) = self.dimensions();
        if x < w && y < h {
            proof {
                lemma_window_cell(
                    self.spec_parent().spec_cells(),
                    self.spec_parent().spec_width(),
                    self.spec_parent().spec_height(),
                    self.spec_rect(),
                    x as int,
                    y as int,
                );
            }
            self.parent.cell(x + self.rect.left(), y + self.rect.top())
        } else {
            None
        }
    }
}

} // verus!
