//! Mutable windowed views.
//!
//! A [`ViewMut`] owns its parent terminal for the duration of the window:
//! it is created by consuming the parent and gives it back through
//! [`ViewMut::into_inner`]. Every write through the view lands on exactly
//! one parent cell inside the window rectangle, and the parent outside the
//! window is untouched; [`ViewMut::write_cell`] states this exactly at the
//! parent level, and the [`crate::terminal::TerminalMut`] impl states it at
//! the window level.

use vstd::prelude::*;

use crate::style::Style;
use crate::terminal::view::lemma_window_cell;
use crate::terminal::view::lemma_window_update;
use crate::terminal::view::lemma_write_stays_in_window;
use crate::terminal::view::unchanged_outside;
use crate::terminal::view::window_of;
use crate::terminal::Cell;
use crate::terminal::Metadata;
use crate::terminal::Rectangle;
use crate::terminal::TerminalConst;
use crate::terminal::TerminalMut;

verus! {

/// A mutable window onto a parent terminal, which it owns until
/// [`ViewMut::into_inner`].
pub struct ViewMut<T> {
    /// The parent terminal containing the viewed cells.
    parent: T,
    /// The area of the parent that the view exposes.
    rect: Rectangle,
    /// The default style, copied from the parent at construction.
    default_style: Style,
}

impl<T: Metadata> ViewMut<T> {
    /// The parent terminal.
    pub closed spec fn spec_parent(&self) -> T {
        self.parent
    }

    /// The window rectangle, in parent coordinates.
    pub closed spec fn spec_rect(&self) -> Rectangle {
        self.rect
    }

    /// Create a view over `rect`, consuming `terminal`; when the rectangle
    /// reaches outside the terminal's bounding box, the terminal is handed
    /// back unchanged as the error value.
    pub fn new(terminal: T, rect: Rectangle) -> (r: Result<Self, T>)
        requires
            terminal.inv(),
            rect.wf(),
        ensures
            r matches Ok(v) ==> {
                &&& rect.right <= terminal.spec_width()
                &&& rect.bottom <= terminal.spec_height()
                &&& v.inv()
                &&& v.spec_rect() == rect
                &&& v.spec_parent() == terminal
            },
            r matches Err(t) ==> t == terminal && !(rect.right <= terminal.spec_width()
                && rect.bottom <= terminal.spec_height()),
    {
        proof {
            terminal.lemma_model();
        }
        let bounds = terminal.bounding_box();
        if bounds.contains_rect(rect) {
            let default_style = terminal.default_style();
            Ok(Self { parent: terminal, rect, default_style })
        } else {
            Err(terminal)
        }
    }

    /// What the private invariant guarantees, for callers outside this
    /// module: the parent is itself well-formed and the window rectangle
    /// lies inside it.
    pub proof fn lemma_inv(&self)
        requires
            self.inv(),
        ensures
            self.spec_parent().inv(),
            self.spec_rect().wf(),
            self.spec_rect().right <= self.spec_parent().spec_width(),
            self.spec_rect().bottom <= self.spec_parent().spec_height(),
    {
    }

    /// Consume the view and return the parent terminal.
    pub fn into_inner(self) -> (r: T)
        ensures
            r == self.spec_parent(),
    {
        self.parent
    }

}

impl<T: TerminalMut + TerminalConst> ViewMut<T> {
    /// Replace the cell at local `(x, y)`, stated at the parent level:
    /// exactly the parent cell at `(rect.left + x, rect.top + y)` changes,
    /// and only inside the window. Returns whether the local coordinate was
    /// in bounds; out of bounds, nothing changes.
    pub fn write_cell(&mut self, x: usize, y: usize, cell: Cell) -> (ok: bool)
        requires
            old(self).inv(),
        ensures
            final(self).inv(),
            old(self).spec_frame(*final(self)),
            final(self).spec_rect() == old(self).spec_rect(),
            final(self).spec_parent().spec_width() == old(self).spec_parent().spec_width(),
            final(self).spec_parent().spec_height() == old(self).spec_parent().spec_height(),
            final(self).spec_parent().spec_default_style() == old(
                self,
            ).spec_parent().spec_default_style(),
            ok <==> (x < old(self).spec_rect().spec_width() && y < old(
                self,
            ).spec_rect().spec_height()),
            ok ==> final(self).spec_parent().spec_cells() == old(
                self,
            ).spec_parent().spec_cells().update(
                (old(self).spec_rect().top + y) * old(self).spec_parent().spec_width() + old(
                    self,
                ).spec_rect().left + x,
                cell,
            ),
            ok ==> unchanged_outside(
                old(self).spec_parent().spec_cells(),
                final(self).spec_parent().spec_cells(),
                old(self).spec_parent().spec_width(),
                old(self).spec_rect(),
            ),
            !ok ==> *final(self) == *old(self),
    {
        proof {
            self.parent.lemma_model();
        }
        let w = self.rect.right() - self.rect.left();
        let h = self.rect.bottom() - self.rect.top();
        if x < w && y < h {
            proof {
                lemma_window_cell(
                    self.parent.spec_cells(),
                    self.parent.spec_width(),
                    self.parent.spec_height(),
                    self.rect,
                    x as int,
                    y as int,
                );
            }
            proof {
                lemma_write_stays_in_window(
                    self.parent.spec_cells(),
                    self.parent.spec_width(),
                    self.parent.spec_height(),
                    self.rect,
                    x as int,
                    y as int,
                    cell,
                );
            }
            let ok = self.parent.set_cell(x + self.rect.left(), y + self.rect.top(), cell);
            assert(ok);
            true
        } else {
            proof {
                self.parent.lemma_frame_refl();
            }
            false
        }
    }
}

impl<T: Metadata> Metadata for ViewMut<T> {
    open spec fn spec_width(&self) -> nat {
        self.spec_rect().spec_width() as nat
    }

    open spec fn spec_height(&self) -> nat {
        self.spec_rect().spec_height() as nat
    }

    open spec fn spec_default_style(&self) -> Style {
        self.spec_parent().spec_default_style()
    }

    open spec fn spec_cells(&self) -> Seq<Cell> {
        window_of(
            self.spec_parent().spec_cells(),
            self.spec_parent().spec_width(),
            self.spec_rect(),
        )
    }

    closed spec fn inv(&self) -> bool {
        &&& self.parent.inv()
        &&& self.rect.wf()
        &&& self.rect.right <= self.parent.spec_width()
        &&& self.rect.bottom <= self.parent.spec_height()
        &&& self.default_style == self.parent.spec_default_style()
    }

    open spec fn spec_frame(&self, next: Self) -> bool {
        &&& next.spec_rect() == self.spec_rect()
        &&& self.spec_parent().spec_frame(next.spec_parent())
        &&& unchanged_outside(
            self.spec_parent().spec_cells(),
            next.spec_parent().spec_cells(),
            self.spec_parent().spec_width(),
            self.spec_rect(),
        )
    }

    proof fn lemma_frame_refl(&self) {
        self.parent.lemma_frame_refl();
    }

    proof fn lemma_frame_trans(&self, mid: Self, next: Self) {
        self.parent.lemma_frame_trans(mid.spec_parent(), next.spec_parent());
        self.parent.lemma_frame_model(mid.spec_parent());
        assert(unchanged_outside(
            self.spec_parent().spec_cells(),
            next.spec_parent().spec_cells(),
            self.spec_parent().spec_width(),
            self.spec_rect(),
        ));
    }

    proof fn lemma_frame_model(&self, next: Self) {
        self.spec_parent().lemma_frame_model(next.spec_parent());
    }

    proof fn lemma_model(&self) {
        self.parent.lemma_model();
        assert(self.spec_cells().len() == self.spec_width() * self.spec_height());
        assert(self.spec_width() * self.spec_height() <= self.parent.spec_width()
            * self.parent.spec_height()) by (nonlinear_arith)
            requires
                self.spec_width() <= self.parent.spec_width(),
                self.spec_height() <= self.parent.spec_height(),
        ;
    }

    fn dimensions(&self) -> (r: (usize, usize)) {
        let r = self.rect.dimensions();
        assert(r.0 == self.spec_width());
        assert(r.1 == self.spec_height());
        r
    }

    fn default_style(&self) -> (r: Style) {
        self.default_style
    }
}

impl<T: TerminalConst> TerminalConst for ViewMut<T> {
    fn cells(&self) -> (r: Vec<Cell>) {
        proof {
            self.lemma_model();
            self.parent.lemma_model();
        }
        let (w, h) = self.dimensions();
        let left = self.rect.left();
        let top = self.rect.top();
        let mut out: Vec<Cell> = Vec::new();
        let mut y: usize = 0;
        while y < h
            invariant
                self.inv(),
                w == self.spec_width(),
                h == self.spec_height(),
                left == self.spec_rect().left,
                top == self.spec_rect().top,
                y <= h,
                out@ =~= self.spec_cells().take(y * w as int),
            decreases h - y,
        {
            let mut x: usize = 0;
            while x < w
                invariant
                    self.inv(),
                    w == self.spec_width(),
                    h == self.spec_height(),
                    left == self.spec_rect().left,
                    top == self.spec_rect().top,
                    y < h,
                    x <= w,
                    out@ =~= self.spec_cells().take(y * w as int + x),
                decreases w - x,
            {
                proof {
                    self.parent.lemma_model();
                    lemma_window_cell(
                        self.spec_parent().spec_cells(),
                        self.spec_parent().spec_width(),
                        self.spec_parent().spec_height(),
                        self.spec_rect(),
                        x as int,
                        y as int,
                    );
                }
                let cell = match self.parent.cell(x + left, y + top) {
                    Some(c) => *c,
                    None => {
                        proof {
                            assert(false);
                        }
                        Cell::new(' ')
                    },
                };
                out.push(cell);
                assert(out@ =~= self.spec_cells().take(y * w as int + (x + 1)));
                x += 1;
            }
            assert(y * w as int + w == (y + 1) * w as int) by (nonlinear_arith);
            y += 1;
        }
        proof {
            assert(h * w as int == self.spec_rect().spec_width()
                * self.spec_rect().spec_height()) by (nonlinear_arith)
                requires
                    w == self.spec_rect().spec_width(),
                    h == self.spec_rect().spec_height(),
            ;
            assert(out@ =~= self.spec_cells());
        }
        out
    }

    fn cell(&self, x: usize, y: usize) -> (r: Option<&Cell>) {
        proof {
            self.lemma_model();
            self.parent.lemma_model();
        }
        let (w, h) = self.dimensions();
        if x < w && y < h {
            proof {
                lemma_window_cell(
                    self.spec_parent().spec_cells(),
                    self.spec_parent().spec_width(),
                    self.spec_parent().spec_height(),
                    self.spec_rect(),
                    x as int,
                    y as int,
                );
            }
            self.parent.cell(x + self.rect.left(), y + self.rect.top())
        } else {
            None
        }
    }
}

impl<T: TerminalMut + TerminalConst> TerminalMut for ViewMut<T> {
    fn set_cell(&mut self, x: usize, y: usize, cell: Cell) -> (ok: bool) {
        proof {
            self.parent.lemma_model();
        }
        let ghost old_parent_cells = self.parent.spec_cells();
        let ghost parent_width = self.parent.spec_width();
        let ghost parent_height = self.parent.spec_height();
        let ghost rect = self.rect;
        let ok = self.write_cell(x, y, cell);
        proof {
            if ok {
                lemma_window_update(
                    old_parent_cells,
                    parent_width,
                    parent_height,
                    rect,
                    x as int,
                    y as int,
                    cell,
                );
            }
        }
        ok
    }
}

} // verus!
