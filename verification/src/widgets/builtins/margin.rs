//! The [`Margin`] widget: inflates its child's bounding box by a margin
//! and negotiates the inflated box into the parent area.

use vstd::prelude::*;

use crate::errors::Error;
use crate::style::Style;
use crate::terminal::rectangle::checked_sub_signed;
use crate::terminal::view::unchanged_outside;
use crate::terminal::view::window_of;
use crate::terminal::Cell;
use crate::terminal::Rectangle;
use crate::terminal::Terminal;
use crate::terminal::TerminalConst;
use crate::terminal::UpdateInfo;
use crate::terminal::UpdateResult;
use crate::widgets::builtins::fits_screen;
use crate::widgets::builtins::screen_rect;
use crate::widgets::BoundingBox;
use crate::widgets::Widget;

verus! {

/// Two corner points normalized into a rectangle, as
/// [`Rectangle::new`] does it.
pub open spec fn spec_normalized(first: (usize, usize), second: (usize, usize)) -> Rectangle {
    Rectangle {
        left: if first.0 <= second.0 {
            first.0
        } else {
            second.0
        },
        right: if first.0 <= second.0 {
            second.0
        } else {
            first.0
        },
        top: if first.1 <= second.1 {
            first.1
        } else {
            second.1
        },
        bottom: if first.1 <= second.1 {
            second.1
        } else {
            first.1
        },
    }
}

/// A box of size `(w, h)` placed as close to `(want_left, want_top)` as
/// the parent rectangle allows: each axis is slid into the parent's span.
/// Meaningful when `0 <= w <= rect.spec_width()` and
/// `0 <= h <= rect.spec_height()`.
pub open spec fn spec_place(w: int, h: int, want_left: int, want_top: int, rect: Rectangle)
    -> Rectangle {
    let left = if want_left > rect.right - w {
        rect.right - w
    } else if want_left < rect.left {
        rect.left as int
    } else {
        want_left
    };
    let top = if want_top > rect.bottom - h {
        rect.bottom - h
    } else if want_top < rect.top {
        rect.top as int
    } else {
        want_top
    };
    Rectangle {
        left: left as usize,
        top: top as usize,
        right: (left + w) as usize,
        bottom: (top + h) as usize,
    }
}

/// A placed box of a size that fits the parent lies inside the parent.
pub proof fn lemma_place_contained(w: int, h: int, want_left: int, want_top: int, rect: Rectangle)
    requires
        rect.wf(),
        0 <= w <= rect.spec_width(),
        0 <= h <= rect.spec_height(),
    ensures
        spec_place(w, h, want_left, want_top, rect).wf(),
        rect.spec_contains_rect(spec_place(w, h, want_left, want_top, rect)),
{
}

/// Adds a margin around its child: the child's box is inflated by the
/// margin distance on all sides and then negotiated to fit inside the
/// parent area, by sliding it into bounds and, when one axis still
/// overflows, trading one row or column of the other axis for it. A
/// negative margin shrinks instead.
pub struct Margin<T> {
    /// The child of the margin.
    pub child: T,
    /// The margin distance, applied on all four sides.
    pub margin: isize,
}

impl<T> Margin<T> {
    /// Make a new [`Margin`] with distance zero.
    #[must_use]
    pub fn new(child: T) -> (r: Self)
        ensures
            r.child == child,
            r.margin == 0,
    {
        Self { child, margin: 0 }
    }

    /// Give the [`Margin`] a fixed distance.
    #[must_use]
    pub fn margin(self, margin: isize) -> (r: Self)
        ensures
            r.child == self.child,
            r.margin == margin,
    {
        Self { margin, ..self }
    }

    /// Get the inner value of the [`Margin`].
    pub fn into_inner(self) -> (r: T)
        ensures
            r == self.child,
    {
        self.child
    }

    /// Get a reference to the inner value of the [`Margin`].
    pub fn inner(&self) -> (r: &T)
        ensures
            r == &self.child,
    {
        &self.child
    }
}

impl<W: BoundingBox> Margin<W> {
    /// The child's box inflated by the margin: translated by the margin
    /// distance and extended by it on every edge, so that each side gains
    /// the margin. `None` when a coordinate leaves `[0, usize::MAX]`.
    pub open spec fn spec_inflated(&self, c: Rectangle) -> Option<Rectangle> {
        match c.spec_offset((self.margin as int, self.margin as int)) {
            Some(o) => o.spec_extend(self.margin as int),
            None => None,
        }
    }

    /// The negotiated box: the inflated child box slid into the parent
    /// where its size already fits; where exactly one axis overflows, a
    /// candidate that clamps that axis to the parent and grants one extra
    /// row or column on the other axis is offered to the child, and
    /// adopted if the child accepts; otherwise the inflated size is
    /// reported as a rescale hint.
    pub open spec fn spec_box(&self, rect: Rectangle) -> Result<Rectangle, Error> {
        match self.child.spec_bounding_box(rect) {
            Ok(c) => match self.spec_inflated(c) {
                Some(fat) => {
                    let fw = fat.spec_width();
                    let fh = fat.spec_height();
                    let rw = rect.spec_width();
                    let rh = rect.spec_height();
                    if fw <= rw && fh <= rh {
                        Ok(spec_place(fw, fh, fat.left as int, fat.top as int, rect))
                    } else if fw > rw && fh > rh {
                        Err(
                            Error::RequestRescale {
                                new_width: fw as usize,
                                new_height: fh as usize,
                            },
                        )
                    } else if fw > rw {
                        if fh + 1 <= rh && self.child.spec_bounding_box(
                            spec_place(rw, fh + 1, rect.left as int, fat.top as int, rect),
                        ) is Ok {
                            Ok(spec_place(rw, fh + 1, rect.left as int, fat.top as int, rect))
                        } else {
                            Err(
                                Error::RequestRescale {
                                    new_width: fw as usize,
                                    new_height: fh as usize,
                                },
                            )
                        }
                    } else {
                        if fw + 1 <= rw && self.child.spec_bounding_box(
                            spec_place(fw + 1, rh, fat.left as int, rect.top as int, rect),
                        ) is Ok {
                            Ok(spec_place(fw + 1, rh, fat.left as int, rect.top as int, rect))
                        } else {
                            Err(
                                Error::RequestRescale {
                                    new_width: fw as usize,
                                    new_height: fh as usize,
                                },
                            )
                        }
                    }
                },
                None => Err(Error::OutOfBoundsCoordinate { x: None, y: None }),
            },
            Err(e) => Err(e),
        }
    }

    /// The negotiated box deflated by the margin on every side: the area
    /// the child actually draws in. `None` when a coordinate leaves
    /// `[0, usize::MAX]`.
    pub open spec fn spec_deflated(&self, b: Rectangle) -> Option<Rectangle> {
        let m = self.margin as int;
        if 0 <= b.left + m <= usize::MAX && 0 <= b.top + m <= usize::MAX && 0 <= b.right - m
            <= usize::MAX && 0 <= b.bottom - m <= usize::MAX {
            Some(
                spec_normalized(
                    ((b.left + m) as usize, (b.top + m) as usize),
                    ((b.right - m) as usize, (b.bottom - m) as usize),
                ),
            )
        } else {
            None
        }
    }

    /// Everything the negotiation promises: a negotiated box lies inside
    /// the parent, and a rescale hint of the negotiation's own (as
    /// opposed to an error passed through from the child's box
    /// computation) is strictly larger than the parent on at least one
    /// axis.
    pub proof fn lemma_box_fits(&self, rect: Rectangle)
        requires
            rect.wf(),
        ensures
            self.spec_box(rect) matches Ok(b) ==> rect.spec_contains_rect(b) && b.wf(),
            self.child.spec_bounding_box(rect) is Ok ==> (self.spec_box(rect) matches Err(
                Error::RequestRescale { new_width, new_height },
            ) ==> new_width > rect.spec_width() || new_height > rect.spec_height()),
    {
        match self.child.spec_bounding_box(rect) {
            Ok(c) => match self.spec_inflated(c) {
                Some(fat) => {
                    let fw = fat.spec_width();
                    let fh = fat.spec_height();
                    let rw = rect.spec_width();
                    let rh = rect.spec_height();
                    if fw <= rw && fh <= rh {
                        lemma_place_contained(fw, fh, fat.left as int, fat.top as int, rect);
                    } else if fw > rw && fh > rh {
                    } else if fw > rw {
                        if fh + 1 <= rh && self.child.spec_bounding_box(
                            spec_place(rw, fh + 1, rect.left as int, fat.top as int, rect),
                        ) is Ok {
                            lemma_place_contained(
                                rw,
                                fh + 1,
                                rect.left as int,
                                fat.top as int,
                                rect,
                            );
                        }
                    } else {
                        if fw + 1 <= rw && self.child.spec_bounding_box(
                            spec_place(fw + 1, rh, fat.left as int, rect.top as int, rect),
                        ) is Ok {
                            lemma_place_contained(
                                fw + 1,
                                rh,
                                fat.left as int,
                                rect.top as int,
                                rect,
                            );
                        }
                    }
                },
                None => {},
            },
            Err(_) => {},
        }
    }

    /// The box the child draws in, end to end: the negotiated box,
    /// deflated.
    pub open spec fn spec_child_box(&self, rect: Rectangle) -> Result<Rectangle, Error> {
        match self.spec_box(rect) {
            Ok(b) => match self.spec_deflated(b) {
                Some(d) => Ok(d),
                None => Err(Error::OutOfBoundsCoordinate { x: None, y: None }),
            },
            Err(e) => Err(e),
        }
    }

    /// Compute the child's drawing area on the running terminal.
    fn child_box(&self, rect: Rectangle) -> (r: Result<Rectangle, Error>)
        requires
            rect.wf(),
        ensures
            r == self.spec_child_box(rect),
            r matches Ok(d) ==> d.wf(),
    {
        proof {
            assert(self.spec_bounding_box(rect) == self.spec_box(rect));
        }
        let b = match self.bounding_box(rect) {
            Ok(b) => b,
            Err(e) => {
                return Err(e);
            },
        };
        let m = self.margin;
        let left = match b.left().checked_add_signed(m) {
            Some(v) => v,
            None => {
                return Err(Error::oob());
            },
        };
        let top = match b.top().checked_add_signed(m) {
            Some(v) => v,
            None => {
                return Err(Error::oob());
            },
        };
        let right = match checked_sub_signed(b.right(), m) {
            Some(v) => v,
            None => {
                return Err(Error::oob());
            },
        };
        let bottom = match checked_sub_signed(b.bottom(), m) {
            Some(v) => v,
            None => {
                return Err(Error::oob());
            },
        };
        let d = Rectangle::new((left, top), (right, bottom));
        assert(d == spec_normalized((left, top), (right, bottom)));
        Ok(d)
    }
}

impl<W: BoundingBox> Widget for Margin<W> {
    /// The child is updated as if the terminal were the deflated
    /// negotiated box; when no box can be negotiated, the widget is
    /// unchanged and the error says why.
    open spec fn spec_update(
        &self,
        next: Self,
        update_info: UpdateInfo,
        width: nat,
        height: nat,
        r: Result<UpdateResult, Error>,
    ) -> bool {
        let rect = screen_rect(width, height);
        match self.spec_child_box(rect) {
            Ok(d) => if fits_screen(d, width, height) {
                &&& self.child.spec_update(
                    next.child,
                    update_info,
                    d.spec_width() as nat,
                    d.spec_height() as nat,
                    r,
                )
                &&& next.margin == self.margin
            } else {
                &&& r == Err::<UpdateResult, Error>(
                    Error::OutOfBoundsCoordinate { x: Some(d.right), y: Some(d.bottom) },
                )
                &&& next == *self
            },
            Err(e) => r == Err::<UpdateResult, Error>(e) && next == *self,
        }
    }

    /// The child draws as if the terminal were the deflated negotiated
    /// box: its effect lands on the window under that box. When no box
    /// can be negotiated, nothing is drawn.
    open spec fn spec_draw(
        &self,
        width: nat,
        height: nat,
        style: Style,
        old_cells: Seq<Cell>,
        new_cells: Seq<Cell>,
        r: Result<UpdateResult, Error>,
    ) -> bool {
        let rect = screen_rect(width, height);
        match self.spec_child_box(rect) {
            Ok(d) => if fits_screen(d, width, height) {
                &&& self.child.spec_draw(
                    d.spec_width() as nat,
                    d.spec_height() as nat,
                    style,
                    window_of(old_cells, width, d),
                    window_of(new_cells, width, d),
                    r,
                )
                &&& unchanged_outside(old_cells, new_cells, width, d)
            } else {
                &&& r == Err::<UpdateResult, Error>(
                    Error::OutOfBoundsCoordinate { x: Some(d.right), y: Some(d.bottom) },
                )
                &&& new_cells == old_cells
            },
            Err(e) => r == Err::<UpdateResult, Error>(e) && new_cells == old_cells,
        }
    }

    fn update<T: TerminalConst>(&mut self, update_info: UpdateInfo, terminal: &T) -> (r: Result<
        UpdateResult,
        Error,
    >) {
        let bounds = terminal.bounding_box();
        match self.child_box(bounds) {
            Ok(d) => {
                if d.right() <= terminal.width() && d.bottom() <= terminal.height() {
                    crate::widgets::builtins::update_in_box(
                        &mut self.child,
                        update_info,
                        terminal,
                        d,
                    )
                } else {
                    Err(Error::OutOfBoundsCoordinate { x: Some(d.right()), y: Some(d.bottom()) })
                }
            },
            Err(e) => Err(e),
        }
    }

    fn draw<T: Terminal>(&self, terminal: T) -> (res: (T, Result<UpdateResult, Error>)) {
        proof {
            terminal.lemma_model();
            terminal.lemma_frame_refl();
        }
        let bounds = terminal.bounding_box();
        match self.child_box(bounds) {
            Ok(d) => {
                if d.right() <= terminal.width() && d.bottom() <= terminal.height() {
                    crate::widgets::builtins::draw_in_box(&self.child, terminal, d)
                } else {
                    let e = Error::OutOfBoundsCoordinate {
                        x: Some(d.right()),
                        y: Some(d.bottom()),
                    };
                    (terminal, Err(e))
                }
            },
            Err(e) => (terminal, Err(e)),
        }
    }
}

impl<W: BoundingBox> BoundingBox for Margin<W> {
    /// The negotiated box: see [`Margin::spec_box`]. A returned box
    /// always lies inside the parent rectangle, and a
    /// [`Error::RequestRescale`] hint is strictly larger than the parent
    /// on at least one axis ([`Margin::lemma_box_fits`]).
    open spec fn spec_bounding_box(&self, rect: Rectangle) -> Result<Rectangle, Error> {
        self.spec_box(rect)
    }

    /// The margin does not draw over the surrounding space, so it never
    /// covers the area on its own.
    open spec fn spec_completely_covers(&self, rectangle: Rectangle) -> bool {
        false
    }

    fn bounding_box(&self, rect: Rectangle) -> (r: Result<Rectangle, Error>) {
        proof {
            assert(self.spec_bounding_box(rect) == self.spec_box(rect));
        }
        let c = match self.child.bounding_box(rect) {
            Ok(c) => c,
            Err(e) => {
                return Err(e);
            },
        };
        let offset = match c.offset((self.margin, self.margin)) {
            Some(o) => o,
            None => {
                return Err(Error::oob());
            },
        };
        let fat = match offset.extend(self.margin) {
            Some(f) => f,
            None => {
                return Err(Error::oob());
            },
        };
        let (fw, fh) = fat.dimensions();
        let (rw, rh) = rect.dimensions();
        if fw <= rw && fh <= rh {
            Ok(place(fw, fh, fat.left(), fat.top(), rect))
        } else if fw > rw && fh > rh {
            Err(Error::RequestRescale { new_width: fw, new_height: fh })
        } else if fw > rw {
            if fh < rh {
                let candidate = place(rw, fh + 1, rect.left(), fat.top(), rect);
                if self.child.bounding_box(candidate).is_ok() {
                    Ok(candidate)
                } else {
                    Err(Error::RequestRescale { new_width: fw, new_height: fh })
                }
            } else {
                Err(Error::RequestRescale { new_width: fw, new_height: fh })
            }
        } else {
            if fw < rw {
                let candidate = place(fw + 1, rh, fat.left(), rect.top(), rect);
                if self.child.bounding_box(candidate).is_ok() {
                    Ok(candidate)
                } else {
                    Err(Error::RequestRescale { new_width: fw, new_height: fh })
                }
            } else {
                Err(Error::RequestRescale { new_width: fw, new_height: fh })
            }
        }
    }

    fn completely_covers(&self, _rectangle: Rectangle) -> (r: bool) {
        false
    }
}

/// The executable form of [`spec_place`].
fn place(w: usize, h: usize, want_left: usize, want_top: usize, rect: Rectangle) -> (r: Rectangle)
    requires
        rect.wf(),
        w <= rect.spec_width(),
        h <= rect.spec_height(),
    ensures
        r == spec_place(w as int, h as int, want_left as int, want_top as int, rect),
        r.wf(),
        rect.spec_contains_rect(r),
{
    proof {
        lemma_place_contained(w as int, h as int, want_left as int, want_top as int, rect);
    }
    let left = if want_left > rect.right() - w {
        rect.right() - w
    } else if want_left < rect.left() {
        rect.left()
    } else {
        want_left
    };
    let top = if want_top > rect.bottom() - h {
        rect.bottom() - h
    } else if want_top < rect.top() {
        rect.top()
    } else {
        want_top
    };
    Rectangle { left, top, right: left + w, bottom: top + h }
}

} // verus!
