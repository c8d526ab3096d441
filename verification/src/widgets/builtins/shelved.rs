//! The [`Shelved`] widget: two widgets laid out next to each other.

use vstd::prelude::*;

use crate::errors::Error;
use crate::style::Style;
use crate::terminal::view::unchanged_outside;
use crate::terminal::view::window_of;
use crate::terminal::Cell;
use crate::terminal::Metadata;
use crate::terminal::Rectangle;
use crate::terminal::Terminal;
use crate::terminal::TerminalConst;
use crate::terminal::UpdateInfo;
use crate::terminal::UpdateResult;
use crate::terminal::ViewMut;
use crate::widgets::builtins::screen_rect;
use crate::widgets::BoundingBox;
use crate::widgets::Widget;

verus! {

/// Shelves two widgets side by side: both children share the lower of
/// their two extents, and the right child is anchored immediately after
/// the left one.
pub struct Shelved<LEFT, RIGHT> {
    /// The widget on the left.
    pub left_widget: LEFT,
    /// The widget on the right.
    pub right_widget: RIGHT,
    /// The lesser of the two results of the last update, kept for the
    /// caller.
    pub leftover_result: Option<UpdateResult>,
}

impl<LEFT, RIGHT> Shelved<LEFT, RIGHT> {
    /// Create a new [`Shelved`] widget.
    #[must_use]
    pub fn new(left: LEFT, right: RIGHT) -> (r: Self)
        ensures
            r.left_widget == left,
            r.right_widget == right,
            r.leftover_result is None,
    {
        Self { left_widget: left, right_widget: right, leftover_result: None }
    }
}

impl<LEFT: BoundingBox, RIGHT: BoundingBox> Shelved<LEFT, RIGHT> {
    /// The box the left widget draws in: its own box, lengthened to the
    /// lowest extent of the two children, and required to lie in the
    /// bounds.
    pub open spec fn spec_left_rect(&self, bounds: Rectangle) -> Result<Rectangle, Error> {
        match self.right_widget.spec_bounding_box(bounds) {
            Ok(rv) => match self.left_widget.spec_bounding_box(bounds) {
                Ok(lv) => {
                    let lowest = if rv.bottom >= lv.bottom {
                        rv.bottom
                    } else {
                        lv.bottom
                    };
                    let lengthened = lv.spec_bottom_to(lowest);
                    if bounds.spec_contains_rect(lengthened) {
                        Ok(lengthened)
                    } else {
                        Err(
                            Error::RequestRescale {
                                new_width: lengthened.right,
                                new_height: lengthened.bottom,
                            },
                        )
                    }
                },
                Err(e) => Err(e),
            },
            Err(e) => Err(e),
        }
    }

    /// The box the right widget draws in: its own box, lengthened to the
    /// lowest extent of the two children, anchored at the left widget's
    /// right-top vertex, and required to lie in the bounds.
    pub open spec fn spec_right_rect(&self, bounds: Rectangle) -> Result<Rectangle, Error> {
        match self.right_widget.spec_bounding_box(bounds) {
            Ok(rv) => match self.left_widget.spec_bounding_box(bounds) {
                Ok(lv) => {
                    let lowest = if rv.bottom >= lv.bottom {
                        rv.bottom
                    } else {
                        lv.bottom
                    };
                    let lengthened = rv.spec_bottom_to(lowest);
                    if lv.right + lengthened.spec_width() <= usize::MAX && lv.top
                        + lengthened.spec_height() <= usize::MAX {
                        let corrected = Rectangle {
                            left: lv.right,
                            top: lv.top,
                            right: (lv.right + lengthened.spec_width()) as usize,
                            bottom: (lv.top + lengthened.spec_height()) as usize,
                        };
                        if bounds.spec_contains_rect(corrected) {
                            Ok(corrected)
                        } else {
                            Err(
                                Error::RequestRescale {
                                    new_width: corrected.right,
                                    new_height: corrected.bottom,
                                },
                            )
                        }
                    } else {
                        Err(Error::OutOfBoundsCoordinate { x: None, y: None })
                    }
                },
                Err(e) => Err(e),
            },
            Err(e) => Err(e),
        }
    }

    /// The box the left widget draws in, computed on the running terminal
    /// bounds.
    pub fn left_view_rect(&self, bounds: Rectangle) -> (r: Result<Rectangle, Error>)
        requires
            bounds.wf(),
        ensures
            r == self.spec_left_rect(bounds),
            r matches Ok(b) ==> b.wf() && bounds.spec_contains_rect(b),
    {
        let rv = match self.right_widget.bounding_box(bounds) {
            Ok(v) => v,
            Err(e) => {
                return Err(e);
            },
        };
        let lv = match self.left_widget.bounding_box(bounds) {
            Ok(v) => v,
            Err(e) => {
                return Err(e);
            },
        };
        let lowest = if rv.bottom() >= lv.bottom() {
            rv.bottom()
        } else {
            lv.bottom()
        };
        let lengthened = lv.bottom_to(lowest);
        if bounds.contains_rect(lengthened) {
            Ok(lengthened)
        } else {
            Err(
                Error::RequestRescale {
                    new_width: lengthened.right(),
                    new_height: lengthened.bottom(),
                },
            )
        }
    }

    /// The box the right widget draws in, computed on the running
    /// terminal bounds.
    pub fn right_view_rect(&self, bounds: Rectangle) -> (r: Result<Rectangle, Error>)
        requires
            bounds.wf(),
        ensures
            r == self.spec_right_rect(bounds),
            r matches Ok(b) ==> b.wf() && bounds.spec_contains_rect(b),
    {
        let rv = match self.right_widget.bounding_box(bounds) {
            Ok(v) => v,
            Err(e) => {
                return Err(e);
            },
        };
        let lv = match self.left_widget.bounding_box(bounds) {
            Ok(v) => v,
            Err(e) => {
                return Err(e);
            },
        };
        let lowest = if rv.bottom() >= lv.bottom() {
            rv.bottom()
        } else {
            lv.bottom()
        };
        let lengthened = rv.bottom_to(lowest);
        let (w, h) = lengthened.dimensions();
        let right = match lv.right().checked_add(w) {
            Some(v) => v,
            None => {
                return Err(Error::oob());
            },
        };
        let bottom = match lv.top().checked_add(h) {
            Some(v) => v,
            None => {
                return Err(Error::oob());
            },
        };
        let corrected = Rectangle { left: lv.right(), top: lv.top(), right, bottom };
        if bounds.contains_rect(corrected) {
            Ok(corrected)
        } else {
            Err(Error::RequestRescale { new_width: corrected.right(), new_height: corrected.bottom() })
        }
    }

    /// A mutable view over the left widget's box, consuming the terminal;
    /// on failure the terminal comes back with the error.
    pub fn get_view_left<T: Terminal>(&self, terminal: T) -> (r: Result<ViewMut<T>, (T, Error)>)
        requires
            terminal.inv(),
        ensures
            r matches Ok(v) ==> {
                &&& v.inv()
                &&& v.spec_parent() == terminal
                &&& Ok::<Rectangle, Error>(v.spec_rect()) == self.spec_left_rect(
                    screen_rect(terminal.spec_width(), terminal.spec_height()),
                )
            },
            r matches Err(te) ==> te.0 == terminal && Err::<Rectangle, Error>(te.1)
                == self.spec_left_rect(screen_rect(terminal.spec_width(), terminal.spec_height())),
    {
        proof {
            terminal.lemma_model();
        }
        let bounds = terminal.bounding_box();
        match self.left_view_rect(bounds) {
            Ok(b) => match ViewMut::new(terminal, b) {
                Ok(v) => Ok(v),
                Err(_) => {
                    proof {
                        assert(false);
                    }
                    vstd::pervasive::unreached()
                },
            },
            Err(e) => Err((terminal, e)),
        }
    }

    /// A mutable view over the right widget's box, consuming the
    /// terminal; on failure the terminal comes back with the error.
    pub fn get_view_right<T: Terminal>(&self, terminal: T) -> (r: Result<ViewMut<T>, (T, Error)>)
        requires
            terminal.inv(),
        ensures
            r matches Ok(v) ==> {
                &&& v.inv()
                &&& v.spec_parent() == terminal
                &&& Ok::<Rectangle, Error>(v.spec_rect()) == self.spec_right_rect(
                    screen_rect(terminal.spec_width(), terminal.spec_height()),
                )
            },
            r matches Err(te) ==> te.0 == terminal && Err::<Rectangle, Error>(te.1)
                == self.spec_right_rect(screen_rect(terminal.spec_width(), terminal.spec_height())),
    {
        proof {
            terminal.lemma_model();
        }
        let bounds = terminal.bounding_box();
        match self.right_view_rect(bounds) {
            Ok(b) => match ViewMut::new(terminal, b) {
                Ok(v) => Ok(v),
                Err(_) => {
                    proof {
                        assert(false);
                    }
                    vstd::pervasive::unreached()
                },
            },
            Err(e) => Err((terminal, e)),
        }
    }

    /// Draw only the left widget, into its shelved box.
    pub fn draw_left<T: Terminal>(&self, terminal: T) -> (res: (T, Result<UpdateResult, Error>))
        requires
            terminal.inv(),
        ensures
            res.0.inv(),
            terminal.spec_frame(res.0),
            res.0.spec_width() == terminal.spec_width(),
            res.0.spec_height() == terminal.spec_height(),
            res.0.spec_default_style() == terminal.spec_default_style(),
            res.0.spec_cells().len() == terminal.spec_cells().len(),
            match self.spec_left_rect(screen_rect(terminal.spec_width(), terminal.spec_height())) {
                Ok(b) => self.left_widget.spec_draw(
                    b.spec_width() as nat,
                    b.spec_height() as nat,
                    terminal.spec_default_style(),
                    window_of(terminal.spec_cells(), terminal.spec_width(), b),
                    window_of(res.0.spec_cells(), terminal.spec_width(), b),
                    res.1,
                ) && unchanged_outside(
                    terminal.spec_cells(),
                    res.0.spec_cells(),
                    terminal.spec_width(),
                    b,
                ),
                Err(e) => res.1 == Err::<UpdateResult, Error>(e) && res.0.spec_cells()
                    == terminal.spec_cells(),
            },
    {
        proof {
            terminal.lemma_model();
            terminal.lemma_frame_refl();
        }
        let bounds = terminal.bounding_box();
        match self.left_view_rect(bounds) {
            Ok(b) => crate::widgets::builtins::draw_in_box(&self.left_widget, terminal, b),
            Err(e) => (terminal, Err(e)),
        }
    }

    /// Draw only the right widget, into its shelved box.
    pub fn draw_right<T: Terminal>(&self, terminal: T) -> (res: (T, Result<UpdateResult, Error>))
        requires
            terminal.inv(),
        ensures
            res.0.inv(),
            terminal.spec_frame(res.0),
            res.0.spec_width() == terminal.spec_width(),
            res.0.spec_height() == terminal.spec_height(),
            res.0.spec_default_style() == terminal.spec_default_style(),
            res.0.spec_cells().len() == terminal.spec_cells().len(),
            match self.spec_right_rect(screen_rect(terminal.spec_width(), terminal.spec_height())) {
                Ok(b) => self.right_widget.spec_draw(
                    b.spec_width() as nat,
                    b.spec_height() as nat,
                    terminal.spec_default_style(),
                    window_of(terminal.spec_cells(), terminal.spec_width(), b),
                    window_of(res.0.spec_cells(), terminal.spec_width(), b),
                    res.1,
                ) && unchanged_outside(
                    terminal.spec_cells(),
                    res.0.spec_cells(),
                    terminal.spec_width(),
                    b,
                ),
                Err(e) => res.1 == Err::<UpdateResult, Error>(e) && res.0.spec_cells()
                    == terminal.spec_cells(),
            },
    {
        proof {
            terminal.lemma_model();
            terminal.lemma_frame_refl();
        }
        let bounds = terminal.bounding_box();
        match self.right_view_rect(bounds) {
            Ok(b) => crate::widgets::builtins::draw_in_box(&self.right_widget, terminal, b),
            Err(e) => (terminal, Err(e)),
        }
    }

    /// Draw both widgets, whatever the first draw reports, and hand both
    /// results back.
    pub fn draw_both<T: Terminal>(&self, terminal: T) -> (res: (
        T,
        (Result<UpdateResult, Error>, Result<UpdateResult, Error>),
    ))
        requires
            terminal.inv(),
        ensures
            res.0.inv(),
            terminal.spec_frame(res.0),
            res.0.spec_width() == terminal.spec_width(),
            res.0.spec_height() == terminal.spec_height(),
            res.0.spec_default_style() == terminal.spec_default_style(),
    {
        let (t1, res_left) = self.draw_left(terminal);
        proof {
            t1.lemma_model();
        }
        let (t2, res_right) = self.draw_right(t1);
        proof {
            terminal.lemma_frame_trans(t1, t2);
        }
        (t2, (res_left, res_right))
    }
}

impl<LEFT: BoundingBox, RIGHT: BoundingBox> Widget for Shelved<LEFT, RIGHT> {
    /// The left child sees its shelved box and is updated first; its
    /// error stops the sequence before the right child is touched. On
    /// success the result further along the escalation order is reported
    /// and the other is kept in `leftover_result`.
    open spec fn spec_update(
        &self,
        next: Self,
        update_info: UpdateInfo,
        width: nat,
        height: nat,
        r: Result<UpdateResult, Error>,
    ) -> bool {
        let bounds = screen_rect(width, height);
        match self.spec_left_rect(bounds) {
            Ok(lb) => exists|r1: Result<UpdateResult, Error>|
                {
                    &&& #[trigger] self.left_widget.spec_update(
                        next.left_widget,
                        update_info,
                        lb.spec_width() as nat,
                        lb.spec_height() as nat,
                        r1,
                    )
                    &&& match r1 {
                        Err(e1) => r == Err::<UpdateResult, Error>(e1) && next.right_widget
                            == self.right_widget && next.leftover_result == self.leftover_result,
                        Ok(u1) => match (Shelved {
                            left_widget: next.left_widget,
                            right_widget: self.right_widget,
                            leftover_result: self.leftover_result,
                        }).spec_right_rect(bounds) {
                            Ok(rb) => exists|r2: Result<UpdateResult, Error>|
                                {
                                    &&& #[trigger] self.right_widget.spec_update(
                                        next.right_widget,
                                        update_info,
                                        rb.spec_width() as nat,
                                        rb.spec_height() as nat,
                                        r2,
                                    )
                                    &&& match r2 {
                                        Err(e2) => r == Err::<UpdateResult, Error>(e2)
                                            && next.leftover_result == self.leftover_result,
                                        Ok(u2) => r == Ok::<UpdateResult, Error>(
                                            u1.spec_escalate(u2),
                                        ) && next.leftover_result == Some(u1.spec_deescalate(u2)),
                                    }
                                },
                            Err(e) => r == Err::<UpdateResult, Error>(e) && next.right_widget
                                == self.right_widget && next.leftover_result
                                == self.leftover_result,
                        },
                    }
                },
            Err(e) => r == Err::<UpdateResult, Error>(e) && next == *self,
        }
    }

    /// The left widget draws into the window under its shelved box, then
    /// the right widget into the window under its own; the first error
    /// stops the sequence. On success the result further along the
    /// escalation order is reported.
    open spec fn spec_draw(
        &self,
        width: nat,
        height: nat,
        style: Style,
        old_cells: Seq<Cell>,
        new_cells: Seq<Cell>,
        r: Result<UpdateResult, Error>,
    ) -> bool {
        let bounds = screen_rect(width, height);
        match self.spec_left_rect(bounds) {
            Ok(lb) => exists|mid: Seq<Cell>, r1: Result<UpdateResult, Error>|
                {
                    &&& #[trigger] self.left_widget.spec_draw(
                        lb.spec_width() as nat,
                        lb.spec_height() as nat,
                        style,
                        window_of(old_cells, width, lb),
                        window_of(mid, width, lb),
                        r1,
                    )
                    &&& unchanged_outside(old_cells, mid, width, lb)
                    &&& mid.len() == old_cells.len()
                    &&& match r1 {
                        Err(e1) => r == Err::<UpdateResult, Error>(e1) && new_cells == mid,
                        Ok(u1) => match self.spec_right_rect(bounds) {
                            Ok(rb) => exists|r2: Result<UpdateResult, Error>|
                                {
                                    &&& #[trigger] self.right_widget.spec_draw(
                                        rb.spec_width() as nat,
                                        rb.spec_height() as nat,
                                        style,
                                        window_of(mid, width, rb),
                                        window_of(new_cells, width, rb),
                                        r2,
                                    )
                                    &&& unchanged_outside(mid, new_cells, width, rb)
                                    &&& match r2 {
                                        Err(e2) => r == Err::<UpdateResult, Error>(e2),
                                        Ok(u2) => r == Ok::<UpdateResult, Error>(
                                            u1.spec_escalate(u2),
                                        ),
                                    }
                                },
                            Err(e) => r == Err::<UpdateResult, Error>(e) && new_cells == mid,
                        },
                    }
                },
            Err(e) => r == Err::<UpdateResult, Error>(e) && new_cells == old_cells,
        }
    }

    fn update<T: TerminalConst>(&mut self, update_info: UpdateInfo, terminal: &T) -> (r: Result<
        UpdateResult,
        Error,
    >) {
        let bounds = terminal.bounding_box();
        let lb = match self.left_view_rect(bounds) {
            Ok(v) => v,
            Err(e) => {
                return Err(e);
            },
        };
        let r1 = crate::widgets::builtins::update_in_box(
            &mut self.left_widget,
            update_info,
            terminal,
            lb,
        );
        let u1 = match r1 {
            Ok(u) => u,
            Err(e1) => {
                proof {
                    assert(old(self).left_widget.spec_update(
                        self.left_widget,
                        update_info,
                        lb.spec_width() as nat,
                        lb.spec_height() as nat,
                        r1,
                    ));
                }
                return Err(e1);
            },
        };
        let rb = match self.right_view_rect(bounds) {
            Ok(v) => v,
            Err(e) => {
                proof {
                    assert(old(self).left_widget.spec_update(
                        self.left_widget,
                        update_info,
                        lb.spec_width() as nat,
                        lb.spec_height() as nat,
                        r1,
                    ));
                }
                return Err(e);
            },
        };
        let r2 = crate::widgets::builtins::update_in_box(
            &mut self.right_widget,
            update_info,
            terminal,
            rb,
        );
        let u2 = match r2 {
            Ok(u) => u,
            Err(e2) => {
                proof {
                    assert(old(self).left_widget.spec_update(
                        self.left_widget,
                        update_info,
                        lb.spec_width() as nat,
                        lb.spec_height() as nat,
                        r1,
                    ));
                    assert(old(self).right_widget.spec_update(
                        self.right_widget,
                        update_info,
                        rb.spec_width() as nat,
                        rb.spec_height() as nat,
                        r2,
                    ));
                }
                return Err(e2);
            },
        };
        self.leftover_result = Some(u1.deescalate(u2));
        proof {
            assert(old(self).left_widget.spec_update(
                self.left_widget,
                update_info,
                lb.spec_width() as nat,
                lb.spec_height() as nat,
                r1,
            ));
            assert(old(self).right_widget.spec_update(
                self.right_widget,
                update_info,
                rb.spec_width() as nat,
                rb.spec_height() as nat,
                r2,
            ));
        }
        Ok(u1.escalate(u2))
    }

    fn draw<T: Terminal>(&self, terminal: T) -> (res: (T, Result<UpdateResult, Error>)) {
        proof {
            terminal.lemma_model();
            terminal.lemma_frame_refl();
        }
        let (t1, r1) = self.draw_left(terminal);
        let u1 = match r1 {
            Ok(u) => u,
            Err(e) => {
                return (t1, Err(e));
            },
        };
        proof {
            terminal.lemma_frame_trans(terminal, t1);
            t1.lemma_model();
        }
        let (t2, r2) = self.draw_right(t1);
        proof {
            terminal.lemma_frame_trans(t1, t2);
        }
        match r2 {
            Ok(u2) => (t2, Ok(u1.escalate(u2))),
            Err(e) => (t2, Err(e)),
        }
    }
}

impl<LEFT: BoundingBox, RIGHT: BoundingBox> BoundingBox for Shelved<LEFT, RIGHT> {
    /// The children's natural boxes combined: the sum of their widths,
    /// the lower of the two extents, anchored at the left widget's
    /// left-top; required to lie in the available rectangle, else a
    /// rescale to the combined size is requested.
    open spec fn spec_bounding_box(&self, rect: Rectangle) -> Result<Rectangle, Error> {
        match self.left_widget.spec_bounding_box(rect) {
            Ok(lv) => match self.right_widget.spec_bounding_box(rect) {
                Ok(rv) => {
                    let w = lv.spec_width() + rv.spec_width();
                    let h = if lv.spec_height() >= rv.spec_height() {
                        lv.spec_height()
                    } else {
                        rv.spec_height()
                    };
                    if lv.left + w <= usize::MAX && lv.top + h <= usize::MAX {
                        let combined = Rectangle {
                            left: lv.left,
                            top: lv.top,
                            right: (lv.left + w) as usize,
                            bottom: (lv.top + h) as usize,
                        };
                        if rect.spec_contains_rect(combined) {
                            Ok(combined)
                        } else {
                            Err(
                                Error::RequestRescale {
                                    new_width: w as usize,
                                    new_height: h as usize,
                                },
                            )
                        }
                    } else {
                        Err(Error::OutOfBoundsCoordinate { x: None, y: None })
                    }
                },
                Err(e) => Err(e),
            },
            Err(e) => Err(e),
        }
    }

    /// The shelf covers a rectangle exactly when it takes the
    /// rectangle's full size and each child covers its own shelved box.
    open spec fn spec_completely_covers(&self, rectangle: Rectangle) -> bool {
        match self.spec_bounding_box(rectangle) {
            Ok(b) => match self.spec_left_rect(rectangle) {
                Ok(lb) => match self.spec_right_rect(rectangle) {
                    Ok(rb) => {
                        &&& b.spec_width() == rectangle.spec_width()
                        &&& b.spec_height() == rectangle.spec_height()
                        &&& self.left_widget.spec_completely_covers(lb)
                        &&& self.right_widget.spec_completely_covers(rb)
                    },
                    Err(_) => false,
                },
                Err(_) => false,
            },
            Err(_) => false,
        }
    }

    fn bounding_box(&self, rect: Rectangle) -> (r: Result<Rectangle, Error>) {
        let lv = match self.left_widget.bounding_box(rect) {
            Ok(v) => v,
            Err(e) => {
                return Err(e);
            },
        };
        let rv = match self.right_widget.bounding_box(rect) {
            Ok(v) => v,
            Err(e) => {
                return Err(e);
            },
        };
        let (lw, lh) = lv.dimensions();
        let (rw, rh) = rv.dimensions();
        let w = match lw.checked_add(rw) {
            Some(v) => v,
            None => {
                assert(lv.left + (lw + rw) > usize::MAX);
                return Err(Error::oob());
            },
        };
        let h = if lh >= rh {
            lh
        } else {
            rh
        };
        let right = match lv.left().checked_add(w) {
            Some(v) => v,
            None => {
                return Err(Error::oob());
            },
        };
        let bottom = match lv.top().checked_add(h) {
            Some(v) => v,
            None => {
                return Err(Error::oob());
            },
        };
        let combined = Rectangle { left: lv.left(), top: lv.top(), right, bottom };
        if rect.contains_rect(combined) {
            Ok(combined)
        } else {
            Err(Error::RequestRescale { new_width: w, new_height: h })
        }
    }

    fn completely_covers(&self, rectangle: Rectangle) -> (r: bool) {
        let b = match self.bounding_box(rectangle) {
            Ok(v) => v,
            Err(_) => {
                return false;
            },
        };
        let lb = match self.left_view_rect(rectangle) {
            Ok(v) => v,
            Err(_) => {
                return false;
            },
        };
        let rb = match self.right_view_rect(rectangle) {
            Ok(v) => v,
            Err(_) => {
                return false;
            },
        };
        let (bw, bh) = b.dimensions();
        let (rw, rh) = rectangle.dimensions();
        bw == rw && bh == rh && self.left_widget.completely_covers(lb)
            && self.right_widget.completely_covers(rb)
    }
}

} // verus!
