//! The [`Stacked`] widget: one widget laid out on top of another.

use vstd::prelude::*;

use crate::errors::Error;
use crate::style::Style;
use crate::terminal::view::unchanged_outside;
use crate::terminal::view::window_of;
use crate::terminal::Cell;
use crate::terminal::Rectangle;
use crate::terminal::Terminal;
use crate::terminal::TerminalConst;
use crate::terminal::UpdateInfo;
use crate::terminal::UpdateResult;
use crate::widgets::builtins::screen_rect;
use crate::widgets::BoundingBox;
use crate::widgets::Widget;

verus! {

/// Lays one widget out on top of another: both children share the wider
/// of their two extents, and the lower child is anchored immediately
/// below the higher one.
pub struct Stacked<TOP, BOT> {
    /// The widget that is on top.
    pub higher_widget: TOP,
    /// The widget that is on the bottom.
    pub lower_widget: BOT,
    /// The lesser of the two results of the last update, kept for the
    /// caller.
    pub leftover_result: Option<UpdateResult>,
}

impl<TOP, BOT> Stacked<TOP, BOT> {
    /// Create a new [`Stacked`] widget.
    #[must_use]
    pub fn new(top: TOP, bottom: BOT) -> (r: Self)
        ensures
            r.higher_widget == top,
            r.lower_widget == bottom,
            r.leftover_result is None,
    {
        Self { higher_widget: top, lower_widget: bottom, leftover_result: None }
    }

    /// Consume the [`Stacked`] widget and return the two widgets in it.
    pub fn into_inner(self) -> (r: (TOP, BOT))
        ensures
            r == (self.higher_widget, self.lower_widget),
    {
        (self.higher_widget, self.lower_widget)
    }

    /// References to the two widgets in the [`Stacked`] widget.
    pub fn inner(&self) -> (r: (&TOP, &BOT))
        ensures
            r == (&self.higher_widget, &self.lower_widget),
    {
        (&self.higher_widget, &self.lower_widget)
    }
}

impl<TOP: BoundingBox, BOT: BoundingBox> Stacked<TOP, BOT> {
    /// The box the higher widget draws in: its own box, widened to the
    /// rightmost extent of the two children, and required to lie in the
    /// bounds.
    pub open spec fn spec_higher_rect(&self, bounds: Rectangle) -> Result<Rectangle, Error> {
        match self.lower_widget.spec_bounding_box(bounds) {
            Ok(lv) => match self.higher_widget.spec_bounding_box(bounds) {
                Ok(hv) => {
                    let right_max = if hv.right >= lv.right {
                        hv.right
                    } else {
                        lv.right
                    };
                    let widened = hv.spec_right_to(right_max);
                    if bounds.spec_contains_rect(widened) {
                        Ok(widened)
                    } else {
                        Err(
                            Error::RequestRescale {
                                new_width: widened.right,
                                new_height: widened.bottom,
                            },
                        )
                    }
                },
                Err(e) => Err(e),
            },
            Err(e) => Err(e),
        }
    }

    /// The box the lower widget draws in: its own box, anchored at the
    /// higher widget's bottom-left vertex, widened to the rightmost
    /// extent of the two children, and required to lie in the bounds.
    pub open spec fn spec_lower_rect(&self, bounds: Rectangle) -> Result<Rectangle, Error> {
        match self.higher_widget.spec_bounding_box(bounds) {
            Ok(hv) => match self.lower_widget.spec_bounding_box(bounds) {
                Ok(lv) => {
                    let right_max = if hv.right >= lv.right {
                        hv.right
                    } else {
                        lv.right
                    };
                    if hv.left + lv.spec_width() <= usize::MAX && hv.bottom + lv.spec_height()
                        <= usize::MAX {
                        let corrected = Rectangle {
                            left: hv.left,
                            top: hv.bottom,
                            right: (hv.left + lv.spec_width()) as usize,
                            bottom: (hv.bottom + lv.spec_height()) as usize,
                        };
                        let widened = corrected.spec_right_to(right_max);
                        if bounds.spec_contains_rect(widened) {
                            Ok(widened)
                        } else {
                            Err(
                                Error::RequestRescale {
                                    new_width: widened.right,
                                    new_height: widened.bottom,
                                },
                            )
                        }
                    } else {
                        Err(Error::OutOfBoundsCoordinate { x: None, y: None })
                    }
                },
                Err(e) => Err(e),
            },
            Err(e) => Err(e),
        }
    }

    /// The box the higher widget draws in, computed on the running
    /// terminal bounds.
    pub fn higher_view_rect(&self, bounds: Rectangle) -> (r: Result<Rectangle, Error>)
        requires
            bounds.wf(),
        ensures
            r == self.spec_higher_rect(bounds),
            r matches Ok(b) ==> b.wf() && bounds.spec_contains_rect(b),
    {
        let lv = match self.lower_widget.bounding_box(bounds) {
            Ok(v) => v,
            Err(e) => {
                return Err(e);
            },
        };
        let hv = match self.higher_widget.bounding_box(bounds) {
            Ok(v) => v,
            Err(e) => {
                return Err(e);
            },
        };
        let right_max = if hv.right() >= lv.right() {
            hv.right()
        } else {
            lv.right()
        };
        let widened = hv.right_to(right_max);
        if bounds.contains_rect(widened) {
            Ok(widened)
        } else {
            Err(Error::RequestRescale { new_width: widened.right(), new_height: widened.bottom() })
        }
    }

    /// The box the lower widget draws in, computed on the running
    /// terminal bounds.
    pub fn lower_view_rect(&self, bounds: Rectangle) -> (r: Result<Rectangle, Error>)
        requires
            bounds.wf(),
        ensures
            r == self.spec_lower_rect(bounds),
            r matches Ok(b) ==> b.wf() && bounds.spec_contains_rect(b),
    {
        let hv = match self.higher_widget.bounding_box(bounds) {
            Ok(v) => v,
            Err(e) => {
                return Err(e);
            },
        };
        let lv = match self.lower_widget.bounding_box(bounds) {
            Ok(v) => v,
            Err(e) => {
                return Err(e);
            },
        };
        let right_max = if hv.right() >= lv.right() {
            hv.right()
        } else {
            lv.right()
        };
        let (lw, lh) = lv.dimensions();
        let right = match hv.left().checked_add(lw) {
            Some(v) => v,
            None => {
                return Err(Error::oob());
            },
        };
        let bottom = match hv.bottom().checked_add(lh) {
            Some(v) => v,
            None => {
                return Err(Error::oob());
            },
        };
        let corrected = Rectangle { left: hv.left(), top: hv.bottom(), right, bottom };
        let widened = corrected.right_to(right_max);
        if bounds.contains_rect(widened) {
            Ok(widened)
        } else {
            Err(Error::RequestRescale { new_width: widened.right(), new_height: widened.bottom() })
        }
    }

    /// Draw only the higher widget, into its stacked box.
    pub fn draw_top<T: Terminal>(&self, terminal: T) -> (res: (T, Result<UpdateResult, Error>))
        requires
            terminal.inv(),
        ensures
            res.0.inv(),
            terminal.spec_frame(res.0),
            res.0.spec_width() == terminal.spec_width(),
            res.0.spec_height() == terminal.spec_height(),
            res.0.spec_default_style() == terminal.spec_default_style(),
            res.0.spec_cells().len() == terminal.spec_cells().len(),
            match self.spec_higher_rect(
                screen_rect(terminal.spec_width(), terminal.spec_height()),
            ) {
                Ok(hr) => self.higher_widget.spec_draw(
                    hr.spec_width() as nat,
                    hr.spec_height() as nat,
                    terminal.spec_default_style(),
                    window_of(terminal.spec_cells(), terminal.spec_width(), hr),
                    window_of(res.0.spec_cells(), terminal.spec_width(), hr),
                    res.1,
                ) && unchanged_outside(
                    terminal.spec_cells(),
                    res.0.spec_cells(),
                    terminal.spec_width(),
                    hr,
                ),
                Err(e) => res.1 == Err::<UpdateResult, Error>(e) && res.0.spec_cells()
                    == terminal.spec_cells(),
            },
    {
        proof {
            terminal.lemma_model();
            terminal.lemma_frame_refl();
        }
        let bounds = terminal.bounding_box();
        match self.higher_view_rect(bounds) {
            Ok(hr) => crate::widgets::builtins::draw_in_box(&self.higher_widget, terminal, hr),
            Err(e) => (terminal, Err(e)),
        }
    }

    /// Draw only the lower widget, into its stacked box.
    pub fn draw_bottom<T: Terminal>(&self, terminal: T) -> (res: (T, Result<UpdateResult, Error>))
        requires
            terminal.inv(),
        ensures
            res.0.inv(),
            terminal.spec_frame(res.0),
            res.0.spec_width() == terminal.spec_width(),
            res.0.spec_height() == terminal.spec_height(),
            res.0.spec_default_style() == terminal.spec_default_style(),
            res.0.spec_cells().len() == terminal.spec_cells().len(),
            match self.spec_lower_rect(
                screen_rect(terminal.spec_width(), terminal.spec_height()),
            ) {
                Ok(lr) => self.lower_widget.spec_draw(
                    lr.spec_width() as nat,
                    lr.spec_height() as nat,
                    terminal.spec_default_style(),
                    window_of(terminal.spec_cells(), terminal.spec_width(), lr),
                    window_of(res.0.spec_cells(), terminal.spec_width(), lr),
                    res.1,
                ) && unchanged_outside(
                    terminal.spec_cells(),
                    res.0.spec_cells(),
                    terminal.spec_width(),
                    lr,
                ),
                Err(e) => res.1 == Err::<UpdateResult, Error>(e) && res.0.spec_cells()
                    == terminal.spec_cells(),
            },
    {
        proof {
            terminal.lemma_model();
            terminal.lemma_frame_refl();
        }
        let bounds = terminal.bounding_box();
        match self.lower_view_rect(bounds) {
            Ok(lr) => crate::widgets::builtins::draw_in_box(&self.lower_widget, terminal, lr),
            Err(e) => (terminal, Err(e)),
        }
    }

    /// Draw both widgets, whatever the first draw reports, and hand both
    /// results back: the higher widget's stage runs first, then the
    /// lower's over its outcome, each exactly as [`Self::draw_top`] and
    /// [`Self::draw_bottom`] describe.
    pub fn draw_both<T: Terminal>(&self, terminal: T) -> (res: (
        T,
        (Result<UpdateResult, Error>, Result<UpdateResult, Error>),
    ))
        requires
            terminal.inv(),
        ensures
            res.0.inv(),
            terminal.spec_frame(res.0),
            res.0.spec_width() == terminal.spec_width(),
            res.0.spec_height() == terminal.spec_height(),
            res.0.spec_default_style() == terminal.spec_default_style(),
            res.0.spec_cells().len() == terminal.spec_cells().len(),
            exists|mid: Seq<Cell>|
                {
                    &&& #[trigger] mid.len() == terminal.spec_cells().len()
                    &&& match self.spec_higher_rect(
                        screen_rect(terminal.spec_width(), terminal.spec_height()),
                    ) {
                        Ok(hr) => self.higher_widget.spec_draw(
                            hr.spec_width() as nat,
                            hr.spec_height() as nat,
                            terminal.spec_default_style(),
                            window_of(terminal.spec_cells(), terminal.spec_width(), hr),
                            window_of(mid, terminal.spec_width(), hr),
                            res.1.0,
                        ) && unchanged_outside(
                            terminal.spec_cells(),
                            mid,
                            terminal.spec_width(),
                            hr,
                        ),
                        Err(e) => res.1.0 == Err::<UpdateResult, Error>(e) && mid
                            == terminal.spec_cells(),
                    }
                    &&& match self.spec_lower_rect(
                        screen_rect(terminal.spec_width(), terminal.spec_height()),
                    ) {
                        Ok(lr) => self.lower_widget.spec_draw(
                            lr.spec_width() as nat,
                            lr.spec_height() as nat,
                            terminal.spec_default_style(),
                            window_of(mid, terminal.spec_width(), lr),
                            window_of(res.0.spec_cells(), terminal.spec_width(), lr),
                            res.1.1,
                        ) && unchanged_outside(mid, res.0.spec_cells(), terminal.spec_width(), lr),
                        Err(e) => res.1.1 == Err::<UpdateResult, Error>(e) && res.0.spec_cells()
                            == mid,
                    }
                },
    {
        let (t1, res_higher) = self.draw_top(terminal);
        proof {
            t1.lemma_model();
        }
        let (t2, res_lower) = self.draw_bottom(t1);
        proof {
            terminal.lemma_frame_trans(t1, t2);
            assert(t1.spec_cells().len() == terminal.spec_cells().len());
        }
        (t2, (res_higher, res_lower))
    }
}

impl<TOP: BoundingBox, BOT: BoundingBox> Widget for Stacked<TOP, BOT> {
    /// Both children see their stacked boxes and the event translated
    /// into their local coordinates; both are updated even when the first
    /// reports an error. The first error wins; otherwise the result
    /// further along the escalation order is reported and the other is
    /// kept in `leftover_result`.
    open spec fn spec_update(
        &self,
        next: Self,
        update_info: UpdateInfo,
        width: nat,
        height: nat,
        r: Result<UpdateResult, Error>,
    ) -> bool {
        let bounds = screen_rect(width, height);
        match self.spec_higher_rect(bounds) {
            Ok(hr) => match self.spec_lower_rect(bounds) {
                Ok(lr) => exists|r1: Result<UpdateResult, Error>, r2: Result<UpdateResult, Error>|
                    {
                        &&& #[trigger] self.higher_widget.spec_update(
                            next.higher_widget,
                            update_info.spec_relative_to(hr),
                            hr.spec_width() as nat,
                            hr.spec_height() as nat,
                            r1,
                        )
                        &&& #[trigger] self.lower_widget.spec_update(
                            next.lower_widget,
                            update_info.spec_relative_to(lr),
                            lr.spec_width() as nat,
                            lr.spec_height() as nat,
                            r2,
                        )
                        &&& match r1 {
                            Err(e1) => r == Err::<UpdateResult, Error>(e1)
                                && next.leftover_result == self.leftover_result,
                            Ok(u1) => match r2 {
                                Err(e2) => r == Err::<UpdateResult, Error>(e2)
                                    && next.leftover_result == self.leftover_result,
                                Ok(u2) => r == Ok::<UpdateResult, Error>(u2.spec_escalate(u1))
                                    && next.leftover_result == Some(u2.spec_deescalate(u1)),
                            },
                        }
                    },
                Err(e) => r == Err::<UpdateResult, Error>(e) && next == *self,
            },
            Err(e) => r == Err::<UpdateResult, Error>(e) && next == *self,
        }
    }

    /// The higher widget draws into the window under its stacked box,
    /// then the lower widget into the window under its own; the first
    /// error stops the sequence. On success the result further along the
    /// escalation order is reported.
    open spec fn spec_draw(
        &self,
        width: nat,
        height: nat,
        style: Style,
        old_cells: Seq<Cell>,
        new_cells: Seq<Cell>,
        r: Result<UpdateResult, Error>,
    ) -> bool {
        let bounds = screen_rect(width, height);
        match self.spec_higher_rect(bounds) {
            Ok(hr) => exists|mid: Seq<Cell>, r1: Result<UpdateResult, Error>|
                {
                    &&& #[trigger] self.higher_widget.spec_draw(
                        hr.spec_width() as nat,
                        hr.spec_height() as nat,
                        style,
                        window_of(old_cells, width, hr),
                        window_of(mid, width, hr),
                        r1,
                    )
                    &&& unchanged_outside(old_cells, mid, width, hr)
                    &&& mid.len() == old_cells.len()
                    &&& match r1 {
                        Err(e1) => r == Err::<UpdateResult, Error>(e1) && new_cells == mid,
                        Ok(u1) => match self.spec_lower_rect(bounds) {
                            Ok(lr) => exists|r2: Result<UpdateResult, Error>|
                                {
                                    &&& #[trigger] self.lower_widget.spec_draw(
                                        lr.spec_width() as nat,
                                        lr.spec_height() as nat,
                                        style,
                                        window_of(mid, width, lr),
                                        window_of(new_cells, width, lr),
                                        r2,
                                    )
                                    &&& unchanged_outside(mid, new_cells, width, lr)
                                    &&& match r2 {
                                        Err(e2) => r == Err::<UpdateResult, Error>(e2),
                                        Ok(u2) => r == Ok::<UpdateResult, Error>(
                                            u2.spec_escalate(u1),
                                        ),
                                    }
                                },
                            Err(e) => r == Err::<UpdateResult, Error>(e) && new_cells == mid,
                        },
                    }
                },
            Err(e) => r == Err::<UpdateResult, Error>(e) && new_cells == old_cells,
        }
    }

    fn update<T: TerminalConst>(&mut self, update_info: UpdateInfo, terminal: &T) -> (r: Result<
        UpdateResult,
        Error,
    >) {
        let bounds = terminal.bounding_box();
        let hr = match self.higher_view_rect(bounds) {
            Ok(v) => v,
            Err(e) => {
                return Err(e);
            },
        };
        let lr = match self.lower_view_rect(bounds) {
            Ok(v) => v,
            Err(e) => {
                return Err(e);
            },
        };
        let r1 = crate::widgets::builtins::update_in_box(
            &mut self.higher_widget,
            update_info.mouse_relative_to(hr),
            terminal,
            hr,
        );
        let r2 = crate::widgets::builtins::update_in_box(
            &mut self.lower_widget,
            update_info.mouse_relative_to(lr),
            terminal,
            lr,
        );
        let u1 = match r1 {
            Ok(u) => u,
            Err(e1) => {
                proof {
                    assert(old(self).higher_widget.spec_update(
                        self.higher_widget,
                        update_info.spec_relative_to(hr),
                        hr.spec_width() as nat,
                        hr.spec_height() as nat,
                        r1,
                    ));
                    assert(old(self).lower_widget.spec_update(
                        self.lower_widget,
                        update_info.spec_relative_to(lr),
                        lr.spec_width() as nat,
                        lr.spec_height() as nat,
                        r2,
                    ));
                }
                return Err(e1);
            },
        };
        let u2 = match r2 {
            Ok(u) => u,
            Err(e2) => {
                proof {
                    assert(old(self).higher_widget.spec_update(
                        self.higher_widget,
                        update_info.spec_relative_to(hr),
                        hr.spec_width() as nat,
                        hr.spec_height() as nat,
                        r1,
                    ));
                    assert(old(self).lower_widget.spec_update(
                        self.lower_widget,
                        update_info.spec_relative_to(lr),
                        lr.spec_width() as nat,
                        lr.spec_height() as nat,
                        r2,
                    ));
                }
                return Err(e2);
            },
        };
        self.leftover_result = Some(u2.deescalate(u1));
        proof {
            assert(old(self).higher_widget.spec_update(
                self.higher_widget,
                update_info.spec_relative_to(hr),
                hr.spec_width() as nat,
                hr.spec_height() as nat,
                r1,
            ));
            assert(old(self).lower_widget.spec_update(
                self.lower_widget,
                update_info.spec_relative_to(lr),
                lr.spec_width() as nat,
                lr.spec_height() as nat,
                r2,
            ));
        }
        Ok(u2.escalate(u1))
    }

    fn draw<T: Terminal>(&self, terminal: T) -> (res: (T, Result<UpdateResult, Error>)) {
        proof {
            terminal.lemma_model();
            terminal.lemma_frame_refl();
        }
        let (t1, r1) = self.draw_top(terminal);
        let u1 = match r1 {
            Ok(u) => u,
            Err(e) => {
                return (t1, Err(e));
            },
        };
        proof {
            terminal.lemma_frame_trans(terminal, t1);
            t1.lemma_model();
        }
        let (t2, r2) = self.draw_bottom(t1);
        proof {
            terminal.lemma_frame_trans(t1, t2);
        }
        match r2 {
            Ok(u2) => (t2, Ok(u2.escalate(u1))),
            Err(e) => (t2, Err(e)),
        }
    }
}

impl<TOP: BoundingBox, BOT: BoundingBox> Stacked<TOP, BOT> {
    /// The children's natural boxes combined: the wider of the two
    /// extents, the sum of their heights, anchored at the higher widget's
    /// left-top; required to lie in the available rectangle, else a
    /// rescale to the combined size is requested.
    pub open spec fn spec_combined(&self, rect: Rectangle) -> Result<Rectangle, Error> {
        match self.higher_widget.spec_bounding_box(rect) {
            Ok(hv) => match self.lower_widget.spec_bounding_box(rect) {
                Ok(lv) => {
                    let w = if hv.spec_width() >= lv.spec_width() {
                        hv.spec_width()
                    } else {
                        lv.spec_width()
                    };
                    let h = hv.spec_height() + lv.spec_height();
                    if hv.left + w <= usize::MAX && hv.top + h <= usize::MAX {
                        let combined = Rectangle {
                            left: hv.left,
                            top: hv.top,
                            right: (hv.left + w) as usize,
                            bottom: (hv.top + h) as usize,
                        };
                        if rect.spec_contains_rect(combined) {
                            Ok(combined)
                        } else {
                            Err(
                                Error::RequestRescale {
                                    new_width: w as usize,
                                    new_height: h as usize,
                                },
                            )
                        }
                    } else {
                        Err(Error::OutOfBoundsCoordinate { x: None, y: None })
                    }
                },
                Err(e) => Err(e),
            },
            Err(e) => Err(e),
        }
    }

    /// When both children compute their boxes and the combined box fits,
    /// the stack's height is exactly the sum of the two children's
    /// heights (and its width the wider of the two).
    pub proof fn lemma_stacked_heights(&self, rect: Rectangle)
        requires
            rect.wf(),
        ensures
            match (
                self.higher_widget.spec_bounding_box(rect),
                self.lower_widget.spec_bounding_box(rect),
                self.spec_combined(rect),
            ) {
                (Ok(hv), Ok(lv), Ok(b)) => hv.wf() && lv.wf() ==> b.spec_height()
                    == hv.spec_height() + lv.spec_height() && b.spec_width() == (
                if hv.spec_width() >= lv.spec_width() {
                    hv.spec_width()
                } else {
                    lv.spec_width()
                }),
                _ => true,
            },
    {
        let cb = self.spec_combined(rect);
        match (
            self.higher_widget.spec_bounding_box(rect),
            self.lower_widget.spec_bounding_box(rect),
        ) {
            (Ok(hv), Ok(lv)) => {
                let w = if hv.spec_width() >= lv.spec_width() {
                    hv.spec_width()
                } else {
                    lv.spec_width()
                };
                let h = hv.spec_height() + lv.spec_height();
                if hv.left + w <= usize::MAX && hv.top + h <= usize::MAX {
                    let combined = Rectangle {
                        left: hv.left,
                        top: hv.top,
                        right: (hv.left + w) as usize,
                        bottom: (hv.top + h) as usize,
                    };
                    if rect.spec_contains_rect(combined) {
                        assert(cb == Ok::<Rectangle, Error>(combined));
                    } else {
                        assert(cb is Err);
                    }
                } else {
                    assert(cb is Err);
                }
            },
            _ => {
                assert(cb is Err);
            },
        }
    }
}

impl<TOP: BoundingBox, BOT: BoundingBox> BoundingBox for Stacked<TOP, BOT> {
    /// The children's natural boxes combined: see
    /// [`Stacked::spec_combined`].
    open spec fn spec_bounding_box(&self, rect: Rectangle) -> Result<Rectangle, Error> {
        self.spec_combined(rect)
    }

    /// The stack covers a rectangle exactly when it takes the rectangle's
    /// full size and each child covers its own stacked box.
    open spec fn spec_completely_covers(&self, rectangle: Rectangle) -> bool {
        match self.spec_bounding_box(rectangle) {
            Ok(b) => match self.spec_higher_rect(rectangle) {
                Ok(hr) => match self.spec_lower_rect(rectangle) {
                    Ok(lr) => {
                        &&& b.spec_width() == rectangle.spec_width()
                        &&& b.spec_height() == rectangle.spec_height()
                        &&& self.higher_widget.spec_completely_covers(hr)
                        &&& self.lower_widget.spec_completely_covers(lr)
                    },
                    Err(_) => false,
                },
                Err(_) => false,
            },
            Err(_) => false,
        }
    }

    fn bounding_box(&self, rect: Rectangle) -> (r: Result<Rectangle, Error>) {
        proof {
            assert(self.spec_bounding_box(rect) == self.spec_combined(rect));
        }
        let hv = match self.higher_widget.bounding_box(rect) {
            Ok(v) => v,
            Err(e) => {
                return Err(e);
            },
        };
        let lv = match self.lower_widget.bounding_box(rect) {
            Ok(v) => v,
            Err(e) => {
                return Err(e);
            },
        };
        let (hw, hh) = hv.dimensions();
        let (lw, lh) = lv.dimensions();
        let w = if hw >= lw {
            hw
        } else {
            lw
        };
        let h = match hh.checked_add(lh) {
            Some(v) => v,
            None => {
                // the combined bottom would certainly leave the machine
                assert(hv.top + (hh + lh) > usize::MAX);
                return Err(Error::oob());
            },
        };
        let right = match hv.left().checked_add(w) {
            Some(v) => v,
            None => {
                return Err(Error::oob());
            },
        };
        let bottom = match hv.top().checked_add(h) {
            Some(v) => v,
            None => {
                return Err(Error::oob());
            },
        };
        let combined = Rectangle { left: hv.left(), top: hv.top(), right, bottom };
        if rect.contains_rect(combined) {
            Ok(combined)
        } else {
            Err(Error::RequestRescale { new_width: w, new_height: h })
        }
    }

    fn completely_covers(&self, rectangle: Rectangle) -> (r: bool) {
        let b = match self.bounding_box(rectangle) {
            Ok(v) => v,
            Err(_) => {
                return false;
            },
        };
        let hr = match self.higher_view_rect(rectangle) {
            Ok(v) => v,
            Err(_) => {
                return false;
            },
        };
        let lr = match self.lower_view_rect(rectangle) {
            Ok(v) => v,
            Err(_) => {
                return false;
            },
        };
        let (bw, bh) = b.dimensions();
        let (rw, rh) = rectangle.dimensions();
        bw == rw && bh == rh && self.higher_widget.completely_covers(hr)
            && self.lower_widget.completely_covers(lr)
    }
}

} // verus!
