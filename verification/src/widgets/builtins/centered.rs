//! The [`Centered`] widget: re-anchors its child's bounding box at the
//! center of the available area.

use vstd::prelude::*;

use crate::errors::Error;
use crate::style::Style;
use crate::terminal::view::unchanged_outside;
use crate::terminal::view::window_of;
use crate::terminal::Cell;
use crate::terminal::Rectangle;
use crate::terminal::Terminal;
use crate::terminal::TerminalConst;
use crate::terminal::UpdateInfo;
use crate::terminal::UpdateResult;
use crate::widgets::builtins::fits_screen;
use crate::widgets::builtins::screen_rect;
use crate::widgets::BoundingBox;
use crate::widgets::Widget;

verus! {

/// Centers its child widget within the available area: the child's
/// natural box keeps its size and is repositioned so that its center
/// matches the area's center on each enabled axis.
pub struct Centered<T> {
    /// The widget being centered.
    pub child: T,
    /// Whether the child is centered on the x-axis.
    pub centered_x: bool,
    /// Whether the child is centered on the y-axis.
    pub centered_y: bool,
}

impl<T> Centered<T> {
    /// Make a new [`Centered`] widget, centered on both axes.
    #[must_use]
    pub fn new(child: T) -> (r: Self)
        ensures
            r.child == child,
            r.centered_x,
            r.centered_y,
    {
        Self { child, centered_x: true, centered_y: true }
    }

    /// Consume the [`Centered`] widget and return the inner widget.
    #[must_use]
    pub fn into_inner(self) -> (r: T)
        ensures
            r == self.child,
    {
        self.child
    }

    /// Get a reference to the inner widget.
    #[must_use]
    pub fn inner(&self) -> (r: &T)
        ensures
            r == &self.child,
    {
        &self.child
    }
}

impl<W: BoundingBox> Centered<W> {
    /// The child's natural box re-anchored toward the center of the
    /// available rectangle on each enabled axis, its size kept. A child
    /// box wider or taller than the area stays at the area's left or top
    /// edge; when the re-anchored box would run past the machine limit,
    /// an out-of-bounds error takes the child box's place.
    pub open spec fn spec_box(&self, rect: Rectangle) -> Result<Rectangle, Error> {
        match self.child.spec_bounding_box(rect) {
            Ok(c) => {
                let bw = c.spec_width();
                let bh = c.spec_height();
                let left = if self.centered_x {
                    rect.left + (if rect.spec_width() / 2 >= bw / 2 {
                        rect.spec_width() / 2 - bw / 2
                    } else {
                        0
                    })
                } else {
                    rect.left as int
                };
                let top = if self.centered_y {
                    rect.top + (if rect.spec_height() / 2 >= bh / 2 {
                        rect.spec_height() / 2 - bh / 2
                    } else {
                        0
                    })
                } else {
                    rect.top as int
                };
                if left + bw <= usize::MAX && top + bh <= usize::MAX {
                    Ok(
                        Rectangle {
                            left: left as usize,
                            top: top as usize,
                            right: (left + bw) as usize,
                            bottom: (top + bh) as usize,
                        },
                    )
                } else {
                    Err(Error::OutOfBoundsCoordinate { x: None, y: None })
                }
            },
            Err(e) => Err(e),
        }
    }
}

impl<W: BoundingBox> Widget for Centered<W> {
    /// The child is updated as if the terminal were the centered box;
    /// when the box cannot be computed or does not lie in the terminal,
    /// the widget is unchanged and the error says so.
    open spec fn spec_update(
        &self,
        next: Self,
        update_info: UpdateInfo,
        width: nat,
        height: nat,
        r: Result<UpdateResult, Error>,
    ) -> bool {
        let rect = screen_rect(width, height);
        match self.spec_box(rect) {
            Ok(b) => if fits_screen(b, width, height) {
                &&& self.child.spec_update(
                    next.child,
                    update_info,
                    b.spec_width() as nat,
                    b.spec_height() as nat,
                    r,
                )
                &&& next.centered_x == self.centered_x
                &&& next.centered_y == self.centered_y
            } else {
                &&& r == Err::<UpdateResult, Error>(
                    Error::RequestRescale { new_width: b.right, new_height: b.bottom },
                )
                &&& next == *self
            },
            Err(e) => r == Err::<UpdateResult, Error>(e) && next == *self,
        }
    }

    /// The child draws as if the terminal were the centered box: its
    /// effect lands on the window under the box. When the box cannot be
    /// computed or does not lie in the terminal, nothing is drawn.
    open spec fn spec_draw(
        &self,
        width: nat,
        height: nat,
        style: Style,
        old_cells: Seq<Cell>,
        new_cells: Seq<Cell>,
        r: Result<UpdateResult, Error>,
    ) -> bool {
        let rect = screen_rect(width, height);
        match self.spec_box(rect) {
            Ok(b) => if fits_screen(b, width, height) {
                &&& self.child.spec_draw(
                    b.spec_width() as nat,
                    b.spec_height() as nat,
                    style,
                    window_of(old_cells, width, b),
                    window_of(new_cells, width, b),
                    r,
                )
                &&& unchanged_outside(old_cells, new_cells, width, b)
            } else {
                &&& r == Err::<UpdateResult, Error>(
                    Error::RequestRescale { new_width: b.right, new_height: b.bottom },
                )
                &&& new_cells == old_cells
            },
            Err(e) => r == Err::<UpdateResult, Error>(e) && new_cells == old_cells,
        }
    }

    fn update<T: TerminalConst>(&mut self, update_info: UpdateInfo, terminal: &T) -> (r: Result<
        UpdateResult,
        Error,
    >) {
        let bounds = terminal.bounding_box();
        match self.bounding_box(bounds) {
            Ok(b) => {
                if b.right() <= terminal.width() && b.bottom() <= terminal.height() {
                    crate::widgets::builtins::update_in_box(
                        &mut self.child,
                        update_info,
                        terminal,
                        b,
                    )
                } else {
                    Err(Error::RequestRescale { new_width: b.right(), new_height: b.bottom() })
                }
            },
            Err(e) => Err(e),
        }
    }

    fn draw<T: Terminal>(&self, terminal: T) -> (res: (T, Result<UpdateResult, Error>)) {
        proof {
            terminal.lemma_model();
            terminal.lemma_frame_refl();
        }
        let bounds = terminal.bounding_box();
        match self.bounding_box(bounds) {
            Ok(b) => {
                if b.right() <= terminal.width() && b.bottom() <= terminal.height() {
                    crate::widgets::builtins::draw_in_box(&self.child, terminal, b)
                } else {
                    let e = Error::RequestRescale { new_width: b.right(), new_height: b.bottom() };
                    (terminal, Err(e))
                }
            },
            Err(e) => (terminal, Err(e)),
        }
    }
}

impl<W: BoundingBox> BoundingBox for Centered<W> {
    /// The child's natural box, re-anchored toward the area's center with
    /// its size kept; only repositioning occurs, so this fails only when
    /// the child's own box computation fails or the result would run past
    /// the machine limit.
    open spec fn spec_bounding_box(&self, rect: Rectangle) -> Result<Rectangle, Error> {
        self.spec_box(rect)
    }

    /// The centered widget covers a rectangle exactly when its child
    /// does.
    open spec fn spec_completely_covers(&self, rectangle: Rectangle) -> bool {
        self.child.spec_completely_covers(rectangle)
    }

    fn bounding_box(&self, rect: Rectangle) -> (r: Result<Rectangle, Error>) {
        match self.child.bounding_box(rect) {
            Ok(c) => {
                let (bw, bh) = c.dimensions();
                let (rw, rh) = rect.dimensions();
                let left = if self.centered_x {
                    rect.left() + (if rw / 2 >= bw / 2 {
                        rw / 2 - bw / 2
                    } else {
                        0
                    })
                } else {
                    rect.left()
                };
                let top = if self.centered_y {
                    rect.top() + (if rh / 2 >= bh / 2 {
                        rh / 2 - bh / 2
                    } else {
                        0
                    })
                } else {
                    rect.top()
                };
                let right = match left.checked_add(bw) {
                    Some(v) => v,
                    None => {
                        return Err(Error::oob());
                    },
                };
                let bottom = match top.checked_add(bh) {
                    Some(v) => v,
                    None => {
                        return Err(Error::oob());
                    },
                };
                assert(Ok::<Rectangle, Error>(Rectangle { left, top, right, bottom })
                    == self.spec_bounding_box(rect));
                Ok(Rectangle { left, top, right, bottom })
            },
            Err(e) => Err(e),
        }
    }

    fn completely_covers(&self, rectangle: Rectangle) -> (r: bool) {
        self.child.completely_covers(rectangle)
    }
}

} // verus!
