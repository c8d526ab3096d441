//! The [`ShrinkWrap`] widget: padding by pretending the terminal is
//! smaller than it is.

use vstd::prelude::*;

use crate::errors::Error;
use crate::style::Style;
use crate::terminal::Cell;
use crate::terminal::Rectangle;
use crate::terminal::Terminal;
use crate::terminal::TerminalConst;
use crate::terminal::UpdateInfo;
use crate::terminal::UpdateResult;
use crate::terminal::view::unchanged_outside;
use crate::terminal::view::window_of;
use crate::widgets::builtins::fits_screen;
use crate::widgets::builtins::screen_rect;
use crate::widgets::BoundingBox;
use crate::widgets::Widget;

verus! {

/// Wraps a child widget and trims the available rectangle by a fixed
/// padding on every edge before handing it to the child.
pub struct ShrinkWrap<T> {
    /// The child widget.
    pub child: T,
    /// How much padding to apply on each edge.
    pub padding: usize,
}

impl<T> ShrinkWrap<T> {
    /// The child widget, by reference.
    pub open spec fn spec_inner(&self) -> &T {
        &self.child
    }

    /// Create a new [`ShrinkWrap`] with a child widget and no padding;
    /// set the padding with [`ShrinkWrap::shrink`] or directly on the
    /// field.
    #[must_use]
    pub fn new(child: T) -> (r: Self)
        ensures
            r.spec_inner() == &child,
            r.padding == 0,
    {
        Self { child, padding: 0 }
    }

    /// Set the padding.
    #[must_use]
    pub fn shrink(self, padding: usize) -> (r: Self)
        ensures
            r.spec_inner() == self.spec_inner(),
            r.padding == padding,
    {
        Self { padding, ..self }
    }

    /// Get a reference to the child widget.
    pub fn inner(&self) -> (r: &T)
        ensures
            r == self.spec_inner(),
    {
        &self.child
    }

    /// Consume the wrapper and return the child widget.
    pub fn into_inner(self) -> (r: T)
        ensures
            r == *self.spec_inner(),
    {
        self.child
    }
}

impl<W: Widget> ShrinkWrap<W> {
    /// The available rectangle trimmed by the padding on every edge, or
    /// nothing when a trimmed edge would leave `[0, usize::MAX]`.
    pub open spec fn spec_box(&self, rect: Rectangle) -> Option<Rectangle> {
        match rect.spec_trim_x(self.padding as int) {
            Some(r) => r.spec_trim_y(self.padding as int),
            None => None,
        }
    }

    /// The size hint reported when the padding cannot be applied: the
    /// available size grown by the padding, saturating at the machine
    /// limit.
    pub open spec fn spec_hint(&self, rect: Rectangle) -> (usize, usize) {
        (
            if rect.spec_width() + self.padding <= usize::MAX {
                (rect.spec_width() + self.padding) as usize
            } else {
                usize::MAX
            },
            if rect.spec_height() + self.padding <= usize::MAX {
                (rect.spec_height() + self.padding) as usize
            } else {
                usize::MAX
            },
        )
    }
}

impl<W: Widget> Widget for ShrinkWrap<W> {
    /// The child is updated as if the terminal were the trimmed box; when
    /// the box cannot be computed or does not lie in the terminal, the
    /// widget is unchanged and the error names a size to rescale to.
    open spec fn spec_update(
        &self,
        next: Self,
        update_info: UpdateInfo,
        width: nat,
        height: nat,
        r: Result<UpdateResult, Error>,
    ) -> bool {
        let rect = screen_rect(width, height);
        match self.spec_box(rect) {
            Some(b) => if fits_screen(b, width, height) {
                &&& self.spec_inner().spec_update(
                    *next.spec_inner(),
                    update_info,
                    b.spec_width() as nat,
                    b.spec_height() as nat,
                    r,
                )
                &&& next.padding == self.padding
            } else {
                &&& r == Err::<UpdateResult, Error>(
                    Error::RequestRescale { new_width: b.right, new_height: b.bottom },
                )
                &&& next == *self
            },
            None => {
                &&& r == Err::<UpdateResult, Error>(
                    Error::RequestRescale {
                        new_width: self.spec_hint(rect).0,
                        new_height: self.spec_hint(rect).1,
                    },
                )
                &&& next == *self
            },
        }
    }

    /// The child draws as if the terminal were the trimmed box: its
    /// effect lands on the window under the box. When the box cannot be
    /// computed or does not lie in the terminal, nothing is drawn and the
    /// error names a size to rescale to.
    open spec fn spec_draw(
        &self,
        width: nat,
        height: nat,
        style: Style,
        old_cells: Seq<Cell>,
        new_cells: Seq<Cell>,
        r: Result<UpdateResult, Error>,
    ) -> bool {
        let rect = screen_rect(width, height);
        match self.spec_box(rect) {
            Some(b) => if fits_screen(b, width, height) {
                &&& self.spec_inner().spec_draw(
                    b.spec_width() as nat,
                    b.spec_height() as nat,
                    style,
                    window_of(old_cells, width, b),
                    window_of(new_cells, width, b),
                    r,
                )
                &&& unchanged_outside(old_cells, new_cells, width, b)
            } else {
                &&& r == Err::<UpdateResult, Error>(
                    Error::RequestRescale { new_width: b.right, new_height: b.bottom },
                )
                &&& new_cells == old_cells
            },
            None => {
                &&& r == Err::<UpdateResult, Error>(
                    Error::RequestRescale {
                        new_width: self.spec_hint(rect).0,
                        new_height: self.spec_hint(rect).1,
                    },
                )
                &&& new_cells == old_cells
            },
        }
    }

    fn update<T: TerminalConst>(&mut self, update_info: UpdateInfo, terminal: &T) -> (r: Result<
        UpdateResult,
        Error,
    >) {
        let bounds = terminal.bounding_box();
        match self.bounding_box(bounds) {
            Ok(b) => {
                if b.right() <= terminal.width() && b.bottom() <= terminal.height() {
                    crate::widgets::builtins::update_in_box(
                        &mut self.child,
                        update_info,
                        terminal,
                        b,
                    )
                } else {
                    Err(Error::RequestRescale { new_width: b.right(), new_height: b.bottom() })
                }
            },
            Err(e) => Err(e),
        }
    }

    fn draw<T: Terminal>(&self, terminal: T) -> (res: (T, Result<UpdateResult, Error>)) {
        proof {
            terminal.lemma_model();
            terminal.lemma_frame_refl();
        }
        let bounds = terminal.bounding_box();
        match self.bounding_box(bounds) {
            Ok(b) => {
                if b.right() <= terminal.width() && b.bottom() <= terminal.height() {
                    crate::widgets::builtins::draw_in_box(&self.child, terminal, b)
                } else {
                    let e = Error::RequestRescale { new_width: b.right(), new_height: b.bottom() };
                    (terminal, Err(e))
                }
            },
            Err(e) => (terminal, Err(e)),
        }
    }
}

impl<W: Widget> BoundingBox for ShrinkWrap<W> {
    /// The available rectangle trimmed by the padding on every edge; when
    /// the padding cannot be applied, the error hints at the available
    /// size grown by the padding.
    open spec fn spec_bounding_box(&self, rect: Rectangle) -> Result<Rectangle, Error> {
        match self.spec_box(rect) {
            Some(b) => Ok(b),
            None => Err(
                Error::RequestRescale {
                    new_width: self.spec_hint(rect).0,
                    new_height: self.spec_hint(rect).1,
                },
            ),
        }
    }

    /// The surrounding padding is never painted.
    open spec fn spec_completely_covers(&self, rectangle: Rectangle) -> bool {
        false
    }

    fn bounding_box(&self, rect: Rectangle) -> (r: Result<Rectangle, Error>) {
        let trimmed = match rect.trim_x_by(self.padding) {
            Some(t) => t.trim_y_by(self.padding),
            None => None,
        };
        match trimmed {
            Some(b) => {
                assert(Ok::<Rectangle, Error>(b) == self.spec_bounding_box(rect));
                Ok(b)
            },
            None => {
                let (rw, rh) = rect.dimensions();
                let new_width = match rw.checked_add(self.padding) {
                    Some(v) => v,
                    None => usize::MAX,
                };
                let new_height = match rh.checked_add(self.padding) {
                    Some(v) => v,
                    None => usize::MAX,
                };
                Err(Error::RequestRescale { new_width, new_height })
            },
        }
    }

    fn completely_covers(&self, _rectangle: Rectangle) -> (r: bool) {
        false
    }
}

} // verus!
