//! The [`Backdrop`] widget: clears the area behind another widget.

use vstd::prelude::*;

use crate::errors::Error;
use crate::style::Colour;
use crate::style::Style;
use crate::terminal::view::unchanged_outside;
use crate::terminal::view::window_of;
use crate::terminal::Cell;
use crate::terminal::Terminal;
use crate::terminal::TerminalConst;
use crate::terminal::UpdateInfo;
use crate::terminal::UpdateResult;
use crate::widgets::builtins::fits_screen;
use crate::widgets::builtins::screen_rect;
use crate::widgets::builtins::Sweeper;
use crate::widgets::BoundingBox;
use crate::widgets::Widget;

verus! {

/// Paints a blank backdrop of a chosen style over the area its child
/// widget would occupy, so the child can be drawn over a clean surface.
#[derive(Copy, Clone)]
pub struct Backdrop<'a, T> {
    /// The style of the backdrop.
    pub style: Style,
    /// The widget whose bounding box is painted over.
    pub child: &'a T,
}

impl<'a, T> Backdrop<'a, T> {
    /// Create a new [`Backdrop`] behind the given widget, with an unset
    /// style.
    #[must_use]
    pub fn new(child: &'a T) -> (r: Self)
        ensures
            r.child == child,
            r.style.is_unset(),
    {
        Self { style: Style::new(), child }
    }

    /// Use a backdrop of the given background [`Colour`].
    #[must_use]
    pub fn of_colour(self, colour: Colour) -> (r: Self)
        ensures
            r.child == self.child,
            r.style == (Style { bg_colour: Some(colour), ..self.style }),
    {
        Self { style: self.style.bg(colour), ..self }
    }

    /// Set the [`Style`] of the [`Backdrop`].
    #[must_use]
    pub fn with_style(self, style: Style) -> (r: Self)
        ensures
            r.child == self.child,
            r.style == style,
    {
        Self { style, ..self }
    }
}

impl<'a, W: BoundingBox> Widget for Backdrop<'a, W> {
    /// Nothing changes and no event is reported.
    open spec fn spec_update(
        &self,
        next: Self,
        update_info: UpdateInfo,
        width: nat,
        height: nat,
        r: Result<UpdateResult, Error>,
    ) -> bool {
        next == *self && r == Ok::<UpdateResult, Error>(UpdateResult::NoEvent)
    }

    /// The window under the child's bounding box becomes all blank cells
    /// of the backdrop's style; when the child's box cannot be computed
    /// or does not lie in the terminal, nothing is drawn.
    open spec fn spec_draw(
        &self,
        width: nat,
        height: nat,
        style: Style,
        old_cells: Seq<Cell>,
        new_cells: Seq<Cell>,
        r: Result<UpdateResult, Error>,
    ) -> bool {
        match self.child.spec_bounding_box(screen_rect(width, height)) {
            Ok(b) => if fits_screen(b, width, height) {
                &&& (Sweeper { style: self.style }).spec_draw(
                    b.spec_width() as nat,
                    b.spec_height() as nat,
                    style,
                    window_of(old_cells, width, b),
                    window_of(new_cells, width, b),
                    r,
                )
                &&& unchanged_outside(old_cells, new_cells, width, b)
            } else {
                &&& r == Err::<UpdateResult, Error>(
                    Error::OutOfBoundsCoordinate { x: None, y: None },
                )
                &&& new_cells == old_cells
            },
            Err(e) => r == Err::<UpdateResult, Error>(e) && new_cells == old_cells,
        }
    }

    fn update<T: TerminalConst>(&mut self, _update_info: UpdateInfo, _terminal: &T) -> (r: Result<
        UpdateResult,
        Error,
    >) {
        Ok(UpdateResult::NoEvent)
    }

    fn draw<T: Terminal>(&self, terminal: T) -> (res: (T, Result<UpdateResult, Error>)) {
        proof {
            terminal.lemma_model();
            terminal.lemma_frame_refl();
        }
        let bounds = terminal.bounding_box();
        match self.child.bounding_box(bounds) {
            Ok(b) => {
                if b.right() <= terminal.width() && b.bottom() <= terminal.height() {
                    let sweeper = Sweeper::new(self.style);
                    crate::widgets::builtins::draw_in_box(&sweeper, terminal, b)
                } else {
                    (terminal, Err(Error::oob()))
                }
            },
            Err(e) => (terminal, Err(e)),
        }
    }
}

} // verus!
