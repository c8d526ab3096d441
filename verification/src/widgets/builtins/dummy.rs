//! The [`Dummy`] widget, which draws nothing.

use vstd::prelude::*;

use crate::errors::Error;
use crate::style::Style;
use crate::terminal::Cell;
use crate::terminal::Rectangle;
use crate::terminal::Terminal;
use crate::terminal::TerminalConst;
use crate::terminal::UpdateInfo;
use crate::terminal::UpdateResult;
use crate::widgets::BoundingBox;
use crate::widgets::Widget;

verus! {

/// A widget that does nothing at all: it paints no cell, needs no space,
/// and reports no event.
#[derive(Copy, Clone, Eq, PartialEq, Structural, Debug, Default, Hash)]
pub struct Dummy;

impl Widget for Dummy {
    /// Nothing changes and no event is reported.
    open spec fn spec_update(
        &self,
        next: Self,
        update_info: UpdateInfo,
        width: nat,
        height: nat,
        r: Result<UpdateResult, Error>,
    ) -> bool {
        next == *self && r == Ok::<UpdateResult, Error>(UpdateResult::NoEvent)
    }

    /// No cell changes and no event is reported.
    open spec fn spec_draw(
        &self,
        width: nat,
        height: nat,
        style: Style,
        old_cells: Seq<Cell>,
        new_cells: Seq<Cell>,
        r: Result<UpdateResult, Error>,
    ) -> bool {
        new_cells == old_cells && r == Ok::<UpdateResult, Error>(UpdateResult::NoEvent)
    }

    fn update<T: TerminalConst>(&mut self, _update_info: UpdateInfo, _terminal: &T) -> (r: Result<
        UpdateResult,
        Error,
    >) {
        Ok(UpdateResult::NoEvent)
    }

    fn draw<T: Terminal>(&self, terminal: T) -> (res: (T, Result<UpdateResult, Error>)) {
        proof {
            terminal.lemma_frame_refl();
        }
        (terminal, Ok(UpdateResult::NoEvent))
    }
}

impl BoundingBox for Dummy {
    /// The zero-size rectangle at the origin.
    open spec fn spec_bounding_box(&self, rect: Rectangle) -> Result<Rectangle, Error> {
        Ok(Rectangle { left: 0, top: 0, right: 0, bottom: 0 })
    }

    /// Vacuously, the empty widget covers everything it claims (nothing).
    open spec fn spec_completely_covers(&self, rectangle: Rectangle) -> bool {
        true
    }

    fn bounding_box(&self, _rect: Rectangle) -> (r: Result<Rectangle, Error>) {
        Ok(Rectangle::of_size((0, 0)))
    }

    fn completely_covers(&self, _rectangle: Rectangle) -> (r: bool) {
        true
    }
}

} // verus!
