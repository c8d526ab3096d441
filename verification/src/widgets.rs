//! Widgets: things that can draw themselves into a terminal.
//!
//! A [`Widget`] can react to events (`update`) and paint cells (`draw`).
//! A widget that can also report the area it needs implements
//! [`BoundingBox`]; layout widgets compose such widgets by negotiating
//! their bounding boxes inside a parent rectangle and drawing each child
//! through a view over the agreed box.
//!
//! Every widget carries two specification-level descriptions:
//! [`Widget::spec_update`] and [`Widget::spec_draw`] say what `update` and
//! `draw` do to the widget and to the cells; [`BoundingBox`] widgets
//! additionally pin their layout down exactly with
//! [`BoundingBox::spec_bounding_box`].

pub mod builtins;

use vstd::prelude::*;

use crate::errors::Error;
use crate::style::Style;
use crate::terminal::Cell;
use crate::terminal::Metadata;
use crate::terminal::Rectangle;
use crate::terminal::Terminal;
use crate::terminal::TerminalConst;
use crate::terminal::UpdateInfo;
use crate::terminal::UpdateResult;

verus! {

/// A direction, for widgets that need one.
#[derive(Copy, Clone, Eq, PartialEq, Structural, Default, Debug, Hash)]
pub enum Direction {
    /// Left.
    #[default]
    Left,
    /// Right.
    Right,
    /// Down, or the bottom of the terminal in some contexts.
    Down,
    /// Up, or the top of the terminal in some contexts.
    Up,
}

impl Direction {
    /// All the possible directions.
    pub fn enumerate() -> (r: Vec<Direction>)
        ensures
            r@ == seq![Direction::Left, Direction::Right, Direction::Down, Direction::Up],
    {
        let mut v: Vec<Direction> = Vec::new();
        v.push(Direction::Left);
        v.push(Direction::Right);
        v.push(Direction::Down);
        v.push(Direction::Up);
        assert(v@ =~= seq![Direction::Left, Direction::Right, Direction::Down, Direction::Up]);
        v
    }
}

/// The minimum requirements for a type to be drawable on a terminal.
///
/// `draw` takes the terminal by value and hands it back together with the
/// result, so that windowed views (which own their parent) can be threaded
/// through nested widgets.
pub trait Widget: Sized {
    /// What `update` does: relates the widget before and after, the event,
    /// the terminal's dimensions, and the returned result.
    spec fn spec_update(
        &self,
        next: Self,
        update_info: UpdateInfo,
        width: nat,
        height: nat,
        r: Result<UpdateResult, Error>,
    ) -> bool;

    /// What `draw` does: relates the terminal's cells before and after,
    /// given its dimensions and default style, to the returned result.
    spec fn spec_draw(
        &self,
        width: nat,
        height: nat,
        style: Style,
        old_cells: Seq<Cell>,
        new_cells: Seq<Cell>,
        r: Result<UpdateResult, Error>,
    ) -> bool;

    /// React to an event. The widget may reconfigure itself using the
    /// terminal's dimensions, but cannot draw.
    fn update<T: TerminalConst>(&mut self, update_info: UpdateInfo, terminal: &T) -> (r: Result<
        UpdateResult,
        Error,
    >)
        requires
            terminal.inv(),
        ensures
            old(self).spec_update(
                *final(self),
                update_info,
                terminal.spec_width(),
                terminal.spec_height(),
                r,
            ),
    ;

    /// Draw the widget into the terminal and hand the terminal back.
    ///
    /// On an `Err` the terminal's contents may have been partially
    /// modified; callers should not assume a clean rollback beyond what
    /// [`Widget::spec_draw`] states.
    fn draw<T: Terminal>(&self, terminal: T) -> (res: (T, Result<UpdateResult, Error>))
        requires
            terminal.inv(),
        ensures
            res.0.inv(),
            terminal.spec_frame(res.0),
            res.0.spec_width() == terminal.spec_width(),
            res.0.spec_height() == terminal.spec_height(),
            res.0.spec_default_style() == terminal.spec_default_style(),
            self.spec_draw(
                terminal.spec_width(),
                terminal.spec_height(),
                terminal.spec_default_style(),
                terminal.spec_cells(),
                res.0.spec_cells(),
                res.1,
            ),
    ;

    /// Draw the widget; a shorthand named for reading at the call site:
    /// `widget.drawn(terminal)`.
    fn drawn<T: Terminal>(&self, terminal: T) -> (res: (T, Result<UpdateResult, Error>))
        requires
            terminal.inv(),
        ensures
            res.0.inv(),
            terminal.spec_frame(res.0),
            res.0.spec_width() == terminal.spec_width(),
            res.0.spec_height() == terminal.spec_height(),
            res.0.spec_default_style() == terminal.spec_default_style(),
            self.spec_draw(
                terminal.spec_width(),
                terminal.spec_height(),
                terminal.spec_default_style(),
                terminal.spec_cells(),
                res.0.spec_cells(),
                res.1,
            ),
    {
        self.draw(terminal)
    }
}

/// A widget that can report the area of the terminal it covers, so that
/// other widgets can lay it out.
pub trait BoundingBox: Widget {
    /// The layout function itself: given the available space, the exact
    /// rectangle the widget needs, or the exact error. `bounding_box` is
    /// proven to return precisely this.
    spec fn spec_bounding_box(&self, rect: Rectangle) -> Result<Rectangle, Error>;

    /// Whether the widget paints every cell of the given rectangle;
    /// `completely_covers` is proven to return precisely this.
    spec fn spec_completely_covers(&self, rectangle: Rectangle) -> bool;

    /// Calculate the smallest rectangle this widget needs inside the given
    /// available rectangle, or fail with a structured hint (most often
    /// [`Error::RequestRescale`]) when it cannot fit.
    fn bounding_box(&self, rect: Rectangle) -> (r: Result<Rectangle, Error>)
        requires
            rect.wf(),
        ensures
            r == self.spec_bounding_box(rect),
            r matches Ok(b) ==> b.wf(),
    ;

    /// Whether the widget paints every cell in the given rectangle; used
    /// by callers to skip clearing first.
    fn completely_covers(&self, rectangle: Rectangle) -> (r: bool)
        requires
            rectangle.wf(),
        ensures
            r == self.spec_completely_covers(rectangle),
    ;

    /// Whether the widget completely covers its own bounding box in the
    /// given terminal; `false` when the bounding box cannot be computed.
    fn covered_in<T: TerminalConst>(&self, terminal: &T) -> (r: bool)
        requires
            terminal.inv(),
        ensures
            r == match self.spec_bounding_box(
                Rectangle {
                    left: 0,
                    top: 0,
                    right: terminal.spec_width() as usize,
                    bottom: terminal.spec_height() as usize,
                },
            ) {
                Ok(b) => self.spec_completely_covers(b),
                Err(_) => false,
            },
    {
        let bb = self.bounding_box(terminal.bounding_box());
        match bb {
            Ok(b) => self.completely_covers(b),
            Err(_) => false,
        }
    }

    /// The widget's bounding box inside the whole of the given terminal.
    fn bounding_box_in<T: Metadata>(&self, terminal: &T) -> (r: Result<Rectangle, Error>)
        requires
            terminal.inv(),
        ensures
            r == self.spec_bounding_box(
                Rectangle {
                    left: 0,
                    top: 0,
                    right: terminal.spec_width() as usize,
                    bottom: terminal.spec_height() as usize,
                },
            ),
            r matches Ok(b) ==> b.wf(),
    {
        self.bounding_box(terminal.bounding_box())
    }
}

} // verus!
