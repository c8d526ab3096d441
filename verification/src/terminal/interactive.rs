//! Input events and update outcomes for interactive widgets: [`UpdateInfo`]
//! fed into a widget's `update`, and the [`UpdateResult`] it reports back.

use vstd::prelude::*;

verus! {

/// The buttons on a mouse.
#[derive(Copy, Clone, Debug, Hash, Eq, PartialEq, Structural)]
pub enum MouseButton {
    /// The left click button.
    LeftClick,
    /// The right click button.
    RightClick,
    /// Any auxiliary mouse button, for example an additional side button.
    AuxiliaryButton(u16),
}

/// The states a keyboard key can be in.
#[derive(Copy, Clone, Debug, Hash, Eq, PartialEq, Structural)]
pub enum KeyState {
    /// The key has just been pressed.
    KeyDown,
    /// The key has just been released.
    KeyUp,
    /// The key is currently held.
    KeyHeld,
}

/// The information sent to widgets on an update.
#[derive(Copy, Clone, Debug, Hash, Eq, PartialEq, Structural)]
pub enum UpdateInfo {
    /// A cell was clicked: the x-coordinate, the y-coordinate, and the
    /// mouse button.
    CellClicked(usize, usize, MouseButton),
    /// A printable keyboard key was pressed.
    KeyboardCharacter(char, KeyState),
    /// A non-printable keyboard key was pressed, by USB keyboard HID value.
    KeyboardInput(u8, KeyState),
    /// How much time has passed since the last update, in milliseconds.
    TimeDelta(u64),
    /// The terminal was resized; widgets should recompute any cached
    /// dimensions.
    TerminalResized,
    /// There is no information to report.
    NoInfo,
}

impl UpdateInfo {
    /// A click event translated into the local coordinates of the given
    /// rectangle, each coordinate clamped at zero; any other event is
    /// unchanged.
    pub open spec fn spec_relative_to(self, rect: crate::terminal::Rectangle) -> UpdateInfo {
        match self {
            UpdateInfo::CellClicked(x, y, b) => UpdateInfo::CellClicked(
                if x >= rect.left {
                    (x - rect.left) as usize
                } else {
                    0
                },
                if y >= rect.top {
                    (y - rect.top) as usize
                } else {
                    0
                },
                b,
            ),
            _ => self,
        }
    }

    /// Translate a click event into the local coordinates of the given
    /// rectangle, so that it can be handed to a widget drawn in a view over
    /// that rectangle. Coordinates left of or above the rectangle clamp to
    /// zero. Other events are unchanged.
    #[must_use]
    pub fn mouse_relative_to(self, rect: crate::terminal::Rectangle) -> (r: UpdateInfo)
        ensures
            r == self.spec_relative_to(rect),
    {
        match self {
            UpdateInfo::CellClicked(x, y, b) => {
                let lx = if x >= rect.left() {
                    x - rect.left()
                } else {
                    0
                };
                let ly = if y >= rect.top() {
                    y - rect.top()
                } else {
                    0
                };
                UpdateInfo::CellClicked(lx, ly, b)
            },
            _ => self,
        }
    }
}

/// What happened inside a widget during an update or a draw. Widgets cannot
/// destruct themselves; the caller acts on the reported result.
#[derive(Copy, Clone, Debug, Hash, Eq, PartialEq, Structural)]
pub enum UpdateResult {
    /// No event has occurred; the widget continues to live.
    NoEvent,
    /// The widget continues to live and has not changed how it draws
    /// itself.
    NoRedraw,
    /// The user interacted with the widget.
    Interacted,
    /// The widget's lifecycle has ended and it should be destructured.
    LifecycleEnd,
}

impl UpdateResult {
    /// The position of this result in the escalation order, from
    /// [`UpdateResult::NoEvent`] (lowest) to [`UpdateResult::LifecycleEnd`]
    /// (highest).
    pub open spec fn spec_rank(self) -> int {
        match self {
            UpdateResult::NoEvent => 0,
            UpdateResult::NoRedraw => 1,
            UpdateResult::Interacted => 2,
            UpdateResult::LifecycleEnd => 3,
        }
    }

    /// Of two results, the one further along the escalation order; `self`
    /// when they rank equally.
    pub open spec fn spec_escalate(self, other: Self) -> Self {
        if self.spec_rank() >= other.spec_rank() {
            self
        } else {
            other
        }
    }

    /// Of two results, the one earlier in the escalation order; `self`
    /// when they rank equally.
    pub open spec fn spec_deescalate(self, other: Self) -> Self {
        if self.spec_rank() <= other.spec_rank() {
            self
        } else {
            other
        }
    }

    /// Of two results, the one further along the escalation order; `self`
    /// when they rank equally.
    #[must_use]
    pub fn escalate(self, other: Self) -> (r: Self)
        ensures
            r == self.spec_escalate(other),
    {
        if self.rank() >= other.rank() {
            self
        } else {
            other
        }
    }

    /// Of two results, the one earlier in the escalation order; `self`
    /// when they rank equally.
    #[must_use]
    pub fn deescalate(self, other: Self) -> (r: Self)
        ensures
            r == self.spec_deescalate(other),
    {
        if self.rank() <= other.rank() {
            self
        } else {
            other
        }
    }

    /// The escalation rank as a number.
    fn rank(self) -> (r: u8)
        ensures
            r == self.spec_rank(),
    {
        match self {
            UpdateResult::NoEvent => 0,
            UpdateResult::NoRedraw => 1,
            UpdateResult::Interacted => 2,
            UpdateResult::LifecycleEnd => 3,
        }
    }
}

} // verus!
