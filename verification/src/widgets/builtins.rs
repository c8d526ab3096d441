//! The built-in widgets: leaves that paint cells, and layout widgets that
//! place a child (or children) inside a parent area.

pub mod backdrop;
pub mod buttons;
pub mod centered;
pub mod centered_prompt;
pub mod centered_text;
pub mod checkbox;
pub mod dummy;
pub mod margin;
pub mod shrink_wrap;
pub mod ruler;
pub mod shelved;
pub mod stacked;
pub mod sweeper;
pub mod text;
pub mod uv;

use vstd::prelude::*;

use crate::errors::Error;
use crate::terminal::view::unchanged_outside;
use crate::terminal::view::window_of;
use crate::terminal::Metadata;
use crate::terminal::Rectangle;
use crate::terminal::Terminal;
use crate::terminal::TerminalConst;
use crate::terminal::UpdateInfo;
use crate::terminal::UpdateResult;
use crate::terminal::ViewConst;
use crate::terminal::ViewMut;
use crate::style::Colour;
use crate::style::Style;
use crate::widgets::BoundingBox;
use crate::widgets::Widget;

pub use backdrop::Backdrop;
pub use buttons::Buttons;
pub use centered::Centered;
pub use centered_prompt::CenteredPrompt;
pub use centered_text::CenteredText;
pub use checkbox::Checkbox;
pub use dummy::Dummy;
pub use margin::Margin;
pub use shrink_wrap::ShrinkWrap;
pub use ruler::Ruler;
pub use shelved::Shelved;
pub use stacked::Stacked;
pub use sweeper::Sweeper;
pub use text::Text;
pub use uv::Uv;

verus! {

/// The rectangle covering a whole terminal of the given dimensions.
pub open spec fn screen_rect(width: nat, height: nat) -> Rectangle {
    Rectangle { left: 0, top: 0, right: width as usize, bottom: height as usize }
}

/// Whether a rectangle lies within a terminal of the given dimensions.
pub open spec fn fits_screen(b: Rectangle, width: nat, height: nat) -> bool {
    b.right <= width && b.bottom <= height
}

/// Convenience constructors for wrapping a widget in the layout widgets,
/// implemented for every widget that reports a bounding box.
pub trait WithLayout: Sized {
    /// Wrap the widget in a [`Margin`] of the given distance.
    fn with_margin(self, margin: isize) -> (r: Margin<Self>)
        ensures
            r.child == self,
            r.margin == margin,
    {
        Margin::new(self).margin(margin)
    }

    /// Wrap the widget in a [`ShrinkWrap`] of the given padding.
    fn with_shrink(self, shrink: usize) -> (r: ShrinkWrap<Self>)
        ensures
            r.child == self,
            r.padding == shrink,
    {
        ShrinkWrap::new(self).shrink(shrink)
    }

    /// Put a [`Backdrop`] of the given background colour behind the
    /// widget.
    fn use_backdrop(&self, bg_colour: Colour) -> (r: Backdrop<'_, Self>)
        ensures
            r.child == self,
            r.style == (Style {
                bg_colour: Some(bg_colour),
                fg_colour: None,
                font_weight: None,
                underline: None,
                invert: None,
                strikethrough: None,
                italic: None,
            }),
    {
        Backdrop::new(self).with_style(Style::new().bg(bg_colour))
    }

    /// Center the widget on both axes.
    fn centered(self) -> (r: Centered<Self>)
        ensures
            r.child == self,
            r.centered_x,
            r.centered_y,
    {
        Centered::new(self)
    }

    /// Stack the widget on top of another widget.
    fn on_top_of<B>(self, other: B) -> (r: Stacked<Self, B>)
        ensures
            r.higher_widget == self,
            r.lower_widget == other,
            r.leftover_result is None,
    {
        Stacked::new(self, other)
    }

    /// Shelve the widget to the left of another widget.
    fn next_to<B>(self, other: B) -> (r: Shelved<Self, B>)
        ensures
            r.left_widget == self,
            r.right_widget == other,
            r.leftover_result is None,
    {
        Shelved::new(self, other)
    }
}

impl<T: BoundingBox> WithLayout for T {

}

/// Draw `child` through a mutable view over the box `b` of `terminal`:
/// the child sees the box as its whole terminal, so its effect lands on
/// the window that `b` cuts out of the terminal's cells.
fn draw_in_box<W: Widget, T: Terminal>(child: &W, terminal: T, b: Rectangle) -> (res: (
    T,
    Result<UpdateResult, Error>,
))
    requires
        terminal.inv(),
        b.wf(),
        b.right <= terminal.spec_width(),
        b.bottom <= terminal.spec_height(),
    ensures
        res.0.inv(),
        terminal.spec_frame(res.0),
        res.0.spec_width() == terminal.spec_width(),
        res.0.spec_height() == terminal.spec_height(),
        res.0.spec_default_style() == terminal.spec_default_style(),
        res.0.spec_cells().len() == terminal.spec_cells().len(),
        child.spec_draw(
            b.spec_width() as nat,
            b.spec_height() as nat,
            terminal.spec_default_style(),
            window_of(terminal.spec_cells(), terminal.spec_width(), b),
            window_of(res.0.spec_cells(), terminal.spec_width(), b),
            res.1,
        ),
        unchanged_outside(terminal.spec_cells(), res.0.spec_cells(), terminal.spec_width(), b),
{
    proof {
        terminal.lemma_model();
    }
    let v = match ViewMut::new(terminal, b) {
        Ok(v) => v,
        Err(_) => {
            proof {
                assert(false);
            }
            vstd::pervasive::unreached()
        },
    };
    proof {
        v.lemma_inv();
    }
    let (v2, r) = child.draw(v);
    proof {
        v2.lemma_inv();
        terminal.lemma_frame_model(v2.spec_parent());
        v2.spec_parent().lemma_model();
    }
    let t2 = v2.into_inner();
    (t2, r)
}

/// Let `child` handle an update through a read-only view over the box `b`
/// of `terminal`: the child sees the box as its whole terminal.
fn update_in_box<W: Widget, T: TerminalConst>(
    child: &mut W,
    update_info: UpdateInfo,
    terminal: &T,
    b: Rectangle,
) -> (r: Result<UpdateResult, Error>)
    requires
        terminal.inv(),
        b.wf(),
        b.right <= terminal.spec_width(),
        b.bottom <= terminal.spec_height(),
    ensures
        old(child).spec_update(
            *final(child),
            update_info,
            b.spec_width() as nat,
            b.spec_height() as nat,
            r,
        ),
{
    proof {
        terminal.lemma_model();
    }
    let v = match ViewConst::new(terminal, b) {
        Some(v) => v,
        None => {
            proof {
                assert(false);
            }
            vstd::pervasive::unreached()
        },
    };
    child.update(update_info, &v)
}

} // verus!
