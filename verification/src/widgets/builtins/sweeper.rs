//! The [`Sweeper`] widget, which clears the terminal.

use vstd::prelude::*;

use crate::errors::Error;
use crate::style::Colour;
use crate::style::Style;
use crate::terminal::Cell;
use crate::terminal::Rectangle;
use crate::terminal::Terminal;
use crate::terminal::TerminalConst;
use crate::terminal::UpdateInfo;
use crate::terminal::UpdateResult;
use crate::widgets::BoundingBox;
use crate::widgets::Widget;

verus! {

/// Replaces every cell of the terminal with a blank space of a chosen
/// style.
pub struct Sweeper {
    /// The style given to the blank cells that clear the terminal.
    pub style: Style,
}

impl Sweeper {
    /// The cell this sweeper paints everywhere.
    pub open spec fn spec_blank(&self) -> Cell {
        Cell { character: ' ', style: self.style }
    }

    /// Creates a new [`Sweeper`] with the given [`Style`].
    #[must_use]
    pub fn new(style: Style) -> (r: Self)
        ensures
            r.style == style,
    {
        Self { style }
    }

    /// Creates a new [`Sweeper`] whose style only sets the given
    /// background [`Colour`].
    #[must_use]
    pub fn of_colour(colour: Colour) -> (r: Self)
        ensures
            r.style == (Style {
                bg_colour: Some(colour),
                fg_colour: None,
                font_weight: None,
                underline: None,
                invert: None,
                strikethrough: None,
                italic: None,
            }),
    {
        Self { style: Style::new().bg(colour) }
    }
}

impl Widget for Sweeper {
    /// Nothing changes and no event is reported.
    open spec fn spec_update(
        &self,
        next: Self,
        update_info: UpdateInfo,
        width: nat,
        height: nat,
        r: Result<UpdateResult, Error>,
    ) -> bool {
        next == *self && r == Ok::<UpdateResult, Error>(UpdateResult::NoEvent)
    }

    /// Every cell becomes the blank cell of the sweeper's style.
    open spec fn spec_draw(
        &self,
        width: nat,
        height: nat,
        style: Style,
        old_cells: Seq<Cell>,
        new_cells: Seq<Cell>,
        r: Result<UpdateResult, Error>,
    ) -> bool {
        &&& new_cells == Seq::new(old_cells.len(), |i: int| self.spec_blank())
        &&& r == Ok::<UpdateResult, Error>(UpdateResult::NoEvent)
    }

    fn update<T: TerminalConst>(&mut self, _update_info: UpdateInfo, _terminal: &T) -> (r: Result<
        UpdateResult,
        Error,
    >) {
        Ok(UpdateResult::NoEvent)
    }

    #[verifier::loop_isolation(false)]
    fn draw<T: Terminal>(&self, terminal: T) -> (res: (T, Result<UpdateResult, Error>)) {
        let ghost orig = terminal;
        let mut t = terminal;
        proof {
            t.lemma_model();
            t.lemma_frame_refl();
        }
        let (w, h) = t.dimensions();
        proof {
            orig.lemma_model();
        }
        let blank = Cell { character: ' ', style: self.style };
        let mut y: usize = 0;
        while y < h
            invariant
                t.inv(),
                orig.spec_frame(t),
                w == orig.spec_width(),
                h == orig.spec_height(),
                t.spec_width() == w,
                t.spec_height() == h,
                t.spec_default_style() == orig.spec_default_style(),
                y <= h,
                orig.spec_cells().len() == w * h,
                t.spec_cells().len() == orig.spec_cells().len(),
                forall|i: int|
                    0 <= i < t.spec_cells().len() ==> #[trigger] t.spec_cells()[i] == if i < y * w {
                        self.spec_blank()
                    } else {
                        orig.spec_cells()[i]
                    },
            decreases h - y,
        {
            let mut x: usize = 0;
            while x < w
                invariant
                    t.inv(),
                    orig.spec_frame(t),
                    w == orig.spec_width(),
                    h == orig.spec_height(),
                    t.spec_width() == w,
                    t.spec_height() == h,
                    t.spec_default_style() == orig.spec_default_style(),
                    y < h,
                    x <= w,
                    blank == self.spec_blank(),
                    orig.spec_cells().len() == w * h,
                    t.spec_cells().len() == orig.spec_cells().len(),
                    forall|i: int|
                        0 <= i < t.spec_cells().len() ==> #[trigger] t.spec_cells()[i] == if i < y
                            * w + x {
                            self.spec_blank()
                        } else {
                            orig.spec_cells()[i]
                        },
                decreases w - x,
            {
                assert(y * w + x < w * h) by (nonlinear_arith)
                    requires
                        x < w,
                        y < h,
                ;
                let ghost before = t;
                let ok = t.set_cell(x, y, blank);
                proof {
                    assert(ok);
                    orig.lemma_frame_trans(before, t);
                }
                x += 1;
            }
            assert(y * w + w == (y + 1) * w) by (nonlinear_arith);
            y += 1;
        }
        proof {
            orig.lemma_model();
            assert(h * w == w * h) by (nonlinear_arith);
            assert(t.spec_cells() =~= Seq::new(
                orig.spec_cells().len(),
                |i: int| self.spec_blank(),
            ));
        }
        (t, Ok(UpdateResult::NoEvent))
    }
}

impl BoundingBox for Sweeper {
    /// The sweeper needs, and uses, the whole available rectangle.
    open spec fn spec_bounding_box(&self, rect: Rectangle) -> Result<Rectangle, Error> {
        Ok(rect)
    }

    /// Every cell in any rectangle it draws into is painted.
    open spec fn spec_completely_covers(&self, rectangle: Rectangle) -> bool {
        true
    }

    fn bounding_box(&self, rect: Rectangle) -> (r: Result<Rectangle, Error>) {
        Ok(rect)
    }

    fn completely_covers(&self, _rectangle: Rectangle) -> (r: bool) {
        true
    }
}

} // verus!
