//! The [`Rectangle`] geometry primitive.
//!
//! A rectangle is stored normalized: `left <= right` and `top <= bottom`,
//! and every operation rebuilds a normalized value. The y-axis points down,
//! so `top` is always the smaller y-coordinate. `width = right - left` and
//! `height = bottom - top`, while [`Rectangle::contains`] is inclusive on
//! all four edges; a zero-width rectangle still contains the points on its
//! own boundary.

use core::ops::RangeInclusive;
use vstd::prelude::*;

use crate::widgets::Direction;

verus! {

/// An axis-aligned integer rectangle with normalized corners.
///
/// The fields are public for reading; every constructor and builder method
/// keeps the normalization invariant [`Rectangle::wf`].
#[derive(Copy, Clone, Debug, Hash, Eq, PartialEq, Structural, Default)]
pub struct Rectangle {
    /// The x-coordinate of the leftmost edge.
    pub left: usize,
    /// The y-coordinate of the top edge (the smaller y-coordinate).
    pub top: usize,
    /// The x-coordinate of the rightmost edge.
    pub right: usize,
    /// The y-coordinate of the bottom edge (the larger y-coordinate).
    pub bottom: usize,
}

impl Rectangle {
    /// Normalization: the corners are stored in order.
    pub open spec fn wf(self) -> bool {
        self.left <= self.right && self.top <= self.bottom
    }

    /// The width, as the difference of the x-edges.
    pub open spec fn spec_width(self) -> int {
        self.right - self.left
    }

    /// The height, as the difference of the y-edges.
    pub open spec fn spec_height(self) -> int {
        self.bottom - self.top
    }

    /// Whether a point lies within the rectangle; inclusive on all edges.
    pub open spec fn spec_contains(self, point: (usize, usize)) -> bool {
        self.left <= point.0 <= self.right && self.top <= point.1 <= self.bottom
    }

    /// Whether another rectangle lies entirely within this one.
    pub open spec fn spec_contains_rect(self, other: Rectangle) -> bool {
        self.spec_contains((other.left, other.top)) && self.spec_contains(
            (other.right, other.bottom),
        )
    }

    /// The rectangle with its right edge moved to `new_edge`; if the move
    /// crosses the left edge, the two edges swap roles.
    pub open spec fn spec_right_to(self, new_edge: usize) -> Rectangle {
        if new_edge >= self.left {
            Rectangle { right: new_edge, ..self }
        } else {
            Rectangle { left: new_edge, right: self.left, ..self }
        }
    }

    /// The rectangle with its left edge moved to `new_edge`; if the move
    /// crosses the right edge, the two edges swap roles.
    pub open spec fn spec_left_to(self, new_edge: usize) -> Rectangle {
        if new_edge <= self.right {
            Rectangle { left: new_edge, ..self }
        } else {
            Rectangle { left: self.right, right: new_edge, ..self }
        }
    }

    /// The rectangle with its bottom edge moved to `new_edge`; if the move
    /// crosses the top edge, the two edges swap roles.
    pub open spec fn spec_bottom_to(self, new_edge: usize) -> Rectangle {
        if new_edge >= self.top {
            Rectangle { bottom: new_edge, ..self }
        } else {
            Rectangle { top: new_edge, bottom: self.top, ..self }
        }
    }

    /// The rectangle with its top edge moved to `new_edge`; if the move
    /// crosses the bottom edge, the two edges swap roles.
    pub open spec fn spec_top_to(self, new_edge: usize) -> Rectangle {
        if new_edge <= self.bottom {
            Rectangle { top: new_edge, ..self }
        } else {
            Rectangle { top: self.bottom, bottom: new_edge, ..self }
        }
    }

    /// The left edge shifted inward by `distance`, or `None` when the new
    /// coordinate leaves `[0, usize::MAX]`.
    pub open spec fn spec_trim_left(self, distance: int) -> Option<Rectangle> {
        if 0 <= self.left + distance <= usize::MAX {
            Some(self.spec_left_to((self.left + distance) as usize))
        } else {
            None
        }
    }

    /// The right edge shifted inward by `distance`, or `None` when the new
    /// coordinate leaves `[0, usize::MAX]`.
    pub open spec fn spec_trim_right(self, distance: int) -> Option<Rectangle> {
        if 0 <= self.right - distance <= usize::MAX {
            Some(self.spec_right_to((self.right - distance) as usize))
        } else {
            None
        }
    }

    /// The top edge shifted inward by `distance`, or `None` when the new
    /// coordinate leaves `[0, usize::MAX]`.
    pub open spec fn spec_trim_top(self, distance: int) -> Option<Rectangle> {
        if 0 <= self.top + distance <= usize::MAX {
            Some(self.spec_top_to((self.top + distance) as usize))
        } else {
            None
        }
    }

    /// The bottom edge shifted inward by `distance`, or `None` when the new
    /// coordinate leaves `[0, usize::MAX]`.
    pub open spec fn spec_trim_bottom(self, distance: int) -> Option<Rectangle> {
        if 0 <= self.bottom - distance <= usize::MAX {
            Some(self.spec_bottom_to((self.bottom - distance) as usize))
        } else {
            None
        }
    }

    /// Both x-edges trimmed by `distance`: first the left edge, then the
    /// right edge of the intermediate rectangle.
    pub open spec fn spec_trim_x(self, distance: int) -> Option<Rectangle> {
        match self.spec_trim_left(distance) {
            Some(r) => r.spec_trim_right(distance),
            None => None,
        }
    }

    /// Both y-edges trimmed by `distance`: first the top edge, then the
    /// bottom edge of the intermediate rectangle.
    pub open spec fn spec_trim_y(self, distance: int) -> Option<Rectangle> {
        match self.spec_trim_top(distance) {
            Some(r) => r.spec_trim_bottom(distance),
            None => None,
        }
    }

    /// The rectangle grown by `distance` on every edge: `spec_trim_x` then
    /// `spec_trim_y`, each with the distance negated.
    pub open spec fn spec_extend(self, distance: int) -> Option<Rectangle> {
        match self.spec_trim_x(-distance) {
            Some(r) => r.spec_trim_y(-distance),
            None => None,
        }
    }

    /// Both corners translated by the signed delta, or `None` when a
    /// coordinate leaves `[0, usize::MAX]`.
    pub open spec fn spec_offset(self, delta: (int, int)) -> Option<Rectangle> {
        if 0 <= self.left + delta.0 <= usize::MAX && 0 <= self.right + delta.0 <= usize::MAX && 0
            <= self.top + delta.1 <= usize::MAX && 0 <= self.bottom + delta.1 <= usize::MAX {
            Some(
                Rectangle {
                    left: (self.left + delta.0) as usize,
                    top: (self.top + delta.1) as usize,
                    right: (self.right + delta.0) as usize,
                    bottom: (self.bottom + delta.1) as usize,
                },
            )
        } else {
            None
        }
    }

    /// The inverse of the row-major flattening formula: linear index to
    /// local `(x, y)`, or `None` out of bounds or when the width is zero.
    pub open spec fn spec_index_into(self, index: usize) -> Option<(usize, usize)> {
        if self.spec_width() > 0 && index < self.spec_width() * self.spec_height() {
            Some(
                (
                    (index as int % self.spec_width()) as usize,
                    (index as int / self.spec_width()) as usize,
                ),
            )
        } else {
            None
        }
    }

    /// Create a new [`Rectangle`] from two corner points, normalizing the
    /// corners so that the smaller coordinates become the left-top.
    #[must_use]
    pub fn new(first_point: (usize, usize), second_point: (usize, usize)) -> (r: Self)
        ensures
            r.wf(),
            r.left == if first_point.0 <= second_point.0 {
                first_point.0
            } else {
                second_point.0
            },
            r.right == if first_point.0 <= second_point.0 {
                second_point.0
            } else {
                first_point.0
            },
            r.top == if first_point.1 <= second_point.1 {
                first_point.1
            } else {
                second_point.1
            },
            r.bottom == if first_point.1 <= second_point.1 {
                second_point.1
            } else {
                first_point.1
            },
    {
        let (first_x, first_y) = first_point;
        let (second_x, second_y) = second_point;

        let (x_smaller, x_larger) = if first_x > second_x {
            (second_x, first_x)
        } else {
            (first_x, second_x)
        };
        let (y_smaller, y_larger) = if first_y > second_y {
            (second_y, first_y)
        } else {
            (first_y, second_y)
        };

        Self { left: x_smaller, top: y_smaller, right: x_larger, bottom: y_larger }
    }

    /// Create a [`Rectangle`] of the given size with its left-top at (0,0).
    #[must_use]
    pub fn of_size(size: (usize, usize)) -> (r: Self)
        ensures
            r == (Rectangle { left: 0, top: 0, right: size.0, bottom: size.1 }),
            r.wf(),
    {
        let (width, height) = size;
        Self { left: 0, top: 0, right: width, bottom: height }
    }

    /// Get the x-coordinate of the leftmost edge.
    #[must_use]
    pub fn left(&self) -> (r: usize)
        ensures
            r == self.left,
    {
        self.left
    }

    /// Get the y-coordinate of the top edge. The y-axis points down, so the
    /// top is never greater than the bottom.
    #[must_use]
    pub fn top(&self) -> (r: usize)
        ensures
            r == self.top,
    {
        self.top
    }

    /// Get the x-coordinate of the rightmost edge.
    #[must_use]
    pub fn right(&self) -> (r: usize)
        ensures
            r == self.right,
    {
        self.right
    }

    /// Get the y-coordinate of the bottom edge. The y-axis points down, so
    /// the bottom is never less than the top.
    #[must_use]
    pub fn bottom(&self) -> (r: usize)
        ensures
            r == self.bottom,
    {
        self.bottom
    }

    /// Get the top-left vertex.
    #[must_use]
    pub fn left_top(&self) -> (r: (usize, usize))
        ensures
            r == (self.left, self.top),
    {
        (self.left, self.top)
    }

    /// Get the bottom-right vertex.
    #[must_use]
    pub fn right_bottom(&self) -> (r: (usize, usize))
        ensures
            r == (self.right, self.bottom),
    {
        (self.right, self.bottom)
    }

    /// Get the bottom-left vertex.
    #[must_use]
    pub fn left_bottom(&self) -> (r: (usize, usize))
        ensures
            r == (self.left, self.bottom),
    {
        (self.left, self.bottom)
    }

    /// Get the top-right vertex.
    #[must_use]
    pub fn right_top(&self) -> (r: (usize, usize))
        ensures
            r == (self.right, self.top),
    {
        (self.right, self.top)
    }

    /// Get the width. A rectangle with `left == right` has width zero.
    #[must_use]
    pub fn width(&self) -> (r: usize)
        requires
            self.wf(),
        ensures
            r == self.spec_width(),
    {
        self.right - self.left
    }

    /// Get the height. A rectangle with `top == bottom` has height zero.
    #[must_use]
    pub fn height(&self) -> (r: usize)
        requires
            self.wf(),
        ensures
            r == self.spec_height(),
    {
        self.bottom - self.top
    }

    /// Get the (width, height) pair.
    #[must_use]
    pub fn dimensions(&self) -> (r: (usize, usize))
        requires
            self.wf(),
        ensures
            r.0 == self.spec_width(),
            r.1 == self.spec_height(),
    {
        (self.width(), self.height())
    }

    /// Get the area: width times height.
    #[must_use]
    pub fn area(&self) -> (r: usize)
        requires
            self.wf(),
            self.spec_width() * self.spec_height() <= usize::MAX,
        ensures
            r == self.spec_width() * self.spec_height(),
    {
        let w = self.width();
        let h = self.height();
        assert(w * h == self.spec_width() * self.spec_height()) by (nonlinear_arith)
            requires
                w == self.spec_width(),
                h == self.spec_height(),
        ;
        w * h
    }

    /// Move the right edge to the given x-coordinate; if the move crosses
    /// the left edge, the two edges swap roles and the result stays
    /// normalized.
    #[must_use]
    pub fn right_to(self, new_edge: usize) -> (r: Self)
        requires
            self.wf(),
        ensures
            r == self.spec_right_to(new_edge),
            r.wf(),
    {
        if new_edge >= self.left {
            Self { right: new_edge, ..self }
        } else {
            Self { left: new_edge, right: self.left, ..self }
        }
    }

    /// Move the left edge to the given x-coordinate; if the move crosses
    /// the right edge, the two edges swap roles and the result stays
    /// normalized.
    #[must_use]
    pub fn left_to(self, new_edge: usize) -> (r: Self)
        requires
            self.wf(),
        ensures
            r == self.spec_left_to(new_edge),
            r.wf(),
    {
        if new_edge <= self.right {
            Self { left: new_edge, ..self }
        } else {
            Self { left: self.right, right: new_edge, ..self }
        }
    }

    /// Move the bottom edge to the given y-coordinate; if the move crosses
    /// the top edge, the two edges swap roles and the result stays
    /// normalized.
    #[must_use]
    pub fn bottom_to(self, new_edge: usize) -> (r: Self)
        requires
            self.wf(),
        ensures
            r == self.spec_bottom_to(new_edge),
            r.wf(),
    {
        if new_edge >= self.top {
            Self { bottom: new_edge, ..self }
        } else {
            Self { top: new_edge, bottom: self.top, ..self }
        }
    }

    /// Move the top edge to the given y-coordinate; if the move crosses
    /// the bottom edge, the two edges swap roles and the result stays
    /// normalized.
    #[must_use]
    pub fn top_to(self, new_edge: usize) -> (r: Self)
        requires
            self.wf(),
        ensures
            r == self.spec_top_to(new_edge),
            r.wf(),
    {
        if new_edge <= self.bottom {
            Self { top: new_edge, ..self }
        } else {
            Self { top: self.bottom, bottom: new_edge, ..self }
        }
    }

    /// Move the edge selected by the given [`Direction`] to the given
    /// coordinate, as [`Rectangle::right_to`] and its siblings do.
    #[must_use]
    pub fn edge_to(self, new_edge: usize, edge: Direction) -> (r: Self)
        requires
            self.wf(),
        ensures
            r == match edge {
                Direction::Right => self.spec_right_to(new_edge),
                Direction::Left => self.spec_left_to(new_edge),
                Direction::Up => self.spec_top_to(new_edge),
                Direction::Down => self.spec_bottom_to(new_edge),
            },
            r.wf(),
    {
        match edge {
            Direction::Right => self.right_to(new_edge),
            Direction::Left => self.left_to(new_edge),
            Direction::Up => self.top_to(new_edge),
            Direction::Down => self.bottom_to(new_edge),
        }
    }

    /// Check whether the given (x,y) coordinate is within the rectangle.
    /// All four edges are inclusive: the rectangle's own corners are
    /// contained, and a zero-area rectangle still contains its boundary
    /// points.
    #[must_use]
    pub fn contains(&self, point: (usize, usize)) -> (r: bool)
        ensures
            r == self.spec_contains(point),
    {
        let (x, y) = point;
        x >= self.left && x <= self.right && y >= self.top && y <= self.bottom
    }

    /// Check whether the given rectangle lies entirely within this one, by
    /// containment of its two defining corners. Edges are inclusive, so two
    /// rectangles that merely touch at an edge count as overlapping.
    #[must_use]
    pub fn contains_rect(&self, rect: Self) -> (r: bool)
        ensures
            r == self.spec_contains_rect(rect),
    {
        self.contains((rect.left, rect.top)) && self.contains((rect.right, rect.bottom))
    }

    /// Move the rectangle so that its left-top vertex is at the given
    /// position, keeping the dimensions.
    #[must_use]
    pub fn at(self, new_left_top: (usize, usize)) -> (r: Self)
        requires
            self.wf(),
            new_left_top.0 + self.spec_width() <= usize::MAX,
            new_left_top.1 + self.spec_height() <= usize::MAX,
        ensures
            r.left == new_left_top.0,
            r.top == new_left_top.1,
            r.spec_width() == self.spec_width(),
            r.spec_height() == self.spec_height(),
            r.wf(),
    {
        let width = self.width();
        let height = self.height();
        let (left, top) = new_left_top;

        Self { left, top, right: left + width, bottom: top + height }
    }

    /// Get the center of the rectangle on the x-axis, rounding left.
    #[must_use]
    pub fn center_x(&self) -> (r: usize)
        requires
            self.left + self.right <= usize::MAX,
        ensures
            r == (self.left + self.right) / 2,
    {
        (self.left + self.right) / 2
    }

    /// Get the center of the rectangle on the y-axis, rounding up(ward).
    #[must_use]
    pub fn center_y(&self) -> (r: usize)
        requires
            self.top + self.bottom <= usize::MAX,
        ensures
            r == (self.top + self.bottom) / 2,
    {
        (self.top + self.bottom) / 2
    }

    /// Get the center of the rectangle.
    #[must_use]
    pub fn center(&self) -> (r: (usize, usize))
        requires
            self.left + self.right <= usize::MAX,
            self.top + self.bottom <= usize::MAX,
        ensures
            r.0 == (self.left + self.right) / 2,
            r.1 == (self.top + self.bottom) / 2,
    {
        (self.center_x(), self.center_y())
    }

    /// Get the inclusive range of x-coordinates the rectangle spans.
    #[must_use]
    pub fn range_x(&self) -> (r: RangeInclusive<usize>)
        ensures
            r@.start == self.left,
            r@.end == self.right,
            !r@.exhausted,
    {
        self.left..=self.right
    }

    /// Get the inclusive range of y-coordinates the rectangle spans.
    #[must_use]
    pub fn range_y(&self) -> (r: RangeInclusive<usize>)
        ensures
            r@.start == self.top,
            r@.end == self.bottom,
            !r@.exhausted,
    {
        self.top..=self.bottom
    }

    /// Shift the left edge inward (outward for a negative distance) by the
    /// given signed distance. Returns `None` when the edge's new coordinate
    /// leaves `[0, usize::MAX]`.
    #[must_use]
    pub fn trim_left(self, distance: isize) -> (r: Option<Self>)
        requires
            self.wf(),
        ensures
            r == self.spec_trim_left(distance as int),
            r matches Some(t) ==> t.wf(),
    {
        match self.left.checked_add_signed(distance) {
            Some(shift) => Some(self.left_to(shift)),
            None => None,
        }
    }

    /// Shift the right edge inward (outward for a negative distance) by the
    /// given signed distance. Returns `None` when the edge's new coordinate
    /// leaves `[0, usize::MAX]`.
    #[must_use]
    pub fn trim_right(self, distance: isize) -> (r: Option<Self>)
        requires
            self.wf(),
        ensures
            r == self.spec_trim_right(distance as int),
            r matches Some(t) ==> t.wf(),
    {
        match checked_sub_signed(self.right, distance) {
            Some(shift) => Some(self.right_to(shift)),
            None => None,
        }
    }

    /// Shift the top edge inward (outward for a negative distance) by the
    /// given signed distance. Returns `None` when the edge's new coordinate
    /// leaves `[0, usize::MAX]`.
    #[must_use]
    pub fn trim_top(self, distance: isize) -> (r: Option<Self>)
        requires
            self.wf(),
        ensures
            r == self.spec_trim_top(distance as int),
            r matches Some(t) ==> t.wf(),
    {
        match self.top.checked_add_signed(distance) {
            Some(shift) => Some(self.top_to(shift)),
            None => None,
        }
    }

    /// Shift the bottom edge inward (outward for a negative distance) by the
    /// given signed distance. Returns `None` when the edge's new coordinate
    /// leaves `[0, usize::MAX]`.
    #[must_use]
    pub fn trim_bottom(self, distance: isize) -> (r: Option<Self>)
        requires
            self.wf(),
        ensures
            r == self.spec_trim_bottom(distance as int),
            r matches Some(t) ==> t.wf(),
    {
        match checked_sub_signed(self.bottom, distance) {
            Some(shift) => Some(self.bottom_to(shift)),
            None => None,
        }
    }

    /// Trim the rectangle on both the left and right edges. Returns `None`
    /// when either edge's new coordinate leaves `[0, usize::MAX]`.
    #[must_use]
    pub fn trim_x(self, distance: isize) -> (r: Option<Self>)
        requires
            self.wf(),
        ensures
            r == self.spec_trim_x(distance as int),
            r matches Some(t) ==> t.wf(),
    {
        match self.trim_left(distance) {
            Some(this) => this.trim_right(distance),
            None => None,
        }
    }

    /// Trim the rectangle on both the top and bottom edges. Returns `None`
    /// when either edge's new coordinate leaves `[0, usize::MAX]`.
    #[must_use]
    pub fn trim_y(self, distance: isize) -> (r: Option<Self>)
        requires
            self.wf(),
        ensures
            r == self.spec_trim_y(distance as int),
            r matches Some(t) ==> t.wf(),
    {
        match self.trim_top(distance) {
            Some(this) => this.trim_bottom(distance),
            None => None,
        }
    }

    /// Expand the rectangle by the given distance on all edges (shrink for
    /// a negative distance). Returns `None` when an edge's new coordinate
    /// leaves `[0, usize::MAX]`.
    #[must_use]
    pub fn extend(self, distance: isize) -> (r: Option<Self>)
        requires
            self.wf(),
        ensures
            r == self.spec_extend(distance as int),
            r matches Some(t) ==> t.wf(),
    {
        let this = match self.trim_left_neg(distance) {
            Some(t) => t,
            None => {
                return None;
            },
        };
        let this = match this.trim_right_neg(distance) {
            Some(t) => t,
            None => {
                return None;
            },
        };
        let this = match this.trim_top_neg(distance) {
            Some(t) => t,
            None => {
                return None;
            },
        };
        this.trim_bottom_neg(distance)
    }

    /// [`Rectangle::trim_x`] for an unsigned distance of any size.
    pub(crate) fn trim_x_by(self, distance: usize) -> (r: Option<Self>)
        requires
            self.wf(),
        ensures
            r == self.spec_trim_x(distance as int),
            r matches Some(t) ==> t.wf(),
    {
        let this = match self.left.checked_add(distance) {
            Some(shift) => self.left_to(shift),
            None => {
                return None;
            },
        };
        match this.right.checked_sub(distance) {
            Some(shift) => Some(this.right_to(shift)),
            None => None,
        }
    }

    /// [`Rectangle::trim_y`] for an unsigned distance of any size.
    pub(crate) fn trim_y_by(self, distance: usize) -> (r: Option<Self>)
        requires
            self.wf(),
        ensures
            r == self.spec_trim_y(distance as int),
            r matches Some(t) ==> t.wf(),
    {
        let this = match self.top.checked_add(distance) {
            Some(shift) => self.top_to(shift),
            None => {
                return None;
            },
        };
        match this.bottom.checked_sub(distance) {
            Some(shift) => Some(this.bottom_to(shift)),
            None => None,
        }
    }

    /// [`Rectangle::trim_left`] with the distance negated.
    fn trim_left_neg(self, distance: isize) -> (r: Option<Self>)
        requires
            self.wf(),
        ensures
            r == self.spec_trim_left(-(distance as int)),
            r matches Some(t) ==> t.wf(),
    {
        match checked_sub_signed(self.left, distance) {
            Some(shift) => Some(self.left_to(shift)),
            None => None,
        }
    }

    /// [`Rectangle::trim_right`] with the distance negated.
    fn trim_right_neg(self, distance: isize) -> (r: Option<Self>)
        requires
            self.wf(),
        ensures
            r == self.spec_trim_right(-(distance as int)),
            r matches Some(t) ==> t.wf(),
    {
        match self.right.checked_add_signed(distance) {
            Some(shift) => Some(self.right_to(shift)),
            None => None,
        }
    }

    /// [`Rectangle::trim_top`] with the distance negated.
    fn trim_top_neg(self, distance: isize) -> (r: Option<Self>)
        requires
            self.wf(),
        ensures
            r == self.spec_trim_top(-(distance as int)),
            r matches Some(t) ==> t.wf(),
    {
        match checked_sub_signed(self.top, distance) {
            Some(shift) => Some(self.top_to(shift)),
            None => None,
        }
    }

    /// [`Rectangle::trim_bottom`] with the distance negated.
    fn trim_bottom_neg(self, distance: isize) -> (r: Option<Self>)
        requires
            self.wf(),
        ensures
            r == self.spec_trim_bottom(-(distance as int)),
            r matches Some(t) ==> t.wf(),
    {
        match self.bottom.checked_add_signed(distance) {
            Some(shift) => Some(self.bottom_to(shift)),
            None => None,
        }
    }

    /// Translate both corners by the given signed delta. Returns `None`
    /// when a coordinate leaves `[0, usize::MAX]`.
    #[must_use]
    pub fn offset(self, delta: (isize, isize)) -> (r: Option<Self>)
        requires
            self.wf(),
        ensures
            r == self.spec_offset((delta.0 as int, delta.1 as int)),
            r matches Some(t) ==> t.wf(),
    {
        let (dx, dy) = delta;
        let left = match self.left.checked_add_signed(dx) {
            Some(v) => v,
            None => {
                return None;
            },
        };
        let right = match self.right.checked_add_signed(dx) {
            Some(v) => v,
            None => {
                return None;
            },
        };
        let top = match self.top.checked_add_signed(dy) {
            Some(v) => v,
            None => {
                return None;
            },
        };
        let bottom = match self.bottom.checked_add_signed(dy) {
            Some(v) => v,
            None => {
                return None;
            },
        };
        Some(Self { left, top, right, bottom })
    }

    /// Get the local (x,y) coordinates of the given linear row-major index.
    /// Returns `None` when the index is out of bounds or the width is zero.
    #[must_use]
    pub fn index_into(&self, index: usize) -> (r: Option<(usize, usize)>)
        requires
            self.wf(),
            self.spec_width() * self.spec_height() <= usize::MAX,
        ensures
            r == self.spec_index_into(index),
    {
        let (width, height) = self.dimensions();

        if width == 0 {
            return None;
        }
        assert(width * height == self.spec_width() * self.spec_height()) by (nonlinear_arith)
            requires
                width == self.spec_width(),
                height == self.spec_height(),
        ;
        if index >= width * height {
            return None;
        }
        Some((index % width, index / width))
    }
}

/// Every rectangle contains its own corners: containment is inclusive on
/// all four edges, so the left-top and right-bottom vertices of a
/// normalized rectangle always lie within it, even at zero width or
/// height.
pub proof fn lemma_contains_corners(r: Rectangle)
    requires
        r.wf(),
    ensures
        r.spec_contains((r.left, r.top)),
        r.spec_contains((r.right, r.bottom)),
{
}

/// Extending a rectangle and then trimming both axes by the same
/// distance gives the rectangle back, whenever no edge leaves
/// `[0, usize::MAX]` on the way and the extension does not make opposite
/// edges cross (which only a negative distance can). Each step fails
/// (returns nothing) exactly when an edge would leave `[0, usize::MAX]`,
/// as [`Rectangle::spec_trim_left`] and its siblings state.
pub proof fn lemma_extend_trim_round_trip(r: Rectangle, distance: int)
    requires
        r.wf(),
        0 <= r.left - distance,
        r.right + distance <= usize::MAX,
        0 <= r.top - distance,
        r.bottom + distance <= usize::MAX,
        r.left - distance <= r.right + distance,
        r.top - distance <= r.bottom + distance,
    ensures
        r.spec_extend(distance) matches Some(e) && e.spec_trim_x(distance) matches Some(f)
            && f.spec_trim_y(distance) == Some(r),
{
    let e = Rectangle {
        left: (r.left - distance) as usize,
        top: (r.top - distance) as usize,
        right: (r.right + distance) as usize,
        bottom: (r.bottom + distance) as usize,
    };
    assert(r.spec_extend(distance) == Some(e));
    let f = Rectangle { left: r.left, top: e.top, right: r.right, bottom: e.bottom };
    assert(e.spec_trim_x(distance) == Some(f));
    assert(f.spec_trim_y(distance) == Some(r));
}

/// Each single-edge trim fails exactly when the edge's new coordinate
/// would leave `[0, usize::MAX]` — below zero for an inward move past
/// the origin, above the machine limit for an outward move past it — and
/// never for any other reason.
pub proof fn lemma_trim_fails_exactly_on_range(r: Rectangle, distance: int)
    ensures
        r.spec_trim_left(distance) is None <==> !(0 <= r.left + distance <= usize::MAX),
        r.spec_trim_right(distance) is None <==> !(0 <= r.right - distance <= usize::MAX),
        r.spec_trim_top(distance) is None <==> !(0 <= r.top + distance <= usize::MAX),
        r.spec_trim_bottom(distance) is None <==> !(0 <= r.bottom - distance <= usize::MAX),
{
}

/// `c - d` for a signed `d`, or `None` when the result leaves
/// `[0, usize::MAX]`. The mirror image of `usize::checked_add_signed`.
pub(crate) fn checked_sub_signed(c: usize, d: isize) -> (r: Option<usize>)
    ensures
        r == if 0 <= c - d <= usize::MAX {
            Some((c - d) as usize)
        } else {
            None::<usize>
        },
{
    if d >= 0 {
        let m: usize = d as usize;
        c.checked_sub(m)
    } else {
        // |d| computed without negating, so that isize::MIN is in range too
        let m: usize = ((-(d + 1)) as usize) + 1;
        assert(m == -(d as int));
        c.checked_add(m)
    }
}

} // verus!
