//! Axis-aligned rectangles, used alike for drawing and for collisions.

use vstd::prelude::*;

verus! {

/// A rectangle given by its top-left corner, its width and its height;
/// `y` grows downwards.
#[derive(Clone, Copy, Debug, PartialEq, Eq, Structural)]
pub struct Rect {
    pub x: i64,
    pub y: i64,
    pub w: i64,
    pub h: i64,
}

impl Rect {
    pub open spec fn left(self) -> int {
        self.x as int
    }

    pub open spec fn right(self) -> int {
        self.x + self.w
    }

    pub open spec fn top(self) -> int {
        self.y as int
    }

    pub open spec fn bottom(self) -> int {
        self.y + self.h
    }

    /// Two rectangles overlap when their intersection has positive width and
    /// positive height. Rectangles that merely share an edge or a corner do
    /// not overlap, and a rectangle without area overlaps nothing.
    pub open spec fn spec_overlaps(&self, other: &Rect) -> bool {
        &&& vstd::math::max(self.left(), other.left()) < vstd::math::min(
            self.right(),
            other.right(),
        )
        &&& vstd::math::max(self.top(), other.top()) < vstd::math::min(
            self.bottom(),
            other.bottom(),
        )
    }

    /// `self` encloses `inner` when no part of `inner` lies outside `self`.
    pub open spec fn spec_encloses(&self, inner: &Rect) -> bool {
        &&& self.left() <= inner.left()
        &&& inner.right() <= self.right()
        &&& self.top() <= inner.top()
        &&& inner.bottom() <= self.bottom()
    }

    pub fn new(x: i64, y: i64, w: i64, h: i64) -> (r: Rect)
        ensures
            r == (Rect { x, y, w, h }),
    {
        Rect { x, y, w, h }
    }

    /// Whether the two rectangles share a region of positive area.
    #[verifier::when_used_as_spec(spec_overlaps)]
    pub fn overlaps(&self, other: &Rect) -> (r: bool)
        ensures
            r == self.spec_overlaps(other),
    {
        let left: i128 = if self.x > other.x {
            self.x as i128
        } else {
            other.x as i128
        };
        let top: i128 = if self.y > other.y {
            self.y as i128
        } else {
            other.y as i128
        };
        let right_a: i128 = self.x as i128 + self.w as i128;
        let right_b: i128 = other.x as i128 + other.w as i128;
        let bottom_a: i128 = self.y as i128 + self.h as i128;
        let bottom_b: i128 = other.y as i128 + other.h as i128;
        let right: i128 = if right_a < right_b {
            right_a
        } else {
            right_b
        };
        let bottom: i128 = if bottom_a < bottom_b {
            bottom_a
        } else {
            bottom_b
        };
        left < right && top < bottom
    }

    /// Whether `inner` lies wholly inside `self`, edges included.
    #[verifier::when_used_as_spec(spec_encloses)]
    pub fn encloses(&self, inner: &Rect) -> (r: bool)
        ensures
            r == self.spec_encloses(inner),
    {
        self.x <= inner.x && inner.x as i128 + inner.w as i128 <= self.x as i128 + self.w as i128
            && self.y <= inner.y && inner.y as i128 + inner.h as i128 <= self.y as i128
            + self.h as i128
    }
}

/// Overlap is symmetric, and nothing overlaps a rectangle without area.
pub proof fn lemma_overlaps_symmetric(a: Rect, b: Rect)
    ensures
        a.overlaps(&b) == b.overlaps(&a),
        a.w <= 0 || a.h <= 0 ==> !a.overlaps(&b),
{
}

/// Rectangles that touch along an edge do not overlap.
pub proof fn lemma_touching_is_no_overlap(a: Rect, b: Rect)
    requires
        a.right() == b.left() || a.bottom() == b.top(),
    ensures
        !a.overlaps(&b),
        !b.overlaps(&a),
{
}

} // verus!
