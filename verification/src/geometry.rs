use vstd::prelude::*;
use crate::constants::{DOT_PADDING, DOT_SIZE, OVERLAY_X, OVERLAY_Y};

verus! {

/// An axis-aligned rectangle in client coordinates, edges included.
#[derive(Clone, Copy, Debug, PartialEq, Eq, Structural)]
pub struct Rect {
    pub left: i32,
    pub top: i32,
    pub right: i32,
    pub bottom: i32,
}

impl Rect {
    /// Whether the point `(x, y)` lies in the rectangle, its edges included.
    pub open spec fn contains(self, x: int, y: int) -> bool {
        self.left <= x <= self.right && self.top <= y <= self.bottom
    }

    /// Whether `self` and `other` come closer than `padding` to each other:
    /// neither lies entirely left of, right of, above or below the other
    /// with a gap of more than `padding`.
    pub open spec fn overlaps_padded(self, other: Rect, padding: int) -> bool {
        !(self.right + padding < other.left || self.left > other.right + padding
            || self.bottom + padding < other.top || self.top > other.bottom + padding)
    }
}

/// Whether `v` is a value of `i32`.
pub open spec fn fits_i32(v: int) -> bool {
    i32::MIN <= v <= i32::MAX
}

/// The sums that `rects_overlap` computes, in the order in which it
/// computes them, stopping at the first test that settles the answer,
/// all fit in `i32`.
pub open spec fn overlap_sums_fit(a: Rect, b: Rect, padding: i32) -> bool {
    &&& fits_i32(a.right + padding)
    &&& a.right + padding >= b.left ==> {
        &&& fits_i32(b.right + padding)
        &&& a.left <= b.right + padding ==> {
            &&& fits_i32(a.bottom + padding)
            &&& a.bottom + padding >= b.top ==> fits_i32(b.bottom + padding)
        }
    }
}

/// Whether the point `(x, y)` lies in `rect`, its edges included.
pub fn point_in_rect(x: i32, y: i32, rect: &Rect) -> (inside: bool)
    ensures
        inside == rect.contains(x as int, y as int),
        inside == (rect.left <= x && x <= rect.right && rect.top <= y && y <= rect.bottom),
{
    x >= rect.left && x <= rect.right && y >= rect.top && y <= rect.bottom
}

/// Whether `a` and `b` overlap once `padding` is added around them.
pub fn rects_overlap(a: &Rect, b: &Rect, padding: i32) -> (overlap: bool)
    requires
        overlap_sums_fit(*a, *b, padding),
    ensures
        overlap == a.overlaps_padded(*b, padding as int),
        overlap == !(b.left - a.right > padding || a.left - b.right > padding || b.top - a.bottom
            > padding || a.top - b.bottom > padding),
{
    !(a.right + padding < b.left || a.left > b.right + padding || a.bottom + padding < b.top
        || a.top > b.bottom + padding)
}

/// Rectangles that share a point overlap, whatever non-negative padding is
/// asked for.
pub proof fn lemma_common_point_overlaps(a: Rect, b: Rect, padding: int, x: int, y: int)
    requires
        padding >= 0,
        a.left <= x <= a.right,
        a.top <= y <= a.bottom,
        b.left <= x <= b.right,
        b.top <= y <= b.bottom,
    ensures
        a.overlaps_padded(b, padding),
{
}

/// Two rectangles are apart exactly when, along one axis, the gap between
/// one's far edge and the other's near edge exceeds the padding.
pub proof fn lemma_overlap_means_no_wide_gap(a: Rect, b: Rect, padding: int)
    ensures
        !a.overlaps_padded(b, padding) <==> (b.left - a.right > padding || a.left - b.right
            > padding || b.top - a.bottom > padding || a.top - b.bottom > padding),
{
}

/// Padded overlap does not depend on the order of the two rectangles.
pub proof fn lemma_overlap_symmetric(a: Rect, b: Rect, padding: int)
    ensures
        a.overlaps_padded(b, padding) == b.overlaps_padded(a, padding),
{
}

/// The bounding box of the clickable dot drawn inside `rect`.
pub open spec fn dot_box(rect: Rect) -> Rect {
    Rect {
        left: (rect.left + DOT_PADDING) as i32,
        top: (rect.top + DOT_PADDING) as i32,
        right: (rect.left + DOT_PADDING + DOT_SIZE) as i32,
        bottom: (rect.top + DOT_PADDING + DOT_SIZE) as i32,
    }
}

/// The dot's bounding box can be computed without leaving `i32`.
pub open spec fn dot_box_fits(rect: Rect) -> bool {
    fits_i32(rect.left + DOT_PADDING + DOT_SIZE) && fits_i32(rect.top + DOT_PADDING + DOT_SIZE)
}

/// The screen position of the dot of a rectangle of the overlay.
pub open spec fn dot_screen_pos(rect: Rect) -> (int, int) {
    (OVERLAY_X + rect.left + DOT_PADDING, OVERLAY_Y + rect.top + DOT_PADDING)
}

/// Computes the bounding box of the yellow dot drawn in `rect`.
pub fn dot_bounds(rect: &Rect) -> (dot: Rect)
    requires
        dot_box_fits(*rect),
    ensures
        dot == dot_box(*rect),
        dot.left == rect.left + DOT_PADDING,
        dot.top == rect.top + DOT_PADDING,
        dot.right == dot.left + DOT_SIZE,
        dot.bottom == dot.top + DOT_SIZE,
{
    let left = rect.left + DOT_PADDING;
    let top = rect.top + DOT_PADDING;
    Rect { left, top, right: left + DOT_SIZE, bottom: top + DOT_SIZE }
}

/// The global screen coordinates of the dot of `rect`, where the overlay
/// clicks when the user picks that rectangle.
pub fn screen_pos_for_rect(rect: &Rect) -> (pos: (i32, i32))
    requires
        fits_i32(OVERLAY_X + rect.left + DOT_PADDING),
        fits_i32(OVERLAY_Y + rect.top + DOT_PADDING),
    ensures
        pos.0 as int == dot_screen_pos(*rect).0,
        pos.1 as int == dot_screen_pos(*rect).1,
        pos.0 == OVERLAY_X + rect.left + DOT_PADDING,
        pos.1 == OVERLAY_Y + rect.top + DOT_PADDING,
{
    (OVERLAY_X + rect.left + DOT_PADDING, OVERLAY_Y + rect.top + DOT_PADDING)
}

/// The overlay clicks on the corner of the dot it draws: the screen
/// position of a rectangle is the overlay's origin plus the top-left corner
/// of the rectangle's dot.
pub proof fn lemma_click_hits_dot(rect: Rect)
    requires
        dot_box_fits(rect),
    ensures
        dot_screen_pos(rect) == (OVERLAY_X + dot_box(rect).left, OVERLAY_Y + dot_box(rect).top),
        dot_box(rect).contains(dot_box(rect).left as int, dot_box(rect).top as int),
{
}

} // verus!
