//! Axis-aligned bounding boxes and the broad-phase overlap test.

use vstd::prelude::*;
use crate::physics::shape::ShapeError;
use crate::utils::vector2::{Point, Vector2};

verus! {

/// An axis-aligned rectangle of the integer plane, as contracts see it.
/// `top_left` holds the smaller coordinates.
pub struct Rect {
    pub top_left: Point,
    pub bottom_right: Point,
}

impl Rect {
    /// The corners are in order on both axes.
    pub open spec fn well_formed(self) -> bool {
        self.top_left.x <= self.bottom_right.x && self.top_left.y <= self.bottom_right.y
    }

    /// `p` lies in the rectangle, edges included.
    pub open spec fn contains(self, p: Point) -> bool {
        self.top_left.x <= p.x <= self.bottom_right.x && self.top_left.y <= p.y
            <= self.bottom_right.y
    }

    /// The x intervals and the y intervals of the two rectangles both meet.
    pub open spec fn overlaps(self, other: Rect) -> bool {
        &&& self.top_left.x <= other.bottom_right.x
        &&& self.bottom_right.x >= other.top_left.x
        &&& self.top_left.y <= other.bottom_right.y
        &&& self.bottom_right.y >= other.top_left.y
    }

    /// The rectangle moved by `delta`.
    pub open spec fn shifted(self, delta: Point) -> Rect {
        Rect {
            top_left: self.top_left.plus(delta),
            bottom_right: self.bottom_right.plus(delta),
        }
    }
}

/// An axis-aligned bounding box: two corners in order on both axes. A box
/// is made once and never changed.
#[derive(Clone, Copy, Debug, PartialEq, Eq, Structural)]
pub struct AABB {
    top_left: Vector2,
    bottom_right: Vector2,
}

impl View for AABB {
    type V = Rect;

    closed spec fn view(&self) -> Rect {
        Rect { top_left: self.top_left@, bottom_right: self.bottom_right@ }
    }
}

impl AABB {
    /// Every `AABB` is well formed.
    #[verifier::type_invariant]
    pub open spec fn inv(&self) -> bool {
        self@.well_formed()
    }

    /// The box with the given corners, refused as `MalformedBox` exactly
    /// when the corners are out of order on some axis.
    pub fn new(top_left: Vector2, bottom_right: Vector2) -> (r: Result<AABB, ShapeError>)
        ensures
            r is Ok <==> (Rect { top_left: top_left@, bottom_right: bottom_right@ }).well_formed(),
            r matches Ok(b) ==> b@ == (Rect { top_left: top_left@, bottom_right: bottom_right@ }),
            r matches Err(e) ==> e == ShapeError::MalformedBox,
    {
        if top_left.x <= bottom_right.x && top_left.y <= bottom_right.y {
            Ok(AABB { top_left, bottom_right })
        } else {
            Err(ShapeError::MalformedBox)
        }
    }

    /// The box around a rectangle that is known to be well formed.
    pub(crate) fn from_corners(top_left: Vector2, bottom_right: Vector2) -> (b: AABB)
        requires
            top_left.x <= bottom_right.x,
            top_left.y <= bottom_right.y,
        ensures
            b@ == (Rect { top_left: top_left@, bottom_right: bottom_right@ }),
    {
        AABB { top_left, bottom_right }
    }

    /// The corner with the smaller coordinates.
    pub fn top_left(&self) -> (corner: Vector2)
        ensures
            corner@ == self@.top_left,
    {
        self.top_left
    }

    /// The corner with the greater coordinates.
    pub fn bottom_right(&self) -> (corner: Vector2)
        ensures
            corner@ == self@.bottom_right,
    {
        self.bottom_right
    }

    /// Whether the two boxes share a point: the broad-phase test.
    pub fn overlaps(&self, other: &AABB) -> (hit: bool)
        ensures
            hit == self@.overlaps(other@),
    {
        self.top_left.x <= other.bottom_right.x && self.bottom_right.x >= other.top_left.x
            && self.top_left.y <= other.bottom_right.y && self.bottom_right.y >= other.top_left.y
    }

    /// Whether `point` lies in the box, edges included.
    pub fn contains_point(&self, point: Vector2) -> (inside: bool)
        ensures
            inside == self@.contains(point@),
    {
        self.top_left.x <= point.x && point.x <= self.bottom_right.x && self.top_left.y
            <= point.y && point.y <= self.bottom_right.y
    }
}

/// The overlap test is exact: two well-formed boxes pass it exactly when
/// some point lies in both.
pub proof fn lemma_overlap_is_common_point(a: Rect, b: Rect)
    requires
        a.well_formed(),
        b.well_formed(),
    ensures
        a.overlaps(b) <==> exists|p: Point| #[trigger] a.contains(p) && b.contains(p),
{
    if a.overlaps(b) {
        let x = if a.top_left.x >= b.top_left.x { a.top_left.x } else { b.top_left.x };
        let y = if a.top_left.y >= b.top_left.y { a.top_left.y } else { b.top_left.y };
        let p = Point { x, y };
        assert(a.contains(p) && b.contains(p));
    }
}

/// The overlap test does not depend on the order of its arguments.
pub proof fn lemma_overlap_symmetric(a: Rect, b: Rect)
    ensures
        a.overlaps(b) == b.overlaps(a),
{
}

} // verus!
