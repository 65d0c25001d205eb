//! Lattice vectors and the arithmetic on them.

use vstd::prelude::*;

verus! {

/// A point (or displacement) of the integer plane, as contracts see it.
pub struct Point {
    pub x: int,
    pub y: int,
}

impl Point {
    /// Component-wise sum.
    pub open spec fn plus(self, other: Point) -> Point {
        Point { x: self.x + other.x, y: self.y + other.y }
    }

    /// Component-wise difference.
    pub open spec fn minus(self, other: Point) -> Point {
        Point { x: self.x - other.x, y: self.y - other.y }
    }

    /// Both components multiplied by `k`.
    pub open spec fn times(self, k: int) -> Point {
        Point { x: self.x * k, y: self.y * k }
    }

    /// The opposite displacement.
    pub open spec fn negated(self) -> Point {
        Point { x: -self.x, y: -self.y }
    }

    /// Scalar product.
    pub open spec fn dot(self, other: Point) -> int {
        self.x * other.x + self.y * other.y
    }

    /// The z component of the vector product: twice the signed area of the
    /// triangle spanned by the origin, `self` and `other`.
    pub open spec fn cross(self, other: Point) -> int {
        self.x * other.y - other.x * self.y
    }

    /// The square of the Euclidean length.
    pub open spec fn norm_squared(self) -> int {
        self.x * self.x + self.y * self.y
    }

    /// Both components lie in `[-limit, limit]`.
    pub open spec fn within(self, limit: int) -> bool {
        -limit <= self.x <= limit && -limit <= self.y <= limit
    }

    /// Both components can be held in an `i64`.
    pub open spec fn fits_i64(self) -> bool {
        i64::MIN <= self.x <= i64::MAX && i64::MIN <= self.y <= i64::MAX
    }
}

/// Every point of `points` has both components in `[-limit, limit]`.
pub open spec fn all_within(points: Seq<Point>, limit: int) -> bool {
    forall|i: int| 0 <= i < points.len() ==> (#[trigger] points[i]).within(limit)
}

/// The points that a sequence of vectors stands for.
pub open spec fn points_of(vectors: Seq<Vector2>) -> Seq<Point> {
    vectors.map_values(|v: Vector2| v@)
}

/// A vector with two `i64` components.
#[derive(Clone, Copy, Debug, PartialEq, Eq, Structural)]
pub struct Vector2 {
    pub x: i64,
    pub y: i64,
}

impl View for Vector2 {
    type V = Point;

    open spec fn view(&self) -> Point {
        Point { x: self.x as int, y: self.y as int }
    }
}

impl Vector2 {
    /// The vector `(x, y)`.
    pub fn new(x: i64, y: i64) -> (v: Vector2)
        ensures
            v.x == x,
            v.y == y,
    {
        Vector2 { x, y }
    }

    /// Whether both components lie in `[-limit, limit]`.
    pub fn is_within(self, limit: i64) -> (r: bool)
        ensures
            r == self@.within(limit as int),
    {
        let bound: i128 = limit as i128;
        let x: i128 = self.x as i128;
        let y: i128 = self.y as i128;
        -bound <= x && x <= bound && -bound <= y && y <= bound
    }

    /// The sum of two vectors, or `None` when a component of the sum does
    /// not fit in an `i64`.
    pub fn add(self, other: Vector2) -> (r: Option<Vector2>)
        ensures
            r is Some <==> self@.plus(other@).fits_i64(),
            r matches Some(v) ==> v@ == self@.plus(other@),
    {
        match (self.x.checked_add(other.x), self.y.checked_add(other.y)) {
            (Some(x), Some(y)) => Some(Vector2 { x, y }),
            _ => None,
        }
    }

    /// The difference of two vectors, or `None` when a component of the
    /// difference does not fit in an `i64`.
    pub fn subtract(self, other: Vector2) -> (r: Option<Vector2>)
        ensures
            r is Some <==> self@.minus(other@).fits_i64(),
            r matches Some(v) ==> v@ == self@.minus(other@),
    {
        match (self.x.checked_sub(other.x), self.y.checked_sub(other.y)) {
            (Some(x), Some(y)) => Some(Vector2 { x, y }),
            _ => None,
        }
    }

    /// Both components multiplied by `factor`, or `None` when a product does
    /// not fit in an `i64`.
    pub fn scale(self, factor: i64) -> (r: Option<Vector2>)
        ensures
            r is Some <==> self@.times(factor as int).fits_i64(),
            r matches Some(v) ==> v@ == self@.times(factor as int),
    {
        match (self.x.checked_mul(factor), self.y.checked_mul(factor)) {
            (Some(x), Some(y)) => Some(Vector2 { x, y }),
            _ => None,
        }
    }

    /// The scalar product of two vectors, or `None` when it does not fit in
    /// an `i64`.
    pub fn dot(self, other: Vector2) -> (r: Option<i64>)
        ensures
            r is Some <==> i64::MIN <= self@.dot(other@) <= i64::MAX,
            r matches Some(d) ==> d == self@.dot(other@),
    {
        let a: i128 = wide_product(self.x, other.x);
        let b: i128 = wide_product(self.y, other.y);
        let top: i128 = 0x4000_0000_0000_0000_0000_0000_0000_0000;
        if a == top && b == top {
            return None;
        }
        let sum: i128 = a + b;
        if sum < i64::MIN as i128 || sum > i64::MAX as i128 {
            None
        } else {
            Some(sum as i64)
        }
    }

    /// The square of the Euclidean length.
    pub fn length_squared(self) -> (r: u128)
        ensures
            r == self@.norm_squared(),
    {
        let a: i128 = wide_product(self.x, self.x);
        let b: i128 = wide_product(self.y, self.y);
        assert(a >= 0 && b >= 0) by (nonlinear_arith)
            requires
                a == self.x * self.x,
                b == self.y * self.y,
        ;
        a as u128 + b as u128
    }
}

/// The product of two `i64` values, which always fits in an `i128`.
pub(crate) fn wide_product(a: i64, b: i64) -> (p: i128)
    ensures
        p == a * b,
        -0x4000_0000_0000_0000_0000_0000_0000_0000 < p <= 0x4000_0000_0000_0000_0000_0000_0000_0000,
{
    assert(-0x4000_0000_0000_0000_0000_0000_0000_0000 < a * b
        <= 0x4000_0000_0000_0000_0000_0000_0000_0000) by (nonlinear_arith)
        requires
            -0x8000_0000_0000_0000 <= a < 0x8000_0000_0000_0000,
            -0x8000_0000_0000_0000 <= b < 0x8000_0000_0000_0000,
    ;
    (a as i128) * (b as i128)
}

} // verus!
