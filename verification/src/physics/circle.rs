//! The disk.

use vstd::prelude::*;
use crate::physics::collision::{Rect, AABB};
use crate::physics::shape::{
    Area,
    AreaModel,
    Color,
    Moment,
    MomentModel,
    ShapeError,
    COORD_LIMIT,
};
use crate::physics::surface::{closest_on_rim, SurfacePoint, QUERY_LIMIT};
use crate::utils::vector2::{Point, Vector2};

verus! {

/// A disk, as contracts see it.
pub struct CircleModel {
    pub radius: int,
    pub center: Point,
    pub rotation: int,
    pub color: Color,
}

impl CircleModel {
    /// The radius is positive, and radius and center are within
    /// `COORD_LIMIT`.
    pub open spec fn valid(self) -> bool {
        &&& 0 < self.radius <= COORD_LIMIT
        &&& self.center.within(COORD_LIMIT as int)
        &&& i64::MIN <= self.rotation <= i64::MAX
    }

    /// The same disk around another center.
    pub open spec fn with_center(self, center: Point) -> CircleModel {
        CircleModel { radius: self.radius, center, rotation: self.rotation, color: self.color }
    }

    /// The disk moved by `delta`.
    pub open spec fn translated(self, delta: Point) -> CircleModel {
        self.with_center(self.center.plus(delta))
    }

    /// The same disk at another angle.
    pub open spec fn with_rotation(self, rotation: int) -> CircleModel {
        CircleModel { radius: self.radius, center: self.center, rotation, color: self.color }
    }

    /// The disk turned further by `delta`.
    pub open spec fn rotated(self, delta: int) -> CircleModel {
        self.with_rotation(self.rotation + delta)
    }

    /// The disk with its radius multiplied by `ratio`; center, angle and
    /// color are kept.
    pub open spec fn scaled(self, ratio: int) -> CircleModel {
        CircleModel {
            radius: self.radius * ratio,
            center: self.center,
            rotation: self.rotation,
            color: self.color,
        }
    }

    /// What `scale` returns for the disk and `ratio`.
    pub open spec fn spec_scale(self, ratio: int) -> Result<CircleModel, ShapeError> {
        if ratio <= 0 {
            Err(ShapeError::InvalidScale)
        } else if self.radius * ratio > COORD_LIMIT {
            Err(ShapeError::OutOfRange)
        } else {
            Ok(self.scaled(ratio))
        }
    }

    /// The area of the disk: π times the square of the radius.
    pub open spec fn area(self) -> AreaModel {
        AreaModel { pi_part: (self.radius * self.radius) as nat, halves: 0 }
    }

    /// The second moment of the disk about its center: π/4 times the
    /// fourth power of the radius.
    pub open spec fn moment_of_inertia(self) -> MomentModel {
        MomentModel {
            pi_quarters: (self.radius * self.radius * self.radius * self.radius) as nat,
            twelfths: 0,
        }
    }

    /// `p` is at most `radius` away from the center.
    pub open spec fn contains(self, p: Point) -> bool {
        p.minus(self.center).norm_squared() <= self.radius * self.radius
    }

    /// The square around the disk: `center ± (radius, radius)`.
    pub open spec fn bounding_box(self) -> Rect {
        let reach = Point { x: self.radius, y: self.radius };
        Rect { top_left: self.center.minus(reach), bottom_right: self.center.plus(reach) }
    }
}

/// A disk with a positive radius.
#[derive(Clone, Copy, Debug)]
pub struct Circle {
    radius: i64,
    center: Vector2,
    rotation: i64,
    color: Color,
}

impl View for Circle {
    type V = CircleModel;

    closed spec fn view(&self) -> CircleModel {
        CircleModel {
            radius: self.radius as int,
            center: self.center@,
            rotation: self.rotation as int,
            color: self.color,
        }
    }
}

impl Circle {
    /// Every `Circle` is valid.
    #[verifier::type_invariant]
    pub open spec fn inv(&self) -> bool {
        self@.valid()
    }

    /// What `new` returns for its arguments.
    pub open spec fn spec_new(center: Point, radius: int, color: Color) -> Result<
        CircleModel,
        ShapeError,
    > {
        if radius <= 0 {
            Err(ShapeError::InvalidRadius)
        } else if radius > COORD_LIMIT || !center.within(COORD_LIMIT as int) {
            Err(ShapeError::OutOfRange)
        } else {
            Ok(CircleModel { radius, center, rotation: 0, color })
        }
    }

    /// The disk of the given center, radius and color, not rotated.
    /// Refused as `InvalidRadius` when the radius is not positive, else as
    /// `OutOfRange` when radius or center exceed `COORD_LIMIT`.
    pub fn new(center: Vector2, radius: i64, color: Color) -> (r: Result<Circle, ShapeError>)
        ensures
            r matches Ok(c) ==> Self::spec_new(center@, radius as int, color) == Ok::<
                CircleModel,
                ShapeError,
            >(c@),
            r matches Err(e) ==> Self::spec_new(center@, radius as int, color) == Err::<
                CircleModel,
                ShapeError,
            >(e),
    {
        if radius <= 0 {
            Err(ShapeError::InvalidRadius)
        } else if radius > COORD_LIMIT || center.x < -COORD_LIMIT || center.x > COORD_LIMIT
            || center.y < -COORD_LIMIT || center.y > COORD_LIMIT {
            Err(ShapeError::OutOfRange)
        } else {
            Ok(Circle { radius, center, rotation: 0, color })
        }
    }

    /// The radius.
    pub fn radius(&self) -> (r: i64)
        ensures
            r == self@.radius,
    {
        self.radius
    }

    /// The center.
    pub fn center(&self) -> (c: Vector2)
        ensures
            c@ == self@.center,
    {
        self.center
    }

    /// The angle of the orientation mark.
    pub fn rotation(&self) -> (a: i64)
        ensures
            a == self@.rotation,
    {
        self.rotation
    }

    /// The color.
    pub fn color(&self) -> (c: Color)
        ensures
            c == self@.color,
    {
        self.color
    }

    /// Puts the center at `position`. Refused as `OutOfRange`, with the
    /// disk unchanged, exactly when `position` exceeds `COORD_LIMIT`.
    pub fn set_center(&mut self, position: Vector2) -> (r: Result<(), ShapeError>)
        ensures
            r is Ok <==> position@.within(COORD_LIMIT as int),
            r is Ok ==> final(self)@ == old(self)@.with_center(position@),
            r matches Err(e) ==> e == ShapeError::OutOfRange && final(self)@ == old(self)@,
    {
        proof {
            use_type_invariant(&*self);
        }
        if position.is_within(COORD_LIMIT) {
            self.center = position;
            Ok(())
        } else {
            Err(ShapeError::OutOfRange)
        }
    }

    /// Moves the center by `delta`. Refused as `OutOfRange`, with the disk
    /// unchanged, exactly when the new center would exceed `COORD_LIMIT`.
    pub fn translate(&mut self, delta: Vector2) -> (r: Result<(), ShapeError>)
        ensures
            r is Ok <==> old(self)@.center.plus(delta@).within(COORD_LIMIT as int),
            r is Ok ==> final(self)@ == old(self)@.translated(delta@),
            r matches Err(e) ==> e == ShapeError::OutOfRange && final(self)@ == old(self)@,
    {
        proof {
            use_type_invariant(&*self);
        }
        match self.center.add(delta) {
            Some(moved) => self.set_center(moved),
            None => Err(ShapeError::OutOfRange),
        }
    }

    /// Sets the angle. Every angle is accepted, and none is reduced to a
    /// canonical range.
    pub fn set_rotation(&mut self, rotation: i64)
        ensures
            final(self)@ == old(self)@.with_rotation(rotation as int),
    {
        proof {
            use_type_invariant(&*self);
        }
        self.rotation = rotation;
    }

    /// Adds `delta` to the angle. Refused as `OutOfRange`, with the disk
    /// unchanged, exactly when the sum does not fit in an `i64`.
    pub fn rotate(&mut self, delta: i64) -> (r: Result<(), ShapeError>)
        ensures
            r is Ok <==> i64::MIN <= old(self)@.rotation + delta <= i64::MAX,
            r is Ok ==> final(self)@ == old(self)@.rotated(delta as int),
            r matches Err(e) ==> e == ShapeError::OutOfRange && final(self)@ == old(self)@,
    {
        proof {
            use_type_invariant(&*self);
        }
        match self.rotation.checked_add(delta) {
            Some(turned) => {
                self.rotation = turned;
                Ok(())
            },
            None => Err(ShapeError::OutOfRange),
        }
    }

    /// A new disk with the radius multiplied by `ratio`, and the same
    /// center, angle and color. Refused as `InvalidScale` when `ratio` is
    /// not positive, else as `OutOfRange` when the new radius would exceed
    /// `COORD_LIMIT`.
    pub fn scale(&self, ratio: i64) -> (r: Result<Circle, ShapeError>)
        ensures
            r matches Ok(c) ==> self@.spec_scale(ratio as int) == Ok::<CircleModel, ShapeError>(
                c@,
            ),
            r matches Err(e) ==> self@.spec_scale(ratio as int) == Err::<CircleModel, ShapeError>(
                e,
            ),
    {
        proof {
            use_type_invariant(self);
        }
        if ratio <= 0 {
            return Err(ShapeError::InvalidScale);
        }
        let k: i128 = ratio as i128;
        let old_radius: i128 = self.radius as i128;
        assert(0 < old_radius * k <= 0x80_0000_0000_0000_0000_0000) by (nonlinear_arith)
            requires
                0 < old_radius <= 0x100_0000,
                0 < k <= 0x7fff_ffff_ffff_ffff,
        ;
        let radius: i128 = old_radius * k;
        if radius > COORD_LIMIT as i128 {
            return Err(ShapeError::OutOfRange);
        }
        Ok(
            Circle {
                radius: radius as i64,
                center: self.center,
                rotation: self.rotation,
                color: self.color,
            },
        )
    }

    /// The area, π·r², in exact form.
    pub fn area(&self) -> (a: Area)
        ensures
            a@ == self@.area(),
            a.pi_part == self@.radius * self@.radius,
            a.halves == 0,
    {
        proof {
            use_type_invariant(self);
        }
        let r: u128 = self.radius as u128;
        assert(r * r <= 0x1_0000_0000_0000) by (nonlinear_arith)
            requires
                r <= 0x100_0000,
        ;
        Area { pi_part: r * r, halves: 0 }
    }

    /// The second moment of area about the center at unit density, π·r⁴/4,
    /// in exact form.
    pub fn moment_of_inertia(&self) -> (m: Moment)
        ensures
            m@ == self@.moment_of_inertia(),
            m.pi_quarters == self@.radius * self@.radius * self@.radius * self@.radius,
            m.twelfths == 0,
    {
        proof {
            use_type_invariant(self);
        }
        let r: u128 = self.radius as u128;
        assert(r * r <= 0x1_0000_0000_0000) by (nonlinear_arith)
            requires
                r <= 0x100_0000,
        ;
        let square: u128 = r * r;
        assert(square * r <= 0x1_0000_0000_0000_0000_00) by (nonlinear_arith)
            requires
                square <= 0x1_0000_0000_0000,
                r <= 0x100_0000,
        ;
        let cube: u128 = square * r;
        assert(cube * r <= 0x1_0000_0000_0000_0000_0000_0000) by (nonlinear_arith)
            requires
                cube <= 0x1_0000_0000_0000_0000_00,
                r <= 0x100_0000,
        ;
        Moment { pi_quarters: cube * r, twelfths: 0 }
    }

    /// Whether `point` lies in the disk, rim included.
    pub fn contains_point(&self, point: Vector2) -> (inside: bool)
        ensures
            inside == self@.contains(point@),
    {
        proof {
            use_type_invariant(self);
        }
        let dx: i128 = point.x as i128 - self.center.x as i128;
        let dy: i128 = point.y as i128 - self.center.y as i128;
        let r: i128 = self.radius as i128;
        if dx > r || dx < -r || dy > r || dy < -r {
            assert(dx * dx + dy * dy > r * r) by (nonlinear_arith)
                requires
                    r > 0,
                    dx > r || dx < -r || dy > r || dy < -r,
            ;
            false
        } else {
            assert(0 <= dx * dx <= r * r && 0 <= dy * dy <= r * r && r * r
                <= 0x1_0000_0000_0000) by (nonlinear_arith)
                requires
                    0 < r <= 0x100_0000,
                    -r <= dx <= r,
                    -r <= dy <= r,
            ;
            dx * dx + dy * dy <= r * r
        }
    }

    /// The point of the rim nearest to `point`, and the outward normal
    /// there, in exact form: both lie in the direction from the center to
    /// `point`. Where `point` is the center, every rim point is as near as
    /// any other, and the direction `(1, 0)` is taken. Refused as
    /// `OutOfRange` exactly when `point` exceeds `QUERY_LIMIT`.
    pub fn find_closest_surface_point(&self, point: Vector2) -> (r: Result<SurfacePoint, ShapeError>)
        ensures
            r is Ok <==> point@.within(QUERY_LIMIT as int),
            r matches Ok(hit) ==> closest_on_rim(self@.center, point@, hit),
            r matches Err(e) ==> e == ShapeError::OutOfRange,
    {
        proof {
            use_type_invariant(self);
        }
        if !point.is_within(QUERY_LIMIT) {
            return Err(ShapeError::OutOfRange);
        }
        let normal: Vector2 = if point.x != self.center.x || point.y != self.center.y {
            Vector2 { x: point.x - self.center.x, y: point.y - self.center.y }
        } else {
            Vector2 { x: 1, y: 0 }
        };
        Ok(SurfacePoint::Rim { normal })
    }

    /// The bounding box of the disk.
    pub fn get_aabb(&self) -> (b: AABB)
        ensures
            b@ == self@.bounding_box(),
            b@.well_formed(),
    {
        proof {
            use_type_invariant(self);
        }
        AABB::from_corners(
            Vector2 { x: self.center.x - self.radius, y: self.center.y - self.radius },
            Vector2 { x: self.center.x + self.radius, y: self.center.y + self.radius },
        )
    }
}

/// The bounding box holds the whole disk: every point that the disk
/// contains lies in its bounding box.
pub proof fn lemma_contained_point_in_bounding_box(c: CircleModel, p: Point)
    requires
        c.radius >= 0,
        c.contains(p),
    ensures
        c.bounding_box().contains(p),
{
    let dx = p.x - c.center.x;
    let dy = p.y - c.center.y;
    let r = c.radius;
    assert(-r <= dx <= r && -r <= dy <= r) by (nonlinear_arith)
        requires
            r >= 0,
            dx * dx + dy * dy <= r * r,
    ;
}

/// Moving a disk by `delta` moves both corners of its bounding box by
/// exactly `delta`, and changes nothing else of the box.
pub proof fn lemma_bounding_box_follows_translation(c: CircleModel, delta: Point)
    ensures
        c.translated(delta).bounding_box() == c.bounding_box().shifted(delta),
{
}

/// Moving a disk and a point by the same `delta` does not change whether
/// the disk contains the point.
pub proof fn lemma_containment_follows_translation(c: CircleModel, p: Point, delta: Point)
    ensures
        c.translated(delta).contains(p.plus(delta)) == c.contains(p),
{
}

/// Scaling multiplies the radius by the ratio and keeps center, angle and
/// color; the scaled disk is valid whenever `scale` accepts it.
pub proof fn lemma_scale_keeps_placement(c: CircleModel, ratio: int)
    requires
        c.valid(),
        c.spec_scale(ratio) is Ok,
    ensures
        c.spec_scale(ratio)->Ok_0.valid(),
        c.spec_scale(ratio)->Ok_0.radius == c.radius * ratio,
        c.spec_scale(ratio)->Ok_0.center == c.center,
        c.spec_scale(ratio)->Ok_0.rotation == c.rotation,
        c.spec_scale(ratio)->Ok_0.color == c.color,
{
    assert(c.radius * ratio > 0) by (nonlinear_arith)
        requires
            c.radius > 0,
            ratio > 0,
    ;
}

} // verus!
