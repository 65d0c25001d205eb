//! The closed set of shapes, and what every shape can do whatever its
//! geometry: be placed, moved, turned and scaled.

use vstd::prelude::*;
use crate::physics::circle::{Circle, CircleModel};
use crate::physics::collision::{Rect, AABB};
use crate::physics::outline::{bounding_box, encloses, shifted};
use crate::physics::polygon::{Polygon, PolygonModel};
use crate::physics::rotor::{Rotor, RotorModel};
use crate::physics::shape::{Area, AreaModel, Moment, MomentModel, ShapeError, COORD_LIMIT};
use crate::physics::surface::{closest_on_outline, closest_on_rim, SurfacePoint, QUERY_LIMIT};
use crate::utils::vector2::{Point, Vector2};

verus! {

/// A shape, as contracts see it.
pub enum ShapeModel {
    Circle(CircleModel),
    Polygon(PolygonModel),
}

impl ShapeModel {
    /// The variant's own validity.
    pub open spec fn valid(self) -> bool {
        match self {
            ShapeModel::Circle(c) => c.valid(),
            ShapeModel::Polygon(p) => p.valid(),
        }
    }

    /// The center.
    pub open spec fn center(self) -> Point {
        match self {
            ShapeModel::Circle(c) => c.center,
            ShapeModel::Polygon(p) => p.center,
        }
    }

    /// The angle.
    pub open spec fn rotation(self) -> int {
        match self {
            ShapeModel::Circle(c) => c.rotation,
            ShapeModel::Polygon(p) => p.rotation,
        }
    }

    /// The area: π·r² for a disk, half the absolute shoelace sum for a
    /// polygon.
    pub open spec fn area(self) -> AreaModel {
        match self {
            ShapeModel::Circle(c) => c.area(),
            ShapeModel::Polygon(p) => p.area(),
        }
    }

    /// The second moment of area about the center, at unit density.
    pub open spec fn moment_of_inertia(self) -> MomentModel {
        match self {
            ShapeModel::Circle(c) => c.moment_of_inertia(),
            ShapeModel::Polygon(p) => p.moment_of_inertia(),
        }
    }

    /// `p` lies in the shape: in the disk, or, by the even-odd rule, in the
    /// polygon with its vertices turned by `rotor`.
    pub open spec fn contains(self, rotor: RotorModel, p: Point) -> bool {
        match self {
            ShapeModel::Circle(c) => c.contains(p),
            ShapeModel::Polygon(polygon) => encloses(polygon.outline(rotor), p),
        }
    }

    /// The smallest axis-aligned box around the shape: `center ± radius`
    /// for a disk, the least and greatest world-space vertex coordinates
    /// for a polygon with its vertices turned by `rotor`.
    pub open spec fn bounding_box(self, rotor: RotorModel) -> Rect {
        match self {
            ShapeModel::Circle(c) => c.bounding_box(),
            ShapeModel::Polygon(polygon) => bounding_box(polygon.outline(rotor)),
        }
    }

    /// `hit` describes the surface point nearest to `p`: on the rim of the
    /// disk, or on the edges of the polygon with its vertices turned by
    /// `rotor`.
    pub open spec fn closest(self, rotor: RotorModel, p: Point, hit: SurfacePoint) -> bool {
        match self {
            ShapeModel::Circle(c) => closest_on_rim(c.center, p, hit),
            ShapeModel::Polygon(polygon) => closest_on_outline(polygon.outline(rotor), p, hit),
        }
    }

    /// The same shape around another center.
    pub open spec fn with_center(self, center: Point) -> ShapeModel {
        match self {
            ShapeModel::Circle(c) => ShapeModel::Circle(c.with_center(center)),
            ShapeModel::Polygon(p) => ShapeModel::Polygon(p.with_center(center)),
        }
    }

    /// The shape moved by `delta`.
    pub open spec fn translated(self, delta: Point) -> ShapeModel {
        self.with_center(self.center().plus(delta))
    }

    /// The same shape at another angle.
    pub open spec fn with_rotation(self, rotation: int) -> ShapeModel {
        match self {
            ShapeModel::Circle(c) => ShapeModel::Circle(c.with_rotation(rotation)),
            ShapeModel::Polygon(p) => ShapeModel::Polygon(p.with_rotation(rotation)),
        }
    }

    /// The shape turned further by `delta`.
    pub open spec fn rotated(self, delta: int) -> ShapeModel {
        self.with_rotation(self.rotation() + delta)
    }

    /// The shape scaled about its center: a disk's radius, or every vertex
    /// of a polygon, multiplied by `ratio`.
    pub open spec fn scaled(self, ratio: int) -> ShapeModel {
        match self {
            ShapeModel::Circle(c) => ShapeModel::Circle(c.scaled(ratio)),
            ShapeModel::Polygon(p) => ShapeModel::Polygon(p.scaled(ratio)),
        }
    }

    /// What `scale` returns for the shape and `ratio`.
    pub open spec fn spec_scale(self, ratio: int) -> Result<ShapeModel, ShapeError> {
        match self {
            ShapeModel::Circle(c) => match c.spec_scale(ratio) {
                Ok(scaled) => Ok(ShapeModel::Circle(scaled)),
                Err(e) => Err(e),
            },
            ShapeModel::Polygon(p) => match p.spec_scale(ratio) {
                Ok(scaled) => Ok(ShapeModel::Polygon(scaled)),
                Err(e) => Err(e),
            },
        }
    }
}

/// A circle or a polygon. The variant is fixed when the value is made: no
/// operation turns one into the other.
#[derive(Debug)]
pub enum ShapeType {
    Circle(Circle),
    Polygon(Polygon),
}

impl View for ShapeType {
    type V = ShapeModel;

    open spec fn view(&self) -> ShapeModel {
        match self {
            ShapeType::Circle(c) => ShapeModel::Circle(c@),
            ShapeType::Polygon(p) => ShapeModel::Polygon(p@),
        }
    }
}

impl Clone for ShapeType {
    fn clone(&self) -> (copy: ShapeType)
        ensures
            copy@ == self@,
    {
        match self {
            ShapeType::Circle(c) => ShapeType::Circle(*c),
            ShapeType::Polygon(p) => ShapeType::Polygon(p.clone()),
        }
    }
}

impl ShapeType {
    /// The area of the shape, in exact form.
    pub fn area(&self) -> (a: Area)
        ensures
            a@ == self@.area(),
    {
        match self {
            ShapeType::Circle(c) => c.area(),
            ShapeType::Polygon(p) => p.area(),
        }
    }

    /// The second moment of area of the shape about its center, at unit
    /// density, in exact form.
    pub fn moment_of_inertia(&self) -> (m: Moment)
        ensures
            m@ == self@.moment_of_inertia(),
    {
        match self {
            ShapeType::Circle(c) => c.moment_of_inertia(),
            ShapeType::Polygon(p) => p.moment_of_inertia(),
        }
    }

    /// The bounding box of the shape. `rotor` is the direction of the
    /// shape's angle; a disk does not look at it.
    pub fn get_aabb(&self, rotor: &Rotor) -> (b: AABB)
        ensures
            b@ == self@.bounding_box(rotor@),
            b@.well_formed(),
    {
        match self {
            ShapeType::Circle(c) => c.get_aabb(),
            ShapeType::Polygon(p) => p.get_aabb(rotor),
        }
    }

    /// Whether `point` lies in the shape. `rotor` is the direction of the
    /// shape's angle; a disk does not look at it.
    pub fn contains_point(&self, rotor: &Rotor, point: Vector2) -> (inside: bool)
        ensures
            inside == self@.contains(rotor@, point@),
    {
        match self {
            ShapeType::Circle(c) => c.contains_point(point),
            ShapeType::Polygon(p) => p.contains_point(rotor, point),
        }
    }

    /// The surface point nearest to `point`, and the outward normal there,
    /// in exact form. `rotor` is the direction of the shape's angle; a disk
    /// does not look at it. Refused as `OutOfRange` exactly when `point`
    /// exceeds `QUERY_LIMIT`.
    pub fn find_closest_surface_point(&self, rotor: &Rotor, point: Vector2) -> (r: Result<
        SurfacePoint,
        ShapeError,
    >)
        ensures
            r is Ok <==> point@.within(QUERY_LIMIT as int),
            r matches Ok(hit) ==> self@.closest(rotor@, point@, hit),
            r matches Err(e) ==> e == ShapeError::OutOfRange,
    {
        match self {
            ShapeType::Circle(c) => c.find_closest_surface_point(point),
            ShapeType::Polygon(p) => p.find_closest_surface_point(rotor, point),
        }
    }

    /// The center of the shape.
    pub fn get_center(&self) -> (c: Vector2)
        ensures
            c@ == self@.center(),
    {
        match self {
            ShapeType::Circle(c) => c.center(),
            ShapeType::Polygon(p) => p.center(),
        }
    }

    /// Puts the center at `position`. Refused as `OutOfRange`, with the
    /// shape unchanged, exactly when `position` exceeds `COORD_LIMIT`.
    pub fn set_center(&mut self, position: Vector2) -> (r: Result<(), ShapeError>)
        ensures
            r is Ok <==> position@.within(COORD_LIMIT as int),
            r is Ok ==> final(self)@ == old(self)@.with_center(position@),
            r matches Err(e) ==> e == ShapeError::OutOfRange && final(self)@ == old(self)@,
    {
        match self {
            ShapeType::Circle(c) => c.set_center(position),
            ShapeType::Polygon(p) => p.set_center(position),
        }
    }

    /// Moves the shape by `translation`. Refused as `OutOfRange`, with the
    /// shape unchanged, exactly when the new center would exceed
    /// `COORD_LIMIT`.
    pub fn translate(&mut self, translation: Vector2) -> (r: Result<(), ShapeError>)
        ensures
            r is Ok <==> old(self)@.center().plus(translation@).within(COORD_LIMIT as int),
            r is Ok ==> final(self)@ == old(self)@.translated(translation@),
            r matches Err(e) ==> e == ShapeError::OutOfRange && final(self)@ == old(self)@,
    {
        match self {
            ShapeType::Circle(c) => c.translate(translation),
            ShapeType::Polygon(p) => p.translate(translation),
        }
    }

    /// The angle of the shape.
    pub fn get_rotation(&self) -> (a: i64)
        ensures
            a == self@.rotation(),
    {
        match self {
            ShapeType::Circle(c) => c.rotation(),
            ShapeType::Polygon(p) => p.rotation(),
        }
    }

    /// Sets the angle. Every angle is accepted, and none is reduced to a
    /// canonical range.
    pub fn set_rotation(&mut self, rotation: i64)
        ensures
            final(self)@ == old(self)@.with_rotation(rotation as int),
    {
        match self {
            ShapeType::Circle(c) => c.set_rotation(rotation),
            ShapeType::Polygon(p) => p.set_rotation(rotation),
        }
    }

    /// Adds `delta` to the angle. Refused as `OutOfRange`, with the shape
    /// unchanged, exactly when the sum does not fit in an `i64`.
    pub fn rotate(&mut self, delta: i64) -> (r: Result<(), ShapeError>)
        ensures
            r is Ok <==> i64::MIN <= old(self)@.rotation() + delta <= i64::MAX,
            r is Ok ==> final(self)@ == old(self)@.rotated(delta as int),
            r matches Err(e) ==> e == ShapeError::OutOfRange && final(self)@ == old(self)@,
    {
        match self {
            ShapeType::Circle(c) => c.rotate(delta),
            ShapeType::Polygon(p) => p.rotate(delta),
        }
    }

    /// A new shape of the same variant, scaled by `ratio` about its center,
    /// with the same center, angle and color; `self` is left as it is.
    /// Refused as `InvalidScale` when `ratio` is not positive, else as
    /// `OutOfRange` when the scaled radius or a scaled vertex would exceed
    /// `COORD_LIMIT`.
    pub fn scale(&self, ratio: i64) -> (r: Result<ShapeType, ShapeError>)
        ensures
            r matches Ok(s) ==> self@.spec_scale(ratio as int) == Ok::<ShapeModel, ShapeError>(s@),
            r matches Err(e) ==> self@.spec_scale(ratio as int) == Err::<ShapeModel, ShapeError>(
                e,
            ),
    {
        match self {
            ShapeType::Circle(c) => match c.scale(ratio) {
                Ok(scaled) => Ok(ShapeType::Circle(scaled)),
                Err(e) => Err(e),
            },
            ShapeType::Polygon(p) => match p.scale(ratio) {
                Ok(scaled) => Ok(ShapeType::Polygon(scaled)),
                Err(e) => Err(e),
            },
        }
    }
}

/// The bounding box holds the whole shape: every point that the shape
/// contains lies in its bounding box.
pub proof fn lemma_contained_point_in_bounding_box(s: ShapeModel, rotor: RotorModel, p: Point)
    requires
        s.valid(),
        s.contains(rotor, p),
    ensures
        s.bounding_box(rotor).contains(p),
{
    match s {
        ShapeModel::Circle(c) => {
            crate::physics::circle::lemma_contained_point_in_bounding_box(c, p);
        },
        ShapeModel::Polygon(polygon) => {
            crate::physics::outline::lemma_enclosed_point_in_bounding_box(
                polygon.outline(rotor),
                p,
            );
        },
    }
}

/// The nearest surface point lies on the surface: on the rim of a disk,
/// or on one of the edges of a polygon, between the ends of that edge; and
/// the outward direction there is not zero.
pub proof fn lemma_closest_point_is_on_the_surface(
    s: ShapeModel,
    rotor: RotorModel,
    p: Point,
    hit: SurfacePoint,
)
    requires
        s.closest(rotor, p, hit),
    ensures
        s is Circle ==> hit is Rim,
        s is Polygon ==> hit is Edge,
        hit matches SurfacePoint::Rim { normal } ==> normal.x != 0 || normal.y != 0,
        hit matches SurfacePoint::Edge { edge, numerator, denominator, normal } ==> edge
            < s->Polygon_0.vertices.len() && 0 <= numerator <= denominator && 0 < denominator && (
        normal.x != 0 || normal.y != 0),
{
    match s {
        ShapeModel::Circle(c) => {
            crate::physics::surface::lemma_rim_point_is_on_the_rim(c.center, p, hit);
        },
        ShapeModel::Polygon(polygon) => {
            crate::physics::surface::lemma_edge_point_is_on_an_edge(
                polygon.outline(rotor),
                p,
                hit,
            );
        },
    }
}

/// Moving a shape by `delta` moves both corners of its bounding box by
/// exactly `delta`, and changes nothing else of the box.
pub proof fn lemma_bounding_box_follows_translation(
    s: ShapeModel,
    rotor: RotorModel,
    delta: Point,
)
    requires
        s.valid(),
    ensures
        s.translated(delta).bounding_box(rotor) == s.bounding_box(rotor).shifted(delta),
{
    match s {
        ShapeModel::Circle(c) => {},
        ShapeModel::Polygon(polygon) => {
            assert(polygon.translated(delta).outline(rotor) =~= shifted(
                polygon.outline(rotor),
                delta,
            ));
            crate::physics::outline::lemma_bounding_box_follows_translation(
                polygon.outline(rotor),
                delta,
            );
        },
    }
}

/// Moving a shape and a point by the same `delta` does not change whether
/// the shape contains the point.
pub proof fn lemma_containment_follows_translation(
    s: ShapeModel,
    rotor: RotorModel,
    p: Point,
    delta: Point,
)
    ensures
        s.translated(delta).contains(rotor, p.plus(delta)) == s.contains(rotor, p),
{
    match s {
        ShapeModel::Circle(c) => {},
        ShapeModel::Polygon(polygon) => {
            assert(polygon.translated(delta).outline(rotor) =~= shifted(
                polygon.outline(rotor),
                delta,
            ));
            crate::physics::outline::lemma_containment_follows_translation(
                polygon.outline(rotor),
                p,
                delta,
            );
        },
    }
}

/// Rigid motions preserve area and second moment: neither moving a shape
/// nor turning it changes them.
pub proof fn lemma_area_unchanged_by_motion(s: ShapeModel, delta: Point, angle: int)
    ensures
        s.translated(delta).area() == s.area(),
        s.rotated(angle).area() == s.area(),
        s.translated(delta).moment_of_inertia() == s.moment_of_inertia(),
        s.rotated(angle).moment_of_inertia() == s.moment_of_inertia(),
{
}

/// Scaling a shape by `ratio` multiplies its area by the square of
/// `ratio`.
pub proof fn lemma_area_scales_by_square(s: ShapeModel, ratio: int)
    ensures
        s.scaled(ratio).area() == s.area().times((ratio * ratio) as nat),
{
    assert(ratio * ratio >= 0) by (nonlinear_arith);
    match s {
        ShapeModel::Circle(c) => {
            let r = c.radius;
            assert((r * ratio) * (r * ratio) == (r * r) * (ratio * ratio)) by (nonlinear_arith);
            assert(r * r >= 0) by (nonlinear_arith);
            assert(0 * (ratio * ratio) == 0);
        },
        ShapeModel::Polygon(polygon) => {
            crate::physics::polygon::lemma_area_scales_by_square(polygon, ratio);
            assert(ratio * ratio * polygon.twice_area() == polygon.twice_area() * (ratio
                * ratio)) by (nonlinear_arith);
            assert(0 * (ratio * ratio) == 0);
        },
    }
}

/// A shape that `scale` accepts is the shape scaled about its center: it
/// is valid, of the same variant, and has the same center and angle.
pub proof fn lemma_scale_keeps_placement(s: ShapeModel, ratio: int)
    requires
        s.valid(),
        s.spec_scale(ratio) is Ok,
    ensures
        s.spec_scale(ratio)->Ok_0 == s.scaled(ratio),
        s.spec_scale(ratio)->Ok_0.valid(),
        s.spec_scale(ratio)->Ok_0 is Circle <==> s is Circle,
        s.spec_scale(ratio)->Ok_0.center() == s.center(),
        s.spec_scale(ratio)->Ok_0.rotation() == s.rotation(),
{
    match s {
        ShapeModel::Circle(c) => {
            crate::physics::circle::lemma_scale_keeps_placement(c, ratio);
        },
        ShapeModel::Polygon(polygon) => {
            crate::physics::polygon::lemma_scale_keeps_placement(polygon, ratio);
        },
    }
}

/// Moving a shape by `delta` and then by the opposite of `delta` puts its
/// center back where it was, and leaves the rest of the shape as it was.
pub proof fn lemma_translate_round_trip(s: ShapeModel, delta: Point)
    ensures
        s.translated(delta).translated(delta.negated()) == s,
        s.translated(delta).translated(delta.negated()).center() == s.center(),
{
    let there = s.translated(delta);
    let back = there.translated(delta.negated());
    assert(back.center() == s.center());
    match s {
        ShapeModel::Circle(c) => {
            assert(back == s);
        },
        ShapeModel::Polygon(p) => {
            assert(back == s);
        },
    }
}

/// Turning a shape by `angle` and then by the opposite of `angle` puts its
/// angle back where it was, and leaves the rest of the shape as it was.
pub proof fn lemma_rotate_round_trip(s: ShapeModel, angle: int)
    ensures
        s.rotated(angle).rotated(-angle) == s,
        s.rotated(angle).rotated(-angle).rotation() == s.rotation(),
{
    match s {
        ShapeModel::Circle(c) => {
            assert(s.rotated(angle).rotated(-angle) == s);
        },
        ShapeModel::Polygon(p) => {
            assert(s.rotated(angle).rotated(-angle) == s);
        },
    }
}

/// Moving and turning change the center and the angle and nothing else:
/// the variant, the radius, the vertices and the color stay.
pub proof fn lemma_motion_keeps_geometry(s: ShapeModel, delta: Point, angle: int)
    ensures
        s.translated(delta).center() == s.center().plus(delta),
        s.translated(delta).rotation() == s.rotation(),
        s.rotated(angle).rotation() == s.rotation() + angle,
        s.rotated(angle).center() == s.center(),
        s is Circle ==> s.translated(delta) is Circle && s.rotated(angle) is Circle
            && s.translated(delta)->Circle_0.radius == s->Circle_0.radius && s.rotated(
            angle,
        )->Circle_0.radius == s->Circle_0.radius,
        s is Polygon ==> s.translated(delta) is Polygon && s.rotated(angle) is Polygon
            && s.translated(delta)->Polygon_0.vertices == s->Polygon_0.vertices && s.rotated(
            angle,
        )->Polygon_0.vertices == s->Polygon_0.vertices,
{
}

} // verus!
