//! The polygon: vertices around a center, turned by an angle.

use vstd::prelude::*;
use vstd::arithmetic::mul::{
    lemma_mul_is_associative,
    lemma_mul_is_commutative,
    lemma_mul_is_distributive_sub,
};
use vstd::math::abs;
use crate::physics::collision::AABB;
use crate::physics::outline::{bounding_box, encloses, shifted, Outline};
use crate::physics::surface::{closest_on_outline, SurfacePoint, QUERY_LIMIT};
use crate::physics::rotor::{lemma_identity_turns_nothing, Rotor, RotorModel};
use crate::physics::shape::{
    Area,
    AreaModel,
    Color,
    Moment,
    MomentModel,
    ShapeError,
    COORD_LIMIT,
    MAX_VERTICES,
};
use crate::utils::vector2::{all_within, points_of, Point, Vector2};

verus! {

/// The index of the vertex that follows vertex `i` in a polygon of `n`
/// vertices: the last one is followed by the first.
pub open spec fn successor(i: int, n: int) -> int {
    if i + 1 >= n {
        0
    } else {
        i + 1
    }
}

/// The shoelace sum over the first `count` edges of the closed polygon
/// `vertices`; edge `i` runs from vertex `i` to its successor.
pub open spec fn shoelace(vertices: Seq<Point>, count: nat) -> int
    decreases count,
{
    if count == 0 {
        0
    } else {
        shoelace(vertices, (count - 1) as nat) + vertices[count - 1].cross(
            vertices[successor(count - 1, vertices.len() as int)],
        )
    }
}

/// What one edge, from `a` to `b`, adds to twelve times the second moment
/// of area about the origin.
pub open spec fn second_moment_term(a: Point, b: Point) -> int {
    a.cross(b) * (a.dot(a) + a.dot(b) + b.dot(b))
}

/// The sum of `second_moment_term` over the first `count` edges of the
/// closed polygon `vertices`.
pub open spec fn second_moment_sum(vertices: Seq<Point>, count: nat) -> int
    decreases count,
{
    if count == 0 {
        0
    } else {
        second_moment_sum(vertices, (count - 1) as nat) + second_moment_term(
            vertices[count - 1],
            vertices[successor(count - 1, vertices.len() as int)],
        )
    }
}

/// A polygon, as contracts see it. `vertices` are relative to `center`, in
/// winding order.
pub struct PolygonModel {
    pub vertices: Seq<Point>,
    pub center: Point,
    pub rotation: int,
    pub color: Color,
}

impl PolygonModel {
    /// Between three and `MAX_VERTICES` vertices, and vertices and center
    /// within `COORD_LIMIT`.
    pub open spec fn valid(self) -> bool {
        &&& 3 <= self.vertices.len() <= MAX_VERTICES
        &&& all_within(self.vertices, COORD_LIMIT as int)
        &&& self.center.within(COORD_LIMIT as int)
        &&& i64::MIN <= self.rotation <= i64::MAX
    }

    /// The same polygon around another center.
    pub open spec fn with_center(self, center: Point) -> PolygonModel {
        PolygonModel {
            vertices: self.vertices,
            center,
            rotation: self.rotation,
            color: self.color,
        }
    }

    /// The polygon moved by `delta`.
    pub open spec fn translated(self, delta: Point) -> PolygonModel {
        self.with_center(self.center.plus(delta))
    }

    /// The same polygon at another angle.
    pub open spec fn with_rotation(self, rotation: int) -> PolygonModel {
        PolygonModel {
            vertices: self.vertices,
            center: self.center,
            rotation,
            color: self.color,
        }
    }

    /// The polygon turned further by `delta`.
    pub open spec fn rotated(self, delta: int) -> PolygonModel {
        self.with_rotation(self.rotation + delta)
    }

    /// The polygon with every vertex multiplied by `ratio`; center, angle
    /// and color are kept.
    pub open spec fn scaled(self, ratio: int) -> PolygonModel {
        PolygonModel {
            vertices: self.vertices.map_values(|p: Point| p.times(ratio)),
            center: self.center,
            rotation: self.rotation,
            color: self.color,
        }
    }

    /// What `scale` returns for the polygon and `ratio`.
    pub open spec fn spec_scale(self, ratio: int) -> Result<PolygonModel, ShapeError> {
        if ratio <= 0 {
            Err(ShapeError::InvalidScale)
        } else if !all_within(self.scaled(ratio).vertices, COORD_LIMIT as int) {
            Err(ShapeError::OutOfRange)
        } else {
            Ok(self.scaled(ratio))
        }
    }

    /// Twice the signed area: positive when the vertices wind from the x
    /// axis towards the y axis.
    pub open spec fn signed_twice_area(self) -> int {
        shoelace(self.vertices, self.vertices.len())
    }

    /// Twice the area, whatever the winding.
    pub open spec fn twice_area(self) -> nat {
        abs(self.signed_twice_area())
    }

    /// Twelve times the second moment of area about the center, at unit
    /// density, whatever the winding.
    pub open spec fn twelve_times_inertia(self) -> nat {
        abs(second_moment_sum(self.vertices, self.vertices.len()))
    }

    /// The area: half the absolute shoelace sum.
    pub open spec fn area(self) -> AreaModel {
        AreaModel { pi_part: 0, halves: self.twice_area() }
    }

    /// The second moment about the center: a twelfth of the absolute sum of
    /// `second_moment_term` over the edges.
    pub open spec fn moment_of_inertia(self) -> MomentModel {
        MomentModel { pi_quarters: 0, twelfths: self.twelve_times_inertia() }
    }

    /// The vertices in world coordinates: each turned by `rotor` about the
    /// center, rounded to the lattice and moved to the center.
    pub open spec fn outline(self, rotor: RotorModel) -> Seq<Point> {
        self.vertices.map_values(|v: Point| self.center.plus(rotor.turned(v)))
    }
}

/// A polygon of at least three vertices.
#[derive(Debug)]
pub struct Polygon {
    local_vertices: Vec<Vector2>,
    center: Vector2,
    rotation: i64,
    color: Color,
}

impl View for Polygon {
    type V = PolygonModel;

    closed spec fn view(&self) -> PolygonModel {
        PolygonModel {
            vertices: points_of(self.local_vertices@),
            center: self.center@,
            rotation: self.rotation as int,
            color: self.color,
        }
    }
}

impl Clone for Polygon {
    fn clone(&self) -> (copy: Polygon)
        ensures
            copy@ == self@,
    {
        proof {
            use_type_invariant(self);
        }
        let n: usize = self.local_vertices.len();
        let mut vertices: Vec<Vector2> = Vec::new();
        let mut i: usize = 0;
        while i < n
            invariant
                i <= n,
                n == self.local_vertices.len(),
                vertices@ == self.local_vertices@.subrange(0, i as int),
            decreases n - i,
        {
            vertices.push(self.local_vertices[i]);
            assert(vertices@ == self.local_vertices@.subrange(0, i + 1));
            i += 1;
        }
        assert(vertices@ == self.local_vertices@);
        Polygon {
            local_vertices: vertices,
            center: self.center,
            rotation: self.rotation,
            color: self.color,
        }
    }
}

impl Polygon {
    /// Every `Polygon` is valid.
    #[verifier::type_invariant]
    pub open spec fn inv(&self) -> bool {
        self@.valid()
    }

    /// What `new` returns for its arguments.
    pub open spec fn spec_new(
        vertices: Seq<Point>,
        center: Point,
        rotation: int,
        color: Color,
    ) -> Result<PolygonModel, ShapeError> {
        if vertices.len() < 3 {
            Err(ShapeError::TooFewVertices)
        } else if vertices.len() > MAX_VERTICES {
            Err(ShapeError::TooManyVertices)
        } else if !center.within(COORD_LIMIT as int) || !all_within(vertices, COORD_LIMIT as int) {
            Err(ShapeError::OutOfRange)
        } else {
            Ok(PolygonModel { vertices, center, rotation, color })
        }
    }

    /// The polygon of the given vertices (relative to `center`, in winding
    /// order), center, angle and color. Refused as `TooFewVertices` or
    /// `TooManyVertices` by the number of vertices, else as `OutOfRange`
    /// when the center or a vertex exceeds `COORD_LIMIT`.
    pub fn new(local_vertices: Vec<Vector2>, center: Vector2, rotation: i64, color: Color) -> (r:
        Result<Polygon, ShapeError>)
        ensures
            r matches Ok(p) ==> Self::spec_new(
                points_of(local_vertices@),
                center@,
                rotation as int,
                color,
            ) == Ok::<PolygonModel, ShapeError>(p@),
            r matches Err(e) ==> Self::spec_new(
                points_of(local_vertices@),
                center@,
                rotation as int,
                color,
            ) == Err::<PolygonModel, ShapeError>(e),
    {
        let n: usize = local_vertices.len();
        if n < 3 {
            return Err(ShapeError::TooFewVertices);
        }
        if n > MAX_VERTICES {
            return Err(ShapeError::TooManyVertices);
        }
        if !center.is_within(COORD_LIMIT) {
            return Err(ShapeError::OutOfRange);
        }
        let ghost points = points_of(local_vertices@);
        let mut i: usize = 0;
        while i < n
            invariant
                i <= n,
                3 <= n <= MAX_VERTICES,
                n == local_vertices.len(),
                center@.within(COORD_LIMIT as int),
                points == points_of(local_vertices@),
                forall|j: int| 0 <= j < i ==> (#[trigger] points[j]).within(COORD_LIMIT as int),
            decreases n - i,
        {
            if !local_vertices[i].is_within(COORD_LIMIT) {
                assert(!points[i as int].within(COORD_LIMIT as int));
                return Err(ShapeError::OutOfRange);
            }
            i += 1;
        }
        Ok(Polygon { local_vertices, center, rotation, color })
    }

    /// The vertices, relative to the center, in winding order.
    pub fn local_vertices(&self) -> (v: &Vec<Vector2>)
        ensures
            points_of(v@) == self@.vertices,
    {
        &self.local_vertices
    }

    /// The center.
    pub fn center(&self) -> (c: Vector2)
        ensures
            c@ == self@.center,
    {
        self.center
    }

    /// The angle by which the vertices are turned about the center.
    pub fn rotation(&self) -> (a: i64)
        ensures
            a == self@.rotation,
    {
        self.rotation
    }

    /// The color.
    pub fn color(&self) -> (c: Color)
        ensures
            c == self@.color,
    {
        self.color
    }

    /// Puts the center at `position`. Refused as `OutOfRange`, with the
    /// polygon unchanged, exactly when `position` exceeds `COORD_LIMIT`.
    pub fn set_center(&mut self, position: Vector2) -> (r: Result<(), ShapeError>)
        ensures
            r is Ok <==> position@.within(COORD_LIMIT as int),
            r is Ok ==> final(self)@ == old(self)@.with_center(position@),
            r matches Err(e) ==> e == ShapeError::OutOfRange && final(self)@ == old(self)@,
    {
        proof {
            use_type_invariant(&*self);
        }
        if position.is_within(COORD_LIMIT) {
            self.center = position;
            Ok(())
        } else {
            Err(ShapeError::OutOfRange)
        }
    }

    /// Moves the center by `delta`. Refused as `OutOfRange`, with the
    /// polygon unchanged, exactly when the new center would exceed
    /// `COORD_LIMIT`.
    pub fn translate(&mut self, delta: Vector2) -> (r: Result<(), ShapeError>)
        ensures
            r is Ok <==> old(self)@.center.plus(delta@).within(COORD_LIMIT as int),
            r is Ok ==> final(self)@ == old(self)@.translated(delta@),
            r matches Err(e) ==> e == ShapeError::OutOfRange && final(self)@ == old(self)@,
    {
        proof {
            use_type_invariant(&*self);
        }
        match self.center.add(delta) {
            Some(moved) => self.set_center(moved),
            None => Err(ShapeError::OutOfRange),
        }
    }

    /// Sets the angle. Every angle is accepted, and none is reduced to a
    /// canonical range.
    pub fn set_rotation(&mut self, rotation: i64)
        ensures
            final(self)@ == old(self)@.with_rotation(rotation as int),
    {
        proof {
            use_type_invariant(&*self);
        }
        self.rotation = rotation;
    }

    /// Adds `delta` to the angle. Refused as `OutOfRange`, with the polygon
    /// unchanged, exactly when the sum does not fit in an `i64`.
    pub fn rotate(&mut self, delta: i64) -> (r: Result<(), ShapeError>)
        ensures
            r is Ok <==> i64::MIN <= old(self)@.rotation + delta <= i64::MAX,
            r is Ok ==> final(self)@ == old(self)@.rotated(delta as int),
            r matches Err(e) ==> e == ShapeError::OutOfRange && final(self)@ == old(self)@,
    {
        proof {
            use_type_invariant(&*self);
        }
        match self.rotation.checked_add(delta) {
            Some(turned) => {
                self.rotation = turned;
                Ok(())
            },
            None => Err(ShapeError::OutOfRange),
        }
    }

    /// A new polygon with every vertex multiplied by `ratio`, and the same
    /// center, angle and color. Refused as `InvalidScale` when `ratio` is
    /// not positive, else as `OutOfRange` when a scaled vertex would exceed
    /// `COORD_LIMIT`.
    pub fn scale(&self, ratio: i64) -> (r: Result<Polygon, ShapeError>)
        ensures
            r matches Ok(p) ==> self@.spec_scale(ratio as int) == Ok::<PolygonModel, ShapeError>(
                p@,
            ),
            r matches Err(e) ==> self@.spec_scale(ratio as int) == Err::<
                PolygonModel,
                ShapeError,
            >(e),
    {
        proof {
            use_type_invariant(self);
        }
        if ratio <= 0 {
            return Err(ShapeError::InvalidScale);
        }
        let n: usize = self.local_vertices.len();
        let ghost points = self@.vertices;
        let ghost target = self@.scaled(ratio as int).vertices;
        let mut vertices: Vec<Vector2> = Vec::new();
        let mut i: usize = 0;
        while i < n
            invariant
                i <= n,
                ratio > 0,
                3 <= n <= MAX_VERTICES,
                n == self.local_vertices.len(),
                points == points_of(self.local_vertices@),
                all_within(points, COORD_LIMIT as int),
                target == points.map_values(|p: Point| p.times(ratio as int)),
                vertices.len() == i,
                forall|j: int| 0 <= j < i ==> (#[trigger] vertices[j])@ == target[j],
                forall|j: int| 0 <= j < i ==> (#[trigger] target[j]).within(COORD_LIMIT as int),
            decreases n - i,
        {
            let v: Vector2 = self.local_vertices[i];
            assert(points[i as int].within(COORD_LIMIT as int));
            let k: i128 = ratio as i128;
            let vx: i128 = v.x as i128;
            let vy: i128 = v.y as i128;
            assert(-0x80_0000_0000_0000_0000_0000 <= vx * k <= 0x80_0000_0000_0000_0000_0000
                && -0x80_0000_0000_0000_0000_0000 <= vy * k <= 0x80_0000_0000_0000_0000_0000)
                by (nonlinear_arith)
                requires
                    -0x100_0000 <= vx <= 0x100_0000,
                    -0x100_0000 <= vy <= 0x100_0000,
                    0 < k <= 0x7fff_ffff_ffff_ffff,
            ;
            let x: i128 = vx * k;
            let y: i128 = vy * k;
            let limit: i128 = COORD_LIMIT as i128;
            if x < -limit || x > limit || y < -limit || y > limit {
                assert(!target[i as int].within(COORD_LIMIT as int));
                return Err(ShapeError::OutOfRange);
            }
            vertices.push(Vector2 { x: x as i64, y: y as i64 });
            i += 1;
        }
        assert(points_of(vertices@) =~= target);
        Ok(
            Polygon {
                local_vertices: vertices,
                center: self.center,
                rotation: self.rotation,
                color: self.color,
            },
        )
    }

    /// The second moment of area about the center at unit density, in
    /// exact form: a twelfth of the edge-by-edge sum of
    /// `second_moment_term`, the closing edge included, taken positive.
    /// Neither the center nor the angle enters it.
    pub fn moment_of_inertia(&self) -> (m: Moment)
        ensures
            m@ == self@.moment_of_inertia(),
            m.pi_quarters == 0,
            m.twelfths == self@.twelve_times_inertia(),
    {
        proof {
            use_type_invariant(self);
        }
        let n: usize = self.local_vertices.len();
        let ghost points = self@.vertices;
        let mut sum: i128 = 0;
        let mut i: usize = 0;
        while i < n
            invariant
                i <= n,
                3 <= n <= MAX_VERTICES,
                n == self.local_vertices.len(),
                points == points_of(self.local_vertices@),
                all_within(points, COORD_LIMIT as int),
                sum == second_moment_sum(points, i as nat),
                -(i * 0xC_0000_0000_0000_0000_0000_0000) <= sum <= i
                    * 0xC_0000_0000_0000_0000_0000_0000,
            decreases n - i,
        {
            let a: Vector2 = self.local_vertices[i];
            let j: usize = if i + 1 >= n { 0 } else { i + 1 };
            let b: Vector2 = self.local_vertices[j];
            assert(points[i as int].within(COORD_LIMIT as int));
            assert(points[j as int].within(COORD_LIMIT as int));
            assert(j == successor(i as int, points.len() as int));
            let term: i128 = edge_second_moment(a, b);
            sum = sum + term;
            i += 1;
        }
        let twelfths: u128 = if sum < 0 {
            (-sum) as u128
        } else {
            sum as u128
        };
        Moment { pi_quarters: 0, twelfths }
    }

    /// The world-space vertices of the polygon for the direction `rotor`
    /// of its angle: each vertex turned about the center, rounded to the
    /// lattice, and moved to the center.
    pub fn outline(&self, rotor: &Rotor) -> (o: Outline)
        ensures
            o@ == self@.outline(rotor@),
    {
        proof {
            use_type_invariant(self);
        }
        let n: usize = self.local_vertices.len();
        let ghost points = self@.vertices;
        let ghost target = self@.outline(rotor@);
        let mut vertices: Vec<Vector2> = Vec::new();
        let mut i: usize = 0;
        while i < n
            invariant
                i <= n,
                3 <= n <= MAX_VERTICES,
                n == self.local_vertices.len(),
                self.center@.within(COORD_LIMIT as int),
                points == points_of(self.local_vertices@),
                all_within(points, COORD_LIMIT as int),
                target == points.map_values(|v: Point| self.center@.plus(rotor@.turned(v))),
                vertices.len() == i,
                forall|j: int| 0 <= j < i ==> (#[trigger] vertices[j])@ == target[j],
                forall|j: int|
                    0 <= j < i ==> (#[trigger] vertices[j])@.within(4 * COORD_LIMIT as int),
            decreases n - i,
        {
            assert(points[i as int].within(COORD_LIMIT as int));
            let turned: Vector2 = rotor.turn(self.local_vertices[i]);
            vertices.push(Vector2 { x: self.center.x + turned.x, y: self.center.y + turned.y });
            i += 1;
        }
        assert(points_of(vertices@) =~= target);
        Outline::from_valid(vertices)
    }

    /// The bounding box of the polygon for the direction `rotor` of its
    /// angle: the least and greatest world-space vertex coordinates.
    pub fn get_aabb(&self, rotor: &Rotor) -> (b: AABB)
        ensures
            b@ == bounding_box(self@.outline(rotor@)),
            b@.well_formed(),
    {
        self.outline(rotor).get_aabb()
    }

    /// Whether `point` lies in the polygon, for the direction `rotor` of
    /// its angle, by the even-odd rule.
    pub fn contains_point(&self, rotor: &Rotor, point: Vector2) -> (inside: bool)
        ensures
            inside == encloses(self@.outline(rotor@), point@),
    {
        self.outline(rotor).contains_point(point)
    }

    /// The point of the polygon's edges nearest to `point`, and the outward
    /// normal there, in exact form, for the direction `rotor` of the
    /// polygon's angle. Refused as `OutOfRange` exactly when `point`
    /// exceeds `QUERY_LIMIT`.
    pub fn find_closest_surface_point(&self, rotor: &Rotor, point: Vector2) -> (r: Result<
        SurfacePoint,
        ShapeError,
    >)
        ensures
            r is Ok <==> point@.within(QUERY_LIMIT as int),
            r matches Ok(hit) ==> closest_on_outline(self@.outline(rotor@), point@, hit),
            r matches Err(e) ==> e == ShapeError::OutOfRange,
    {
        self.outline(rotor).find_closest_surface_point(point)
    }

    /// The area enclosed by the vertices, in exact form: half the shoelace
    /// sum, taken positive. Neither the center nor the angle enters it.
    pub fn area(&self) -> (a: Area)
        ensures
            a@ == self@.area(),
            a.pi_part == 0,
            a.halves == self@.twice_area(),
    {
        proof {
            use_type_invariant(self);
        }
        let n: usize = self.local_vertices.len();
        let ghost points = self@.vertices;
        let mut sum: i128 = 0;
        let mut i: usize = 0;
        while i < n
            invariant
                i <= n,
                3 <= n <= MAX_VERTICES,
                n == self.local_vertices.len(),
                points == points_of(self.local_vertices@),
                all_within(points, COORD_LIMIT as int),
                sum == shoelace(points, i as nat),
                -(i * 0x2_0000_0000_0000) <= sum <= i * 0x2_0000_0000_0000,
            decreases n - i,
        {
            let a: Vector2 = self.local_vertices[i];
            let j: usize = if i + 1 >= n { 0 } else { i + 1 };
            let b: Vector2 = self.local_vertices[j];
            assert(points[i as int].within(COORD_LIMIT as int));
            assert(points[j as int].within(COORD_LIMIT as int));
            assert(j == successor(i as int, points.len() as int));
            let term: i128 = edge_cross(a, b);
            sum = sum + term;
            i += 1;
        }
        let halves: u128 = if sum < 0 {
            (-sum) as u128
        } else {
            sum as u128
        };
        Area { pi_part: 0, halves }
    }
}

/// Rigid motions preserve area: neither moving a polygon nor turning it
/// changes its area or its second moment about its center.
pub proof fn lemma_area_unchanged_by_motion(p: PolygonModel, delta: Point, angle: int)
    ensures
        p.translated(delta).twice_area() == p.twice_area(),
        p.rotated(angle).twice_area() == p.twice_area(),
        p.translated(delta).twelve_times_inertia() == p.twelve_times_inertia(),
        p.rotated(angle).twelve_times_inertia() == p.twelve_times_inertia(),
{
}

/// Scaling a polygon by `ratio` multiplies its area by the square of
/// `ratio`.
pub proof fn lemma_area_scales_by_square(p: PolygonModel, ratio: int)
    ensures
        p.scaled(ratio).signed_twice_area() == ratio * ratio * p.signed_twice_area(),
        p.scaled(ratio).twice_area() == ratio * ratio * p.twice_area(),
{
    lemma_shoelace_scales(p.vertices, ratio, p.vertices.len());
    let s = p.signed_twice_area();
    let k2 = ratio * ratio;
    assert(k2 >= 0) by (nonlinear_arith)
        requires
            k2 == ratio * ratio,
    ;
    assert(abs(k2 * s) == k2 * abs(s)) by (nonlinear_arith)
        requires
            k2 >= 0,
    ;
}

/// The shoelace sum of a closed polygon does not change when every vertex
/// is moved by `delta`: the area of a polygon is the same wherever it lies.
pub proof fn lemma_shoelace_follows_translation(vertices: Seq<Point>, delta: Point)
    ensures
        shoelace(shifted(vertices, delta), vertices.len()) == shoelace(vertices, vertices.len()),
{
    let n = vertices.len();
    if n > 0 {
        let moved = shifted(vertices, delta);
        let last = (n - 1) as nat;
        lemma_shoelace_prefix_follows_translation(vertices, delta, last);
        let a = vertices[n - 1];
        let b = vertices[0];
        assert(successor(n - 1, n as int) == 0);
        assert(moved[n - 1] == a.plus(delta));
        assert(moved[0] == b.plus(delta));
        lemma_cross_of_moved(a, b, delta);
        // The chain closes: what the open chain gained, the last edge takes back.
        assert((delta.x * (a.y - b.y) - (a.x - b.x) * delta.y) + (delta.x * (b.y - a.y) - (b.x
            - a.x) * delta.y) == 0) by (nonlinear_arith);
    }
}

/// Along the first `count` edges of an open chain, moving every vertex by
/// `delta` adds `delta × (vertex count − vertex 0)` to the shoelace sum.
proof fn lemma_shoelace_prefix_follows_translation(
    vertices: Seq<Point>,
    delta: Point,
    count: nat,
)
    requires
        count < vertices.len(),
    ensures
        shoelace(shifted(vertices, delta), count) == shoelace(vertices, count) + delta.cross(
            vertices[count as int].minus(vertices[0]),
        ),
    decreases count,
{
    if count > 0 {
        lemma_shoelace_prefix_follows_translation(vertices, delta, (count - 1) as nat);
        let moved = shifted(vertices, delta);
        let a = vertices[count - 1];
        let b = vertices[count as int];
        assert(successor(count - 1, vertices.len() as int) == count);
        assert(moved[count - 1] == a.plus(delta));
        assert(moved[count as int] == b.plus(delta));
        lemma_cross_of_moved(a, b, delta);
        lemma_cross_is_additive(delta, a.minus(vertices[0]), b.minus(a));
    }
}

/// `(a + d) × (b + d) = a × b + d × (b − a)`.
proof fn lemma_cross_of_moved(a: Point, b: Point, d: Point)
    ensures
        a.plus(d).cross(b.plus(d)) == a.cross(b) + d.cross(b.minus(a)),
{
    assert((a.x + d.x) * (b.y + d.y) - (b.x + d.x) * (a.y + d.y) == (a.x * b.y - b.x * a.y) + (d.x
        * (b.y - a.y) - (b.x - a.x) * d.y)) by (nonlinear_arith);
}

/// `d × (u + w) = d × u + d × w`.
proof fn lemma_cross_is_additive(d: Point, u: Point, w: Point)
    ensures
        d.cross(u.plus(w)) == d.cross(u) + d.cross(w),
{
    assert(d.x * (u.y + w.y) - (u.x + w.x) * d.y == (d.x * u.y - u.x * d.y) + (d.x * w.y - w.x
        * d.y)) by (nonlinear_arith);
}

/// Scaling a polygon by `ratio` multiplies its second moment about its
/// center by the fourth power of `ratio`.
pub proof fn lemma_inertia_scales_by_fourth_power(p: PolygonModel, ratio: int)
    ensures
        p.scaled(ratio).twelve_times_inertia() == (ratio * ratio) * (ratio * ratio)
            * p.twelve_times_inertia(),
{
    lemma_second_moment_scales(p.vertices, ratio, p.vertices.len());
    let s = second_moment_sum(p.vertices, p.vertices.len());
    let k4 = (ratio * ratio) * (ratio * ratio);
    assert(k4 >= 0) by (nonlinear_arith)
        requires
            k4 == (ratio * ratio) * (ratio * ratio),
    ;
    assert(abs(k4 * s) == k4 * abs(s)) by (nonlinear_arith)
        requires
            k4 >= 0,
    ;
}

/// With the angle zero, the world-space vertices are the vertices moved to
/// the center.
pub proof fn lemma_outline_at_rest(p: PolygonModel)
    ensures
        p.outline(RotorModel::identity()) == shifted(p.vertices, p.center),
{
    let at_rest = p.outline(RotorModel::identity());
    let moved = shifted(p.vertices, p.center);
    assert forall|i: int| 0 <= i < p.vertices.len() implies at_rest[i] == moved[i] by {
        lemma_identity_turns_nothing(p.vertices[i]);
        assert(p.center.plus(p.vertices[i]) == p.vertices[i].plus(p.center));
    }
    assert(at_rest =~= moved);
}

/// The second-moment sum of the scaled vertices is the fourth power of the
/// ratio times that of the vertices, edge by edge.
proof fn lemma_second_moment_scales(vertices: Seq<Point>, ratio: int, count: nat)
    requires
        count <= vertices.len(),
    ensures
        second_moment_sum(vertices.map_values(|p: Point| p.times(ratio)), count) == (ratio * ratio)
            * (ratio * ratio) * second_moment_sum(vertices, count),
    decreases count,
{
    let scaled = vertices.map_values(|p: Point| p.times(ratio));
    let k2 = ratio * ratio;
    let k4 = k2 * k2;
    if count == 0 {
        assert(k4 * 0 == 0);
    } else {
        lemma_second_moment_scales(vertices, ratio, (count - 1) as nat);
        let a = vertices[count - 1];
        let b = vertices[successor(count - 1, vertices.len() as int)];
        assert(scaled[count - 1] == a.times(ratio));
        assert(scaled[successor(count - 1, scaled.len() as int)] == b.times(ratio));
        let before = second_moment_sum(vertices, (count - 1) as nat);
        let ka = a.times(ratio);
        let kb = b.times(ratio);
        lemma_cross_scales(a.x, a.y, b.x, b.y, ratio);
        lemma_dot_scales(a, a, ratio);
        lemma_dot_scales(a, b, ratio);
        lemma_dot_scales(b, b, ratio);
        let cross = a.cross(b);
        let spread = a.dot(a) + a.dot(b) + b.dot(b);
        assert(ka.cross(kb) == k2 * cross);
        assert(ka.dot(ka) + ka.dot(kb) + kb.dot(kb) == k2 * spread) by (nonlinear_arith)
            requires
                ka.dot(ka) == k2 * a.dot(a),
                ka.dot(kb) == k2 * a.dot(b),
                kb.dot(kb) == k2 * b.dot(b),
                spread == a.dot(a) + a.dot(b) + b.dot(b),
        ;
        lemma_product_scales(cross, spread, k2);
        assert((k2 * cross) * (k2 * spread) == (cross * k2) * (spread * k2)) by (nonlinear_arith);
        assert(second_moment_term(ka, kb) == k4 * second_moment_term(a, b));
        assert(k4 * before + k4 * second_moment_term(a, b) == k4 * (before + second_moment_term(
            a,
            b,
        ))) by (nonlinear_arith);
    }
}

/// The scalar product of two vectors scaled by `k` is `k * k` times their
/// scalar product.
proof fn lemma_dot_scales(a: Point, b: Point, k: int)
    ensures
        a.times(k).dot(b.times(k)) == (k * k) * a.dot(b),
{
    lemma_product_scales(a.x, b.x, k);
    lemma_product_scales(a.y, b.y, k);
    assert((k * k) * (a.x * b.x) + (k * k) * (a.y * b.y) == (k * k) * (a.x * b.x + a.y * b.y))
        by (nonlinear_arith);
}

/// The shoelace sum of the scaled vertices is the square of the ratio
/// times the shoelace sum of the vertices, edge by edge.
proof fn lemma_shoelace_scales(vertices: Seq<Point>, ratio: int, count: nat)
    requires
        count <= vertices.len(),
    ensures
        shoelace(vertices.map_values(|p: Point| p.times(ratio)), count) == ratio * ratio
            * shoelace(vertices, count),
    decreases count,
{
    let scaled = vertices.map_values(|p: Point| p.times(ratio));
    if count == 0 {
        assert(ratio * ratio * 0 == 0);
    } else {
        lemma_shoelace_scales(vertices, ratio, (count - 1) as nat);
        let a = vertices[count - 1];
        let b = vertices[successor(count - 1, vertices.len() as int)];
        assert(scaled[count - 1] == a.times(ratio));
        assert(scaled[successor(count - 1, scaled.len() as int)] == b.times(ratio));
        let before = shoelace(vertices, (count - 1) as nat);
        lemma_cross_scales(a.x, a.y, b.x, b.y, ratio);
        assert(ratio * ratio * before + ratio * ratio * a.cross(b) == ratio * ratio * (before
            + a.cross(b))) by (nonlinear_arith);
    }
}

/// The cross product of two vectors scaled by `k` is `k * k` times their
/// cross product.
proof fn lemma_cross_scales(ax: int, ay: int, bx: int, by: int, k: int)
    ensures
        (ax * k) * (by * k) - (bx * k) * (ay * k) == k * k * (ax * by - bx * ay),
{
    lemma_product_scales(ax, by, k);
    lemma_product_scales(bx, ay, k);
    lemma_mul_is_distributive_sub(k * k, ax * by, bx * ay);
}

/// The product of two numbers scaled by `k` is `k * k` times their product.
proof fn lemma_product_scales(x: int, y: int, k: int)
    ensures
        (x * k) * (y * k) == (k * k) * (x * y),
{
    lemma_mul_is_associative(x, k, y * k);
    lemma_mul_is_commutative(y, k);
    lemma_mul_is_associative(k, k, y);
    lemma_mul_is_commutative(x, (k * k) * y);
    lemma_mul_is_associative(k * k, y, x);
    lemma_mul_is_commutative(y, x);
}

/// A polygon that `scale` accepts has every vertex multiplied by the
/// ratio, keeps center, angle and color, and is valid.
pub proof fn lemma_scale_keeps_placement(p: PolygonModel, ratio: int)
    requires
        p.valid(),
        p.spec_scale(ratio) is Ok,
    ensures
        p.spec_scale(ratio)->Ok_0.valid(),
        p.spec_scale(ratio)->Ok_0.vertices.len() == p.vertices.len(),
        forall|i: int|
            0 <= i < p.vertices.len() ==> #[trigger] p.spec_scale(ratio)->Ok_0.vertices[i]
                == p.vertices[i].times(ratio),
        p.spec_scale(ratio)->Ok_0.center == p.center,
        p.spec_scale(ratio)->Ok_0.rotation == p.rotation,
        p.spec_scale(ratio)->Ok_0.color == p.color,
{
}

/// The cross product of two vectors within `COORD_LIMIT`.
fn edge_cross(a: Vector2, b: Vector2) -> (c: i128)
    requires
        a@.within(COORD_LIMIT as int),
        b@.within(COORD_LIMIT as int),
    ensures
        c == a@.cross(b@),
        -0x2_0000_0000_0000 <= c <= 0x2_0000_0000_0000,
{
    let ax: i128 = a.x as i128;
    let ay: i128 = a.y as i128;
    let bx: i128 = b.x as i128;
    let by: i128 = b.y as i128;
    assert(-0x1_0000_0000_0000 <= ax * by <= 0x1_0000_0000_0000 && -0x1_0000_0000_0000 <= bx * ay
        <= 0x1_0000_0000_0000) by (nonlinear_arith)
        requires
            -0x100_0000 <= ax <= 0x100_0000,
            -0x100_0000 <= ay <= 0x100_0000,
            -0x100_0000 <= bx <= 0x100_0000,
            -0x100_0000 <= by <= 0x100_0000,
    ;
    ax * by - bx * ay
}

/// The second-moment term of the edge between two vectors within
/// `COORD_LIMIT`.
fn edge_second_moment(a: Vector2, b: Vector2) -> (t: i128)
    requires
        a@.within(COORD_LIMIT as int),
        b@.within(COORD_LIMIT as int),
    ensures
        t == second_moment_term(a@, b@),
        -0xC_0000_0000_0000_0000_0000_0000 <= t <= 0xC_0000_0000_0000_0000_0000_0000,
{
    let ax: i128 = a.x as i128;
    let ay: i128 = a.y as i128;
    let bx: i128 = b.x as i128;
    let by: i128 = b.y as i128;
    assert(0 <= ax * ax <= 0x1_0000_0000_0000 && 0 <= ay * ay <= 0x1_0000_0000_0000 && 0 <= bx
        * bx <= 0x1_0000_0000_0000 && 0 <= by * by <= 0x1_0000_0000_0000 && -0x1_0000_0000_0000
        <= ax * bx <= 0x1_0000_0000_0000 && -0x1_0000_0000_0000 <= ay * by
        <= 0x1_0000_0000_0000) by (nonlinear_arith)
        requires
            -0x100_0000 <= ax <= 0x100_0000,
            -0x100_0000 <= ay <= 0x100_0000,
            -0x100_0000 <= bx <= 0x100_0000,
            -0x100_0000 <= by <= 0x100_0000,
    ;
    let cross: i128 = edge_cross(a, b);
    let spread: i128 = (ax * ax + ay * ay) + (ax * bx + ay * by) + (bx * bx + by * by);
    assert(-0xC_0000_0000_0000_0000_0000_0000 <= cross * spread
        <= 0xC_0000_0000_0000_0000_0000_0000) by (nonlinear_arith)
        requires
            -0x2_0000_0000_0000 <= cross <= 0x2_0000_0000_0000,
            -0x6_0000_0000_0000 <= spread <= 0x6_0000_0000_0000,
    ;
    cross * spread
}

} // verus!
