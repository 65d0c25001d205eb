//! A polygon placed in the world: point containment, bounding box and
//! nearest surface point over its world-space vertices.

use vstd::prelude::*;
use crate::physics::collision::{Rect, AABB};
use crate::physics::polygon::{shoelace, successor};
use crate::physics::shape::{ShapeError, MAX_VERTICES};
use crate::physics::surface::{
    closest_on_outline,
    edge_distance,
    lemma_segment_distance_is_a_fraction,
    projection,
    segment_distance,
    surface_normal,
    SurfacePoint,
    QUERY_LIMIT,
};
use crate::utils::fraction::{fraction_less, lemma_order_is_transitive, Fraction};
use crate::utils::vector2::{all_within, points_of, Point, Vector2};

verus! {

/// The largest magnitude of a world-space vertex coordinate: four times
/// `COORD_LIMIT`, so that a valid polygon fits at every angle.
pub const OUTLINE_LIMIT: i64 = 67_108_864;

/// The x coordinates of `vertices`, in order.
pub open spec fn xs(vertices: Seq<Point>) -> Seq<int> {
    vertices.map_values(|p: Point| p.x)
}

/// The y coordinates of `vertices`, in order.
pub open spec fn ys(vertices: Seq<Point>) -> Seq<int> {
    vertices.map_values(|p: Point| p.y)
}

/// The smallest rectangle that holds every vertex: the least and greatest
/// coordinate on each axis.
pub open spec fn bounding_box(vertices: Seq<Point>) -> Rect {
    Rect {
        top_left: Point { x: xs(vertices).min(), y: ys(vertices).min() },
        bottom_right: Point { x: xs(vertices).max(), y: ys(vertices).max() },
    }
}

/// `vertices` moved by `delta`.
pub open spec fn shifted(vertices: Seq<Point>, delta: Point) -> Seq<Point> {
    vertices.map_values(|p: Point| p.plus(delta))
}

/// The half-line from `p` in the direction of growing x crosses the edge
/// from `a` to `b`. An edge holds its lower end and not its upper end, and
/// a horizontal edge is never crossed.
pub open spec fn ray_crosses(a: Point, b: Point, p: Point) -> bool {
    if a.y <= p.y < b.y {
        b.minus(a).cross(p.minus(a)) > 0
    } else if b.y <= p.y < a.y {
        b.minus(a).cross(p.minus(a)) < 0
    } else {
        false
    }
}

/// How many of the first `count` edges of the closed polygon `vertices`
/// the half-line from `p` crosses.
pub open spec fn crossings(vertices: Seq<Point>, p: Point, count: nat) -> nat
    decreases count,
{
    if count == 0 {
        0
    } else {
        let before = crossings(vertices, p, (count - 1) as nat);
        if ray_crosses(
            vertices[count - 1],
            vertices[successor(count - 1, vertices.len() as int)],
            p,
        ) {
            before + 1
        } else {
            before
        }
    }
}

/// The even-odd rule: `p` is inside when the half-line from it crosses the
/// polygon an odd number of times.
pub open spec fn encloses(vertices: Seq<Point>, p: Point) -> bool {
    crossings(vertices, p, vertices.len()) % 2 == 1
}

/// Between three and `MAX_VERTICES` vertices, all within `OUTLINE_LIMIT`.
pub open spec fn valid_outline(vertices: Seq<Point>) -> bool {
    &&& 3 <= vertices.len() <= MAX_VERTICES
    &&& all_within(vertices, OUTLINE_LIMIT as int)
}

/// What `Outline::new` returns for `vertices`.
pub open spec fn spec_outline(vertices: Seq<Point>) -> Result<Seq<Point>, ShapeError> {
    if vertices.len() < 3 {
        Err(ShapeError::TooFewVertices)
    } else if vertices.len() > MAX_VERTICES {
        Err(ShapeError::TooManyVertices)
    } else if !all_within(vertices, OUTLINE_LIMIT as int) {
        Err(ShapeError::OutOfRange)
    } else {
        Ok(vertices)
    }
}

/// The vertices of a polygon in world coordinates, in winding order.
#[derive(Debug)]
pub struct Outline {
    vertices: Vec<Vector2>,
}

impl View for Outline {
    type V = Seq<Point>;

    closed spec fn view(&self) -> Seq<Point> {
        points_of(self.vertices@)
    }
}

impl Outline {
    /// Every `Outline` is valid.
    #[verifier::type_invariant]
    pub open spec fn inv(&self) -> bool {
        valid_outline(self@)
    }

    /// The outline with the given world-space vertices. Refused as
    /// `TooFewVertices` or `TooManyVertices` by their number, else as
    /// `OutOfRange` when one exceeds `OUTLINE_LIMIT`.
    pub fn new(vertices: Vec<Vector2>) -> (r: Result<Outline, ShapeError>)
        ensures
            r matches Ok(o) ==> spec_outline(points_of(vertices@)) == Ok::<
                Seq<Point>,
                ShapeError,
            >(o@),
            r matches Err(e) ==> spec_outline(points_of(vertices@)) == Err::<
                Seq<Point>,
                ShapeError,
            >(e),
    {
        let n: usize = vertices.len();
        if n < 3 {
            return Err(ShapeError::TooFewVertices);
        }
        if n > MAX_VERTICES {
            return Err(ShapeError::TooManyVertices);
        }
        let ghost points = points_of(vertices@);
        let mut i: usize = 0;
        while i < n
            invariant
                i <= n,
                3 <= n <= MAX_VERTICES,
                n == vertices.len(),
                points == points_of(vertices@),
                forall|j: int| 0 <= j < i ==> (#[trigger] points[j]).within(OUTLINE_LIMIT as int),
            decreases n - i,
        {
            if !vertices[i].is_within(OUTLINE_LIMIT) {
                assert(!points[i as int].within(OUTLINE_LIMIT as int));
                return Err(ShapeError::OutOfRange);
            }
            i += 1;
        }
        Ok(Outline { vertices })
    }

    /// The outline of vertices that are known to be valid.
    pub(crate) fn from_valid(vertices: Vec<Vector2>) -> (o: Outline)
        requires
            valid_outline(points_of(vertices@)),
        ensures
            o@ == points_of(vertices@),
    {
        Outline { vertices }
    }

    /// The world-space vertices, in winding order.
    pub fn vertices(&self) -> (v: &Vec<Vector2>)
        ensures
            points_of(v@) == self@,
    {
        &self.vertices
    }

    /// Whether `point` is inside the polygon, by the even-odd rule.
    pub fn contains_point(&self, point: Vector2) -> (inside: bool)
        ensures
            inside == encloses(self@, point@),
    {
        proof {
            use_type_invariant(self);
        }
        let n: usize = self.vertices.len();
        let ghost points = self@;
        let mut inside: bool = false;
        let mut i: usize = 0;
        while i < n
            invariant
                i <= n,
                3 <= n <= MAX_VERTICES,
                n == self.vertices.len(),
                points == points_of(self.vertices@),
                all_within(points, OUTLINE_LIMIT as int),
                inside == (crossings(points, point@, i as nat) % 2 == 1),
            decreases n - i,
        {
            let a: Vector2 = self.vertices[i];
            let j: usize = if i + 1 >= n { 0 } else { i + 1 };
            let b: Vector2 = self.vertices[j];
            assert(points[i as int].within(OUTLINE_LIMIT as int));
            assert(points[j as int].within(OUTLINE_LIMIT as int));
            assert(j == successor(i as int, points.len() as int));
            if edge_crossed(a, b, point) {
                inside = !inside;
            }
            i += 1;
        }
        inside
    }

    /// The point of the polygon's edges nearest to `point`, and the outward
    /// normal there, in exact form: the first of the nearest edges, how far
    /// along that edge the foot of the perpendicular from `point` lies
    /// (kept between the ends of the edge), and the outward perpendicular of
    /// that edge. Refused as `OutOfRange` exactly when `point` exceeds
    /// `QUERY_LIMIT`.
    pub fn find_closest_surface_point(&self, point: Vector2) -> (r: Result<SurfacePoint, ShapeError>)
        ensures
            r is Ok <==> point@.within(QUERY_LIMIT as int),
            r matches Ok(hit) ==> closest_on_outline(self@, point@, hit),
            r matches Err(e) ==> e == ShapeError::OutOfRange,
    {
        proof {
            use_type_invariant(self);
        }
        if !point.is_within(QUERY_LIMIT) {
            return Err(ShapeError::OutOfRange);
        }
        let n: usize = self.vertices.len();
        let ghost points = self@;
        assert(points[0].within(OUTLINE_LIMIT as int));
        assert(points[1].within(OUTLINE_LIMIT as int));
        let mut best: usize = 0;
        let mut nearest: EdgeMeasure = measure_edge(self.vertices[0], self.vertices[1], point);
        let mut i: usize = 1;
        while i < n
            invariant
                1 <= i <= n,
                3 <= n <= MAX_VERTICES,
                n == self.vertices.len(),
                points == points_of(self.vertices@),
                all_within(points, OUTLINE_LIMIT as int),
                point@.within(QUERY_LIMIT as int),
                best < i,
                nearest.describes(points[best as int], points[successor(best as int, n as int)], point@),
                forall|j: int|
                    0 <= j < i ==> !(#[trigger] edge_distance(points, j, point@)).less_than(
                        edge_distance(points, best as int, point@),
                    ),
                forall|j: int|
                    0 <= j < best ==> edge_distance(points, best as int, point@).less_than(
                        #[trigger] edge_distance(points, j, point@),
                    ),
            decreases n - i,
        {
            let a: Vector2 = self.vertices[i];
            let next: usize = if i + 1 >= n { 0 } else { i + 1 };
            let b: Vector2 = self.vertices[next];
            assert(points[i as int].within(OUTLINE_LIMIT as int));
            assert(points[next as int].within(OUTLINE_LIMIT as int));
            assert(next == successor(i as int, points.len() as int));
            let here: EdgeMeasure = measure_edge(a, b, point);
            if fraction_less(
                here.gap_numerator,
                here.gap_denominator,
                nearest.gap_numerator,
                nearest.gap_denominator,
            ) {
                proof {
                    let new = edge_distance(points, i as int, point@);
                    let old = edge_distance(points, best as int, point@);
                    assert forall|j: int| 0 <= j < i implies new.less_than(
                        #[trigger] edge_distance(points, j, point@),
                    ) by {
                        let other = edge_distance(points, j, point@);
                        lemma_segment_distance_is_a_fraction(
                            points[j],
                            points[successor(j, n as int)],
                            point@,
                        );
                        lemma_order_is_transitive(new, old, other);
                    }
                }
                best = i;
                nearest = here;
            }
            i += 1;
        }
        let a: Vector2 = self.vertices[best];
        let next: usize = if best + 1 >= n { 0 } else { best + 1 };
        let b: Vector2 = self.vertices[next];
        assert(points[best as int].within(OUTLINE_LIMIT as int));
        assert(points[next as int].within(OUTLINE_LIMIT as int));
        let normal: Vector2 = if a.x != b.x || a.y != b.y {
            let winding: i128 = signed_shoelace(&self.vertices);
            if winding >= 0 {
                Vector2 { x: b.y - a.y, y: a.x - b.x }
            } else {
                Vector2 { x: a.y - b.y, y: b.x - a.x }
            }
        } else if point.x != a.x || point.y != a.y {
            Vector2 { x: point.x - a.x, y: point.y - a.y }
        } else {
            Vector2 { x: 1, y: 0 }
        };
        Ok(
            SurfacePoint::Edge {
                edge: best,
                numerator: nearest.share_numerator,
                denominator: nearest.share_denominator,
                normal,
            },
        )
    }

    /// The bounding box: the least and greatest vertex coordinate on each
    /// axis.
    pub fn get_aabb(&self) -> (b: AABB)
        ensures
            b@ == bounding_box(self@),
            b@.well_formed(),
    {
        proof {
            use_type_invariant(self);
        }
        let n: usize = self.vertices.len();
        let ghost points = self@;
        let first: Vector2 = self.vertices[0];
        assert(points[0] == first@);
        let mut low_x: i64 = first.x;
        let mut high_x: i64 = first.x;
        let mut low_y: i64 = first.y;
        let mut high_y: i64 = first.y;
        let mut i: usize = 1;
        while i < n
            invariant
                1 <= i <= n,
                n == self.vertices.len(),
                points == points_of(self.vertices@),
                forall|j: int| 0 <= j < i ==> low_x <= (#[trigger] points[j]).x <= high_x,
                forall|j: int| 0 <= j < i ==> low_y <= (#[trigger] points[j]).y <= high_y,
                exists|j: int| 0 <= j < i && (#[trigger] points[j]).x == low_x,
                exists|j: int| 0 <= j < i && (#[trigger] points[j]).x == high_x,
                exists|j: int| 0 <= j < i && (#[trigger] points[j]).y == low_y,
                exists|j: int| 0 <= j < i && (#[trigger] points[j]).y == high_y,
            decreases n - i,
        {
            let v: Vector2 = self.vertices[i];
            assert(points[i as int] == v@);
            if v.x < low_x {
                low_x = v.x;
            }
            if v.x > high_x {
                high_x = v.x;
            }
            if v.y < low_y {
                low_y = v.y;
            }
            if v.y > high_y {
                high_y = v.y;
            }
            i += 1;
        }
        proof {
            let at_low_x = choose|j: int| 0 <= j < n && (#[trigger] points[j]).x == low_x;
            let at_high_x = choose|j: int| 0 <= j < n && (#[trigger] points[j]).x == high_x;
            let at_low_y = choose|j: int| 0 <= j < n && (#[trigger] points[j]).y == low_y;
            let at_high_y = choose|j: int| 0 <= j < n && (#[trigger] points[j]).y == high_y;
            assert(xs(points)[at_low_x] == low_x && xs(points)[at_high_x] == high_x);
            assert(ys(points)[at_low_y] == low_y && ys(points)[at_high_y] == high_y);
            lemma_extremes(xs(points), low_x as int, high_x as int);
            lemma_extremes(ys(points), low_y as int, high_y as int);
        }
        AABB::from_corners(Vector2 { x: low_x, y: low_y }, Vector2 { x: high_x, y: high_y })
    }
}

/// What one edge is to a point: the share of the way along the edge at
/// which its nearest point lies, and the square of the distance to it.
struct EdgeMeasure {
    share_numerator: u128,
    share_denominator: u128,
    gap_numerator: u128,
    gap_denominator: u128,
}

impl EdgeMeasure {
    /// The measure is that of the segment from `a` to `b` and the point `p`.
    spec fn describes(self, a: Point, b: Point, p: Point) -> bool {
        &&& projection(a, b, p) == (Fraction {
            numerator: self.share_numerator as int,
            denominator: self.share_denominator as int,
        })
        &&& segment_distance(a, b, p) == (Fraction {
            numerator: self.gap_numerator as int,
            denominator: self.gap_denominator as int,
        })
        &&& self.gap_denominator > 0
    }
}

/// The measure of the edge from `a` to `b` for the point `p`.
fn measure_edge(a: Vector2, b: Vector2, p: Vector2) -> (m: EdgeMeasure)
    requires
        a@.within(OUTLINE_LIMIT as int),
        b@.within(OUTLINE_LIMIT as int),
        p@.within(QUERY_LIMIT as int),
    ensures
        m.describes(a@, b@, p@),
{
    let ex: i128 = b.x as i128 - a.x as i128;
    let ey: i128 = b.y as i128 - a.y as i128;
    let wx: i128 = p.x as i128 - a.x as i128;
    let wy: i128 = p.y as i128 - a.y as i128;
    assert(0 <= ex * ex <= 0x40_0000_0000_0000 && 0 <= ey * ey <= 0x40_0000_0000_0000
        && -0x1000_0000_0000_0000 <= wx * ex <= 0x1000_0000_0000_0000 && -0x1000_0000_0000_0000
        <= wy * ey <= 0x1000_0000_0000_0000 && -0x1000_0000_0000_0000 <= ex * wy
        <= 0x1000_0000_0000_0000 && -0x1000_0000_0000_0000 <= wx * ey <= 0x1000_0000_0000_0000
        && 0 <= wx * wx <= 0x4_0000_0000_0000_0000 && 0 <= wy * wy <= 0x4_0000_0000_0000_0000)
        by (nonlinear_arith)
        requires
            -0x800_0000 <= ex <= 0x800_0000,
            -0x800_0000 <= ey <= 0x800_0000,
            -0x2_0000_0000 <= wx <= 0x2_0000_0000,
            -0x2_0000_0000 <= wy <= 0x2_0000_0000,
    ;
    let along: i128 = wx * ex + wy * ey;
    let length: i128 = ex * ex + ey * ey;
    if along <= 0 {
        EdgeMeasure {
            share_numerator: 0,
            share_denominator: 1,
            gap_numerator: (wx * wx + wy * wy) as u128,
            gap_denominator: 1,
        }
    } else if along >= length {
        let vx: i128 = p.x as i128 - b.x as i128;
        let vy: i128 = p.y as i128 - b.y as i128;
        assert(0 <= vx * vx <= 0x4_0000_0000_0000_0000 && 0 <= vy * vy <= 0x4_0000_0000_0000_0000)
            by (nonlinear_arith)
            requires
                -0x2_0000_0000 <= vx <= 0x2_0000_0000,
                -0x2_0000_0000 <= vy <= 0x2_0000_0000,
        ;
        EdgeMeasure {
            share_numerator: 1,
            share_denominator: 1,
            gap_numerator: (vx * vx + vy * vy) as u128,
            gap_denominator: 1,
        }
    } else {
        let across: i128 = ex * wy - wx * ey;
        assert(0 <= across * across <= 0x400_0000_0000_0000_0000_0000_0000_0000)
            by (nonlinear_arith)
            requires
                -0x2000_0000_0000_0000 <= across <= 0x2000_0000_0000_0000,
        ;
        EdgeMeasure {
            share_numerator: along as u128,
            share_denominator: length as u128,
            gap_numerator: (across * across) as u128,
            gap_denominator: length as u128,
        }
    }
}

/// The shoelace sum of the closed polygon `vertices`.
fn signed_shoelace(vertices: &Vec<Vector2>) -> (sum: i128)
    requires
        vertices.len() <= MAX_VERTICES,
        all_within(points_of(vertices@), OUTLINE_LIMIT as int),
    ensures
        sum == shoelace(points_of(vertices@), vertices.len() as nat),
{
    let n: usize = vertices.len();
    let ghost points = points_of(vertices@);
    let mut sum: i128 = 0;
    let mut i: usize = 0;
    while i < n
        invariant
            i <= n,
            n <= MAX_VERTICES,
            n == vertices.len(),
            points == points_of(vertices@),
            all_within(points, OUTLINE_LIMIT as int),
            sum == shoelace(points, i as nat),
            -(i * 0x20_0000_0000_0000) <= sum <= i * 0x20_0000_0000_0000,
        decreases n - i,
    {
        let a: Vector2 = vertices[i];
        let j: usize = if i + 1 >= n { 0 } else { i + 1 };
        let b: Vector2 = vertices[j];
        assert(points[i as int].within(OUTLINE_LIMIT as int));
        assert(points[j as int].within(OUTLINE_LIMIT as int));
        assert(j == successor(i as int, points.len() as int));
        let ax: i128 = a.x as i128;
        let ay: i128 = a.y as i128;
        let bx: i128 = b.x as i128;
        let by: i128 = b.y as i128;
        assert(-0x10_0000_0000_0000 <= ax * by <= 0x10_0000_0000_0000 && -0x10_0000_0000_0000
            <= bx * ay <= 0x10_0000_0000_0000) by (nonlinear_arith)
            requires
                -0x400_0000 <= ax <= 0x400_0000,
                -0x400_0000 <= ay <= 0x400_0000,
                -0x400_0000 <= bx <= 0x400_0000,
                -0x400_0000 <= by <= 0x400_0000,
        ;
        sum = sum + (ax * by - bx * ay);
        i += 1;
    }
    sum
}

/// Whether the half-line from `p` crosses the edge from `a` to `b`.
fn edge_crossed(a: Vector2, b: Vector2, p: Vector2) -> (hit: bool)
    requires
        a@.within(OUTLINE_LIMIT as int),
        b@.within(OUTLINE_LIMIT as int),
    ensures
        hit == ray_crosses(a@, b@, p@),
{
    let upward: bool = a.y <= p.y && p.y < b.y;
    let downward: bool = b.y <= p.y && p.y < a.y;
    if !upward && !downward {
        return false;
    }
    let dx: i128 = b.x as i128 - a.x as i128;
    let dy: i128 = b.y as i128 - a.y as i128;
    let px: i128 = p.x as i128 - a.x as i128;
    let py: i128 = p.y as i128 - a.y as i128;
    assert(-0x40_0000_0000_0000 <= dx * py <= 0x40_0000_0000_0000
        && -0x800_0000_0000_0000_0000_0000 <= px * dy <= 0x800_0000_0000_0000_0000_0000)
        by (nonlinear_arith)
        requires
            -0x800_0000 <= dx <= 0x800_0000,
            -0x800_0000 <= dy <= 0x800_0000,
            -0x800_0000 <= py <= 0x800_0000,
            -0x1_0000_0000_0000_0000 <= px <= 0x1_0000_0000_0000_0000,
    ;
    let cross: i128 = dx * py - px * dy;
    if upward {
        cross > 0
    } else {
        cross < 0
    }
}

/// A lower bound that is attained is the minimum, and an upper bound that
/// is attained is the maximum.
pub proof fn lemma_extremes(values: Seq<int>, low: int, high: int)
    requires
        forall|i: int| 0 <= i < values.len() ==> low <= #[trigger] values[i] <= high,
        exists|i: int| 0 <= i < values.len() && #[trigger] values[i] == low,
        exists|i: int| 0 <= i < values.len() && #[trigger] values[i] == high,
    ensures
        values.min() == low,
        values.max() == high,
{
    values.min_ensures();
    values.max_ensures();
    let i = choose|i: int| 0 <= i < values.len() && #[trigger] values[i] == low;
    let j = choose|j: int| 0 <= j < values.len() && #[trigger] values[j] == high;
    assert(values.min() <= values[i]);
    assert(values[j] <= values.max());
    assert(values.contains(values.min()));
    assert(values.contains(values.max()));
}

/// The bounding box holds the whole polygon: every point that the
/// even-odd rule puts inside lies in the bounding box of the vertices.
pub proof fn lemma_enclosed_point_in_bounding_box(vertices: Seq<Point>, p: Point)
    requires
        vertices.len() > 0,
        encloses(vertices, p),
    ensures
        bounding_box(vertices).contains(p),
{
    let n = vertices.len();
    let b = bounding_box(vertices);
    xs(vertices).min_ensures();
    xs(vertices).max_ensures();
    ys(vertices).min_ensures();
    ys(vertices).max_ensures();
    assert forall|i: int| 0 <= i < n implies b.contains(#[trigger] vertices[i]) by {
        assert(xs(vertices)[i] == vertices[i].x);
        assert(ys(vertices)[i] == vertices[i].y);
    }
    if p.y < b.top_left.y || p.y > b.bottom_right.y {
        lemma_no_crossing_beside_rows(vertices, p, b, n);
    } else if p.x > b.bottom_right.x {
        lemma_no_crossing_from_the_right(vertices, p, b, n);
    } else if p.x < b.top_left.x {
        lemma_even_crossings_from_the_left(vertices, p, b);
    }
}

/// Moving every vertex by `delta` moves both corners of the bounding box
/// by exactly `delta`.
pub proof fn lemma_bounding_box_follows_translation(vertices: Seq<Point>, delta: Point)
    requires
        vertices.len() > 0,
    ensures
        bounding_box(shifted(vertices, delta)) == bounding_box(vertices).shifted(delta),
{
    let moved = shifted(vertices, delta);
    let b = bounding_box(vertices);
    lemma_extremes_of_offset(xs(vertices), xs(moved), delta.x);
    lemma_extremes_of_offset(ys(vertices), ys(moved), delta.y);
}

/// Moving every vertex and the point by the same `delta` does not change
/// whether the point is inside.
pub proof fn lemma_containment_follows_translation(vertices: Seq<Point>, p: Point, delta: Point)
    ensures
        encloses(shifted(vertices, delta), p.plus(delta)) == encloses(vertices, p),
{
    lemma_crossings_follow_translation(vertices, p, delta, vertices.len());
}

proof fn lemma_crossings_follow_translation(
    vertices: Seq<Point>,
    p: Point,
    delta: Point,
    count: nat,
)
    requires
        count <= vertices.len(),
    ensures
        crossings(shifted(vertices, delta), p.plus(delta), count) == crossings(vertices, p, count),
    decreases count,
{
    if count > 0 {
        lemma_crossings_follow_translation(vertices, p, delta, (count - 1) as nat);
        let moved = shifted(vertices, delta);
        let next = successor(count - 1, vertices.len() as int);
        let a = vertices[count - 1];
        let b = vertices[next];
        assert(moved[count - 1] == a.plus(delta));
        assert(moved[next] == b.plus(delta));
        assert(b.plus(delta).minus(a.plus(delta)) == b.minus(a));
        assert(p.plus(delta).minus(a.plus(delta)) == p.minus(a));
    }
}

/// Adding `offset` to every value adds it to the least and to the greatest.
proof fn lemma_extremes_of_offset(values: Seq<int>, moved: Seq<int>, offset: int)
    requires
        values.len() > 0,
        moved.len() == values.len(),
        forall|i: int| 0 <= i < values.len() ==> #[trigger] moved[i] == values[i] + offset,
    ensures
        moved.min() == values.min() + offset,
        moved.max() == values.max() + offset,
{
    values.min_ensures();
    values.max_ensures();
    let low = values.min();
    let high = values.max();
    assert(values.contains(low) && values.contains(high));
    let i = choose|i: int| 0 <= i < values.len() && values[i] == low;
    let j = choose|j: int| 0 <= j < values.len() && values[j] == high;
    assert(moved[i] == low + offset);
    assert(moved[j] == high + offset);
    assert forall|k: int| 0 <= k < moved.len() implies low + offset <= #[trigger] moved[k] <= high
        + offset by {
        assert(low <= values[k] <= high);
    }
    lemma_extremes(moved, low + offset, high + offset);
}

/// A half-line below or above every vertex crosses no edge.
proof fn lemma_no_crossing_beside_rows(vertices: Seq<Point>, p: Point, b: Rect, count: nat)
    requires
        count <= vertices.len(),
        forall|i: int| 0 <= i < vertices.len() ==> b.contains(#[trigger] vertices[i]),
        p.y < b.top_left.y || p.y > b.bottom_right.y,
    ensures
        crossings(vertices, p, count) == 0,
    decreases count,
{
    if count > 0 {
        lemma_no_crossing_beside_rows(vertices, p, b, (count - 1) as nat);
        let next = successor(count - 1, vertices.len() as int);
        assert(b.contains(vertices[count - 1]));
        assert(b.contains(vertices[next]));
    }
}

/// A half-line that starts right of every vertex crosses no edge.
proof fn lemma_no_crossing_from_the_right(vertices: Seq<Point>, p: Point, b: Rect, count: nat)
    requires
        count <= vertices.len(),
        forall|i: int| 0 <= i < vertices.len() ==> b.contains(#[trigger] vertices[i]),
        p.x > b.bottom_right.x,
    ensures
        crossings(vertices, p, count) == 0,
    decreases count,
{
    if count > 0 {
        lemma_no_crossing_from_the_right(vertices, p, b, (count - 1) as nat);
        let next = successor(count - 1, vertices.len() as int);
        assert(b.contains(vertices[count - 1]));
        assert(b.contains(vertices[next]));
        lemma_ray_misses_edge_on_its_left(vertices[count - 1], vertices[next], p);
    }
}

/// A half-line that starts left of every vertex crosses the closed polygon
/// an even number of times: once for each change of side along the cycle.
proof fn lemma_even_crossings_from_the_left(vertices: Seq<Point>, p: Point, b: Rect)
    requires
        vertices.len() > 0,
        forall|i: int| 0 <= i < vertices.len() ==> b.contains(#[trigger] vertices[i]),
        p.x < b.top_left.x,
    ensures
        crossings(vertices, p, vertices.len()) % 2 == 0,
{
    let n = vertices.len();
    let last = (n - 1) as nat;
    lemma_crossing_parity_from_the_left(vertices, p, b, last);
    assert(successor(n - 1, n as int) == 0);
    assert(b.contains(vertices[n - 1]));
    assert(b.contains(vertices[0]));
    lemma_ray_hits_edge_on_its_right(vertices[n - 1], vertices[0], p);
}

/// For a half-line that starts left of every vertex, the parity of the
/// crossings of the first `count` edges tells whether vertex `count` lies
/// on the other side of the line through `p` than vertex 0.
proof fn lemma_crossing_parity_from_the_left(
    vertices: Seq<Point>,
    p: Point,
    b: Rect,
    count: nat,
)
    requires
        count < vertices.len(),
        forall|i: int| 0 <= i < vertices.len() ==> b.contains(#[trigger] vertices[i]),
        p.x < b.top_left.x,
    ensures
        (crossings(vertices, p, count) % 2 == 1) == ((vertices[0].y > p.y) != (vertices[count as int].y
            > p.y)),
    decreases count,
{
    if count > 0 {
        lemma_crossing_parity_from_the_left(vertices, p, b, (count - 1) as nat);
        assert(successor(count - 1, vertices.len() as int) == count);
        assert(b.contains(vertices[count - 1]));
        assert(b.contains(vertices[count as int]));
        lemma_ray_hits_edge_on_its_right(vertices[count - 1], vertices[count as int], p);
    }
}

/// An edge whose ends both lie left of `p` is not crossed.
proof fn lemma_ray_misses_edge_on_its_left(a: Point, b: Point, p: Point)
    requires
        a.x < p.x,
        b.x < p.x,
    ensures
        !ray_crosses(a, b, p),
{
    let dx = b.x - a.x;
    let dy = b.y - a.y;
    let px = p.x - a.x;
    let py = p.y - a.y;
    if a.y <= p.y < b.y {
        assert(dx * py - px * dy <= 0) by (nonlinear_arith)
            requires
                dy > 0,
                0 <= py < dy,
                px > 0,
                dx < px,
        ;
    } else if b.y <= p.y < a.y {
        assert(dx * py - px * dy >= 0) by (nonlinear_arith)
            requires
                dy < 0,
                dy <= py < 0,
                px > 0,
                dx < px,
        ;
    }
}

/// An edge whose ends both lie right of `p` is crossed exactly when its
/// ends lie on different sides of the horizontal line through `p`.
proof fn lemma_ray_hits_edge_on_its_right(a: Point, b: Point, p: Point)
    requires
        p.x < a.x,
        p.x < b.x,
    ensures
        ray_crosses(a, b, p) == ((a.y > p.y) != (b.y > p.y)),
{
    let dx = b.x - a.x;
    let dy = b.y - a.y;
    let px = p.x - a.x;
    let py = p.y - a.y;
    if a.y <= p.y < b.y {
        assert(dx * py - px * dy > 0) by (nonlinear_arith)
            requires
                dy > 0,
                0 <= py < dy,
                px < 0,
                px < dx,
        ;
    } else if b.y <= p.y < a.y {
        assert(dx * py - px * dy < 0) by (nonlinear_arith)
            requires
                dy < 0,
                dy <= py < 0,
                px < 0,
                px < dx,
        ;
    }
}

} // verus!
