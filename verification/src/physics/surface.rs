//! The point of a shape's surface that is nearest to a given point, and
//! the outward normal there, in exact form.
//!
//! The nearest point of a rim or of an edge is seldom a lattice point, and
//! a unit normal almost never is. What is returned is therefore an exact
//! description, from which a caller that works with real numbers gets
//! both by one division and one square root.

use vstd::prelude::*;
use crate::physics::outline::shifted;
use crate::physics::polygon::{lemma_shoelace_follows_translation, shoelace, successor};
use crate::utils::fraction::{lemma_order_is_transitive, Fraction};
use crate::utils::vector2::{Point, Vector2};

verus! {

/// The largest magnitude of a coordinate of a point for which the nearest
/// surface point is asked.
pub const QUERY_LIMIT: i64 = 4_294_967_296;

/// Where the nearest surface point lies.
#[derive(Clone, Copy, Debug, PartialEq, Eq, Structural)]
pub enum SurfacePoint {
    /// On the rim of a disk: one radius away from the center, in the
    /// direction of `normal`. `normal` points outward and is not zero; its
    /// length is not 1.
    Rim { normal: Vector2 },
    /// On edge `edge` of a polygon, which runs from vertex `edge` to the
    /// vertex after it: `numerator / denominator` of the way along it, a
    /// share between 0 and 1. `normal` points outward and is not zero; its
    /// length is not 1.
    Edge { edge: usize, numerator: u128, denominator: u128, normal: Vector2 },
}

/// How far along the segment from `a` to `b` its point nearest to `p`
/// lies: the foot of the perpendicular from `p`, kept between the two ends.
pub open spec fn projection(a: Point, b: Point, p: Point) -> Fraction {
    let along = p.minus(a).dot(b.minus(a));
    let length = b.minus(a).norm_squared();
    if along <= 0 {
        Fraction { numerator: 0, denominator: 1 }
    } else if along >= length {
        Fraction { numerator: 1, denominator: 1 }
    } else {
        Fraction { numerator: along, denominator: length }
    }
}

/// The square of the distance from `p` to the point of the segment from
/// `a` to `b` that `projection` names.
pub open spec fn segment_distance(a: Point, b: Point, p: Point) -> Fraction {
    let along = p.minus(a).dot(b.minus(a));
    let length = b.minus(a).norm_squared();
    if along <= 0 {
        Fraction { numerator: p.minus(a).norm_squared(), denominator: 1 }
    } else if along >= length {
        Fraction { numerator: p.minus(b).norm_squared(), denominator: 1 }
    } else {
        let across = b.minus(a).cross(p.minus(a));
        Fraction { numerator: across * across, denominator: length }
    }
}

/// The square of the distance from `p` to edge `i` of the closed polygon
/// `vertices`.
pub open spec fn edge_distance(vertices: Seq<Point>, i: int, p: Point) -> Fraction {
    segment_distance(vertices[i], vertices[successor(i, vertices.len() as int)], p)
}

/// Edge `i` is the first of the edges nearest to `p`: no edge is nearer,
/// and every edge before it is farther.
pub open spec fn is_closest_edge(vertices: Seq<Point>, p: Point, i: int) -> bool {
    &&& 0 <= i < vertices.len()
    &&& forall|j: int|
        0 <= j < vertices.len() ==> !(#[trigger] edge_distance(vertices, j, p)).less_than(
            edge_distance(vertices, i, p),
        )
    &&& forall|j: int|
        0 <= j < i ==> edge_distance(vertices, i, p).less_than(
            #[trigger] edge_distance(vertices, j, p),
        )
}

/// The outward direction at edge `i`, as seen from `p`: the perpendicular
/// of the edge that points away from the inside, which the sign of the
/// shoelace sum tells. An edge whose ends coincide has no perpendicular;
/// there the direction is from that vertex to `p`, and `(1, 0)` when `p`
/// is that vertex.
pub open spec fn surface_normal(vertices: Seq<Point>, i: int, p: Point) -> Point {
    let a = vertices[i];
    let e = vertices[successor(i, vertices.len() as int)].minus(a);
    if e.x != 0 || e.y != 0 {
        if shoelace(vertices, vertices.len()) >= 0 {
            Point { x: e.y, y: -e.x }
        } else {
            Point { x: -e.y, y: e.x }
        }
    } else if p != a {
        p.minus(a)
    } else {
        Point { x: 1, y: 0 }
    }
}

/// On which side of edge `i` the point `q` lies: positive to the left of
/// the edge as it runs, negative to the right, zero on its line. It is
/// twice the signed area of the triangle of the edge and `q`.
pub open spec fn side(vertices: Seq<Point>, i: int, q: Point) -> int {
    vertices[successor(i, vertices.len() as int)].minus(vertices[i]).cross(q.minus(vertices[i]))
}

/// The sum of `side` for `q` over the first `count` edges.
pub open spec fn sides_sum(vertices: Seq<Point>, q: Point, count: nat) -> int
    decreases count,
{
    if count == 0 {
        0
    } else {
        sides_sum(vertices, q, (count - 1) as nat) + side(vertices, count - 1, q)
    }
}

/// The polygon is convex: every vertex lies on the same side of every
/// edge, or on its line.
pub open spec fn is_convex(vertices: Seq<Point>) -> bool {
    ||| forall|i: int, j: int|
        0 <= i < vertices.len() && 0 <= j < vertices.len() ==> #[trigger] side(
            vertices,
            i,
            vertices[j],
        ) >= 0
    ||| forall|i: int, j: int|
        0 <= i < vertices.len() && 0 <= j < vertices.len() ==> #[trigger] side(
            vertices,
            i,
            vertices[j],
        ) <= 0
}

/// `hit` describes the point of the closed polygon `vertices` nearest to
/// `p`: the first of the nearest edges, the share of the way along it, and
/// the outward direction there.
pub open spec fn closest_on_outline(vertices: Seq<Point>, p: Point, hit: SurfacePoint) -> bool {
    &&& hit matches SurfacePoint::Edge { edge, numerator, denominator, normal }
    &&& is_closest_edge(vertices, p, edge as int)
    &&& projection(vertices[edge as int], vertices[successor(edge as int, vertices.len() as int)], p)
        == (Fraction { numerator: numerator as int, denominator: denominator as int })
    &&& normal@ == surface_normal(vertices, edge as int, p)
}

/// The direction from the center of a disk to its surface point nearest to
/// `p`: from the center to `p`, and `(1, 0)` when `p` is the center.
pub open spec fn rim_normal(center: Point, p: Point) -> Point {
    if p != center {
        p.minus(center)
    } else {
        Point { x: 1, y: 0 }
    }
}

/// `hit` describes the point of the rim of the disk around `center`
/// nearest to `p`.
pub open spec fn closest_on_rim(center: Point, p: Point, hit: SurfacePoint) -> bool {
    hit matches SurfacePoint::Rim { normal } && normal@ == rim_normal(center, p)
}

/// The nearest surface point lies on the surface: on the rim, in a
/// direction that exists.
pub proof fn lemma_rim_point_is_on_the_rim(center: Point, p: Point, hit: SurfacePoint)
    requires
        closest_on_rim(center, p, hit),
    ensures
        hit matches SurfacePoint::Rim { normal } && (normal.x != 0 || normal.y != 0),
{
}

/// The nearest surface point lies on the surface: on one of the edges of
/// the polygon, between the two ends of that edge, with an outward
/// direction that exists.
pub proof fn lemma_edge_point_is_on_an_edge(vertices: Seq<Point>, p: Point, hit: SurfacePoint)
    requires
        closest_on_outline(vertices, p, hit),
    ensures
        hit matches SurfacePoint::Edge { edge, numerator, denominator, normal } && edge
            < vertices.len() && 0 <= numerator <= denominator && 0 < denominator && (normal.x != 0
            || normal.y != 0),
{
    let edge = hit->edge;
    let a = vertices[edge as int];
    let b = vertices[successor(edge as int, vertices.len() as int)];
    let share = projection(a, b, p);
    assert(share.is_unit_share()) by {
        lemma_projection_is_a_share(a, b, p);
    }
}

/// The share that `projection` names lies between 0 and 1.
pub proof fn lemma_projection_is_a_share(a: Point, b: Point, p: Point)
    ensures
        projection(a, b, p).is_unit_share(),
{
}

/// On a segment no point is nearer to `p` than the one that `projection`
/// names: for every share `m / k` of the way from `a` to `b`, the square
/// of the distance from `p` to that point is at least `segment_distance`.
pub proof fn lemma_projection_is_nearest(a: Point, b: Point, p: Point, m: int, k: int)
    requires
        0 <= m <= k,
        0 < k,
    ensures
        !(Fraction {
            numerator: p.minus(a).times(k).minus(b.minus(a).times(m)).norm_squared(),
            denominator: k * k,
        }).less_than(segment_distance(a, b, p)),
{
    let e = b.minus(a);
    let w = p.minus(a);
    let along = w.dot(e);
    let length = e.norm_squared();
    let offset = w.times(k).minus(e.times(m));
    let gap = offset.norm_squared();
    let near = segment_distance(a, b, p);
    // gap = k²·|w|² − 2·k·m·along + m²·length
    lemma_offset_expands(w.x, w.y, e.x, e.y, m, k);
    assert(length >= 0) by (nonlinear_arith)
        requires
            length == e.x * e.x + e.y * e.y,
    ;
    if along <= 0 {
        assert(gap * 1 >= w.norm_squared() * (k * k)) by (nonlinear_arith)
            requires
                gap == k * k * w.norm_squared() - 2 * k * m * along + m * m * length,
                along <= 0,
                length >= 0,
                0 <= m <= k,
        ;
    } else if along >= length {
        let v = p.minus(b);
        assert(v.norm_squared() == w.norm_squared() - 2 * along + length) by (nonlinear_arith)
            requires
                v.x == w.x - e.x,
                v.y == w.y - e.y,
                along == w.x * e.x + w.y * e.y,
                length == e.x * e.x + e.y * e.y,
                v.norm_squared() == v.x * v.x + v.y * v.y,
                w.norm_squared() == w.x * w.x + w.y * w.y,
        ;
        lemma_far_end_is_nearest(w.norm_squared(), along, length, m, k);
    } else {
        let across = e.cross(w);
        lemma_lagrange(w.x, w.y, e.x, e.y);
        lemma_foot_is_nearest(w.norm_squared(), along, length, across, m, k);
    }
}

/// The shoelace sum is the sum, over the edges, of twice the signed area
/// of the triangle of the edge and `q`, whatever the point `q`.
pub proof fn lemma_shoelace_is_sum_of_sides(vertices: Seq<Point>, q: Point)
    ensures
        shoelace(vertices, vertices.len()) == sides_sum(vertices, q, vertices.len()),
{
    lemma_shoelace_follows_translation(vertices, q.negated());
    lemma_moved_shoelace_is_sum_of_sides(vertices, q, vertices.len());
}

proof fn lemma_moved_shoelace_is_sum_of_sides(vertices: Seq<Point>, q: Point, count: nat)
    requires
        count <= vertices.len(),
    ensures
        shoelace(shifted(vertices, q.negated()), count) == sides_sum(vertices, q, count),
    decreases count,
{
    if count > 0 {
        lemma_moved_shoelace_is_sum_of_sides(vertices, q, (count - 1) as nat);
        let moved = shifted(vertices, q.negated());
        let next = successor(count - 1, vertices.len() as int);
        let a = vertices[count - 1];
        let b = vertices[next];
        assert(moved[count - 1] == a.plus(q.negated()));
        assert(moved[next] == b.plus(q.negated()));
        assert((a.x - q.x) * (b.y - q.y) - (b.x - q.x) * (a.y - q.y) == (b.x - a.x) * (q.y - a.y)
            - (q.x - a.x) * (b.y - a.y)) by (nonlinear_arith);
    }
}

/// A sum of numbers of one sign has that sign, and is zero only when every
/// one of them is.
proof fn lemma_sides_of_one_sign(vertices: Seq<Point>, q: Point, count: nat, sign: int)
    requires
        sign == 1 || sign == -1,
        forall|i: int| 0 <= i < count ==> sign * #[trigger] side(vertices, i, q) >= 0,
    ensures
        sign * sides_sum(vertices, q, count) >= 0,
        sides_sum(vertices, q, count) == 0 ==> forall|i: int|
            0 <= i < count ==> #[trigger] side(vertices, i, q) == 0,
    decreases count,
{
    if count > 0 {
        lemma_sides_of_one_sign(vertices, q, (count - 1) as nat, sign);
        assert(sign * side(vertices, count - 1, q) >= 0);
    }
}

/// The outward direction of an edge of a convex polygon is perpendicular
/// to the edge, and no vertex of the polygon lies on the side that it
/// points to.
pub proof fn lemma_normal_points_away_from_a_convex_polygon(
    vertices: Seq<Point>,
    p: Point,
    i: int,
    j: int,
)
    requires
        is_convex(vertices),
        0 <= i < vertices.len(),
        0 <= j < vertices.len(),
        vertices[successor(i, vertices.len() as int)] != vertices[i],
    ensures
        vertices[successor(i, vertices.len() as int)].minus(vertices[i]).dot(
            surface_normal(vertices, i, p),
        ) == 0,
        vertices[j].minus(vertices[i]).dot(surface_normal(vertices, i, p)) <= 0,
{
    let n = vertices.len();
    let a = vertices[i];
    let e = vertices[successor(i, n as int)].minus(a);
    let w = vertices[j].minus(a);
    let normal = surface_normal(vertices, i, p);
    let q = vertices[j];
    lemma_shoelace_is_sum_of_sides(vertices, q);
    assert(side(vertices, i, q) == e.x * w.y - w.x * e.y);
    if forall|i: int, j: int|
        0 <= i < vertices.len() && 0 <= j < vertices.len() ==> #[trigger] side(
            vertices,
            i,
            vertices[j],
        ) >= 0 {
        assert forall|k: int| 0 <= k < n implies 1 * #[trigger] side(vertices, k, q) >= 0 by {
            assert(side(vertices, k, vertices[j]) >= 0);
        }
        lemma_sides_of_one_sign(vertices, q, n, 1);
        assert(normal == Point { x: e.y, y: -e.x });
        assert(e.x * e.y + e.y * (-e.x) == 0) by (nonlinear_arith);
        assert(w.x * e.y + w.y * (-e.x) == -(e.x * w.y - w.x * e.y)) by (nonlinear_arith);
    } else {
        assert forall|k: int| 0 <= k < n implies -1 * #[trigger] side(vertices, k, q) >= 0 by {
            assert(side(vertices, k, vertices[j]) <= 0);
        }
        lemma_sides_of_one_sign(vertices, q, n, -1);
        assert(e.x * e.y + e.y * (-e.x) == 0) by (nonlinear_arith);
        assert(e.x * (-e.y) + e.y * e.x == 0) by (nonlinear_arith);
        assert(w.x * e.y + w.y * (-e.x) == -(e.x * w.y - w.x * e.y)) by (nonlinear_arith);
        assert(w.x * (-e.y) + w.y * e.x == e.x * w.y - w.x * e.y) by (nonlinear_arith);
        if shoelace(vertices, n) >= 0 {
            assert(side(vertices, i, q) == 0);
        }
    }
}

/// No point of the polygon's edges is nearer to `p` than the one that
/// `hit` describes: for every edge `j` and every share `m / k` of the way
/// along it, the square of the distance from `p` to that point is at least
/// the distance to the edge of `hit`.
pub proof fn lemma_closest_point_is_nearest(
    vertices: Seq<Point>,
    p: Point,
    hit: SurfacePoint,
    j: int,
    m: int,
    k: int,
)
    requires
        closest_on_outline(vertices, p, hit),
        0 <= j < vertices.len(),
        0 <= m <= k,
        0 < k,
    ensures
        ({
            let a = vertices[j];
            let b = vertices[successor(j, vertices.len() as int)];
            !(Fraction {
                numerator: p.minus(a).times(k).minus(b.minus(a).times(m)).norm_squared(),
                denominator: k * k,
            }).less_than(edge_distance(vertices, hit->edge as int, p))
        }),
{
    let n = vertices.len() as int;
    let edge = hit->edge as int;
    let a = vertices[j];
    let b = vertices[successor(j, n)];
    let reached = Fraction {
        numerator: p.minus(a).times(k).minus(b.minus(a).times(m)).norm_squared(),
        denominator: k * k,
    };
    let here = edge_distance(vertices, j, p);
    let best = edge_distance(vertices, edge, p);
    lemma_projection_is_nearest(a, b, p, m, k);
    lemma_segment_distance_is_a_fraction(
        vertices[edge],
        vertices[successor(edge, n)],
        p,
    );
    lemma_segment_distance_is_a_fraction(a, b, p);
    assert(k * k > 0) by (nonlinear_arith)
        requires
            k > 0,
    ;
    assert(!here.less_than(best));
    if reached.less_than(best) {
        lemma_order_is_transitive(reached, best, here);
    }
}

/// The square of a distance is a fraction of a natural number over a
/// positive one.
pub proof fn lemma_segment_distance_is_a_fraction(a: Point, b: Point, p: Point)
    ensures
        segment_distance(a, b, p).numerator >= 0,
        segment_distance(a, b, p).denominator > 0,
{
    let w = p.minus(a);
    let v = p.minus(b);
    let across = b.minus(a).cross(p.minus(a));
    assert(w.x * w.x + w.y * w.y >= 0) by (nonlinear_arith);
    assert(v.x * v.x + v.y * v.y >= 0) by (nonlinear_arith);
    assert(across * across >= 0) by (nonlinear_arith);
}

/// `segment_distance` is the square of the distance from `p` to the point
/// that `projection` names: with `m / k` that share, `|k·(p − a) − m·(b −
/// a)|² / k²` equals it.
pub proof fn lemma_projection_attains_distance(a: Point, b: Point, p: Point)
    ensures
        ({
            let share = projection(a, b, p);
            let reached = p.minus(a).times(share.denominator).minus(
                b.minus(a).times(share.numerator),
            ).norm_squared();
            reached * segment_distance(a, b, p).denominator == segment_distance(a, b, p).numerator
                * (share.denominator * share.denominator)
        }),
{
    let e = b.minus(a);
    let w = p.minus(a);
    let along = w.dot(e);
    let length = e.norm_squared();
    let share = projection(a, b, p);
    let m = share.numerator;
    let k = share.denominator;
    let reached = w.times(k).minus(e.times(m)).norm_squared();
    let near = segment_distance(a, b, p);
    if along <= 0 {
        assert(w.times(1).minus(e.times(0)) == w);
        assert(reached * near.denominator == near.numerator * (k * k));
    } else if along >= length {
        assert(w.times(1).minus(e.times(1)) == p.minus(b));
        assert(reached * near.denominator == near.numerator * (k * k));
    } else {
        let across = e.cross(w);
        let ww = w.norm_squared();
        lemma_lagrange(w.x, w.y, e.x, e.y);
        lemma_offset_expands(w.x, w.y, e.x, e.y, m, k);
        // reached = length²·ww − 2·length·along² + along²·length
        //         = length·(ww·length − along²) = length·across².
        assert(reached == length * length * ww - 2 * length * along * along + along * along
            * length);
        assert(length * length * ww == length * (ww * length)) by (nonlinear_arith);
        assert(2 * length * along * along == 2 * (length * (along * along))) by (nonlinear_arith);
        assert(along * along * length == length * (along * along)) by (nonlinear_arith);
        assert(length * (ww * length) == length * (along * along) + length * (across * across))
            by (nonlinear_arith)
            requires
                ww * length == along * along + across * across,
        ;
        assert(reached == length * (across * across));
        assert((length * (across * across)) * length == (across * across) * (length * length))
            by (nonlinear_arith);
        assert(near.numerator == across * across && near.denominator == length);
        assert(k == length);
        assert(reached * near.denominator == near.numerator * (k * k));
    }
}

/// `|k·w − m·e|² = k²·|w|² − 2·k·m·(w·e) + m²·|e|²`.
proof fn lemma_offset_expands(wx: int, wy: int, ex: int, ey: int, m: int, k: int)
    ensures
        (wx * k - ex * m) * (wx * k - ex * m) + (wy * k - ey * m) * (wy * k - ey * m) == k * k * (wx
            * wx + wy * wy) - 2 * k * m * (wx * ex + wy * ey) + m * m * (ex * ex + ey * ey),
{
    lemma_square_of_difference(wx, ex, m, k);
    lemma_square_of_difference(wy, ey, m, k);
    assert(k * k * (wx * wx + wy * wy) == k * k * (wx * wx) + k * k * (wy * wy))
        by (nonlinear_arith);
    assert(2 * k * m * (wx * ex + wy * ey) == 2 * k * m * (wx * ex) + 2 * k * m * (wy * ey))
        by (nonlinear_arith);
    assert(m * m * (ex * ex + ey * ey) == m * m * (ex * ex) + m * m * (ey * ey))
        by (nonlinear_arith);
}

/// `(w·k − e·m)² = k²·w² − 2·k·m·w·e + m²·e²`.
proof fn lemma_square_of_difference(w: int, e: int, m: int, k: int)
    ensures
        (w * k - e * m) * (w * k - e * m) == k * k * (w * w) - 2 * k * m * (w * e) + m * m * (e
            * e),
{
    let s = w * k;
    let t = e * m;
    assert((s - t) * (s - t) == s * s - 2 * (s * t) + t * t) by (nonlinear_arith);
    assert(s * s == k * k * (w * w)) by (nonlinear_arith)
        requires
            s == w * k,
    ;
    assert(t * t == m * m * (e * e)) by (nonlinear_arith)
        requires
            t == e * m,
    ;
    assert(s * t == k * m * (w * e)) by (nonlinear_arith)
        requires
            s == w * k,
            t == e * m,
    ;
    assert(2 * (k * m * (w * e)) == 2 * k * m * (w * e)) by (nonlinear_arith);
}

/// Lagrange's identity in the plane: `|w|²·|e|² = (w·e)² + (e×w)²`.
proof fn lemma_lagrange(wx: int, wy: int, ex: int, ey: int)
    ensures
        (wx * wx + wy * wy) * (ex * ex + ey * ey) == (wx * ex + wy * ey) * (wx * ex + wy * ey) + (ex
            * wy - wx * ey) * (ex * wy - wx * ey),
{
    let p = wx * ex;
    let q = wy * ey;
    let r = ex * wy;
    let s = wx * ey;
    assert((p + q) * (p + q) + (r - s) * (r - s) == p * p + q * q + r * r + s * s + 2 * (p * q)
        - 2 * (r * s)) by (nonlinear_arith);
    assert(p * q == r * s) by (nonlinear_arith)
        requires
            p == wx * ex,
            q == wy * ey,
            r == ex * wy,
            s == wx * ey,
    ;
    assert(p * p == (wx * wx) * (ex * ex)) by (nonlinear_arith)
        requires
            p == wx * ex,
    ;
    assert(q * q == (wy * wy) * (ey * ey)) by (nonlinear_arith)
        requires
            q == wy * ey,
    ;
    assert(r * r == (wy * wy) * (ex * ex)) by (nonlinear_arith)
        requires
            r == ex * wy,
    ;
    assert(s * s == (wx * wx) * (ey * ey)) by (nonlinear_arith)
        requires
            s == wx * ey,
    ;
    let a = wx * wx;
    let b = wy * wy;
    let c = ex * ex;
    let d = ey * ey;
    assert((a + b) * (c + d) == a * c + b * d + b * c + a * d) by (nonlinear_arith);
}

/// Beyond the far end of the segment, the far end is nearest.
proof fn lemma_far_end_is_nearest(ww: int, along: int, length: int, m: int, k: int)
    requires
        0 <= m <= k,
        0 < k,
        along >= length,
        length >= 0,
    ensures
        (k * k * ww - 2 * k * m * along + m * m * length) * 1 >= (ww - 2 * along + length) * (k * k),
{
    let kk = k * k;
    let km = k * m;
    let mm = m * m;
    // What is to be shown is 2·along·(kk − km) ≥ length·(kk − mm); and
    // 2·length·(kk − km) − length·(kk − mm) is length·(k − m)².
    let spare = kk - km;
    let square = (k - m) * (k - m);
    assert(spare >= 0 && square >= 0 && square == kk - 2 * km + mm) by (nonlinear_arith)
        requires
            0 <= m <= k,
            kk == k * k,
            km == k * m,
            mm == m * m,
            spare == kk - km,
            square == (k - m) * (k - m),
    ;
    assert(along * spare >= length * spare) by (nonlinear_arith)
        requires
            along >= length,
            spare >= 0,
    ;
    assert(length * square >= 0) by (nonlinear_arith)
        requires
            length >= 0,
            square >= 0,
    ;
    assert(along * spare == along * kk - along * km) by (nonlinear_arith)
        requires
            spare == kk - km,
    ;
    assert(length * spare == length * kk - length * km) by (nonlinear_arith)
        requires
            spare == kk - km,
    ;
    assert(length * square == length * kk - 2 * (length * km) + length * mm) by (nonlinear_arith)
        requires
            square == kk - 2 * km + mm,
    ;
    assert((ww - 2 * along + length) * kk == ww * kk - 2 * (along * kk) + length * kk)
        by (nonlinear_arith);
    assert(k * k * ww == ww * kk && m * m * length == length * mm) by (nonlinear_arith)
        requires
            kk == k * k,
            mm == m * m,
    ;
    assert(2 * k * m * along == 2 * (along * km)) by (nonlinear_arith)
        requires
            km == k * m,
    ;
}

/// Between the ends of the segment, the foot of the perpendicular is
/// nearest.
proof fn lemma_foot_is_nearest(ww: int, along: int, length: int, across: int, m: int, k: int)
    requires
        length > 0,
        ww * length == along * along + across * across,
    ensures
        (k * k * ww - 2 * k * m * along + m * m * length) * length >= (across * across) * (k * k),
{
    // The difference is (k·along − m·length)².
    let kk = k * k;
    let km = k * m;
    let mm = m * m;
    let miss = along * k - length * m;
    lemma_square_of_difference(along, length, m, k);
    assert(miss * miss >= 0) by (nonlinear_arith);
    assert(miss * miss == kk * (along * along) - 2 * (km * (along * length)) + mm * (length
        * length)) by {
        assert(2 * k * m * (along * length) == 2 * (km * (along * length))) by (nonlinear_arith)
            requires
                km == k * m,
        ;
    }
    let gap = k * k * ww - 2 * k * m * along + m * m * length;
    assert(gap == kk * ww - 2 * (km * along) + mm * length) by {
        assert(2 * k * m * along == 2 * (km * along)) by (nonlinear_arith)
            requires
                km == k * m,
        ;
    }
    assert(gap * length == (kk * ww) * length - 2 * ((km * along) * length) + (mm * length)
        * length) by (nonlinear_arith)
        requires
            gap == kk * ww - 2 * (km * along) + mm * length,
    ;
    assert((kk * ww) * length == kk * (ww * length)) by (nonlinear_arith);
    assert((km * along) * length == km * (along * length)) by (nonlinear_arith);
    assert((mm * length) * length == mm * (length * length)) by (nonlinear_arith);
    assert(kk * (ww * length) == kk * (along * along) + kk * (across * across))
        by (nonlinear_arith)
        requires
            ww * length == along * along + across * across,
    ;
    assert(kk * (across * across) == (across * across) * (k * k)) by (nonlinear_arith)
        requires
            kk == k * k,
    ;
}

} // verus!
