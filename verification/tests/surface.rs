use physics_sandbox::physics::circle::Circle;
use physics_sandbox::physics::outline::{Outline, OUTLINE_LIMIT};
use physics_sandbox::physics::polygon::Polygon;
use physics_sandbox::physics::rotor::Rotor;
use physics_sandbox::physics::shape::{Color, ShapeError};
use physics_sandbox::physics::shape_type::ShapeType;
use physics_sandbox::physics::surface::{SurfacePoint, QUERY_LIMIT};
use physics_sandbox::utils::vector2::Vector2;

const INK: Color = Color { red: 0, green: 0, blue: 0, alpha: 255 };

fn outline(coordinates: &[(i64, i64)]) -> Outline {
    Outline::new(coordinates.iter().map(|&(x, y)| Vector2::new(x, y)).collect()).unwrap()
}

/// The surface point and the unit normal that a hit on a circle stands for.
fn on_circle(circle: &Circle, hit: SurfacePoint) -> ((f64, f64), (f64, f64)) {
    match hit {
        SurfacePoint::Rim { normal } => {
            let length = ((normal.x as f64).powi(2) + (normal.y as f64).powi(2)).sqrt();
            let unit = (normal.x as f64 / length, normal.y as f64 / length);
            let center = circle.center();
            let radius = circle.radius() as f64;
            ((center.x as f64 + unit.0 * radius, center.y as f64 + unit.1 * radius), unit)
        }
        SurfacePoint::Edge { .. } => panic!("a circle has no edges"),
    }
}

/// The surface point and the unit normal that a hit on an outline stands for.
fn on_outline(outline: &Outline, hit: SurfacePoint) -> ((f64, f64), (f64, f64)) {
    match hit {
        SurfacePoint::Edge { edge, numerator, denominator, normal } => {
            let vertices = outline.vertices();
            let a = vertices[edge];
            let b = vertices[(edge + 1) % vertices.len()];
            let share = numerator as f64 / denominator as f64;
            let length = ((normal.x as f64).powi(2) + (normal.y as f64).powi(2)).sqrt();
            (
                (
                    a.x as f64 + (b.x - a.x) as f64 * share,
                    a.y as f64 + (b.y - a.y) as f64 * share,
                ),
                (normal.x as f64 / length, normal.y as f64 / length),
            )
        }
        SurfacePoint::Rim { .. } => panic!("an outline has no rim"),
    }
}

#[test]
fn circle_closest_point_of_ten_zero() {
    let c = Circle::new(Vector2::new(0, 0), 5, INK).unwrap();
    let hit = c.find_closest_surface_point(Vector2::new(10, 0)).unwrap();
    assert_eq!(hit, SurfacePoint::Rim { normal: Vector2::new(10, 0) });
    assert_eq!(on_circle(&c, hit), ((5.0, 0.0), (1.0, 0.0)));
}

#[test]
fn circle_closest_point_lies_on_the_rim() {
    let c = Circle::new(Vector2::new(30, -40), 25, INK).unwrap();
    for &(x, y) in &[(31, -40), (100, 100), (-7, 3), (30, -41), (29, -39), (30, 1000), (0, 0)] {
        let hit = c.find_closest_surface_point(Vector2::new(x, y)).unwrap();
        assert_eq!(hit, SurfacePoint::Rim { normal: Vector2::new(x - 30, y + 40) });
        let (surface, unit) = on_circle(&c, hit);
        let distance = ((surface.0 - 30.0).powi(2) + (surface.1 + 40.0).powi(2)).sqrt();
        assert!((distance - 25.0).abs() < 1e-9);
        assert!(((unit.0 * unit.0 + unit.1 * unit.1) - 1.0).abs() < 1e-12);
    }
}

#[test]
fn circle_closest_point_from_the_center_is_defined() {
    let c = Circle::new(Vector2::new(30, -40), 25, INK).unwrap();
    let hit = c.find_closest_surface_point(Vector2::new(30, -40)).unwrap();
    assert_eq!(hit, SurfacePoint::Rim { normal: Vector2::new(1, 0) });
    assert_eq!(on_circle(&c, hit), ((55.0, -40.0), (1.0, 0.0)));
}

#[test]
fn circle_closest_point_has_a_query_limit() {
    let c = Circle::new(Vector2::new(0, 0), 5, INK).unwrap();
    assert_eq!(
        c.find_closest_surface_point(Vector2::new(QUERY_LIMIT + 1, 0)).err(),
        Some(ShapeError::OutOfRange)
    );
    assert_eq!(
        c.find_closest_surface_point(Vector2::new(0, i64::MIN)).err(),
        Some(ShapeError::OutOfRange)
    );
    assert_eq!(
        c.find_closest_surface_point(Vector2::new(QUERY_LIMIT, -QUERY_LIMIT)),
        Ok(SurfacePoint::Rim { normal: Vector2::new(QUERY_LIMIT, -QUERY_LIMIT) })
    );
}

#[test]
fn outline_closest_point_on_the_nearest_edge() {
    let o = outline(&[(0, 0), (4, 0), (4, 4), (0, 4)]);
    let below = o.find_closest_surface_point(Vector2::new(2, -3)).unwrap();
    assert_eq!(
        below,
        SurfacePoint::Edge { edge: 0, numerator: 8, denominator: 16, normal: Vector2::new(0, -4) }
    );
    assert_eq!(on_outline(&o, below), ((2.0, 0.0), (0.0, -1.0)));
    let right = o.find_closest_surface_point(Vector2::new(9, 1)).unwrap();
    assert_eq!(
        right,
        SurfacePoint::Edge { edge: 1, numerator: 4, denominator: 16, normal: Vector2::new(4, 0) }
    );
    assert_eq!(on_outline(&o, right), ((4.0, 1.0), (1.0, 0.0)));
}

#[test]
fn outline_closest_point_from_the_inside() {
    let o = outline(&[(0, 0), (4, 0), (4, 4), (0, 4)]);
    let hit = o.find_closest_surface_point(Vector2::new(1, 2)).unwrap();
    assert_eq!(
        hit,
        SurfacePoint::Edge { edge: 3, numerator: 8, denominator: 16, normal: Vector2::new(-4, 0) }
    );
    assert_eq!(on_outline(&o, hit), ((0.0, 2.0), (-1.0, 0.0)));
}

#[test]
fn outline_closest_point_at_a_corner_takes_the_first_edge() {
    let o = outline(&[(0, 0), (4, 0), (4, 4), (0, 4)]);
    let hit = o.find_closest_surface_point(Vector2::new(6, 6)).unwrap();
    assert_eq!(
        hit,
        SurfacePoint::Edge { edge: 1, numerator: 1, denominator: 1, normal: Vector2::new(4, 0) }
    );
    assert_eq!(on_outline(&o, hit).0, (4.0, 4.0));
    let hit = o.find_closest_surface_point(Vector2::new(-1, -1)).unwrap();
    assert_eq!(
        hit,
        SurfacePoint::Edge { edge: 0, numerator: 0, denominator: 1, normal: Vector2::new(0, -4) }
    );
    assert_eq!(on_outline(&o, hit).0, (0.0, 0.0));
}

#[test]
fn outline_normal_points_outward_whatever_the_winding() {
    let clockwise = outline(&[(0, 4), (4, 4), (4, 0), (0, 0)]);
    let below = clockwise.find_closest_surface_point(Vector2::new(2, -3)).unwrap();
    assert_eq!(
        below,
        SurfacePoint::Edge { edge: 2, numerator: 8, denominator: 16, normal: Vector2::new(0, -4) }
    );
    let above = clockwise.find_closest_surface_point(Vector2::new(1, 9)).unwrap();
    assert_eq!(
        above,
        SurfacePoint::Edge { edge: 0, numerator: 4, denominator: 16, normal: Vector2::new(0, 4) }
    );
}

#[test]
fn outline_closest_point_on_an_edge_without_length() {
    let o = outline(&[(0, 0), (0, 0), (4, 0), (0, 4)]);
    let hit = o.find_closest_surface_point(Vector2::new(-3, -3)).unwrap();
    assert_eq!(
        hit,
        SurfacePoint::Edge { edge: 0, numerator: 0, denominator: 1, normal: Vector2::new(-3, -3) }
    );
    let hit = o.find_closest_surface_point(Vector2::new(0, 0)).unwrap();
    assert_eq!(
        hit,
        SurfacePoint::Edge { edge: 0, numerator: 0, denominator: 1, normal: Vector2::new(1, 0) }
    );
}

#[test]
fn outline_closest_point_has_a_query_limit() {
    let o = outline(&[(0, 0), (4, 0), (4, 4), (0, 4)]);
    assert_eq!(
        o.find_closest_surface_point(Vector2::new(0, QUERY_LIMIT + 1)).err(),
        Some(ShapeError::OutOfRange)
    );
    assert_eq!(
        o.find_closest_surface_point(Vector2::new(i64::MAX, i64::MAX)).err(),
        Some(ShapeError::OutOfRange)
    );
    assert!(o.find_closest_surface_point(Vector2::new(-QUERY_LIMIT, QUERY_LIMIT)).is_ok());
}

#[test]
fn outline_closest_point_at_the_limits() {
    let l = OUTLINE_LIMIT;
    let o = outline(&[(-l, -l), (l, -l), (l, l), (-l, l)]);
    let hit = o.find_closest_surface_point(Vector2::new(QUERY_LIMIT, 12_345)).unwrap();
    let along = 2 * l as u128 * (12_345 + l) as u128;
    let length = 4 * l as u128 * l as u128;
    assert_eq!(
        hit,
        SurfacePoint::Edge {
            edge: 1,
            numerator: along,
            denominator: length,
            normal: Vector2::new(2 * l, 0)
        }
    );
    let diamond = outline(&[(0, -l), (l, 0), (0, l), (-l, 0)]);
    let hit = diamond.find_closest_surface_point(Vector2::new(QUERY_LIMIT, QUERY_LIMIT - 1)).unwrap();
    assert_eq!(
        hit,
        SurfacePoint::Edge {
            edge: 1,
            numerator: (l as u128) * (l as u128 - 1),
            denominator: 2 * (l as u128) * (l as u128),
            normal: Vector2::new(l, l)
        }
    );
}

/// The square of the distance from `p` to the segment from `a` to `b`, as
/// a fraction, by the textbook formula.
fn distance_to_segment(a: Vector2, b: Vector2, p: Vector2) -> (i128, i128) {
    let (ex, ey) = ((b.x - a.x) as i128, (b.y - a.y) as i128);
    let (wx, wy) = ((p.x - a.x) as i128, (p.y - a.y) as i128);
    let along = wx * ex + wy * ey;
    let length = ex * ex + ey * ey;
    if along <= 0 {
        (wx * wx + wy * wy, 1)
    } else if along >= length {
        let (vx, vy) = ((p.x - b.x) as i128, (p.y - b.y) as i128);
        (vx * vx + vy * vy, 1)
    } else {
        let across = ex * wy - wx * ey;
        (across * across, length)
    }
}

#[test]
fn outline_closest_edge_is_the_first_of_the_nearest() {
    let coordinates = [(0, 0), (70, 10), (95, 62), (50, 30), (20, 90), (-30, 45), (-5, 20)];
    let o = outline(&coordinates);
    let vertices = o.vertices().clone();
    let n = vertices.len();
    let mut edges_hit = [false; 7];
    for x in (-60..=130).step_by(3) {
        for y in (-40..=120).step_by(3) {
            let p = Vector2::new(x, y);
            let hit = o.find_closest_surface_point(p).unwrap();
            let SurfacePoint::Edge { edge, numerator, denominator, normal } = hit else {
                panic!("an outline has no rim");
            };
            edges_hit[edge] = true;
            assert!(numerator <= denominator && denominator > 0);
            assert!(normal != Vector2::new(0, 0));
            let best = distance_to_segment(vertices[edge], vertices[(edge + 1) % n], p);
            for j in 0..n {
                let other = distance_to_segment(vertices[j], vertices[(j + 1) % n], p);
                // other >= best, and other > best before the edge that was taken.
                assert!(other.0 * best.1 >= best.0 * other.1);
                if j < edge {
                    assert!(other.0 * best.1 > best.0 * other.1);
                }
            }
            // The point that the share names is as far from p as the edge is.
            let (surface, _) = on_outline(&o, hit);
            let reached = (surface.0 - x as f64).powi(2) + (surface.1 - y as f64).powi(2);
            assert!((reached - best.0 as f64 / best.1 as f64).abs() < 1e-6);
        }
    }
    assert!(edges_hit.iter().all(|&hit| hit));
}

#[test]
fn outline_normal_points_away_from_the_inside() {
    let coordinates = [(0, 0), (70, 10), (95, 62), (50, 30), (20, 90), (-30, 45), (-5, 20)];
    let reversed: Vec<(i64, i64)> = coordinates.iter().rev().cloned().collect();
    for o in [outline(&coordinates), outline(&reversed)] {
        for x in (-60..=130).step_by(7) {
            for y in (-40..=120).step_by(7) {
                let p = Vector2::new(x, y);
                let hit = o.find_closest_surface_point(p).unwrap();
                let SurfacePoint::Edge { numerator, denominator, .. } = hit else {
                    panic!("an outline has no rim");
                };
                if numerator == 0 || numerator == denominator {
                    continue;
                }
                // A small step from the middle of an edge along the normal leaves
                // the polygon; this outline is simple, and its edges are long.
                let (surface, unit) = on_outline(&o, hit);
                let step = (
                    (surface.0 * 1000.0 + unit.0 * 10.0).round() as i64,
                    (surface.1 * 1000.0 + unit.1 * 10.0).round() as i64,
                );
                let fine: Vec<Vector2> =
                    o.vertices().iter().map(|v| Vector2::new(v.x * 1000, v.y * 1000)).collect();
                let fine = Outline::new(fine).unwrap();
                if numerator * 10 > denominator && numerator * 10 < denominator * 9 {
                    assert!(!fine.contains_point(Vector2::new(step.0, step.1)));
                }
            }
        }
    }
}

#[test]
fn shape_closest_point_of_both_variants() {
    let rotor = Rotor::identity();
    let disk = ShapeType::Circle(Circle::new(Vector2::new(0, 0), 5, INK).unwrap());
    assert_eq!(
        disk.find_closest_surface_point(&rotor, Vector2::new(10, 0)),
        Ok(SurfacePoint::Rim { normal: Vector2::new(10, 0) })
    );
    let vertices =
        vec![Vector2::new(-2, -2), Vector2::new(2, -2), Vector2::new(2, 2), Vector2::new(-2, 2)];
    let square = ShapeType::Polygon(Polygon::new(vertices, Vector2::new(10, 10), 0, INK).unwrap());
    assert_eq!(
        square.find_closest_surface_point(&rotor, Vector2::new(11, 3)),
        Ok(SurfacePoint::Edge {
            edge: 0,
            numerator: 12,
            denominator: 16,
            normal: Vector2::new(0, -4)
        })
    );
    for shape in [disk, square] {
        assert_eq!(
            shape.find_closest_surface_point(&rotor, Vector2::new(QUERY_LIMIT + 1, 0)),
            Err(ShapeError::OutOfRange)
        );
    }
}

#[test]
fn shape_closest_point_of_a_turned_polygon() {
    let vertices =
        vec![Vector2::new(-30, -10), Vector2::new(30, -10), Vector2::new(30, 10), Vector2::new(-30, 10)];
    let bar = ShapeType::Polygon(Polygon::new(vertices, Vector2::new(100, 100), 0, INK).unwrap());
    let upright = Rotor::new(0, 1_073_741_824).unwrap();
    // Turned by a quarter, the bar's first edge runs from (110, 70) to (110, 130).
    assert_eq!(
        bar.find_closest_surface_point(&upright, Vector2::new(150, 100)),
        Ok(SurfacePoint::Edge {
            edge: 0,
            numerator: 1800,
            denominator: 3600,
            normal: Vector2::new(60, 0)
        })
    );
}
