use physics_sandbox::physics::outline::{Outline, OUTLINE_LIMIT};
use physics_sandbox::physics::shape::{ShapeError, MAX_VERTICES};
use physics_sandbox::utils::vector2::Vector2;

fn outline(coordinates: &[(i64, i64)]) -> Outline {
    Outline::new(coordinates.iter().map(|&(x, y)| Vector2::new(x, y)).collect()).unwrap()
}

#[test]
fn outline_new_checks_its_vertices() {
    assert_eq!(Outline::new(vec![]).err(), Some(ShapeError::TooFewVertices));
    assert_eq!(
        Outline::new(vec![Vector2::new(0, 0), Vector2::new(1, 0)]).err(),
        Some(ShapeError::TooFewVertices)
    );
    let many: Vec<Vector2> = (0..MAX_VERTICES as i64 + 1).map(|i| Vector2::new(i, 0)).collect();
    assert_eq!(Outline::new(many).err(), Some(ShapeError::TooManyVertices));
    assert_eq!(
        Outline::new(vec![
            Vector2::new(0, 0),
            Vector2::new(OUTLINE_LIMIT + 1, 0),
            Vector2::new(0, 1)
        ])
        .err(),
        Some(ShapeError::OutOfRange)
    );
    let widest = outline(&[(-OUTLINE_LIMIT, 0), (OUTLINE_LIMIT, 0), (0, OUTLINE_LIMIT)]);
    assert_eq!(widest.vertices().len(), 3);
}

#[test]
fn outline_aabb_is_min_and_max() {
    let o = outline(&[(3, -2), (9, 4), (-1, 7), (2, 2)]);
    let b = o.get_aabb();
    assert_eq!(b.top_left(), Vector2::new(-1, -2));
    assert_eq!(b.bottom_right(), Vector2::new(9, 7));
}

#[test]
fn outline_aabb_of_a_flat_outline() {
    let o = outline(&[(5, 5), (5, 5), (5, 5)]);
    let b = o.get_aabb();
    assert_eq!(b.top_left(), Vector2::new(5, 5));
    assert_eq!(b.bottom_right(), Vector2::new(5, 5));
}

#[test]
fn outline_contains_points_of_a_square() {
    let o = outline(&[(0, 0), (4, 0), (4, 4), (0, 4)]);
    assert!(o.contains_point(Vector2::new(2, 2)));
    assert!(o.contains_point(Vector2::new(1, 3)));
    assert!(!o.contains_point(Vector2::new(5, 2)));
    assert!(!o.contains_point(Vector2::new(-1, 2)));
    assert!(!o.contains_point(Vector2::new(2, 5)));
    assert!(!o.contains_point(Vector2::new(2, -1)));
    assert!(!o.contains_point(Vector2::new(i64::MAX, 2)));
    assert!(!o.contains_point(Vector2::new(i64::MIN, 2)));
    assert!(!o.contains_point(Vector2::new(2, i64::MAX)));
}

#[test]
fn outline_edges_belong_to_one_side() {
    // An edge holds its lower end and not its upper end, so that polygons
    // that share an edge share no point.
    let o = outline(&[(0, 0), (4, 0), (4, 4), (0, 4)]);
    assert!(o.contains_point(Vector2::new(0, 2)));
    assert!(!o.contains_point(Vector2::new(4, 2)));
    assert!(o.contains_point(Vector2::new(2, 0)));
    assert!(!o.contains_point(Vector2::new(2, 4)));
    assert!(o.contains_point(Vector2::new(0, 0)));
    assert!(!o.contains_point(Vector2::new(4, 4)));
}

#[test]
fn outline_contains_does_not_depend_on_the_winding() {
    let one = outline(&[(0, 0), (4, 0), (0, 3)]);
    let other = outline(&[(0, 3), (4, 0), (0, 0)]);
    for x in -1..=5 {
        for y in -1..=4 {
            let p = Vector2::new(x, y);
            assert_eq!(one.contains_point(p), other.contains_point(p));
        }
    }
    assert!(one.contains_point(Vector2::new(1, 1)));
    assert!(!one.contains_point(Vector2::new(3, 3)));
}

#[test]
fn outline_contains_points_of_a_concave_polygon() {
    // An L: the notch at the upper right is outside.
    let o = outline(&[(0, 0), (4, 0), (4, 2), (2, 2), (2, 4), (0, 4)]);
    assert!(o.contains_point(Vector2::new(1, 1)));
    assert!(o.contains_point(Vector2::new(3, 1)));
    assert!(o.contains_point(Vector2::new(1, 3)));
    assert!(!o.contains_point(Vector2::new(3, 3)));
}

#[test]
fn outline_points_inside_are_inside_its_aabb() {
    let o = outline(&[(0, 0), (7, 1), (5, 6), (2, 3), (-3, 5)]);
    let b = o.get_aabb();
    let mut inside = 0;
    for x in -6..=10 {
        for y in -3..=9 {
            let p = Vector2::new(x, y);
            if o.contains_point(p) {
                inside += 1;
                assert!(b.contains_point(p));
            }
        }
    }
    assert!(inside > 0);
}

#[test]
fn outline_aabb_and_containment_follow_a_move() {
    let base = [(0, 0), (7, 1), (5, 6), (2, 3), (-3, 5)];
    let moved: Vec<(i64, i64)> = base.iter().map(|&(x, y)| (x + 100, y - 50)).collect();
    let o = outline(&base);
    let m = outline(&moved);
    let delta = Vector2::new(100, -50);
    assert_eq!(m.get_aabb().top_left(), o.get_aabb().top_left().add(delta).unwrap());
    assert_eq!(m.get_aabb().bottom_right(), o.get_aabb().bottom_right().add(delta).unwrap());
    for x in -6..=10 {
        for y in -3..=9 {
            let p = Vector2::new(x, y);
            assert_eq!(o.contains_point(p), m.contains_point(p.add(delta).unwrap()));
        }
    }
}
