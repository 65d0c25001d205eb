use physics_sandbox::physics::collision::AABB;
use physics_sandbox::physics::shape::ShapeError;
use physics_sandbox::utils::vector2::Vector2;

fn aabb(left: i64, top: i64, right: i64, bottom: i64) -> AABB {
    AABB::new(Vector2::new(left, top), Vector2::new(right, bottom)).unwrap()
}

#[test]
fn overlapping_boxes_overlap() {
    let a = aabb(0, 0, 2, 2);
    let b = aabb(1, 1, 3, 3);
    assert!(a.overlaps(&b));
    assert!(b.overlaps(&a));
}

#[test]
fn distant_boxes_do_not_overlap() {
    let a = aabb(0, 0, 1, 1);
    let b = aabb(5, 5, 6, 6);
    assert!(!a.overlaps(&b));
    assert!(!b.overlaps(&a));
}

#[test]
fn boxes_that_touch_overlap() {
    let a = aabb(0, 0, 2, 2);
    assert!(a.overlaps(&aabb(2, 2, 4, 4)));
    assert!(a.overlaps(&aabb(2, 0, 4, 2)));
    assert!(!a.overlaps(&aabb(3, 0, 4, 2)));
    assert!(a.overlaps(&a));
}

#[test]
fn boxes_apart_on_one_axis_do_not_overlap() {
    let a = aabb(0, 0, 2, 2);
    assert!(!a.overlaps(&aabb(0, 3, 2, 5)));
    assert!(!a.overlaps(&aabb(-5, 0, -1, 2)));
}

#[test]
fn box_corners_must_be_in_order() {
    assert_eq!(
        AABB::new(Vector2::new(1, 0), Vector2::new(0, 5)),
        Err(ShapeError::MalformedBox)
    );
    assert_eq!(
        AABB::new(Vector2::new(0, 6), Vector2::new(5, 5)),
        Err(ShapeError::MalformedBox)
    );
    let flat = AABB::new(Vector2::new(1, 1), Vector2::new(1, 1)).unwrap();
    assert_eq!(flat.top_left(), Vector2::new(1, 1));
    assert_eq!(flat.bottom_right(), Vector2::new(1, 1));
}

#[test]
fn box_contains_its_edges() {
    let a = aabb(0, 0, 2, 3);
    assert!(a.contains_point(Vector2::new(0, 0)));
    assert!(a.contains_point(Vector2::new(2, 3)));
    assert!(a.contains_point(Vector2::new(1, 2)));
    assert!(!a.contains_point(Vector2::new(3, 3)));
    assert!(!a.contains_point(Vector2::new(1, -1)));
}

#[test]
fn overlap_means_a_common_point() {
    let a = aabb(0, 0, 2, 2);
    let b = aabb(1, 1, 3, 3);
    let common = Vector2::new(1, 1);
    assert!(a.overlaps(&b));
    assert!(a.contains_point(common) && b.contains_point(common));
}
