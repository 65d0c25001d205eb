use physics_sandbox::utils::vector2::Vector2;

#[test]
fn vector_new_keeps_components() {
    let v = Vector2::new(3, -4);
    assert_eq!(v.x, 3);
    assert_eq!(v.y, -4);
    assert_eq!(v, Vector2 { x: 3, y: -4 });
}

#[test]
fn vector_add_and_subtract() {
    let a = Vector2::new(3, -4);
    let b = Vector2::new(10, 20);
    assert_eq!(a.add(b), Some(Vector2::new(13, 16)));
    assert_eq!(a.subtract(b), Some(Vector2::new(-7, -24)));
    assert_eq!(b.subtract(a), Some(Vector2::new(7, 24)));
}

#[test]
fn vector_add_refuses_overflow() {
    let big = Vector2::new(i64::MAX, 0);
    assert_eq!(big.add(Vector2::new(1, 0)), None);
    assert_eq!(big.add(Vector2::new(0, 1)), Some(Vector2::new(i64::MAX, 1)));
    let low = Vector2::new(0, i64::MIN);
    assert_eq!(low.subtract(Vector2::new(0, 1)), None);
    assert_eq!(low.add(Vector2::new(0, -1)), None);
}

#[test]
fn vector_scale() {
    let v = Vector2::new(3, -4);
    assert_eq!(v.scale(5), Some(Vector2::new(15, -20)));
    assert_eq!(v.scale(0), Some(Vector2::new(0, 0)));
    assert_eq!(v.scale(-1), Some(Vector2::new(-3, 4)));
    assert_eq!(Vector2::new(i64::MAX, 1).scale(2), None);
    assert_eq!(Vector2::new(i64::MIN, 0).scale(-1), None);
}

#[test]
fn vector_dot() {
    let a = Vector2::new(3, -4);
    let b = Vector2::new(10, 20);
    assert_eq!(a.dot(b), Some(30 - 80));
    assert_eq!(a.dot(a), Some(25));
    assert_eq!(Vector2::new(1, 0).dot(Vector2::new(0, 1)), Some(0));
}

#[test]
fn vector_dot_refuses_what_does_not_fit() {
    let far = Vector2::new(i64::MIN, i64::MIN);
    assert_eq!(far.dot(far), None);
    let wide = Vector2::new(1 << 40, 0);
    assert_eq!(wide.dot(wide), None);
    // Two products that do not fit may still cancel.
    let a = Vector2::new(1 << 40, 1 << 40);
    let b = Vector2::new(1 << 40, -(1 << 40));
    assert_eq!(a.dot(b), Some(0));
}

#[test]
fn vector_length_squared() {
    assert_eq!(Vector2::new(3, -4).length_squared(), 25);
    assert_eq!(Vector2::new(0, 0).length_squared(), 0);
    assert_eq!(Vector2::new(i64::MIN, i64::MIN).length_squared(), 1u128 << 127);
}

#[test]
fn vector_is_within() {
    let v = Vector2::new(3, -4);
    assert!(v.is_within(4));
    assert!(!v.is_within(3));
    assert!(!v.is_within(-1));
    assert!(Vector2::new(0, 0).is_within(0));
    assert!(Vector2::new(i64::MIN + 1, i64::MAX).is_within(i64::MAX));
    assert!(!Vector2::new(i64::MIN, 0).is_within(i64::MAX));
}
