use physics_sandbox::physics::rotor::{Rotor, ROTOR_SCALE};
use physics_sandbox::physics::shape::ShapeError;

#[test]
fn rotor_identity_is_one_and_zero() {
    let r = Rotor::identity();
    assert_eq!(r.cos(), ROTOR_SCALE);
    assert_eq!(r.sin(), 0);
}

#[test]
fn rotor_new_accepts_unit_directions() {
    assert!(Rotor::new(ROTOR_SCALE, 0).is_ok());
    assert!(Rotor::new(0, -ROTOR_SCALE).is_ok());
    assert!(Rotor::new(-ROTOR_SCALE, 0).is_ok());
    let r = Rotor::new(759_250_125, -759_250_125).unwrap();
    assert_eq!(r.cos(), 759_250_125);
    assert_eq!(r.sin(), -759_250_125);
    // cos 30° and sin 30°, rounded.
    assert!(Rotor::new(929_887_697, 536_870_912).is_ok());
}

#[test]
fn rotor_new_accepts_every_rounded_angle() {
    for step in 0..3600 {
        let angle = step as f64 * std::f64::consts::PI / 1800.0;
        let cos = (angle.cos() * ROTOR_SCALE as f64).round() as i64;
        let sin = (angle.sin() * ROTOR_SCALE as f64).round() as i64;
        assert!(Rotor::new(cos, sin).is_ok());
    }
}

#[test]
fn rotor_new_refuses_what_is_no_direction() {
    assert_eq!(Rotor::new(0, 0).err(), Some(ShapeError::NotUnit));
    assert_eq!(Rotor::new(1, 0).err(), Some(ShapeError::NotUnit));
    assert_eq!(Rotor::new(ROTOR_SCALE, ROTOR_SCALE).err(), Some(ShapeError::NotUnit));
    assert_eq!(Rotor::new(ROTOR_SCALE + 1, 0).err(), Some(ShapeError::NotUnit));
    assert_eq!(Rotor::new(ROTOR_SCALE - 2, 0).err(), Some(ShapeError::NotUnit));
    assert_eq!(Rotor::new(i64::MAX, 0).err(), Some(ShapeError::NotUnit));
    assert_eq!(Rotor::new(0, i64::MIN).err(), Some(ShapeError::NotUnit));
    assert_eq!(Rotor::new(i64::MIN, i64::MIN).err(), Some(ShapeError::NotUnit));
}

#[test]
fn rotor_new_allows_the_rounding_of_one_unit() {
    assert!(Rotor::new(ROTOR_SCALE - 1, 0).is_ok());
    assert!(Rotor::new(ROTOR_SCALE, 1).is_ok());
}
