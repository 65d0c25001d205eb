//! The direction of an angle, in fixed point: what turns a polygon's
//! vertices without leaving integer arithmetic.
//!
//! Cosine and sine are not lattice functions, so the caller evaluates them
//! for the angle of a shape and hands them over as a `Rotor`; turning and
//! rounding are done here, exactly.

use vstd::prelude::*;
use crate::physics::shape::{ShapeError, COORD_LIMIT};
use crate::utils::vector2::{Point, Vector2};

verus! {

/// The integer that stands for the number 1 in a `Rotor`.
pub const ROTOR_SCALE: i64 = 1_073_741_824;

/// The integer nearest to `scaled / ROTOR_SCALE`; a tie goes up.
pub open spec fn nearest(scaled: int) -> int {
    (scaled + ROTOR_SCALE / 2) / (ROTOR_SCALE as int)
}

/// A rotor, as contracts see it: `ROTOR_SCALE` times the cosine and the
/// sine of an angle.
pub struct RotorModel {
    pub cos: int,
    pub sin: int,
}

impl RotorModel {
    /// `cos² + sin²` differs from `ROTOR_SCALE²` by at most twice
    /// `ROTOR_SCALE`. The cosine and sine of every angle, each rounded to
    /// the nearest integer, pass.
    pub open spec fn valid(self) -> bool {
        let drift = self.cos * self.cos + self.sin * self.sin - ROTOR_SCALE * ROTOR_SCALE;
        -2 * ROTOR_SCALE <= drift <= 2 * ROTOR_SCALE
    }

    /// `v` turned about the origin, each coordinate rounded to the nearest
    /// integer: `(x·cos − y·sin, x·sin + y·cos) / ROTOR_SCALE`.
    pub open spec fn turned(self, v: Point) -> Point {
        Point {
            x: nearest(self.cos * v.x - self.sin * v.y),
            y: nearest(self.sin * v.x + self.cos * v.y),
        }
    }

    /// The rotor of the angle zero.
    pub open spec fn identity() -> RotorModel {
        RotorModel { cos: ROTOR_SCALE as int, sin: 0 }
    }
}

/// A unit direction in fixed point.
#[derive(Clone, Copy, Debug)]
pub struct Rotor {
    cos: i64,
    sin: i64,
}

impl View for Rotor {
    type V = RotorModel;

    closed spec fn view(&self) -> RotorModel {
        RotorModel { cos: self.cos as int, sin: self.sin as int }
    }
}

impl Rotor {
    /// Every `Rotor` is valid.
    #[verifier::type_invariant]
    pub open spec fn inv(&self) -> bool {
        self@.valid()
    }

    /// The rotor with the given cosine and sine, both times `ROTOR_SCALE`.
    /// Refused as `NotUnit` exactly when the two are not the coordinates
    /// of a unit vector, up to rounding.
    pub fn new(cos: i64, sin: i64) -> (r: Result<Rotor, ShapeError>)
        ensures
            r is Ok <==> (RotorModel { cos: cos as int, sin: sin as int }).valid(),
            r matches Ok(rotor) ==> rotor@ == (RotorModel { cos: cos as int, sin: sin as int }),
            r matches Err(e) ==> e == ShapeError::NotUnit,
    {
        let scale: i128 = ROTOR_SCALE as i128;
        let c: i128 = cos as i128;
        let s: i128 = sin as i128;
        if c < -scale || c > scale || s < -scale || s > scale {
            proof {
                let model = RotorModel { cos: cos as int, sin: sin as int };
                if model.valid() {
                    lemma_valid_rotor_is_bounded(model);
                }
            }
            return Err(ShapeError::NotUnit);
        }
        assert(0 <= c * c <= 0x1000_0000_0000_0000 && 0 <= s * s <= 0x1000_0000_0000_0000)
            by (nonlinear_arith)
            requires
                -0x4000_0000 <= c <= 0x4000_0000,
                -0x4000_0000 <= s <= 0x4000_0000,
        ;
        let drift: i128 = c * c + s * s - scale * scale;
        if -2 * scale <= drift && drift <= 2 * scale {
            Ok(Rotor { cos, sin })
        } else {
            Err(ShapeError::NotUnit)
        }
    }

    /// The rotor of the angle zero, which turns nothing.
    pub fn identity() -> (r: Rotor)
        ensures
            r@ == RotorModel::identity(),
    {
        Rotor { cos: ROTOR_SCALE, sin: 0 }
    }

    /// `ROTOR_SCALE` times the cosine.
    pub fn cos(&self) -> (c: i64)
        ensures
            c == self@.cos,
    {
        self.cos
    }

    /// `ROTOR_SCALE` times the sine.
    pub fn sin(&self) -> (s: i64)
        ensures
            s == self@.sin,
    {
        self.sin
    }

    /// `v` turned about the origin and rounded to the lattice.
    pub(crate) fn turn(&self, v: Vector2) -> (r: Vector2)
        requires
            v@.within(COORD_LIMIT as int),
        ensures
            r@ == self@.turned(v@),
            r@.within(2 * COORD_LIMIT + 1),
    {
        proof {
            use_type_invariant(self);
            lemma_valid_rotor_is_bounded(self@);
        }
        let c: i64 = self.cos;
        let s: i64 = self.sin;
        assert(-0x40_0000_0000_0000 <= c * v.x <= 0x40_0000_0000_0000 && -0x40_0000_0000_0000
            <= s * v.y <= 0x40_0000_0000_0000 && -0x40_0000_0000_0000 <= s * v.x
            <= 0x40_0000_0000_0000 && -0x40_0000_0000_0000 <= c * v.y <= 0x40_0000_0000_0000)
            by (nonlinear_arith)
            requires
                -0x4000_0000 <= c <= 0x4000_0000,
                -0x4000_0000 <= s <= 0x4000_0000,
                -0x100_0000 <= v.x <= 0x100_0000,
                -0x100_0000 <= v.y <= 0x100_0000,
        ;
        Vector2 { x: round_to_lattice(c * v.x - s * v.y), y: round_to_lattice(s * v.x + c * v.y) }
    }
}

/// `scaled / ROTOR_SCALE`, rounded to the nearest integer.
fn round_to_lattice(scaled: i64) -> (r: i64)
    requires
        -0x80_0000_0000_0000 <= scaled <= 0x80_0000_0000_0000,
    ensures
        r == nearest(scaled as int),
        -(2 * COORD_LIMIT + 1) <= r <= 2 * COORD_LIMIT + 1,
{
    // Shifted by a multiple of the scale, the dividend is positive.
    let lifted: i64 = scaled + ROTOR_SCALE / 2 + 0x100_0000_0000_0000;
    lifted / ROTOR_SCALE - 0x400_0000
}

/// In a valid rotor neither cosine nor sine exceeds `ROTOR_SCALE`.
pub proof fn lemma_valid_rotor_is_bounded(rotor: RotorModel)
    requires
        rotor.valid(),
    ensures
        -ROTOR_SCALE <= rotor.cos <= ROTOR_SCALE,
        -ROTOR_SCALE <= rotor.sin <= ROTOR_SCALE,
{
    let c = rotor.cos;
    let s = rotor.sin;
    assert(-0x4000_0000 <= c <= 0x4000_0000 && -0x4000_0000 <= s <= 0x4000_0000)
        by (nonlinear_arith)
        requires
            c * c + s * s - 0x4000_0000 * 0x4000_0000 <= 2 * 0x4000_0000,
    ;
}

/// The rotor of the angle zero leaves every vector as it is.
pub proof fn lemma_identity_turns_nothing(v: Point)
    ensures
        RotorModel::identity().valid(),
        RotorModel::identity().turned(v) == v,
{
    assert(ROTOR_SCALE * v.x - 0 * v.y == 0x4000_0000 * v.x);
    assert(0 * v.x + ROTOR_SCALE * v.y == 0x4000_0000 * v.y);
}

} // verus!
