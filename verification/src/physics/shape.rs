//! What every shape shares: the coordinate range, the color attribute and
//! the reasons for which a shape is refused.

use vstd::prelude::*;

verus! {

/// The largest magnitude of a center coordinate, of a vertex coordinate
/// relative to its center, and of a radius.
pub const COORD_LIMIT: i64 = 16_777_216;

/// The largest number of vertices of a polygon.
pub const MAX_VERTICES: usize = 65_536;

/// A display color: red, green, blue and opacity, each from 0 to 255.
/// No geometric query reads it.
#[derive(Clone, Copy, Debug, PartialEq, Eq, Structural)]
pub struct Color {
    pub red: u8,
    pub green: u8,
    pub blue: u8,
    pub alpha: u8,
}

/// Why a shape, a box or a change to a shape was refused.
#[derive(Clone, Copy, Debug, PartialEq, Eq, Structural)]
pub enum ShapeError {
    /// A radius that is zero or negative.
    InvalidRadius,
    /// A polygon of fewer than three vertices.
    TooFewVertices,
    /// A polygon of more than `MAX_VERTICES` vertices.
    TooManyVertices,
    /// A scale ratio that is zero or negative.
    InvalidScale,
    /// A coordinate, radius or angle beyond what the shape can hold.
    OutOfRange,
    /// A box whose first corner lies right of or below its second.
    MalformedBox,
    /// A cosine and a sine that are not those of one angle.
    NotUnit,
}

/// An exact area: `pi_part` times π plus `halves` times one half, in
/// square units.
#[derive(Clone, Copy, Debug, PartialEq, Eq, Structural)]
pub struct Area {
    pub pi_part: u128,
    pub halves: u128,
}

/// An exact area, as contracts see it.
pub struct AreaModel {
    pub pi_part: nat,
    pub halves: nat,
}

impl AreaModel {
    /// The area multiplied by `factor`.
    pub open spec fn times(self, factor: nat) -> AreaModel {
        AreaModel { pi_part: self.pi_part * factor, halves: self.halves * factor }
    }
}

impl View for Area {
    type V = AreaModel;

    open spec fn view(&self) -> AreaModel {
        AreaModel { pi_part: self.pi_part as nat, halves: self.halves as nat }
    }
}

/// An exact second moment of area about a shape's center, at unit density:
/// `pi_quarters` times π/4 plus `twelfths` times one twelfth.
#[derive(Clone, Copy, Debug, PartialEq, Eq, Structural)]
pub struct Moment {
    pub pi_quarters: u128,
    pub twelfths: u128,
}

/// An exact second moment, as contracts see it.
pub struct MomentModel {
    pub pi_quarters: nat,
    pub twelfths: nat,
}

impl View for Moment {
    type V = MomentModel;

    open spec fn view(&self) -> MomentModel {
        MomentModel { pi_quarters: self.pi_quarters as nat, twelfths: self.twelfths as nat }
    }
}

} // verus!
