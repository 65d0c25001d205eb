//! Value types shared by every other module.

pub mod vector2;
pub mod fraction;
