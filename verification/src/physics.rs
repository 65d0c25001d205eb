//! Shapes, their bounding boxes and the queries on them.

pub mod shape;
pub mod collision;
pub mod circle;
pub mod polygon;
pub mod rotor;
pub mod surface;
pub mod outline;
pub mod shape_type;
