//! Exact two-dimensional shape geometry on the integer lattice, and the
//! decisions of the main menu that sits in front of it.
//!
//! Every coordinate, radius and angle is a whole number of caller-chosen
//! units, so every result is exact and every contract is stated over
//! mathematical integers. What has no exact lattice value is returned in
//! exact form: an area as a multiple of π plus a number of halves, a
//! nearest surface point by the edge it lies on and a fraction of the way
//! along it. Cosine and sine are not lattice functions; a caller that
//! turns a polygon hands over the direction of its angle as a `Rotor`.
//!
//! No function here panics, and none asks anything of its caller: what
//! cannot be represented is refused with a `ShapeError`.

#![allow(unused_imports)]

pub mod utils;
pub mod physics;
pub mod game_state;
