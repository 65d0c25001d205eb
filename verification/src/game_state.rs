//! The screens in front of the simulation.

pub mod main_state;
