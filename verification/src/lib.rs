//! Adaptive explicit Runge-Kutta integration of first-order ordinary
//! differential equations, with dense output and stiffness detection.
//!
//! All state is carried in an exact fixed-point scalar type, so every part of
//! the stepping engine, the step-size controller and the interpolant is open
//! to verification; conversion to and from machine floating point is left to
//! unverified adapter code outside this crate.

pub mod controller;
pub mod dop_shared;
pub mod dopri5;
pub mod power;
pub mod scalar;
pub mod tableau;
pub mod systems;
pub mod vector;

pub use dop_shared::{IntegrationError, OutputType, Stats, System};
pub use dopri5::Dopri5;
pub use scalar::Scalar;
