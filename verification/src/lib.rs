//! A discrete-time simulator of a damped, driven elastic medium: a lattice of
//! point masses joined by linear springs, in one and two dimensions, with a
//! tracer-particle advection scheme that makes standing-wave nodal patterns
//! visible (a Chladni-plate analogue).
//!
//! Scalars are saturating fixed-point numbers (`fixed::Fx`), so every step of
//! the dynamics has an exact mathematical model. The embedding host evaluates
//! the sinusoidal forcing function and hands each step its current value.

pub mod fixed;
pub mod point;
pub mod lattice1d;
pub mod lattice2d;
pub mod interp;
pub mod particles;
