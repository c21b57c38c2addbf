//! Three-body gravitational simulation.
//!
//! A deterministic forward-Euler integrator for three point masses under
//! mutual Newtonian attraction.  Every scalar is an IEEE 754 binary64 value
//! carried as its 64-bit pattern; the arithmetic is software floating point
//! (see `fp`), so a run is a pure function of its inputs.  The integrator
//! and its driver live in `sim`.

mod fp;
pub mod sim;
