//! Discrete-event simulation of a finite-capacity loss system.
//!
//! A pool of `v` identical resource units accepts calls that arrive from a
//! renewal stream and hold one unit for a random service duration.  The crate
//! fits arrival and service distributions from an intensity and a shape
//! parameter, advances the event agenda, records per-occupancy statistics,
//! and aggregates independent series into mean and standard deviation.
//!
//! Every continuous quantity (times, rates, probabilities, shape parameters)
//! is held in fixed point: an integer count of millionths.  Random sampling
//! and all input/output stay outside this crate; the simulation step takes
//! the sampled intervals as plain arguments.

use vstd::prelude::*;

pub mod math;
pub mod model;
pub mod simulator;

verus! {

/// Fixed-point scale: one unit is `SCALE` micro-units.
pub const SCALE: u64 = 1_000_000;

} // verus!
