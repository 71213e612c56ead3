//! Simulation controls of a molecular-dynamics engine: the `Control`
//! capability run once per integration step, the `Alternator` that runs a
//! control every Nth step only, and the reading of interaction input.

pub mod control;
pub mod input;
