//! Float-free core of a fixed-timestep gravitational N-body stepper: the
//! schedule of body pairs that the force phase visits, why the forces it
//! applies cancel out over all bodies, the order of the three phases of a
//! tick, and the fixed-timestep clock that decides how many ticks a frame runs
//! and how long each integration step is.

pub mod balance;
pub mod phase;
pub mod schedule;
pub mod timestep;
