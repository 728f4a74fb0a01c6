use vstd::prelude::*;

pub mod channel;
pub mod generator;
pub mod manager;
pub mod pipeline;
pub mod point;
pub mod receiver;
pub mod reporter;
pub mod tally;

verus! {

/// The total number of samples to take.
pub const NUM_POINTS: usize = 10_000_000;

} // verus!
