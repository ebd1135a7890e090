//! Run configuration for the simulation core.
//!
//! Only the values themselves live here; loading them from disk is the
//! caller's business.

use vstd::prelude::*;

verus! {

/// The configuration a run is driven by: how many processes take part, the
/// encoded-clock bit threshold that terminates the run, the mantissa
/// precision used for all log-domain arithmetic, and the per-event receive
/// timeout in milliseconds.
#[derive(Debug, Clone, Copy, PartialEq, Eq, Structural)]
pub struct Config {
    pub num_processes: usize,
    pub max_bits: u32,
    pub float_precision: u32,
    pub timeout: u64,
}

impl Config {
    /// A configuration the core can run with: at least two processes (with
    /// one process no message can ever be routed and no pair can form), and
    /// a usable mantissa precision.
    pub open spec fn valid(self) -> bool {
        &&& self.num_processes >= 2
        &&& self.float_precision >= 2
    }

    /// Runtime check mirroring `valid`, for callers outside the library.
    pub fn is_valid(&self) -> (r: bool)
        ensures
            r == self.valid(),
    {
        self.num_processes >= 2 && self.float_precision >= 2
    }
}

} // verus!
