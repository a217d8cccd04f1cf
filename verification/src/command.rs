//! Commands sent from the sweep driver to the CPU sampler.

use vstd::prelude::*;

verus! {

/// A message on the control channel of the CPU sampler. Commands are
/// transient: the sampler acts on each one and keeps none.
#[derive(Clone, Copy, Debug, PartialEq, Eq, Structural)]
pub enum CPUStatsCommand {
    /// Begin recording one row per tick.
    Start,
    /// Stop recording; the sampler keeps polling.
    Stop,
    /// Flush the trace and leave the sampling loop for good.
    Abort,
}

} // verus!
