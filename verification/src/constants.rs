use vstd::prelude::*;

verus! {

/// Number of integration sub-steps per frame when a scenario starts
/// (with the default 15 minute timestep this is one simulated day per second).
pub const DEFAULT_SUB_STEPS: i32 = 4 * 24;

} // verus!
