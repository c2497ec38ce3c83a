//! Engine configuration recognized by the search and the self-play driver.

use vstd::prelude::*;

verus! {

/// Largest accepted exploration constant, in `1/256` units (i.e. 16.0).
pub const CPUCT_MAX: u32 = 4096;

/// Engine options. Fractional options are fixed-point: `cpuct_value` and
/// `material_reduction_bonus` are in `1/256` units.
#[derive(Clone, Copy, PartialEq, Eq, Structural, Debug)]
pub struct EngineOptions {
    pub threads: u32,
    pub cpuct_value: u32,
    pub material_reduction_bonus: u32,
    pub multi_pv: u32,
    pub hash_bytes: usize,
    pub tree_bytes: usize,
}

impl EngineOptions {
    /// Options are usable when at least one worker runs, the exploration
    /// constant stays within the range the selection arithmetic supports,
    /// and the memory sizes fit what the cache and the arena accept.
    pub open spec fn wf(self) -> bool {
        &&& self.threads >= 1
        &&& self.cpuct_value <= CPUCT_MAX
        &&& self.material_reduction_bonus <= 0xFFFF
        &&& 8 <= self.hash_bytes < 0x8_0000_0000
        &&& self.tree_bytes >= 1
    }

    /// Defaults: one thread, `cpuct = 1.41`, no material bonus, one PV,
    /// a 16 MiB cache and a 64 MiB tree.
    pub fn new() -> (o: EngineOptions)
        ensures
            o == (EngineOptions {
                threads: 1u32,
                cpuct_value: 361u32,
                material_reduction_bonus: 0u32,
                multi_pv: 1u32,
                hash_bytes: 0x100_0000usize,
                tree_bytes: 0x400_0000usize,
            }),
            o.wf(),
    {
        EngineOptions {
            threads: 1,
            cpuct_value: 361,
            material_reduction_bonus: 0,
            multi_pv: 1,
            hash_bytes: 0x100_0000,
            tree_bytes: 0x400_0000,
        }
    }
}

} // verus!
