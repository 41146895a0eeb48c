//! Host capacity inputs to the workspace resource policy.

use vstd::prelude::*;

verus! {

/// One gibibyte.
pub const GIB: u64 = 1024 * 1024 * 1024;

/// Stable, cheap process-wide capacity signals.
#[derive(Clone, Copy, Debug, PartialEq, Eq, Structural)]
pub struct SystemResources {
    pub physical_memory_bytes: u64,
    pub logical_cpus: u16,
    pub low_power_mode: bool,
}

/// Physical memory and low-power mode where no platform adapter reports them:
/// a conservative 8 GiB, not in low-power mode.
pub fn platform_capacity() -> (capacity: (u64, bool))
    ensures
        capacity.0 == 8 * GIB,
        !capacity.1,
{
    (8 * GIB, false)
}

/// The capacity snapshot taken at startup from the platform's reported
/// parallelism (`None` when it could not tell): at least one and at most
/// `u16::MAX` logical CPUs.
pub fn detect(available_parallelism: Option<usize>, capacity: (u64, bool)) -> (resources: SystemResources)
    ensures
        resources.logical_cpus == (match available_parallelism {
            Some(count) => if count > u16::MAX as usize {
                u16::MAX as int
            } else {
                count as int
            },
            None => 1,
        }),
        resources.physical_memory_bytes == capacity.0,
        resources.low_power_mode == capacity.1,
{
    let count = match available_parallelism {
        Some(count) => count,
        None => 1,
    };
    let logical_cpus: u16 = if count > u16::MAX as usize {
        u16::MAX
    } else {
        count as u16
    };
    SystemResources {
        physical_memory_bytes: capacity.0,
        logical_cpus,
        low_power_mode: capacity.1,
    }
}

} // verus!
