//! Memory figures of the machine in megabytes.
use vstd::prelude::*;

verus! {

/// Total and available memory, in megabytes.
#[derive(Clone, Copy, Debug, PartialEq, Eq, Structural)]
pub struct MemoryInfo {
    pub total_mb: u64,
    pub available_mb: u64,
}

/// The divisor that turns a raw figure into megabytes: raw figures above 10^9
/// are bytes, smaller ones kilobytes.
pub open spec fn memory_divisor(total_raw: u64) -> u64 {
    if total_raw > 1_000_000_000 { 1048576 } else { 1024 }
}

/// Converts raw memory figures into megabytes.
pub fn memory_info_from_raw(total_raw: u64, available_raw: u64) -> (r: MemoryInfo)
    ensures
        r.total_mb == total_raw / memory_divisor(total_raw),
        r.available_mb == available_raw / memory_divisor(total_raw),
{
    let divisor: u64 = if total_raw > 1_000_000_000 { 1024 * 1024 } else { 1024 };
    MemoryInfo { total_mb: total_raw / divisor, available_mb: available_raw / divisor }
}

} // verus!
