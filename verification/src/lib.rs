use vstd::prelude::*;

pub mod cpu;
pub mod decimal;
pub mod gpu;
pub mod report;
pub mod uptime;

verus! {

/// Converts a byte count to whole mebibytes, discarding the remainder.
pub fn bytes_to_mib(bytes: u64) -> (r: u64)
    ensures
        r as int == bytes as int / 1048576int,
{
    bytes / (1024 * 1024)
}

} // verus!
