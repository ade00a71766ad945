use vstd::prelude::*;

use crate::rate::{rate_per_second, speed_of};

verus! {

/// Transfer rates of one block device, in bytes per second.
#[derive(Debug, Clone, Copy, PartialEq, Eq, Structural)]
pub struct VolumeSpeed {
    pub read: u64,
    pub write: u64,
}

/// Cumulative transfer counters of one block device.
#[derive(Debug, Clone, Copy, PartialEq, Eq, Structural)]
pub struct VolumeStat {
    pub read_bytes: u64,
    pub write_bytes: u64,
}

impl VolumeStat {
    /// Calculate the transfer rates between this counter snapshot and a
    /// later one taken `elapsed_ms` milliseconds afterwards.
    pub fn compute_speed(&self, volume_stat_after_this: &VolumeStat, elapsed_ms: u64) -> (r:
        VolumeSpeed)
        requires
            elapsed_ms >= 1,
        ensures
            r.read == speed_of(self.read_bytes, volume_stat_after_this.read_bytes, elapsed_ms),
            r.write == speed_of(self.write_bytes, volume_stat_after_this.write_bytes, elapsed_ms),
    {
        VolumeSpeed {
            read: rate_per_second(self.read_bytes, volume_stat_after_this.read_bytes, elapsed_ms),
            write: rate_per_second(
                self.write_bytes,
                volume_stat_after_this.write_bytes,
                elapsed_ms,
            ),
        }
    }
}

} // verus!
