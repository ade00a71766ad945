use vstd::prelude::*;

use crate::rate::{rate_per_second, speed_of};

verus! {

/// Transfer rates of one interface, in bytes per second.
#[derive(Debug, Clone, Copy, PartialEq, Eq, Structural)]
pub struct NetworkSpeed {
    pub receive: u64,
    pub transmit: u64,
}

/// Cumulative byte counters of one interface.
#[derive(Debug, Clone, Copy, PartialEq, Eq, Structural)]
pub struct NetworkStat {
    pub receive_bytes: u64,
    pub transmit_bytes: u64,
}

impl NetworkStat {
    /// Calculate the transfer rates between this counter snapshot and a
    /// later one taken `elapsed_ms` milliseconds afterwards.
    pub fn compute_speed(&self, network_stat_after_this: &NetworkStat, elapsed_ms: u64) -> (r:
        NetworkSpeed)
        requires
            elapsed_ms >= 1,
        ensures
            r.receive == speed_of(
                self.receive_bytes,
                network_stat_after_this.receive_bytes,
                elapsed_ms,
            ),
            r.transmit == speed_of(
                self.transmit_bytes,
                network_stat_after_this.transmit_bytes,
                elapsed_ms,
            ),
    {
        NetworkSpeed {
            receive: rate_per_second(
                self.receive_bytes,
                network_stat_after_this.receive_bytes,
                elapsed_ms,
            ),
            transmit: rate_per_second(
                self.transmit_bytes,
                network_stat_after_this.transmit_bytes,
                elapsed_ms,
            ),
        }
    }
}

} // verus!
