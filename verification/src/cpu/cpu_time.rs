use vstd::prelude::*;

verus! {

/// Aggregated CPU time, split into idle and non-idle clock ticks.
#[derive(Debug, Clone, Copy, PartialEq, Eq, Structural)]
pub struct CPUTime {
    pub non_idle: u64,
    pub idle: u64,
}

impl CPUTime {
    /// Idle and non-idle ticks together.
    pub open spec fn total(self) -> int {
        self.idle + self.non_idle
    }

    /// Get the total CPU time.
    pub fn get_total_time(self) -> (r: u64)
        requires
            self.idle + self.non_idle <= u64::MAX,
        ensures
            r == self.total(),
    {
        self.idle + self.non_idle
    }
}

} // verus!
