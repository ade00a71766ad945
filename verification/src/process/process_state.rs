use vstd::prelude::*;

verus! {

/// The scheduler state of a process, decoded from the one-letter state
/// field of its accounting line.
#[derive(Debug, Clone, Copy, PartialEq, Eq, Structural)]
pub enum ProcessState {
    Running,
    Sleeping,
    Waiting,
    Zombie,
    Stopped,
    TracingStop,
    Dead,
    Wakekill,
    Waking,
    Parked,
    Idle,
}

/// The state a state-field byte decodes to, if any: `R` runs, `S` sleeps,
/// `D` waits on disk, `Z` is a zombie, `T` is stopped, `t` is stopped by a
/// tracer, `X` and `x` are dead, `K` is wakekill, `W` is waking, `P` is
/// parked, `I` is idle.
pub open spec fn spec_state_of(b: u8) -> Option<ProcessState> {
    if b == 82 {
        Some(ProcessState::Running)
    } else if b == 83 {
        Some(ProcessState::Sleeping)
    } else if b == 68 {
        Some(ProcessState::Waiting)
    } else if b == 90 {
        Some(ProcessState::Zombie)
    } else if b == 84 {
        Some(ProcessState::Stopped)
    } else if b == 116 {
        Some(ProcessState::TracingStop)
    } else if b == 88 || b == 120 {
        Some(ProcessState::Dead)
    } else if b == 75 {
        Some(ProcessState::Wakekill)
    } else if b == 87 {
        Some(ProcessState::Waking)
    } else if b == 80 {
        Some(ProcessState::Parked)
    } else if b == 73 {
        Some(ProcessState::Idle)
    } else {
        None
    }
}

impl ProcessState {
    /// Decode a state-field byte.
    pub fn from_byte(b: u8) -> (r: Option<ProcessState>)
        ensures
            r == spec_state_of(b),
    {
        if b == 82 {
            Some(ProcessState::Running)
        } else if b == 83 {
            Some(ProcessState::Sleeping)
        } else if b == 68 {
            Some(ProcessState::Waiting)
        } else if b == 90 {
            Some(ProcessState::Zombie)
        } else if b == 84 {
            Some(ProcessState::Stopped)
        } else if b == 116 {
            Some(ProcessState::TracingStop)
        } else if b == 88 || b == 120 {
            Some(ProcessState::Dead)
        } else if b == 75 {
            Some(ProcessState::Wakekill)
        } else if b == 87 {
            Some(ProcessState::Waking)
        } else if b == 80 {
            Some(ProcessState::Parked)
        } else if b == 73 {
            Some(ProcessState::Idle)
        } else {
            None
        }
    }
}

} // verus!
