//! Uptime decoded from the uptime file, and the boot time derived from it.

use vstd::prelude::*;

use crate::error::ProbeError;
use crate::scan::{has_tok, parse_fixed_point, spec_fixed_point, tok_bytes, tok_end, Cursor};

verus! {

/// Elapsed time since boot, in milliseconds: total wall-clock uptime and
/// the idle time summed over all CPUs.
#[derive(Debug, Clone, Copy, PartialEq, Eq, Structural)]
pub struct Uptime {
    pub total_uptime: u64,
    pub all_cpu_idle_time: u64,
}

impl Uptime {
    /// The boot time: the current time, in milliseconds since the epoch,
    /// minus this uptime.
    pub fn get_btime(&self, now_ms: u64) -> (r: u64)
        requires
            now_ms >= self.total_uptime,
        ensures
            r == now_ms - self.total_uptime,
    {
        now_ms - self.total_uptime
    }
}

/// What decoding the uptime file yields: two second counts with an
/// optional fraction, kept to the millisecond.
pub open spec fn spec_get_uptime(s: Seq<u8>) -> Result<Uptime, ProbeError> {
    if !has_tok(s, 0) {
        Err(ProbeError::UnexpectedEof)
    } else {
        match spec_fixed_point(tok_bytes(s, 0), 3) {
            Err(e) => Err(e),
            Ok(total) => {
                let p = tok_end(s, 0);
                if !has_tok(s, p) {
                    Err(ProbeError::UnexpectedEof)
                } else {
                    match spec_fixed_point(tok_bytes(s, p), 3) {
                        Err(e) => Err(e),
                        Ok(idle) => Ok(
                            Uptime { total_uptime: total, all_cpu_idle_time: idle },
                        ),
                    }
                }
            },
        }
    }
}

/// Decode the uptime from the contents of the uptime file.
pub fn get_uptime(data: Vec<u8>) -> (r: Result<Uptime, ProbeError>)
    ensures
        r == spec_get_uptime(data@),
{
    let mut cur = Cursor::new(data);
    let total = match cur.next_raw() {
        None => {
            return Err(ProbeError::UnexpectedEof);
        },
        Some(v) => match parse_fixed_point(&v, 3) {
            Err(e) => {
                return Err(e);
            },
            Ok(x) => x,
        },
    };
    let idle = match cur.next_raw() {
        None => {
            return Err(ProbeError::UnexpectedEof);
        },
        Some(v) => match parse_fixed_point(&v, 3) {
            Err(e) => {
                return Err(e);
            },
            Ok(x) => x,
        },
    };
    Ok(Uptime { total_uptime: total, all_cpu_idle_time: idle })
}

} // verus!
