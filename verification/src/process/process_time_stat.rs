use vstd::arithmetic::div_mod::lemma_multiply_divide_le;
use vstd::prelude::*;

use crate::error::ProbeError;
use crate::process::process_stat::ProcessStat;
use crate::scan::{
    has_tok, lemma_tok_advance, spec_next_u32, spec_skip_toks, tok_bytes, tok_end, Cursor,
    last_is,
};

verus! {

/// The CPU time one process has used, in clock ticks: user mode and
/// kernel mode.
#[derive(Debug, Clone, Copy, PartialEq, Eq, Structural)]
pub struct ProcessTimeStat {
    pub utime: u32,
    pub stime: u32,
}

/// Utilization of one process over an interval, in parts per ten
/// thousand: its tick delta against the system-wide tick delta, clamped
/// into `[0, 10000]`.  An elapsed total under one tick yields zero, and a
/// process delta at or above the total yields the full ten thousand.
pub open spec fn proc_util_of(d: int, total: int) -> int {
    if total < 1 {
        0
    } else if d >= total {
        10000
    } else {
        d * 10000 / total
    }
}

impl ProcessTimeStat {
    /// The tick delta against a later reading, each counter saturating
    /// at zero if it moved backwards.
    pub open spec fn spec_delta(self, after: ProcessTimeStat) -> int {
        (if after.utime >= self.utime {
            after.utime - self.utime
        } else {
            0
        }) + (if after.stime >= self.stime {
            after.stime - self.stime
        } else {
            0
        })
    }

    /// Compute this process's CPU utilization between this reading and a
    /// later one, against the system-wide tick delta over the same
    /// interval, in parts per ten thousand (`10000` means one full CPU).
    ///
    /// The result is always clamped into `[0, 10000]`, whatever
    /// measurement noise the two readings carry.
    pub fn compute_cpu_utilization_in_percentage(
        &self,
        process_time_stat_after_this: &ProcessTimeStat,
        total_cpu_time: u64,
    ) -> (r: u64)
        ensures
            r == proc_util_of(self.spec_delta(*process_time_stat_after_this), total_cpu_time as int),
            r <= 10000,
    {
        let du: u64 = if process_time_stat_after_this.utime >= self.utime {
            (process_time_stat_after_this.utime - self.utime) as u64
        } else {
            0
        };
        let ds: u64 = if process_time_stat_after_this.stime >= self.stime {
            (process_time_stat_after_this.stime - self.stime) as u64
        } else {
            0
        };
        let d: u64 = du + ds;
        if total_cpu_time < 1 {
            0
        } else if d >= total_cpu_time {
            10000
        } else {
            let q: u128 = (d as u128 * 10000) / (total_cpu_time as u128);
            proof {
                assert(d * 10000 <= total_cpu_time * 10000) by (nonlinear_arith)
                    requires
                        0 <= d <= total_cpu_time,
                ;
                lemma_multiply_divide_le(d as int * 10000, total_cpu_time as int, 10000);
            }
            q as u64
        }
    }
}

impl From<ProcessStat> for ProcessTimeStat {
    /// The time reading carried inside a full accounting record.
    fn from(process_stat: ProcessStat) -> (r: Self) {
        ProcessTimeStat { utime: process_stat.utime, stime: process_stat.stime }
    }
}

impl vstd::std_specs::convert::FromSpecImpl<ProcessStat> for ProcessTimeStat {
    open spec fn obeys_from_spec() -> bool {
        true
    }

    open spec fn from_spec(process_stat: ProcessStat) -> Self {
        ProcessTimeStat { utime: process_stat.utime, stime: process_stat.stime }
    }
}

/// The position after the command-name field: tokens are consumed until
/// one ends with a closing parenthesis, the only field whose own content
/// can contain the token separator.
pub open spec fn spec_skip_comm(s: Seq<u8>, i: int) -> Option<int>
    decreases s.len() - i when 0 <= i <= s.len() via spec_skip_comm_decreases
{
    if !has_tok(s, i) {
        None
    } else if tok_bytes(s, i).len() >= 1 && tok_bytes(s, i).last() == 41 {
        Some(tok_end(s, i))
    } else {
        spec_skip_comm(s, tok_end(s, i))
    }
}

#[via_fn]
proof fn spec_skip_comm_decreases(s: Seq<u8>, i: int) {
    lemma_tok_advance(s, i);
}

/// Consume tokens until one ends with a closing parenthesis.
pub fn skip_comm(cur: &mut Cursor) -> (r: Result<(), ProbeError>)
    requires
        old(cur).wf(),
    ensures
        final(cur).wf(),
        final(cur).bytes() == old(cur).bytes(),
        match spec_skip_comm(old(cur).bytes(), old(cur).at()) {
            Some(j) => r is Ok && final(cur).at() == j,
            None => r == Err::<(), ProbeError>(ProbeError::UnexpectedEof),
        },
{
    loop
        invariant
            cur.wf(),
            cur.bytes() == old(cur).bytes(),
            spec_skip_comm(old(cur).bytes(), old(cur).at()) == spec_skip_comm(
                old(cur).bytes(),
                cur.at(),
            ),
        decreases cur.bytes().len() - cur.at(),
    {
        let ghost p = cur.at();
        proof {
            lemma_tok_advance(cur.bytes(), p);
        }
        match cur.next_raw() {
            None => {
                return Err(ProbeError::UnexpectedEof);
            },
            Some(t) => {
                if last_is(&t, 41) {
                    return Ok(());
                }
            },
        }
    }
}

/// What decoding the time reading from the accounting line yields: the
/// process id, the command name, eleven further fields, then the user and
/// kernel tick counters.
pub open spec fn spec_get_process_time_stat(s: Seq<u8>) -> Result<ProcessTimeStat, ProbeError> {
    if !has_tok(s, 0) {
        Err(ProbeError::UnexpectedEof)
    } else {
        match spec_skip_comm(s, tok_end(s, 0)) {
            None => Err(ProbeError::UnexpectedEof),
            Some(p) => match spec_skip_toks(s, p, 11) {
                None => Err(ProbeError::UnexpectedEof),
                Some(q) => match spec_next_u32(s, q) {
                    Err(e) => Err(e),
                    Ok(utime) => match spec_next_u32(s, tok_end(s, q)) {
                        Err(e) => Err(e),
                        Ok(stime) => Ok(ProcessTimeStat { utime, stime }),
                    },
                },
            },
        }
    }
}

/// Decode the time reading of a process from the contents of its
/// accounting file.
pub fn get_process_time_stat(data: Vec<u8>) -> (r: Result<ProcessTimeStat, ProbeError>)
    ensures
        r == spec_get_process_time_stat(data@),
{
    let mut cur = Cursor::new(data);
    match cur.next_raw() {
        None => {
            return Err(ProbeError::UnexpectedEof);
        },
        Some(_) => {},
    }
    match skip_comm(&mut cur) {
        Err(e) => {
            return Err(e);
        },
        Ok(()) => {},
    }
    match cur.skip_toks(11) {
        Err(e) => {
            return Err(e);
        },
        Ok(()) => {},
    }
    let utime = match cur.next_u32() {
        Err(e) => {
            return Err(e);
        },
        Ok(v) => v,
    };
    let stime = match cur.next_u32() {
        Err(e) => {
            return Err(e);
        },
        Ok(v) => v,
    };
    Ok(ProcessTimeStat { utime, stime })
}

} // verus!
