use vstd::prelude::*;

use crate::error::ProbeError;
use crate::process::process_state::{spec_state_of, ProcessState};
use crate::scan::{
    has_tok, lemma_span_until, lemma_tok_advance, span_until, spec_next_i32, spec_next_i8,
    spec_next_u32, spec_next_u64, spec_next_u8, spec_next_usize, spec_skip_toks, tok_bytes,
    tok_end, Cursor, last_is,
};
use crate::text::{ascii_view, bytes_to_string};

verus! {

/// One process accounting record: the decoded fields of the process's
/// accounting line, completed with the shared-memory figure from its
/// memory summary file.
#[derive(Debug, Clone, PartialEq, Eq)]
pub struct ProcessStat {
    pub state: ProcessState,
    pub comm: String,
    pub ppid: u32,
    pub pgrp: u32,
    pub session: u32,
    pub tty_nr_major: u8,
    pub tty_nr_minor: u32,
    pub tpgid: Option<u32>,
    pub utime: u32,
    pub stime: u32,
    pub cutime: u32,
    pub cstime: u32,
    pub priority: i8,
    pub nice: i8,
    pub num_threads: usize,
    pub starttime: u64,
    /// Total program size in bytes.
    pub vsize: usize,
    /// Resident set size in bytes.
    pub rss: usize,
    pub rsslim: usize,
    pub processor: usize,
    pub rt_priority: u8,
    /// Resident shared size in bytes.
    pub shared: usize,
    /// Resident anonymous memory in bytes: the resident set less the
    /// shared part, or zero when the two reads raced.
    pub rss_anon: usize,
}

/// The mathematical content of a `ProcessStat`.
pub struct ProcessStatV {
    pub state: ProcessState,
    pub comm: Seq<char>,
    pub ppid: u32,
    pub pgrp: u32,
    pub session: u32,
    pub tty_nr_major: u8,
    pub tty_nr_minor: u32,
    pub tpgid: Option<u32>,
    pub utime: u32,
    pub stime: u32,
    pub cutime: u32,
    pub cstime: u32,
    pub priority: i8,
    pub nice: i8,
    pub num_threads: usize,
    pub starttime: u64,
    pub vsize: usize,
    pub rss: usize,
    pub rsslim: usize,
    pub processor: usize,
    pub rt_priority: u8,
    pub shared: usize,
    pub rss_anon: usize,
}

impl View for ProcessStat {
    type V = ProcessStatV;

    open spec fn view(&self) -> ProcessStatV {
        ProcessStatV {
            state: self.state,
            comm: self.comm@,
            ppid: self.ppid,
            pgrp: self.pgrp,
            session: self.session,
            tty_nr_major: self.tty_nr_major,
            tty_nr_minor: self.tty_nr_minor,
            tpgid: self.tpgid,
            utime: self.utime,
            stime: self.stime,
            cutime: self.cutime,
            cstime: self.cstime,
            priority: self.priority,
            nice: self.nice,
            num_threads: self.num_threads,
            starttime: self.starttime,
            vsize: self.vsize,
            rss: self.rss,
            rsslim: self.rsslim,
            processor: self.processor,
            rt_priority: self.rt_priority,
            shared: self.shared,
            rss_anon: self.rss_anon,
        }
    }
}

/// The major number packed into a terminal device id.
pub open spec fn tty_major(t: u32) -> u8 {
    (t >> 8) as u8
}

/// The minor number packed into a terminal device id.
pub open spec fn tty_minor(t: u32) -> u32 {
    ((t >> 20) << 8) | (t & 0xFF)
}

/// The command-name bytes: tokens are concatenated until one ends with a
/// closing parenthesis, whose parenthesis is cut off; the position after
/// that token comes with them.
pub open spec fn spec_comm(s: Seq<u8>, i: int) -> Option<(Seq<u8>, int)>
    decreases s.len() - i when 0 <= i <= s.len() via spec_comm_decreases
{
    if !has_tok(s, i) {
        None
    } else {
        let t = tok_bytes(s, i);
        if t.len() >= 1 && t.last() == 41 {
            Some((t.drop_last(), tok_end(s, i)))
        } else {
            match spec_comm(s, tok_end(s, i)) {
                None => None,
                Some((rest, j)) => Some((t + rest, j)),
            }
        }
    }
}

#[via_fn]
proof fn spec_comm_decreases(s: Seq<u8>, i: int) {
    lemma_tok_advance(s, i);
}

/// Push the first `upto` bytes of `t` onto `acc`.
fn append_prefix(acc: &mut Vec<u8>, t: &Vec<u8>, upto: usize)
    requires
        upto <= t@.len(),
    ensures
        final(acc)@ == old(acc)@ + t@.subrange(0, upto as int),
{
    let mut k: usize = 0;
    while k < upto
        invariant
            0 <= k <= upto <= t@.len(),
            acc@ == old(acc)@ + t@.subrange(0, k as int),
        decreases upto - k,
    {
        let b = t[k];
        acc.push(b);
        k = k + 1;
        proof {
            assert(acc@ =~= old(acc)@ + t@.subrange(0, k as int));
        }
    }
}

/// Accumulate the command-name bytes.
fn read_comm(cur: &mut Cursor) -> (r: Result<Vec<u8>, ProbeError>)
    requires
        old(cur).wf(),
    ensures
        final(cur).wf(),
        final(cur).bytes() == old(cur).bytes(),
        match spec_comm(old(cur).bytes(), old(cur).at()) {
            None => r == Err::<Vec<u8>, ProbeError>(ProbeError::UnexpectedEof),
            Some((cb, j)) => r matches Ok(v) && v@ == cb && final(cur).at() == j,
        },
{
    let mut acc: Vec<u8> = Vec::new();
    loop
        invariant
            cur.wf(),
            cur.bytes() == old(cur).bytes(),
            match spec_comm(old(cur).bytes(), old(cur).at()) {
                None => spec_comm(old(cur).bytes(), cur.at()) is None,
                Some((cb, j)) => spec_comm(old(cur).bytes(), cur.at()) matches Some((rest, j2))
                    && cb == acc@ + rest && j == j2,
            },
        decreases cur.bytes().len() - cur.at(),
    {
        let ghost s = cur.bytes();
        let ghost p = cur.at();
        proof {
            lemma_tok_advance(s, p);
        }
        match cur.next_raw() {
            None => {
                return Err(ProbeError::UnexpectedEof);
            },
            Some(t) => {
                if last_is(&t, 41) {
                    append_prefix(&mut acc, &t, t.len() - 1);
                    proof {
                        assert(t@.subrange(0, t@.len() - 1) =~= t@.drop_last());
                    }
                    return Ok(acc);
                } else {
                    proof {
                        match spec_comm(s, cur.at()) {
                            Some((rest, _)) => {
                                assert(acc@ + (t@ + rest) =~= (acc@ + t@) + rest);
                            },
                            None => {},
                        }
                    }
                    let ghost n0 = acc@;
                    append_prefix(&mut acc, &t, t.len());
                    proof {
                        assert(t@.subrange(0, t@.len() as int) =~= t@);
                        assert(acc@ =~= n0 + t@);
                    }
                }
            },
        }
    }
}

/// The fields from the state letter through the terminal id and the
/// foreground-group id, with the position after them.
pub open spec fn spec_stat_ids(s: Seq<u8>, i: int) -> Result<
    ((ProcessState, u32, u32, u32, u32, Option<u32>), int),
    ProbeError,
> {
    if !has_tok(s, i) {
        Err(ProbeError::UnexpectedEof)
    } else {
        let t = tok_bytes(s, i);
        if !(t.len() == 1 && spec_state_of(t[0]) is Some) {
            Err(ProbeError::InvalidData)
        } else {
            let state = spec_state_of(t[0])->0;
            let p1 = tok_end(s, i);
            match spec_next_u32(s, p1) {
                Err(e) => Err(e),
                Ok(ppid) => {
                    let p2 = tok_end(s, p1);
                    match spec_next_u32(s, p2) {
                        Err(e) => Err(e),
                        Ok(pgrp) => {
                            let p3 = tok_end(s, p2);
                            match spec_next_u32(s, p3) {
                                Err(e) => Err(e),
                                Ok(session) => {
                                    let p4 = tok_end(s, p3);
                                    match spec_next_u32(s, p4) {
                                        Err(e) => Err(e),
                                        Ok(tty_nr) => {
                                            let p5 = tok_end(s, p4);
                                            match spec_next_i32(s, p5) {
                                                Err(e) => Err(e),
                                                Ok(tp) => Ok(
                                                    (
                                                        (
                                                            state,
                                                            ppid,
                                                            pgrp,
                                                            session,
                                                            tty_nr,
                                                            if tp >= 0 {
                                                                Some(tp as u32)
                                                            } else {
                                                                None
                                                            },
                                                        ),
                                                        tok_end(s, p5),
                                                    ),
                                                ),
                                            }
                                        },
                                    }
                                },
                            }
                        },
                    }
                },
            }
        }
    }
}

/// The four tick counters, the two priorities and the thread count, with
/// the position after them.
pub open spec fn spec_stat_times(s: Seq<u8>, i: int) -> Result<
    ((u32, u32, u32, u32, i8, i8, usize), int),
    ProbeError,
> {
    match spec_next_u32(s, i) {
        Err(e) => Err(e),
        Ok(utime) => {
            let p1 = tok_end(s, i);
            match spec_next_u32(s, p1) {
                Err(e) => Err(e),
                Ok(stime) => {
                    let p2 = tok_end(s, p1);
                    match spec_next_u32(s, p2) {
                        Err(e) => Err(e),
                        Ok(cutime) => {
                            let p3 = tok_end(s, p2);
                            match spec_next_u32(s, p3) {
                                Err(e) => Err(e),
                                Ok(cstime) => {
                                    let p4 = tok_end(s, p3);
                                    match spec_next_i8(s, p4) {
                                        Err(e) => Err(e),
                                        Ok(priority) => {
                                            let p5 = tok_end(s, p4);
                                            match spec_next_i8(s, p5) {
                                                Err(e) => Err(e),
                                                Ok(nice) => {
                                                    let p6 = tok_end(s, p5);
                                                    match spec_next_usize(s, p6) {
                                                        Err(e) => Err(e),
                                                        Ok(threads) => Ok(
                                                            (
                                                                (
                                                                    utime,
                                                                    stime,
                                                                    cutime,
                                                                    cstime,
                                                                    priority,
                                                                    nice,
                                                                    threads,
                                                                ),
                                                                tok_end(s, p6),
                                                            ),
                                                        ),
                                                    }
                                                },
                                            }
                                        },
                                    }
                                },
                            }
                        },
                    }
                },
            }
        },
    }
}

/// The start time and the three memory figures, the resident set scaled
/// by the page size, with the position after them.  A resident set too
/// large for the machine word is rejected.
pub open spec fn spec_stat_mem(s: Seq<u8>, i: int, ps: nat) -> Result<
    ((u64, usize, usize, usize), int),
    ProbeError,
> {
    match spec_next_u64(s, i) {
        Err(e) => Err(e),
        Ok(starttime) => {
            let p1 = tok_end(s, i);
            match spec_next_usize(s, p1) {
                Err(e) => Err(e),
                Ok(vsize) => {
                    let p2 = tok_end(s, p1);
                    match spec_next_usize(s, p2) {
                        Err(e) => Err(e),
                        Ok(rss_pages) => {
                            if rss_pages * ps > usize::MAX {
                                Err(ProbeError::InvalidData)
                            } else {
                                let p3 = tok_end(s, p2);
                                match spec_next_usize(s, p3) {
                                    Err(e) => Err(e),
                                    Ok(rsslim) => Ok(
                                        (
                                            (
                                                starttime,
                                                vsize,
                                                (rss_pages * ps) as usize,
                                                rsslim,
                                            ),
                                            tok_end(s, p3),
                                        ),
                                    ),
                                }
                            }
                        },
                    }
                },
            }
        },
    }
}

/// The shared-page figure from the memory summary file, scaled by the
/// page size.
pub open spec fn spec_statm_shared(m: Seq<u8>, ps: nat) -> Result<usize, ProbeError> {
    match spec_skip_toks(m, 0, 2) {
        None => Err(ProbeError::UnexpectedEof),
        Some(q) => match spec_next_usize(m, q) {
            Err(e) => Err(e),
            Ok(pages) => if pages * ps > usize::MAX {
                Err(ProbeError::InvalidData)
            } else {
                Ok((pages * ps) as usize)
            },
        },
    }
}

/// What decoding a whole accounting record yields, for a given page size:
/// the accounting line field by field (process id, command name, state,
/// ids, terminal id, tick counters, priorities, start time, memory
/// figures, processor, real-time priority), then the shared-memory figure
/// of the memory summary file; the anonymous resident memory is the
/// resident set less the shared part, floored at zero.
pub open spec fn spec_parse_process_stat(s: Seq<u8>, m: Seq<u8>, ps: nat) -> Result<
    ProcessStatV,
    ProbeError,
> {
    if !has_tok(s, 0) {
        Err(ProbeError::UnexpectedEof)
    } else {
        let p1 = tok_end(s, 0);
        let j = span_until(s, crate::scan::span_spaces(s, p1), 40);
        if j >= s.len() {
            Err(ProbeError::UnexpectedEof)
        } else {
            match spec_comm(s, j + 1) {
                None => Err(ProbeError::UnexpectedEof),
                Some((comm_b, p3)) => match spec_stat_ids(s, p3) {
                    Err(e) => Err(e),
                    Ok(((state, ppid, pgrp, session, tty_nr, tpgid), p4)) => match spec_skip_toks(
                        s,
                        p4,
                        5,
                    ) {
                        None => Err(ProbeError::UnexpectedEof),
                        Some(p5) => match spec_stat_times(s, p5) {
                            Err(e) => Err(e),
                            Ok(((utime, stime, cutime, cstime, priority, nice, threads), p6)) => {
                                match spec_skip_toks(s, p6, 1) {
                                    None => Err(ProbeError::UnexpectedEof),
                                    Some(p7) => match spec_stat_mem(s, p7, ps) {
                                        Err(e) => Err(e),
                                        Ok(((starttime, vsize, rss, rsslim), p8)) => {
                                            match spec_skip_toks(s, p8, 13) {
                                                None => Err(ProbeError::UnexpectedEof),
                                                Some(p9) => match spec_next_usize(s, p9) {
                                                    Err(e) => Err(e),
                                                    Ok(processor) => match spec_next_u8(
                                                        s,
                                                        tok_end(s, p9),
                                                    ) {
                                                        Err(e) => Err(e),
                                                        Ok(rt_priority) => {
                                                            match spec_statm_shared(m, ps) {
                                                                Err(e) => Err(e),
                                                                Ok(shared) => Ok(
                                                                    ProcessStatV {
                                                                        state,
                                                                        comm: ascii_view(comm_b),
                                                                        ppid,
                                                                        pgrp,
                                                                        session,
                                                                        tty_nr_major: tty_major(
                                                                            tty_nr,
                                                                        ),
                                                                        tty_nr_minor: tty_minor(
                                                                            tty_nr,
                                                                        ),
                                                                        tpgid,
                                                                        utime,
                                                                        stime,
                                                                        cutime,
                                                                        cstime,
                                                                        priority,
                                                                        nice,
                                                                        num_threads: threads,
                                                                        starttime,
                                                                        vsize,
                                                                        rss,
                                                                        rsslim,
                                                                        processor,
                                                                        rt_priority,
                                                                        shared,
                                                                        rss_anon: if shared > rss {
                                                                            0
                                                                        } else {
                                                                            (rss - shared) as usize
                                                                        },
                                                                    },
                                                                ),
                                                            }
                                                        },
                                                    },
                                                },
                                            }
                                        },
                                    },
                                }
                            },
                        },
                    },
                },
            }
        }
    }
}

/// Relies on `page_size::get`: the system's memory page size.  Nothing is
/// promised of the value; every caller is verified for every possible
/// page size.
#[verifier::external_body]
fn page_size_bytes() -> usize {
    page_size::get()
}

/// Scale a page count to bytes, rejecting a product that does not fit
/// the machine word.
fn pages_to_bytes(pages: usize, page_size: usize) -> (r: Result<usize, ProbeError>)
    ensures
        r == (if pages * page_size > usize::MAX {
            Err::<usize, ProbeError>(ProbeError::InvalidData)
        } else {
            Ok::<usize, ProbeError>((pages * page_size) as usize)
        }),
{
    proof {
        assert(pages as int * page_size as int <= 0xFFFF_FFFF_FFFF_FFFFu64 as int
            * 0xFFFF_FFFF_FFFF_FFFFu64 as int) by (nonlinear_arith)
            requires
                0 <= pages as int <= 0xFFFF_FFFF_FFFF_FFFFu64 as int && 0 <= page_size as int
                    <= 0xFFFF_FFFF_FFFF_FFFFu64 as int,
        ;
    }
    let w: u128 = pages as u128 * page_size as u128;
    if w > usize::MAX as u128 {
        Err(ProbeError::InvalidData)
    } else {
        Ok(w as usize)
    }
}

/// Decode a whole accounting record from the contents of a process's
/// accounting file and memory summary file, scaling page counts by the
/// given page size.
pub fn parse_process_stat(stat_data: Vec<u8>, statm_data: Vec<u8>, page_size: usize) -> (r:
    Result<ProcessStat, ProbeError>)
    ensures
        match spec_parse_process_stat(stat_data@, statm_data@, page_size as nat) {
            Ok(v) => r matches Ok(st) && st@ == v,
            Err(e) => r == Err::<ProcessStat, ProbeError>(e),
        },
{
    let ghost s = stat_data@;
    let mut cur = Cursor::new(stat_data);
    match cur.next_raw() {
        None => {
            return Err(ProbeError::UnexpectedEof);
        },
        Some(_) => {},
    }
    match cur.next_until_byte(40) {
        None => {
            return Err(ProbeError::UnexpectedEof);
        },
        Some(_) => {},
    }
    let comm_b = match read_comm(&mut cur) {
        Err(e) => {
            return Err(e);
        },
        Ok(v) => v,
    };
    let state = match cur.next_raw() {
        None => {
            return Err(ProbeError::UnexpectedEof);
        },
        Some(t) => {
            if t.len() == 1 {
                match ProcessState::from_byte(t[0]) {
                    Some(st) => st,
                    None => {
                        return Err(ProbeError::InvalidData);
                    },
                }
            } else {
                return Err(ProbeError::InvalidData);
            }
        },
    };
    let ppid = match cur.next_u32() {
        Err(e) => {
            return Err(e);
        },
        Ok(v) => v,
    };
    let pgrp = match cur.next_u32() {
        Err(e) => {
            return Err(e);
        },
        Ok(v) => v,
    };
    let session = match cur.next_u32() {
        Err(e) => {
            return Err(e);
        },
        Ok(v) => v,
    };
    let tty_nr = match cur.next_u32() {
        Err(e) => {
            return Err(e);
        },
        Ok(v) => v,
    };
    let tpgid_raw = match cur.next_i32() {
        Err(e) => {
            return Err(e);
        },
        Ok(v) => v,
    };
    let tpgid: Option<u32> = if tpgid_raw >= 0 {
        Some(tpgid_raw as u32)
    } else {
        None
    };
    match cur.skip_toks(5) {
        Err(e) => {
            return Err(e);
        },
        Ok(()) => {},
    }
    let utime = match cur.next_u32() {
        Err(e) => {
            return Err(e);
        },
        Ok(v) => v,
    };
    let stime = match cur.next_u32() {
        Err(e) => {
            return Err(e);
        },
        Ok(v) => v,
    };
    let cutime = match cur.next_u32() {
        Err(e) => {
            return Err(e);
        },
        Ok(v) => v,
    };
    let cstime = match cur.next_u32() {
        Err(e) => {
            return Err(e);
        },
        Ok(v) => v,
    };
    let priority = match cur.next_i8() {
        Err(e) => {
            return Err(e);
        },
        Ok(v) => v,
    };
    let nice = match cur.next_i8() {
        Err(e) => {
            return Err(e);
        },
        Ok(v) => v,
    };
    let num_threads = match cur.next_usize() {
        Err(e) => {
            return Err(e);
        },
        Ok(v) => v,
    };
    match cur.skip_toks(1) {
        Err(e) => {
            return Err(e);
        },
        Ok(()) => {},
    }
    let starttime = match cur.next_u64() {
        Err(e) => {
            return Err(e);
        },
        Ok(v) => v,
    };
    let vsize = match cur.next_usize() {
        Err(e) => {
            return Err(e);
        },
        Ok(v) => v,
    };
    let rss_pages = match cur.next_usize() {
        Err(e) => {
            return Err(e);
        },
        Ok(v) => v,
    };
    let rss = match pages_to_bytes(rss_pages, page_size) {
        Err(e) => {
            return Err(e);
        },
        Ok(v) => v,
    };
    let rsslim = match cur.next_usize() {
        Err(e) => {
            return Err(e);
        },
        Ok(v) => v,
    };
    match cur.skip_toks(13) {
        Err(e) => {
            return Err(e);
        },
        Ok(()) => {},
    }
    let processor = match cur.next_usize() {
        Err(e) => {
            return Err(e);
        },
        Ok(v) => v,
    };
    let rt_priority = match cur.next_u8() {
        Err(e) => {
            return Err(e);
        },
        Ok(v) => v,
    };
    let mut mcur = Cursor::new(statm_data);
    match mcur.skip_toks(2) {
        Err(e) => {
            return Err(e);
        },
        Ok(()) => {},
    }
    let shared_pages = match mcur.next_usize() {
        Err(e) => {
            return Err(e);
        },
        Ok(v) => v,
    };
    let shared = match pages_to_bytes(shared_pages, page_size) {
        Err(e) => {
            return Err(e);
        },
        Ok(v) => v,
    };
    let rss_anon: usize = if shared > rss {
        0
    } else {
        rss - shared
    };
    Ok(
        ProcessStat {
            state,
            comm: bytes_to_string(&comm_b),
            ppid,
            pgrp,
            session,
            tty_nr_major: (tty_nr >> 8) as u8,
            tty_nr_minor: ((tty_nr >> 20) << 8) | (tty_nr & 0xFF),
            tpgid,
            utime,
            stime,
            cutime,
            cstime,
            priority,
            nice,
            num_threads,
            starttime,
            vsize,
            rss,
            rsslim,
            processor,
            rt_priority,
            shared,
            rss_anon,
        },
    )
}

/// Decode a whole accounting record using the system page size, handing
/// back the page size that was used so that the outcome is fully
/// determined by it and the two files.
pub fn get_process_stat(stat_data: Vec<u8>, statm_data: Vec<u8>) -> (r: (
    usize,
    Result<ProcessStat, ProbeError>,
))
    ensures
        match spec_parse_process_stat(stat_data@, statm_data@, r.0 as nat) {
            Ok(v) => r.1 matches Ok(st) && st@ == v,
            Err(e) => r.1 == Err::<ProcessStat, ProbeError>(e),
        },
{
    let ps = page_size_bytes();
    let outcome = parse_process_stat(stat_data, statm_data, ps);
    (ps, outcome)
}

} // verus!
