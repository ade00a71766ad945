//! The process subsystem: per-process decoders, filtering, enumeration
//! and per-process CPU utilization.

mod process_filter;
mod process_stat;
mod process_state;
mod process_status;
mod process_time_stat;

pub use process_filter::{regex_match, Pattern, ProcessFilter, ProcessFilterV};
pub use process_stat::{
    get_process_stat, parse_process_stat, spec_comm, spec_parse_process_stat, tty_major,
    tty_minor, ProcessStat, ProcessStatV,
};
pub use process_state::{spec_state_of, ProcessState};
pub use process_status::{get_process_status, spec_get_process_status, ProcessStatus};
pub use process_time_stat::{
    get_process_time_stat, proc_util_of, spec_get_process_time_stat, spec_skip_comm,
    ProcessTimeStat,
};

use vstd::prelude::*;

use crate::error::ProbeError;
use crate::text::{ascii_view, bytes_to_string};

verus! {

/// The decimal numeral of a number, as bytes.
pub open spec fn dec_bytes(n: nat) -> Seq<u8>
    decreases n,
{
    if n < 10 {
        seq![(48 + n) as u8]
    } else {
        dec_bytes(n / 10) + seq![(48 + n % 10) as u8]
    }
}

/// Append the decimal numeral of `n`.
fn push_dec(n: u32, out: &mut Vec<u8>)
    ensures
        final(out)@ == old(out)@ + dec_bytes(n as nat),
    decreases n,
{
    if n < 10 {
        out.push(48 + n as u8);
        proof {
            assert(out@ =~= old(out)@ + dec_bytes(n as nat));
        }
    } else {
        push_dec(n / 10, out);
        let ghost mid = out@;
        out.push(48 + (n % 10) as u8);
        proof {
            assert(out@ =~= mid + seq![(48 + (n as nat) % 10) as u8]);
            assert(out@ =~= old(out)@ + dec_bytes(n as nat));
        }
    }
}

/// The name prefix of a virtual console.  Reads "tty".
pub open spec fn tty_prefix() -> Seq<u8> {
    seq![116u8, 116, 121]
}

/// The name prefix of a serial terminal.  Reads "ttyS".
pub open spec fn ttys_prefix() -> Seq<u8> {
    seq![116u8, 116, 121, 83]
}

/// The name prefix of a pseudo-terminal.  Reads "pts/".
pub open spec fn pts_prefix() -> Seq<u8> {
    seq![112u8, 116, 115, 47]
}

/// The terminal name a packed device id decodes to: major 4 is a virtual
/// console for minors under 64 and a serial terminal (numbered from 64)
/// otherwise; majors 136 through 143 are pseudo-terminals; every other
/// major means no controlling terminal.
pub open spec fn spec_tty_name(major: u8, minor: u32) -> Option<Seq<char>> {
    if major == 4 && minor < 64 {
        Some(ascii_view(tty_prefix() + dec_bytes(minor as nat)))
    } else if major == 4 {
        Some(ascii_view(ttys_prefix() + dec_bytes((minor - 64) as nat)))
    } else if 136 <= major <= 143 {
        Some(ascii_view(pts_prefix() + dec_bytes(minor as nat)))
    } else {
        None
    }
}

/// Derive the controlling terminal's name from the packed device id.
pub fn tty_name(major: u8, minor: u32) -> (r: Option<String>)
    ensures
        r is Some == spec_tty_name(major, minor) is Some,
        r matches Some(name) ==> spec_tty_name(major, minor) == Some(name@),
{
    if major == 4 && minor < 64 {
        let mut v: Vec<u8> = Vec::new();
        v.push(116);
        v.push(116);
        v.push(121);
        proof {
            assert(v@ =~= tty_prefix());
        }
        push_dec(minor, &mut v);
        Some(bytes_to_string(&v))
    } else if major == 4 {
        let mut v: Vec<u8> = Vec::new();
        v.push(116);
        v.push(116);
        v.push(121);
        v.push(83);
        proof {
            assert(v@ =~= ttys_prefix());
        }
        push_dec(minor - 64, &mut v);
        Some(bytes_to_string(&v))
    } else if 136 <= major && major <= 143 {
        let mut v: Vec<u8> = Vec::new();
        v.push(112);
        v.push(116);
        v.push(115);
        v.push(47);
        proof {
            assert(v@ =~= pts_prefix());
        }
        push_dec(minor, &mut v);
        Some(bytes_to_string(&v))
    } else {
        None
    }
}

/// What one read of a per-process file returned: its contents, a
/// not-found failure (the process vanished), or any other failure.
pub enum FileRead {
    Content(Vec<u8>),
    NotFound,
    Failed,
}

/// The mathematical content of a `FileRead`.
pub enum FileReadV {
    Content(Seq<u8>),
    NotFound,
    Failed,
}

impl View for FileRead {
    type V = FileReadV;

    open spec fn view(&self) -> FileReadV {
        match self {
            FileRead::Content(v) => FileReadV::Content(v@),
            FileRead::NotFound => FileReadV::NotFound,
            FileRead::Failed => FileReadV::Failed,
        }
    }
}

/// The raw material for one process: its id and the outcome of reading
/// each of its four files.
pub struct ProcEntry {
    pub pid: u32,
    pub status: FileRead,
    pub cmdline: FileRead,
    pub stat: FileRead,
    pub statm: FileRead,
}

/// The mathematical content of a `ProcEntry`.
pub struct ProcEntryV {
    pub pid: u32,
    pub status: FileReadV,
    pub cmdline: FileReadV,
    pub stat: FileReadV,
    pub statm: FileReadV,
}

impl View for ProcEntry {
    type V = ProcEntryV;

    open spec fn view(&self) -> ProcEntryV {
        ProcEntryV {
            pid: self.pid,
            status: self.status@,
            cmdline: self.cmdline@,
            stat: self.stat@,
            statm: self.statm@,
        }
    }
}

/// One process as reported to the caller.
#[derive(Debug, Clone, PartialEq, Eq)]
pub struct Process {
    pub pid: u32,
    pub effective_uid: u32,
    pub effective_gid: u32,
    pub state: ProcessState,
    pub ppid: u32,
    pub program: String,
    pub cmdline: String,
    pub tty: Option<String>,
    pub priority: i8,
    pub real_time_priority: Option<u8>,
    pub nice: i8,
    pub threads: usize,
    /// Virtual set size in bytes.
    pub vsz: usize,
    /// Resident set size in bytes.
    pub rss: usize,
    /// Resident shared size in bytes.
    pub rss_shared: usize,
    /// Resident anonymous memory in bytes.
    pub rss_anon: usize,
    /// When the process started, in milliseconds since the epoch.
    pub start_time: u64,
}

/// The mathematical content of a `Process`.
pub struct ProcessV {
    pub pid: u32,
    pub effective_uid: u32,
    pub effective_gid: u32,
    pub state: ProcessState,
    pub ppid: u32,
    pub program: Seq<char>,
    pub cmdline: Seq<char>,
    pub tty: Option<Seq<char>>,
    pub priority: i8,
    pub real_time_priority: Option<u8>,
    pub nice: i8,
    pub threads: usize,
    pub vsz: usize,
    pub rss: usize,
    pub rss_shared: usize,
    pub rss_anon: usize,
    pub start_time: u64,
}

impl View for Process {
    type V = ProcessV;

    open spec fn view(&self) -> ProcessV {
        ProcessV {
            pid: self.pid,
            effective_uid: self.effective_uid,
            effective_gid: self.effective_gid,
            state: self.state,
            ppid: self.ppid,
            program: self.program@,
            cmdline: self.cmdline@,
            tty: match self.tty {
                Some(ref t) => Some(t@),
                None => None,
            },
            priority: self.priority,
            real_time_priority: self.real_time_priority,
            nice: self.nice,
            threads: self.threads,
            vsz: self.vsz,
            rss: self.rss,
            rss_shared: self.rss_shared,
            rss_anon: self.rss_anon,
            start_time: self.start_time,
        }
    }
}

/// Argument separators replaced: every NUL byte becomes a space.
pub open spec fn nul_to_space(s: Seq<u8>) -> Seq<u8> {
    Seq::new(s.len(), |i: int| if s[i] == 0 {
        32u8
    } else {
        s[i]
    })
}

/// Replace every NUL byte with a space.
fn join_cmdline(v: &Vec<u8>) -> (r: Vec<u8>)
    ensures
        r@ == nul_to_space(v@),
{
    let mut out: Vec<u8> = Vec::new();
    let mut i: usize = 0;
    while i < v.len()
        invariant
            0 <= i <= v@.len(),
            out@.len() == i,
            forall|j: int| 0 <= j < i ==> out@[j] == nul_to_space(v@)[j],
        decreases v@.len() - i,
    {
        let b = v[i];
        if b == 0 {
            out.push(32);
        } else {
            out.push(b);
        }
        i = i + 1;
    }
    proof {
        assert(out@ =~= nul_to_space(v@));
    }
    out
}

/// The sum, stopped at the counter's ceiling.
pub open spec fn sat_add_u64(a: u64, b: u64) -> u64 {
    if a + b > u64::MAX {
        u64::MAX
    } else {
        (a + b) as u64
    }
}

/// Clock ticks converted to milliseconds at `tps` ticks per second,
/// rounded down and stopped at the counter's ceiling.
pub open spec fn ticks_to_ms(ticks: u64, tps: u64) -> u64
    recommends
        tps >= 1,
{
    let v = (ticks as int) * 1000 / (tps as int);
    if v > u64::MAX {
        u64::MAX
    } else {
        v as u64
    }
}

/// What fetching one process from its entry yields, for a given filter,
/// boot time, tick rate and page size.  `Ok(None)` is a process the filter rejects;
/// a not-found read is the process vanishing mid-read.  The checks run in
/// the order the files are listed: owners first, then the command line,
/// then the accounting record, then the terminal.
pub open spec fn spec_process_entry(
    e: ProcEntryV,
    f: ProcessFilterV,
    btime_ms: u64,
    tps: u64,
    ps: nat,
) -> Result<Option<(ProcessV, ProcessStatV)>, ProbeError> {
    match e.status {
        FileReadV::NotFound => Err(ProbeError::NotFound),
        FileReadV::Failed => Err(ProbeError::Io),
        FileReadV::Content(sb) => match spec_get_process_status(sb) {
            Err(er) => Err(er),
            Ok(st) => {
                if (match f.uid_filter {
                    Some(u) => st.real_uid != u && st.effective_uid != u && st.saved_set_uid != u
                        && st.fs_uid != u,
                    None => false,
                }) {
                    Ok(None)
                } else if (match f.gid_filter {
                    Some(g) => st.real_gid != g && st.effective_gid != g && st.saved_set_gid != g
                        && st.fs_gid != g,
                    None => false,
                }) {
                    Ok(None)
                } else {
                    match e.cmdline {
                        FileReadV::NotFound => Err(ProbeError::NotFound),
                        FileReadV::Failed => Err(ProbeError::Io),
                        FileReadV::Content(cb) => {
                            let cmdline = ascii_view(nul_to_space(cb));
                            let prog_ok = match f.program_filter {
                                None => true,
                                Some(pat) => regex_match(pat, cmdline),
                            };
                            match e.stat {
                                FileReadV::NotFound => Err(ProbeError::NotFound),
                                FileReadV::Failed => Err(ProbeError::Io),
                                FileReadV::Content(tb) => match e.statm {
                                    FileReadV::NotFound => Err(ProbeError::NotFound),
                                    FileReadV::Failed => Err(ProbeError::Io),
                                    FileReadV::Content(mb) => match spec_parse_process_stat(
                                        tb,
                                        mb,
                                        ps,
                                    ) {
                                        Err(er) => Err(er),
                                        Ok(pst) => {
                                            if !prog_ok && (match f.program_filter {
                                                Some(pat) => !regex_match(pat, pst.comm),
                                                None => false,
                                            }) {
                                                Ok(None)
                                            } else {
                                                let tty = spec_tty_name(
                                                    pst.tty_nr_major,
                                                    pst.tty_nr_minor,
                                                );
                                                if (match f.tty_filter {
                                                    Some(pat) => match tty {
                                                        Some(name) => !regex_match(pat, name),
                                                        None => true,
                                                    },
                                                    None => false,
                                                }) {
                                                    Ok(None)
                                                } else {
                                                    Ok(
                                                        Some(
                                                            (
                                                                ProcessV {
                                                                    pid: e.pid,
                                                                    effective_uid:
                                                                        st.effective_uid,
                                                                    effective_gid:
                                                                        st.effective_gid,
                                                                    state: pst.state,
                                                                    ppid: pst.ppid,
                                                                    program: pst.comm,
                                                                    cmdline,
                                                                    tty,
                                                                    priority: pst.priority,
                                                                    real_time_priority: if
                                                                    pst.rt_priority > 0 {
                                                                        Some(pst.rt_priority)
                                                                    } else {
                                                                        None
                                                                    },
                                                                    nice: pst.nice,
                                                                    threads: pst.num_threads,
                                                                    vsz: pst.vsize,
                                                                    rss: pst.rss,
                                                                    rss_shared: pst.shared,
                                                                    rss_anon: pst.rss_anon,
                                                                    start_time: sat_add_u64(
                                                                        btime_ms,
                                                                        ticks_to_ms(
                                                                            pst.starttime,
                                                                            tps,
                                                                        ),
                                                                    ),
                                                                },
                                                                pst,
                                                            ),
                                                        ),
                                                    )
                                                }
                                            }
                                        },
                                    },
                                },
                            }
                        },
                    }
                }
            },
        },
    }
}

/// Fetch one process from its entry, applying the filter's per-process
/// predicates.  `Ok(None)` is a process the filter rejects.
pub fn get_process_with_stat(
    entry: ProcEntry,
    process_filter: &ProcessFilter,
    btime_ms: u64,
    ticks_per_second: u64,
    page_size: usize,
) -> (r: Result<Option<(Process, ProcessStat)>, ProbeError>)
    requires
        ticks_per_second >= 1,
    ensures
        match spec_process_entry(
            entry@,
            process_filter@,
            btime_ms,
            ticks_per_second,
            page_size as nat,
        ) {
            Ok(Some((pv, sv))) => r matches Ok(Some((p, st))) && p@ == pv && st@ == sv,
            Ok(None) => r == Ok::<Option<(Process, ProcessStat)>, ProbeError>(None),
            Err(e) => r == Err::<Option<(Process, ProcessStat)>, ProbeError>(e),
        },
{
    let pid = entry.pid;
    let status_data = match entry.status {
        FileRead::NotFound => {
            return Err(ProbeError::NotFound);
        },
        FileRead::Failed => {
            return Err(ProbeError::Io);
        },
        FileRead::Content(v) => v,
    };
    let st = match get_process_status(status_data) {
        Err(er) => {
            return Err(er);
        },
        Ok(st) => st,
    };
    match process_filter.uid_filter {
        Some(u) => {
            if st.real_uid != u && st.effective_uid != u && st.saved_set_uid != u && st.fs_uid
                != u {
                return Ok(None);
            }
        },
        None => {},
    }
    match process_filter.gid_filter {
        Some(g) => {
            if st.real_gid != g && st.effective_gid != g && st.saved_set_gid != g && st.fs_gid
                != g {
                return Ok(None);
            }
        },
        None => {},
    }
    let cmdline_data = match entry.cmdline {
        FileRead::NotFound => {
            return Err(ProbeError::NotFound);
        },
        FileRead::Failed => {
            return Err(ProbeError::Io);
        },
        FileRead::Content(v) => v,
    };
    let cmdline = bytes_to_string(&join_cmdline(&cmdline_data));
    let prog_ok = match process_filter.program_filter {
        None => true,
        Some(ref pat) => pat.is_match(cmdline.as_str()),
    };
    let stat_data = match entry.stat {
        FileRead::NotFound => {
            return Err(ProbeError::NotFound);
        },
        FileRead::Failed => {
            return Err(ProbeError::Io);
        },
        FileRead::Content(v) => v,
    };
    let statm_data = match entry.statm {
        FileRead::NotFound => {
            return Err(ProbeError::NotFound);
        },
        FileRead::Failed => {
            return Err(ProbeError::Io);
        },
        FileRead::Content(v) => v,
    };
    let pst = match parse_process_stat(stat_data, statm_data, page_size) {
        Err(er) => {
            return Err(er);
        },
        Ok(pst) => pst,
    };
    if !prog_ok {
        match process_filter.program_filter {
            Some(ref pat) => {
                if !pat.is_match(pst.comm.as_str()) {
                    return Ok(None);
                }
            },
            None => {},
        }
    }
    let tty = tty_name(pst.tty_nr_major, pst.tty_nr_minor);
    match process_filter.tty_filter {
        Some(ref pat) => {
            match tty {
                Some(ref name) => {
                    if !pat.is_match(name.as_str()) {
                        return Ok(None);
                    }
                },
                None => {
                    return Ok(None);
                },
            }
        },
        None => {},
    }
    // the start offset is recorded in clock ticks
    let off_wide: u128 = pst.starttime as u128 * 1000 / (ticks_per_second as u128);
    let offset_ms: u64 = if off_wide > u64::MAX as u128 {
        u64::MAX
    } else {
        off_wide as u64
    };
    let start_time: u64 = if btime_ms > u64::MAX - offset_ms {
        u64::MAX
    } else {
        btime_ms + offset_ms
    };
    let real_time_priority: Option<u8> = if pst.rt_priority > 0 {
        Some(pst.rt_priority)
    } else {
        None
    };
    let process = Process {
        pid,
        effective_uid: st.effective_uid,
        effective_gid: st.effective_gid,
        state: pst.state,
        ppid: pst.ppid,
        program: pst.comm.clone(),
        cmdline,
        tty,
        priority: pst.priority,
        real_time_priority,
        nice: pst.nice,
        threads: pst.num_threads,
        vsz: pst.vsize,
        rss: pst.rss,
        rss_shared: pst.shared,
        rss_anon: pst.rss_anon,
        start_time,
    };
    Ok(Some((process, pst)))
}

/// The parent recorded for `key` in the child-to-parent pairs, first
/// match first.
pub open spec fn spec_lookup(map: Seq<(u32, u32)>, key: u32) -> Option<u32>
    decreases map.len(),
{
    if map.len() == 0 {
        None
    } else if map[0].0 == key {
        Some(map[0].1)
    } else {
        spec_lookup(map.drop_first(), key)
    }
}

/// Whether following recorded parents from `cur` reaches `target` within
/// `fuel` steps.  The fuel bounds the walk so that a cyclic record set
/// cannot make it run forever.
pub open spec fn spec_chain_reaches(map: Seq<(u32, u32)>, cur: u32, target: u32, fuel: nat) -> bool
    decreases fuel,
{
    if fuel == 0 {
        false
    } else {
        match spec_lookup(map, cur) {
            None => false,
            Some(pp) => pp == target || spec_chain_reaches(map, pp, target, (fuel - 1) as nat),
        }
    }
}

/// Whether a process is the filtered one, its direct child, or reachable
/// from it through the parents recorded so far.  An ancestor chain longer
/// than the record count cannot occur without a cycle, so the walk stops
/// there.
pub open spec fn spec_related(map: Seq<(u32, u32)>, pid: u32, ppid: u32, target: u32) -> bool {
    pid == target || ppid == target || (match spec_lookup(map, ppid) {
        None => false,
        Some(pp) => pp == target || spec_chain_reaches(map, pp, target, map.len()),
    })
}

fn lookup_ppid(map: &Vec<(u32, u32)>, key: u32) -> (r: Option<u32>)
    ensures
        r == spec_lookup(map@, key),
{
    proof {
        assert(map@.skip(0) =~= map@);
    }
    let mut k: usize = 0;
    while k < map.len()
        invariant
            0 <= k <= map@.len(),
            spec_lookup(map@, key) == spec_lookup(map@.skip(k as int), key),
        decreases map@.len() - k,
    {
        proof {
            assert(map@.skip(k as int)[0] == map@[k as int]);
            assert(map@.skip(k as int).drop_first() =~= map@.skip(k as int + 1));
        }
        let pair = map[k];
        if pair.0 == key {
            return Some(pair.1);
        }
        k = k + 1;
    }
    None
}

fn chain_walk(map: &Vec<(u32, u32)>, cur: u32, target: u32, fuel: usize) -> (r: bool)
    ensures
        r == spec_chain_reaches(map@, cur, target, fuel as nat),
    decreases fuel,
{
    if fuel == 0 {
        false
    } else {
        match lookup_ppid(map, cur) {
            None => false,
            Some(pp) => pp == target || chain_walk(map, pp, target, fuel - 1),
        }
    }
}

/// Whether a fetched process passes the descendant check.
fn related_to(map: &Vec<(u32, u32)>, pid: u32, ppid: u32, target: u32) -> (r: bool)
    ensures
        r == spec_related(map@, pid, ppid, target),
{
    if pid == target || ppid == target {
        true
    } else {
        match lookup_ppid(map, ppid) {
            None => false,
            Some(pp) => pp == target || chain_walk(map, pp, target, map.len()),
        }
    }
}

/// The views of fetched process pairs.
pub open spec fn proc_pair_views(s: Seq<(Process, ProcessStat)>) -> Seq<(ProcessV, ProcessStatV)> {
    s.map_values(|p: (Process, ProcessStat)| (p.0@, p.1@))
}

/// The views of raw entries.
pub open spec fn entry_views(s: Seq<ProcEntry>) -> Seq<ProcEntryV> {
    s.map_values(|e: ProcEntry| e@)
}

/// What enumerating the entries yields, threading the child-to-parent
/// record `map` built from the processes included so far.  A process that
/// vanished mid-read (a not-found read) is skipped; any other failure
/// aborts the whole enumeration.  With a process-id filter set, a process
/// is included only when the filtered process is itself, its parent, or
/// reachable through the parents recorded so far — an enumeration-order
/// sensitivity inherited from building the record in the same pass.
pub open spec fn spec_enumerate(
    entries: Seq<ProcEntryV>,
    f: ProcessFilterV,
    btime_ms: u64,
    tps: u64,
    ps: nat,
    map: Seq<(u32, u32)>,
) -> Result<Seq<(ProcessV, ProcessStatV)>, ProbeError>
    decreases entries.len(),
{
    if entries.len() == 0 {
        Ok(Seq::empty())
    } else {
        let e = entries[0];
        let rest = entries.drop_first();
        match spec_process_entry(e, f, btime_ms, tps, ps) {
            Err(ProbeError::NotFound) => spec_enumerate(rest, f, btime_ms, tps, ps, map),
            Err(er) => Err(er),
            Ok(None) => spec_enumerate(rest, f, btime_ms, tps, ps, map),
            Ok(Some((p, st))) => match f.pid_filter {
                None => match spec_enumerate(rest, f, btime_ms, tps, ps, map) {
                    Err(er) => Err(er),
                    Ok(tail) => Ok(seq![(p, st)] + tail),
                },
                Some(target) => {
                    if spec_related(map, e.pid, p.ppid, target) {
                        match spec_enumerate(
                            rest,
                            f,
                            btime_ms,
                            tps,
                            ps,
                            map.push((e.pid, p.ppid)),
                        ) {
                            Err(er) => Err(er),
                            Ok(tail) => Ok(seq![(p, st)] + tail),
                        }
                    } else {
                        spec_enumerate(rest, f, btime_ms, tps, ps, map)
                    }
                },
            },
        }
    }
}

/// Enumerate processes from their raw entries, applying the filter.
///
/// A process whose files vanished mid-read is skipped rather than
/// aborting the enumeration; every other failure aborts it.
#[verifier::rlimit(50)]
pub fn get_processes_with_stat(
    entries: Vec<ProcEntry>,
    process_filter: &ProcessFilter,
    btime_ms: u64,
    ticks_per_second: u64,
    page_size: usize,
) -> (r: Result<Vec<(Process, ProcessStat)>, ProbeError>)
    requires
        ticks_per_second >= 1,
    ensures
        match spec_enumerate(
            entry_views(entries@),
            process_filter@,
            btime_ms,
            ticks_per_second,
            page_size as nat,
            Seq::empty(),
        ) {
            Ok(vs) => r matches Ok(v) && proc_pair_views(v@) == vs,
            Err(e) => r == Err::<Vec<(Process, ProcessStat)>, ProbeError>(e),
        },
{
    let ghost g = spec_enumerate(
        entry_views(entries@),
        process_filter@,
        btime_ms,
        ticks_per_second,
        page_size as nat,
        Seq::empty(),
    );
    let mut rest = entries;
    let mut out: Vec<(Process, ProcessStat)> = Vec::new();
    let mut map: Vec<(u32, u32)> = Vec::new();
    proof {
        assert(proc_pair_views(out@) =~= Seq::<(ProcessV, ProcessStatV)>::empty());
        match g {
            Ok(tail) => {
                assert(proc_pair_views(out@) + tail =~= tail);
            },
            Err(_) => {},
        }
    }
    while rest.len() > 0
        invariant
            ticks_per_second >= 1,
            g == spec_enumerate(
                entry_views(entries@),
                process_filter@,
                btime_ms,
                ticks_per_second,
                page_size as nat,
                Seq::empty(),
            ),
            g == (match spec_enumerate(
                entry_views(rest@),
                process_filter@,
                btime_ms,
                ticks_per_second,
                page_size as nat,
                map@,
            ) {
                Ok(tail) => Ok::<Seq<(ProcessV, ProcessStatV)>, ProbeError>(
                    proc_pair_views(out@) + tail,
                ),
                Err(er) => Err::<Seq<(ProcessV, ProcessStatV)>, ProbeError>(er),
            }),
        decreases rest@.len(),
    {
        let ghost pre_rest = rest@;
        let e = rest.remove(0);
        proof {
            assert(entry_views(pre_rest)[0] == e@);
            assert(entry_views(pre_rest).drop_first() =~= entry_views(rest@));
        }
        let pid = e.pid;
        match get_process_with_stat(e, process_filter, btime_ms, ticks_per_second, page_size) {
            Err(er) => {
                match er {
                    ProbeError::NotFound => {},
                    _ => {
                        return Err(er);
                    },
                }
            },
            Ok(None) => {},
            Ok(Some((p, st))) => {
                match process_filter.pid_filter {
                    None => {
                        proof {
                            let entry = (p@, st@);
                            let tail0 = spec_enumerate(
                                entry_views(rest@),
                                process_filter@,
                                btime_ms,
                                ticks_per_second,
                                page_size as nat,
                                map@,
                            );
                            match tail0 {
                                Ok(tail) => {
                                    assert(proc_pair_views(out@) + (seq![entry] + tail) =~= (
                                    proc_pair_views(out@) + seq![entry]) + tail);
                                },
                                Err(_) => {},
                            }
                            assert(proc_pair_views(out@.push((p, st))) =~= proc_pair_views(out@)
                                + seq![(p@, st@)]);
                        }
                        out.push((p, st));
                    },
                    Some(target) => {
                        if related_to(&map, pid, p.ppid, target) {
                            proof {
                                let entry = (p@, st@);
                                let tail0 = spec_enumerate(
                                    entry_views(rest@),
                                    process_filter@,
                                    btime_ms,
                                    ticks_per_second,
                                    page_size as nat,
                                    map@.push((pid, p.ppid)),
                                );
                                match tail0 {
                                    Ok(tail) => {
                                        assert(proc_pair_views(out@) + (seq![entry] + tail) =~= (
                                        proc_pair_views(out@) + seq![entry]) + tail);
                                    },
                                    Err(_) => {},
                                }
                                assert(proc_pair_views(out@.push((p, st))) =~= proc_pair_views(
                                    out@,
                                ) + seq![(p@, st@)]);
                            }
                            map.push((pid, p.ppid));
                            out.push((p, st));
                        }
                    },
                }
            },
        }
    }
    proof {
        assert(proc_pair_views(out@) + Seq::<(ProcessV, ProcessStatV)>::empty() =~= proc_pair_views(
            out@,
        ));
    }
    Ok(out)
}

} // verus!
