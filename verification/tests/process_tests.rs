use mprober_lib::process::{
    get_process_stat, get_process_status, get_process_time_stat, get_process_with_stat,
    get_processes_with_stat, parse_process_stat, tty_name, FileRead, Pattern, ProcEntry,
    ProcessFilter, ProcessState, ProcessTimeStat,
};
use mprober_lib::ProbeError;

fn status_text(uid: u32, gid: u32) -> Vec<u8> {
    format!(
        "Name:\tthing\nUmask:\t0022\nUid:\t{u}\t{u}\t{u}\t{u}\nGid:\t{g}\t{g}\t{g}\t{g}\n",
        u = uid,
        g = gid
    )
    .into_bytes()
}

fn stat_text(pid: u32, comm: &str, ppid: u32, tty_nr: u32) -> Vec<u8> {
    format!(
        "{pid} ({comm}) S {ppid} {pid} {pid} {tty} -1 4194560 100 0 0 0 42 24 7 8 20 0 1 0 999 1000000 200 18446744073709551615 0 0 0 0 0 0 0 0 0 0 0 0 0 2 3\n",
        pid = pid,
        comm = comm,
        ppid = ppid,
        tty = tty_nr
    )
    .into_bytes()
}

fn statm_text() -> Vec<u8> {
    b"2000 1500 100 5 0 600 0\n".to_vec()
}

fn entry(pid: u32, ppid: u32, uid: u32) -> ProcEntry {
    ProcEntry {
        pid,
        status: FileRead::Content(status_text(uid, uid)),
        cmdline: FileRead::Content(b"/bin/thing\0-l\0".to_vec()),
        stat: FileRead::Content(stat_text(pid, "thing", ppid, 1024)),
        statm: FileRead::Content(statm_text()),
    }
}

#[test]
fn status_reads_uid_and_gid_lines() {
    let st = get_process_status(status_text(1000, 100)).unwrap();
    assert_eq!(st.real_uid, 1000);
    assert_eq!(st.effective_uid, 1000);
    assert_eq!(st.saved_set_uid, 1000);
    assert_eq!(st.fs_uid, 1000);
    assert_eq!(st.real_gid, 100);
    assert_eq!(st.fs_gid, 100);
}

#[test]
fn status_without_gid_line_is_an_error() {
    let data = b"Name:\tx\nUid:\t0\t0\t0\t0\n".to_vec();
    assert_eq!(get_process_status(data), Err(ProbeError::UnexpectedEof));
}

#[test]
fn time_stat_reads_the_tick_counters() {
    let t = get_process_time_stat(stat_text(7, "thing", 1, 0)).unwrap();
    assert_eq!(t.utime, 42);
    assert_eq!(t.stime, 24);
}

#[test]
fn accounting_record_is_decoded_field_by_field() {
    let st = parse_process_stat(stat_text(7, "thing", 1, 1094), statm_text(), 4096).unwrap();
    assert_eq!(st.comm, "thing");
    assert_eq!(st.state, ProcessState::Sleeping);
    assert_eq!(st.ppid, 1);
    assert_eq!(st.pgrp, 7);
    assert_eq!(st.session, 7);
    assert_eq!(st.tty_nr_major, 4);
    assert_eq!(st.tty_nr_minor, 70);
    assert_eq!(st.tpgid, None);
    assert_eq!(st.utime, 42);
    assert_eq!(st.stime, 24);
    assert_eq!(st.cutime, 7);
    assert_eq!(st.cstime, 8);
    assert_eq!(st.priority, 20);
    assert_eq!(st.nice, 0);
    assert_eq!(st.num_threads, 1);
    assert_eq!(st.starttime, 999);
    assert_eq!(st.vsize, 1000000);
    assert_eq!(st.rss, 200 * 4096);
    assert_eq!(st.rsslim, 18446744073709551615);
    assert_eq!(st.processor, 2);
    assert_eq!(st.rt_priority, 3);
    assert_eq!(st.shared, 100 * 4096);
    assert_eq!(st.rss_anon, 100 * 4096);
}

#[test]
fn command_name_may_contain_separators() {
    // the name field is the only one whose content can hold the token
    // separator; its whitespace-split pieces are concatenated
    let st = parse_process_stat(stat_text(7, "Web (Content)", 1, 0), statm_text(), 4096).unwrap();
    assert_eq!(st.comm, "Web(Content)");
}

#[test]
fn state_letter_must_be_known() {
    let data = format!("7 (x) Q 1 7 7 0 -1 0 0 0 0 0 1 1 1 1 20 0 1 0 9 9 9 9\n").into_bytes();
    assert_eq!(
        parse_process_stat(data, statm_text(), 4096),
        Err(ProbeError::InvalidData)
    );
}

#[test]
fn tty_names_follow_the_device_numbering() {
    assert_eq!(tty_name(4, 0).unwrap(), "tty0");
    assert_eq!(tty_name(4, 63).unwrap(), "tty63");
    assert_eq!(tty_name(4, 70).unwrap(), "ttyS6");
    assert_eq!(tty_name(136, 5).unwrap(), "pts/5");
    assert_eq!(tty_name(143, 12).unwrap(), "pts/12");
    assert_eq!(tty_name(3, 0), None);
    assert_eq!(tty_name(144, 0), None);
}

#[test]
fn one_process_is_fetched_whole() {
    let (p, st) = get_process_with_stat(entry(7, 1, 1000), &ProcessFilter::default(), 1000, 100, 4096)
        .unwrap()
        .unwrap();
    assert_eq!(p.pid, 7);
    assert_eq!(p.ppid, 1);
    assert_eq!(p.effective_uid, 1000);
    assert_eq!(p.program, "thing");
    // every argument separator becomes a space, the trailing one too
    assert_eq!(p.cmdline, "/bin/thing -l ");
    assert_eq!(p.tty.unwrap(), "tty0");
    // 999 start ticks at 100 ticks per second: 9990 ms after boot
    assert_eq!(p.start_time, 10990);
    assert_eq!(p.rss, 200 * 4096);
    assert_eq!(st.utime, 42);
}

#[test]
fn uid_filter_rejects_other_owners() {
    let filter = ProcessFilter { uid_filter: Some(0), ..ProcessFilter::default() };
    let r = get_process_with_stat(entry(7, 1, 1000), &filter, 1000, 100, 4096).unwrap();
    assert!(r.is_none());
}

#[test]
fn program_filter_matches_the_command_line() {
    let filter = ProcessFilter {
        program_filter: Some(Pattern::compile("thing").unwrap()),
        ..ProcessFilter::default()
    };
    assert!(get_process_with_stat(entry(7, 1, 1000), &filter, 1000, 100, 4096)
        .unwrap()
        .is_some());
    let filter = ProcessFilter {
        program_filter: Some(Pattern::compile("^nomatch$").unwrap()),
        ..ProcessFilter::default()
    };
    assert!(get_process_with_stat(entry(7, 1, 1000), &filter, 1000, 100, 4096)
        .unwrap()
        .is_none());
}

#[test]
fn tty_filter_requires_a_terminal() {
    let filter = ProcessFilter {
        tty_filter: Some(Pattern::compile("tty0").unwrap()),
        ..ProcessFilter::default()
    };
    assert!(get_process_with_stat(entry(7, 1, 1000), &filter, 1000, 100, 4096)
        .unwrap()
        .is_some());
    // no controlling terminal fails any terminal filter
    let mut e = entry(8, 1, 1000);
    e.stat = FileRead::Content(stat_text(8, "thing", 1, 0));
    assert!(get_process_with_stat(e, &filter, 1000, 100, 4096).unwrap().is_none());
}

#[test]
fn enumeration_skips_a_vanished_process() {
    let mut vanished = entry(8, 1, 1000);
    vanished.stat = FileRead::NotFound;
    let entries = vec![entry(7, 1, 1000), vanished, entry(9, 1, 1000)];
    let r = get_processes_with_stat(entries, &ProcessFilter::default(), 1000, 100, 4096).unwrap();
    assert_eq!(r.len(), 2);
    assert_eq!(r[0].0.pid, 7);
    assert_eq!(r[1].0.pid, 9);
}

#[test]
fn enumeration_aborts_on_other_failures() {
    let mut broken = entry(8, 1, 1000);
    broken.status = FileRead::Failed;
    let entries = vec![entry(7, 1, 1000), broken];
    assert_eq!(
        get_processes_with_stat(entries, &ProcessFilter::default(), 1000, 100, 4096),
        Err(ProbeError::Io)
    );
    let mut malformed = entry(8, 1, 1000);
    malformed.stat = FileRead::Content(b"8 (x\n".to_vec());
    let entries = vec![entry(7, 1, 1000), malformed];
    assert_eq!(
        get_processes_with_stat(entries, &ProcessFilter::default(), 1000, 100, 4096),
        Err(ProbeError::UnexpectedEof)
    );
}

#[test]
fn pid_filter_keeps_the_descendant_chain() {
    let entries = vec![
        entry(1, 0, 1000),
        entry(2, 1, 1000),
        entry(3, 2, 1000),
        entry(5, 4, 1000),
    ];
    let filter = ProcessFilter { pid_filter: Some(1), ..ProcessFilter::default() };
    let r = get_processes_with_stat(entries, &filter, 1000, 100, 4096).unwrap();
    let pids: Vec<u32> = r.iter().map(|(p, _)| p.pid).collect();
    assert_eq!(pids, vec![1, 2, 3]);
}

#[test]
fn pid_filter_is_order_sensitive() {
    // a grandchild listed before its parent cannot be resolved yet
    let entries = vec![entry(1, 0, 1000), entry(3, 2, 1000), entry(2, 1, 1000)];
    let filter = ProcessFilter { pid_filter: Some(1), ..ProcessFilter::default() };
    let r = get_processes_with_stat(entries, &filter, 1000, 100, 4096).unwrap();
    let pids: Vec<u32> = r.iter().map(|(p, _)| p.pid).collect();
    assert_eq!(pids, vec![1, 2]);
}

#[test]
fn process_utilization_is_clamped() {
    let a = ProcessTimeStat { utime: 10, stime: 10 };
    let b = ProcessTimeStat { utime: 30, stime: 40 };
    // tick delta 50 against a total of 100
    assert_eq!(a.compute_cpu_utilization_in_percentage(&b, 100), 5000);
    // the delta transiently exceeds the total: clamped, not an error
    assert_eq!(a.compute_cpu_utilization_in_percentage(&b, 10), 10000);
    // a total under one tick yields zero
    assert_eq!(a.compute_cpu_utilization_in_percentage(&b, 0), 0);
}

#[test]
fn time_stat_comes_out_of_a_full_record() {
    let st = parse_process_stat(stat_text(7, "thing", 1, 0), statm_text(), 4096).unwrap();
    let t = ProcessTimeStat::from(st);
    assert_eq!(t.utime, 42);
    assert_eq!(t.stime, 24);
}

#[test]
fn system_record_matches_the_reported_page_size() {
    let (ps, r) = get_process_stat(stat_text(7, "thing", 1, 0), statm_text());
    assert!(ps > 0);
    assert_eq!(r, parse_process_stat(stat_text(7, "thing", 1, 0), statm_text(), ps));
}

#[test]
fn patterns_really_consult_the_text() {
    let p = Pattern::compile("^b.sh$").unwrap();
    assert!(p.is_match("bash"));
    assert!(p.is_match("bosh"));
    assert!(!p.is_match("zsh"));
    assert!(Pattern::compile("(unclosed").is_none());
}
