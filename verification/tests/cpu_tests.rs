use mprober_lib::cpu::{
    compute_all_cpu_utilization, get_all_cpus_stat, get_average_cpu_stat, get_cpus, CPUStat,
};
use mprober_lib::ProbeError;

fn stat(user: u64, nice: u64, system: u64, idle: u64, iowait: u64) -> CPUStat {
    CPUStat {
        user,
        nice,
        system,
        idle,
        iowait,
        irq: 0,
        softirq: 0,
        steal: 0,
        guest: 0,
        guest_nice: 0,
    }
}

#[test]
fn compute_cpu_time_splits_idle_and_busy() {
    let s = stat(100, 0, 0, 400, 0);
    let t = s.compute_cpu_time();
    assert_eq!(t.non_idle, 100);
    assert_eq!(t.idle, 400);
    assert_eq!(t.get_total_time(), 500);
}

#[test]
fn utilization_half_between_snapshots() {
    // busy 100 -> 300, idle 400 -> 600: utilization = 200 / 400 = one half
    let a = stat(100, 0, 0, 400, 0);
    let b = stat(300, 0, 0, 600, 0);
    assert_eq!(a.compute_cpu_utilization_in_percentage(&b), 5000);
}

#[test]
fn utilization_reports_the_raw_quotient_under_noise() {
    // busy grew by 300 but the total only by 100 (idle shrank): the raw
    // quotient comes back, beyond the scale
    let a = stat(100, 0, 0, 400, 0);
    let b = stat(400, 0, 0, 200, 0);
    assert_eq!(a.compute_cpu_utilization_in_percentage(&b), 30000);
    // a total that did not grow yields zero, not an error
    let c = stat(50, 0, 0, 100, 0);
    assert_eq!(a.compute_cpu_utilization_in_percentage(&c), 0);
}

#[test]
fn utilization_unchanged_when_interval_scales() {
    // the same workload measured over twice the interval
    let a = stat(100, 0, 0, 400, 0);
    let b = stat(300, 0, 0, 600, 0);
    let b2 = stat(500, 0, 0, 800, 0);
    assert_eq!(
        a.compute_cpu_utilization_in_percentage(&b),
        a.compute_cpu_utilization_in_percentage(&b2)
    );
}

#[test]
fn average_stat_parses_the_first_line() {
    let data = b"cpu 10 20 30 40 50 60 70 80 90 100\ncpu0 1 2 3 4 5 6 7 8 9 10\n".to_vec();
    let s = get_average_cpu_stat(data).unwrap();
    assert_eq!(s.user, 10);
    assert_eq!(s.nice, 20);
    assert_eq!(s.system, 30);
    assert_eq!(s.idle, 40);
    assert_eq!(s.iowait, 50);
    assert_eq!(s.irq, 60);
    assert_eq!(s.softirq, 70);
    assert_eq!(s.steal, 80);
    assert_eq!(s.guest, 90);
    assert_eq!(s.guest_nice, 100);
}

#[test]
fn average_stat_rejects_other_labels() {
    let data = b"intr 10 20 30 40 50 60 70 80 90 100\n".to_vec();
    assert_eq!(get_average_cpu_stat(data), Err(ProbeError::InvalidData));
}

#[test]
fn average_stat_needs_all_ten_counters() {
    let data = b"cpu 10 20 30\n".to_vec();
    assert_eq!(get_average_cpu_stat(data), Err(ProbeError::UnexpectedEof));
}

#[test]
fn all_cpus_stat_with_and_without_average() {
    let data = b"cpu 3 0 0 3 0 0 0 0 0 0\ncpu0 1 0 0 1 0 0 0 0 0 0\ncpu1 2 0 0 2 0 0 0 0 0 0\nintr 5\n";
    let all = get_all_cpus_stat(true, data.to_vec()).unwrap();
    assert_eq!(all.len(), 3);
    assert_eq!(all[0].user, 3);
    assert_eq!(all[1].user, 1);
    assert_eq!(all[2].user, 2);
    let per_core = get_all_cpus_stat(false, data.to_vec()).unwrap();
    assert_eq!(per_core.len(), 2);
    assert_eq!(per_core[0].user, 1);
}

#[test]
fn all_cpus_stat_needs_a_closing_line() {
    // the listing must be ended by a non-cpu line, not by end of input
    let data = b"cpu 3 0 0 3 0 0 0 0 0 0\ncpu0 1 0 0 1 0 0 0 0 0 0\n".to_vec();
    assert_eq!(get_all_cpus_stat(true, data), Err(ProbeError::UnexpectedEof));
}

#[test]
fn all_cpu_utilization_pairs_by_position() {
    let pre = vec![stat(100, 0, 0, 400, 0), stat(0, 0, 0, 100, 0)];
    let post = vec![stat(300, 0, 0, 600, 0), stat(100, 0, 0, 100, 0)];
    let v = compute_all_cpu_utilization(&pre, &post).unwrap();
    assert_eq!(v, vec![5000, 10000]);
}

#[test]
fn topology_merges_blocks_of_one_package() {
    let data = b"model name\t: Example Core\ncpu MHz\t\t: 2400.000\nphysical id\t: 0\nsiblings\t: 2\ncpu cores\t: 1\n\nmodel name\t: Example Core\ncpu MHz\t\t: 2401.500\nphysical id\t: 0\nsiblings\t: 2\ncpu cores\t: 1\n\nmodel name\t: Example Core\ncpu MHz\t\t: 1200.000\nphysical id\t: 1\nsiblings\t: 1\ncpu cores\t: 1\n\n".to_vec();
    let cpus = get_cpus(data).unwrap();
    assert_eq!(cpus.len(), 2);
    assert_eq!(cpus[0].physical_id, 0);
    assert_eq!(cpus[0].model_name, "Example Core");
    assert_eq!(cpus[0].cpus_mhz, vec![2400000, 2401500]);
    assert_eq!(cpus[0].siblings, 2);
    assert_eq!(cpus[0].cpu_cores, 1);
    assert_eq!(cpus[1].physical_id, 1);
    assert_eq!(cpus[1].cpus_mhz, vec![1200000]);
}

#[test]
fn topology_of_empty_input_is_empty() {
    // end of input while looking for a fresh model name ends normally
    assert_eq!(get_cpus(Vec::new()).unwrap().len(), 0);
}

#[test]
fn topology_fails_when_input_ends_mid_entry() {
    // the entry's model name was seen, so the remaining fields are owed
    let data = b"model name	: Example Core
cpu MHz		: 2400.000
".to_vec();
    assert_eq!(get_cpus(data), Err(ProbeError::UnexpectedEof));
}

#[test]
fn topology_value_needs_its_colon() {
    let data = b"model name Example Core
".to_vec();
    assert_eq!(get_cpus(data), Err(ProbeError::InvalidData));
}
