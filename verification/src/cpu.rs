//! CPU topology, CPU counters and derived utilization.

mod cpu_info;
mod cpu_stat;
mod cpu_time;

pub use cpu_info::{
    cpu_views, get_cpus, initial_topo_state, spec_get_cpus_ok, spec_parse_cpus, spec_topo_blocks,
    TopoState, CPU, CPUV,
};
pub use cpu_stat::{
    compute_all_cpu_utilization, spec_all_cpu_utilization,
    cpu_label, get_all_cpus_stat, get_average_cpu_stat, lemma_utilization_scale_invariant,
    prepend_stats, prepend_vals, spec_cpu_lines, spec_parse_all_cpus_stat,
    spec_parse_average_cpu_stat, spec_stat_of, spec_u64s, util_of, CPUStat,
};
pub use cpu_time::CPUTime;
