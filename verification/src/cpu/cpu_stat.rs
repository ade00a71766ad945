use vstd::arithmetic::div_mod::{lemma_div_multiples_vanish_quotient, lemma_multiply_divide_le};
use vstd::prelude::*;

use crate::cpu::cpu_time::CPUTime;
use crate::error::ProbeError;
use crate::scan::{
    bytes_eq, has_tok, lemma_skip_toks_ge, lemma_tok_advance, spec_next_u64, spec_skip_toks,
    tok_bytes, tok_end, tok_starts_with, after_line, starts_with, Cursor,
};

verus! {

/// One counter line of the CPU accounting file: ten cumulative tick
/// counters.  On a live system each counter is monotonically non-decreasing
/// between two reads.
#[derive(Debug, Clone, Copy, PartialEq, Eq, Structural)]
pub struct CPUStat {
    pub user: u64,
    pub nice: u64,
    pub system: u64,
    pub idle: u64,
    pub iowait: u64,
    pub irq: u64,
    pub softirq: u64,
    pub steal: u64,
    pub guest: u64,
    pub guest_nice: u64,
}

/// The label that opens every counter line.  Reads "cpu".
pub open spec fn cpu_label() -> Seq<u8> {
    seq![99u8, 112u8, 117u8]
}

/// Utilization over a pair of deltas, in parts per ten thousand: the
/// busy delta against the elapsed total, rounded down.  A non-positive
/// elapsed total yields zero (nothing can be divided by), a negative busy
/// delta counts as zero, and a quotient beyond the counter width
/// saturates there.  With monotone counters the quotient never exceeds
/// ten thousand; with noisy ones it may.
pub open spec fn util_of(dn: int, dt: int) -> int {
    if dt <= 0 {
        0
    } else {
        let lo = if dn < 0 {
            0
        } else {
            dn
        };
        let q = lo * 10000 / dt;
        if q > u64::MAX {
            u64::MAX as int
        } else {
            q
        }
    }
}

impl CPUStat {
    /// Ticks spent idle: idle plus iowait.
    pub open spec fn spec_idle(self) -> int {
        self.idle + self.iowait
    }

    /// Ticks spent busy: the six non-idle counters.
    pub open spec fn spec_busy(self) -> int {
        self.user + self.nice + self.system + self.irq + self.softirq + self.steal
    }

    /// All accounted ticks.
    pub open spec fn spec_total(self) -> int {
        self.spec_idle() + self.spec_busy()
    }

    /// The aggregated sums fit the counter width.
    pub open spec fn sums_fit(self) -> bool {
        self.spec_total() <= u64::MAX
    }

    /// Add all idle time and non-idle time respectively.
    pub fn compute_cpu_time(&self) -> (r: CPUTime)
        requires
            self.sums_fit(),
        ensures
            r.idle == self.spec_idle(),
            r.non_idle == self.spec_busy(),
    {
        let idle = self.idle + self.iowait;
        let non_idle = self.user + self.nice + self.system + self.irq + self.softirq + self.steal;
        CPUTime { idle, non_idle }
    }

    /// Compute CPU utilization between this counter snapshot and a later
    /// one, in parts per ten thousand (`10000` means all CPUs fully busy):
    /// the raw quotient `(busy delta) * 10000 / (total delta)`, rounded
    /// down.
    ///
    /// With counters that only grew, the result lies in `[0, 10000]`;
    /// under measurement noise (an idle counter shrinking) the quotient
    /// is reported as it is and may exceed the scale.
    pub fn compute_cpu_utilization_in_percentage(&self, cpu_stat_after_this: &CPUStat) -> (r: u64)
        requires
            self.sums_fit(),
            cpu_stat_after_this.sums_fit(),
        ensures
            r == util_of(
                cpu_stat_after_this.spec_busy() - self.spec_busy(),
                cpu_stat_after_this.spec_total() - self.spec_total(),
            ),
            self.spec_idle() <= cpu_stat_after_this.spec_idle() && self.spec_busy()
                <= cpu_stat_after_this.spec_busy() ==> r <= 10000,
    {
        let pre = self.compute_cpu_time();
        let now = cpu_stat_after_this.compute_cpu_time();
        let total_pre = pre.get_total_time();
        let total_now = now.get_total_time();
        if total_now <= total_pre {
            return 0;
        }
        let dt = total_now - total_pre;
        let dn: u64 = if now.non_idle >= pre.non_idle {
            now.non_idle - pre.non_idle
        } else {
            0
        };
        let q: u128 = (dn as u128 * 10000) / (dt as u128);
        proof {
            if self.spec_idle() <= cpu_stat_after_this.spec_idle() && self.spec_busy()
                <= cpu_stat_after_this.spec_busy() {
                assert(dn * 10000 <= dt * 10000) by (nonlinear_arith)
                    requires
                        0 <= dn <= dt,
                ;
                lemma_multiply_divide_le(dn as int * 10000, dt as int, 10000);
            }
        }
        if q > u64::MAX as u128 {
            u64::MAX
        } else {
            q as u64
        }
    }
}

/// Utilization is invariant under scaling both deltas by the same positive
/// factor: an interval twice as long with counters growing proportionally
/// reports the same utilization.
pub proof fn lemma_utilization_scale_invariant(dn: int, dt: int, k: int)
    requires
        k >= 1,
    ensures
        util_of(k * dn, k * dt) == util_of(dn, dt),
{
    if dt <= 0 {
        assert(k * dt <= 0) by (nonlinear_arith)
            requires
                k >= 1 && dt <= 0,
        ;
    } else {
        assert(k * dt > 0) by (nonlinear_arith)
            requires
                k >= 1 && dt > 0,
        ;
        let lo = if dn < 0 { 0 } else { dn };
        let klo = if k * dn < 0 { 0 } else { k * dn };
        assert(klo == k * lo) by (nonlinear_arith)
            requires
                k >= 1
                && lo == (if dn < 0 { 0int } else { dn })
                && klo == (if k * dn < 0 { 0int } else { k * dn }),
        ;
        lemma_div_multiples_vanish_quotient(k, lo * 10000, dt);
        assert(k * (lo * 10000) == (k * lo) * 10000) by (nonlinear_arith);
        assert((k * lo) * 10000 / (k * dt) == lo * 10000 / dt);
    }
}

/// The values of the next `n` tokens, each read as an unsigned 64-bit
/// decimal numeral; the first missing or malformed token decides the error.
pub open spec fn spec_u64s(s: Seq<u8>, i: int, n: nat) -> Result<Seq<u64>, ProbeError>
    decreases n,
{
    if n == 0 {
        Ok(Seq::empty())
    } else {
        match spec_next_u64(s, i) {
            Ok(v) => match spec_u64s(s, tok_end(s, i), (n - 1) as nat) {
                Ok(rest) => Ok(seq![v] + rest),
                Err(e) => Err(e),
            },
            Err(e) => Err(e),
        }
    }
}

/// Values already read, followed by whatever the rest of the read yields.
pub open spec fn prepend_vals(vs: Seq<u64>, r: Result<Seq<u64>, ProbeError>) -> Result<
    Seq<u64>,
    ProbeError,
> {
    match r {
        Ok(rest) => Ok(vs + rest),
        Err(e) => Err(e),
    }
}

/// Read `n` consecutive unsigned 64-bit counters.
fn read_u64s(cur: &mut Cursor, n: usize) -> (r: Result<Vec<u64>, ProbeError>)
    requires
        old(cur).wf(),
    ensures
        final(cur).wf(),
        final(cur).bytes() == old(cur).bytes(),
        match spec_u64s(old(cur).bytes(), old(cur).at(), n as nat) {
            Ok(vs) => r matches Ok(v) && v@ == vs && v@.len() == n && Some(final(cur).at())
                == spec_skip_toks(old(cur).bytes(), old(cur).at(), n as nat),
            Err(e) => r == Err::<Vec<u64>, ProbeError>(e),
        },
{
    let mut vals: Vec<u64> = Vec::new();
    let mut k: usize = 0;
    while k < n
        invariant
            cur.wf(),
            cur.bytes() == old(cur).bytes(),
            0 <= k <= n,
            vals@.len() == k,
            spec_u64s(old(cur).bytes(), old(cur).at(), n as nat) == prepend_vals(
                vals@,
                spec_u64s(old(cur).bytes(), cur.at(), (n - k) as nat),
            ),
            spec_skip_toks(old(cur).bytes(), old(cur).at(), n as nat) == spec_skip_toks(
                old(cur).bytes(),
                cur.at(),
                (n - k) as nat,
            ),
        decreases n - k,
    {
        let ghost s = cur.bytes();
        let ghost p = cur.at();
        match cur.next_u64() {
            Err(e) => {
                return Err(e);
            },
            Ok(v) => {
                proof {
                    let rest = spec_u64s(s, tok_end(s, p), (n - k - 1) as nat);
                    match rest {
                        Ok(tail) => {
                            assert(vals@ + (seq![v] + tail) =~= (vals@ + seq![v]) + tail);
                        },
                        Err(_) => {},
                    }
                    assert(vals@.push(v) =~= vals@ + seq![v]);
                }
                vals.push(v);
            },
        }
        k = k + 1;
    }
    proof {
        assert(vals@ + Seq::<u64>::empty() =~= vals@);
    }
    Ok(vals)
}

/// The counter struct assembled from ten token values.
pub open spec fn spec_stat_of(vs: Seq<u64>) -> CPUStat
    recommends
        vs.len() == 10,
{
    CPUStat {
        user: vs[0],
        nice: vs[1],
        system: vs[2],
        idle: vs[3],
        iowait: vs[4],
        irq: vs[5],
        softirq: vs[6],
        steal: vs[7],
        guest: vs[8],
        guest_nice: vs[9],
    }
}

fn stat_from_vals(vs: &Vec<u64>) -> (r: CPUStat)
    requires
        vs@.len() == 10,
    ensures
        r == spec_stat_of(vs@),
{
    CPUStat {
        user: vs[0],
        nice: vs[1],
        system: vs[2],
        idle: vs[3],
        iowait: vs[4],
        irq: vs[5],
        softirq: vs[6],
        steal: vs[7],
        guest: vs[8],
        guest_nice: vs[9],
    }
}

/// What decoding the first line of the accounting file yields: the literal
/// label `cpu`, then ten counters.
pub open spec fn spec_parse_average_cpu_stat(s: Seq<u8>) -> Result<CPUStat, ProbeError> {
    if !has_tok(s, 0) {
        Err(ProbeError::UnexpectedEof)
    } else if tok_bytes(s, 0) != cpu_label() {
        Err(ProbeError::InvalidData)
    } else {
        match spec_u64s(s, tok_end(s, 0), 10) {
            Ok(vs) => Ok(spec_stat_of(vs)),
            Err(e) => Err(e),
        }
    }
}

/// Decode the system-wide average counter line from the contents of the
/// CPU accounting file.
pub fn get_average_cpu_stat(data: Vec<u8>) -> (r: Result<CPUStat, ProbeError>)
    ensures
        r == spec_parse_average_cpu_stat(data@),
{
    let mut cur = Cursor::new(data);
    let label: [u8; 3] = [99, 112, 117];
    proof {
        assert(label@ =~= cpu_label());
    }
    match cur.next_raw() {
        None => Err(ProbeError::UnexpectedEof),
        Some(l) => {
            if !bytes_eq(&l, label.as_slice()) {
                return Err(ProbeError::InvalidData);
            }
            match read_u64s(&mut cur, 10) {
                Ok(vs) => Ok(stat_from_vals(&vs)),
                Err(e) => Err(e),
            }
        },
    }
}

/// The counter lines that follow: each opens with a label starting with
/// `cpu`; the first label of another shape ends the listing, and running
/// out of input before such a label is an error.
pub open spec fn spec_cpu_lines(s: Seq<u8>, i: int) -> Result<Seq<CPUStat>, ProbeError>
    decreases s.len() - i when 0 <= i <= s.len() via spec_cpu_lines_decreases
{
    if !has_tok(s, i) {
        Err(ProbeError::UnexpectedEof)
    } else if !starts_with(tok_bytes(s, i), cpu_label()) {
        Ok(Seq::empty())
    } else {
        match spec_u64s(s, tok_end(s, i), 10) {
            Err(e) => Err(e),
            Ok(vs) => match spec_skip_toks(s, tok_end(s, i), 10) {
                None => Err(ProbeError::UnexpectedEof),
                Some(j) => match spec_cpu_lines(s, j) {
                    Err(e) => Err(e),
                    Ok(rest) => Ok(seq![spec_stat_of(vs)] + rest),
                },
            },
        }
    }
}

#[via_fn]
proof fn spec_cpu_lines_decreases(s: Seq<u8>, i: int) {
    lemma_tok_advance(s, i);
    lemma_skip_toks_ge(s, tok_end(s, i), 10);
}

/// Stats already read, followed by whatever the rest of the listing
/// yields.
pub open spec fn prepend_stats(vs: Seq<CPUStat>, r: Result<Seq<CPUStat>, ProbeError>) -> Result<
    Seq<CPUStat>,
    ProbeError,
> {
    match r {
        Ok(rest) => Ok(vs + rest),
        Err(e) => Err(e),
    }
}

/// What decoding the whole accounting file yields: with `with_average` the
/// first line's label must be exactly `cpu` and its counters open the
/// listing; otherwise the first line is skipped.  Then one record per
/// `cpuN` line.
pub open spec fn spec_parse_all_cpus_stat(s: Seq<u8>, with_average: bool) -> Result<
    Seq<CPUStat>,
    ProbeError,
> {
    if with_average {
        if !has_tok(s, 0) {
            Err(ProbeError::UnexpectedEof)
        } else if tok_bytes(s, 0) != cpu_label() {
            Err(ProbeError::InvalidData)
        } else {
            match spec_u64s(s, tok_end(s, 0), 10) {
                Err(e) => Err(e),
                Ok(vs) => match spec_skip_toks(s, tok_end(s, 0), 10) {
                    None => Err(ProbeError::UnexpectedEof),
                    Some(j) => match spec_cpu_lines(s, j) {
                        Err(e) => Err(e),
                        Ok(rest) => Ok(seq![spec_stat_of(vs)] + rest),
                    },
                },
            }
        }
    } else {
        if s.len() == 0 {
            Err(ProbeError::UnexpectedEof)
        } else {
            spec_cpu_lines(s, after_line(s, 0))
        }
    }
}

/// Decode all per-CPU counter lines (optionally keeping the system-wide
/// average line first) from the contents of the CPU accounting file.
pub fn get_all_cpus_stat(with_average: bool, data: Vec<u8>) -> (r: Result<
    Vec<CPUStat>,
    ProbeError,
>)
    ensures
        match spec_parse_all_cpus_stat(data@, with_average) {
            Ok(vs) => r matches Ok(v) && v@ == vs,
            Err(e) => r == Err::<Vec<CPUStat>, ProbeError>(e),
        },
{
    let ghost s = data@;
    let ghost g = spec_parse_all_cpus_stat(data@, with_average);
    let mut cur = Cursor::new(data);
    let label: [u8; 3] = [99, 112, 117];
    proof {
        assert(label@ =~= cpu_label());
    }
    let mut stats: Vec<CPUStat> = Vec::new();
    if with_average {
        match cur.next_raw() {
            None => {
                return Err(ProbeError::UnexpectedEof);
            },
            Some(l) => {
                if !bytes_eq(&l, label.as_slice()) {
                    return Err(ProbeError::InvalidData);
                }
            },
        }
        match read_u64s(&mut cur, 10) {
            Err(e) => {
                return Err(e);
            },
            Ok(vs) => {
                proof {
                    assert(Seq::<CPUStat>::empty().push(spec_stat_of(vs@)) =~= seq![
                        spec_stat_of(vs@),
                    ]);
                }
                stats.push(stat_from_vals(&vs));
            },
        }
    } else {
        if !cur.skip_line() {
            return Err(ProbeError::UnexpectedEof);
        }
    }
    let mut done = false;
    while !done
        invariant
            cur.wf(),
            cur.bytes() == s,
            s == data@,
            label@ == cpu_label(),
            g == spec_parse_all_cpus_stat(s, with_average),
            !done ==> g == prepend_stats(stats@, spec_cpu_lines(s, cur.at())),
            done ==> g == Ok::<Seq<CPUStat>, ProbeError>(stats@),
        decreases s.len() - cur.at() + (if done { 0int } else { 1int }),
    {
        let ghost p = cur.at();
        proof {
            lemma_tok_advance(s, p);
        }
        match cur.next_raw() {
            None => {
                return Err(ProbeError::UnexpectedEof);
            },
            Some(l) => {
                if !tok_starts_with(&l, label.as_slice()) {
                    proof {
                        assert(stats@ + Seq::<CPUStat>::empty() =~= stats@);
                    }
                    done = true;
                } else {
                    match read_u64s(&mut cur, 10) {
                        Err(e) => {
                            return Err(e);
                        },
                        Ok(vs) => {
                            proof {
                                lemma_skip_toks_ge(s, tok_end(s, p), 10);
                                let rest = spec_cpu_lines(s, cur.at());
                                match rest {
                                    Ok(tail) => {
                                        assert(stats@ + (seq![spec_stat_of(vs@)] + tail) =~= (
                                        stats@ + seq![spec_stat_of(vs@)]) + tail);
                                    },
                                    Err(_) => {},
                                }
                                assert(stats@.push(spec_stat_of(vs@)) =~= stats@ + seq![
                                    spec_stat_of(vs@),
                                ]);
                            }
                            stats.push(stat_from_vals(&vs));
                        },
                    }
                }
            },
        }
    }
    Ok(stats)
}

/// Per-CPU utilization over two same-order counter listings, in parts
/// per ten thousand: the listings are paired position by position, extra
/// entries of the longer one are dropped, and a pair whose sums overflow
/// the counter width rejects the computation.
pub open spec fn spec_all_cpu_utilization(pre: Seq<CPUStat>, post: Seq<CPUStat>) -> Result<
    Seq<u64>,
    ProbeError,
> {
    let n = if pre.len() <= post.len() {
        pre.len() as int
    } else {
        post.len() as int
    };
    if forall|i: int| 0 <= i < n ==> (#[trigger] pre[i]).sums_fit() && (#[trigger] post[i]).sums_fit() {
        Ok(
            Seq::new(
                n as nat,
                |i: int|
                    util_of(
                        post[i].spec_busy() - pre[i].spec_busy(),
                        post[i].spec_total() - pre[i].spec_total(),
                    ) as u64,
            ),
        )
    } else {
        Err(ProbeError::InvalidData)
    }
}

/// Whether a counter line's sums fit the counter width.
fn sums_fit_exec(c: &CPUStat) -> (r: bool)
    ensures
        r == c.sums_fit(),
{
    let t: u128 = c.idle as u128 + c.iowait as u128 + c.user as u128 + c.nice as u128
        + c.system as u128 + c.irq as u128 + c.softirq as u128 + c.steal as u128;
    t <= u64::MAX as u128
}

/// Compute each CPU's utilization between two same-order counter
/// listings, position by position.
pub fn compute_all_cpu_utilization(pre: &Vec<CPUStat>, post: &Vec<CPUStat>) -> (r: Result<
    Vec<u64>,
    ProbeError,
>)
    ensures
        match spec_all_cpu_utilization(pre@, post@) {
            Ok(vs) => r matches Ok(v) && v@ == vs,
            Err(e) => r == Err::<Vec<u64>, ProbeError>(e),
        },
{
    let n = if pre.len() <= post.len() {
        pre.len()
    } else {
        post.len()
    };
    let mut out: Vec<u64> = Vec::new();
    let mut i: usize = 0;
    while i < n
        invariant
            n == (if pre@.len() <= post@.len() {
                pre@.len() as int
            } else {
                post@.len() as int
            }),
            0 <= i <= n,
            out@.len() == i,
            forall|j: int| 0 <= j < i ==> (#[trigger] pre@[j]).sums_fit(),
            forall|j: int| 0 <= j < i ==> (#[trigger] post@[j]).sums_fit(),
            forall|j: int|
                0 <= j < i ==> out@[j] == util_of(
                    (#[trigger] post@[j]).spec_busy() - pre@[j].spec_busy(),
                    post@[j].spec_total() - pre@[j].spec_total(),
                ) as u64,
        decreases n - i,
    {
        let a = &pre[i];
        let b = &post[i];
        let fa = sums_fit_exec(a);
        let fb = sums_fit_exec(b);
        if !fa || !fb {
            return Err(ProbeError::InvalidData);
        }
        proof {
            assert(pre@[i as int].sums_fit());
            assert(post@[i as int].sums_fit());
        }
        let u = a.compute_cpu_utilization_in_percentage(b);
        out.push(u);
        i = i + 1;
    }
    proof {
        let m: int = if pre@.len() <= post@.len() {
            pre@.len() as int
        } else {
            post@.len() as int
        };
        assert(forall|j: int| 0 <= j < m ==> (#[trigger] pre@[j]).sums_fit());
        assert(forall|j: int| 0 <= j < m ==> (#[trigger] post@[j]).sums_fit());
        match spec_all_cpu_utilization(pre@, post@) {
            Ok(vs) => {
                assert forall|j: int| 0 <= j < m implies out@[j] == vs[j] by {
                    assert(pre@[j].sums_fit());
                }
                assert(out@ =~= vs);
            },
            Err(_) => {
                assert(false);
            },
        }
    }
    Ok(out)
}

} // verus!
