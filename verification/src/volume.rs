//! Block devices: mount points decoded from the mount table, cumulative
//! counters decoded from the block-device counters file, and transfer
//! rates over paired snapshots.

mod mounts;
mod volume_stat;

pub use mounts::{
    dev_prefix, get_mounts, mapper_prefix, mount_entry_views, spec_mount_entries, MountEntry,
    MountEntryV,
};
pub use volume_stat::{VolumeSpeed, VolumeStat};

use vstd::prelude::*;

use crate::error::ProbeError;
use crate::rate::speed_of;
use crate::scan::{
    after_line, has_tok, lemma_span_until, lemma_skip_toks_ge, lemma_tok_advance, spec_next_u64,
    spec_skip_toks, tok_bytes, tok_end, Cursor,
};
use crate::text::{ascii_view, bytes_to_string};

verus! {

/// A mounted block device: its name and every mount point it carries.
#[derive(Debug, Clone, PartialEq, Eq)]
pub struct Mount {
    pub device: String,
    pub points: Vec<String>,
}

/// The mathematical content of a `Mount`.
pub struct MountV {
    pub device: Seq<char>,
    pub points: Seq<Seq<char>>,
}

impl View for Mount {
    type V = MountV;

    open spec fn view(&self) -> MountV {
        MountV {
            device: self.device@,
            points: Seq::new(self.points@.len(), |i: int| self.points@[i]@),
        }
    }
}

/// The views of a sequence of mounts.
pub open spec fn mount_views(s: Seq<Mount>) -> Seq<MountV> {
    s.map_values(|m: Mount| m@)
}

/// The first mount of the given device name.
pub open spec fn spec_find_mount(ms: Seq<MountV>, device: Seq<char>) -> Option<int>
    decreases ms.len(),
{
    if ms.len() == 0 {
        None
    } else if ms[0].device == device {
        Some(0int)
    } else {
        match spec_find_mount(ms.drop_first(), device) {
            Some(i) => Some(i + 1),
            None => None,
        }
    }
}

proof fn lemma_find_mount(ms: Seq<MountV>, device: Seq<char>)
    ensures
        match spec_find_mount(ms, device) {
            Some(i) => 0 <= i < ms.len() && ms[i].device == device && forall|j: int|
                0 <= j < i ==> (#[trigger] ms[j]).device != device,
            None => forall|j: int| 0 <= j < ms.len() ==> (#[trigger] ms[j]).device != device,
        },
    decreases ms.len(),
{
    if ms.len() > 0 && ms[0].device != device {
        lemma_find_mount(ms.drop_first(), device);
        assert(forall|j: int| 1 <= j < ms.len() ==> #[trigger] ms[j] == ms.drop_first()[j - 1]);
    }
}

fn find_mount(ms: &Vec<Mount>, device: &String) -> (r: Option<usize>)
    ensures
        r matches Some(k) ==> spec_find_mount(mount_views(ms@), device@) == Some(k as int),
        r is None ==> spec_find_mount(mount_views(ms@), device@) is None,
{
    proof {
        lemma_find_mount(mount_views(ms@), device@);
    }
    let mut k: usize = 0;
    while k < ms.len()
        invariant
            0 <= k <= ms@.len(),
            forall|j: int| 0 <= j < k ==> (#[trigger] mount_views(ms@)[j]).device != device@,
        decreases ms@.len() - k,
    {
        proof {
            assert(mount_views(ms@)[k as int] == ms@[k as int]@);
        }
        if ms[k].device == *device {
            proof {
                lemma_find_mount(mount_views(ms@), device@);
                assert(mount_views(ms@)[k as int].device == device@);
            }
            return Some(k);
        }
        k = k + 1;
    }
    proof {
        lemma_find_mount(mount_views(ms@), device@);
    }
    None
}

/// One mount entry folded into the table: its point joins the device's
/// mount, or opens a new one.
pub open spec fn spec_fold_mount(acc: Seq<MountV>, e: MountEntryV) -> Seq<MountV> {
    match spec_find_mount(acc, e.device) {
        Some(i) => acc.update(
            i,
            MountV { device: acc[i].device, points: acc[i].points.push(e.point) },
        ),
        None => acc.push(MountV { device: e.device, points: seq![e.point] }),
    }
}

/// The mount table built from the entries in order.
pub open spec fn spec_group_mounts(acc: Seq<MountV>, rest: Seq<MountEntryV>) -> Seq<MountV>
    decreases rest.len(),
{
    if rest.len() == 0 {
        acc
    } else {
        spec_group_mounts(spec_fold_mount(acc, rest[0]), rest.drop_first())
    }
}

/// Group mount entries by device, keeping first-seen order; a device
/// mounted several times carries all its points.
pub fn group_mounts(entries: Vec<MountEntry>) -> (r: Vec<Mount>)
    ensures
        mount_views(r@) == spec_group_mounts(Seq::empty(), mount_entry_views(entries@)),
{
    let ghost all = mount_entry_views(entries@);
    let mut rest = entries;
    let mut out: Vec<Mount> = Vec::new();
    proof {
        assert(mount_views(out@) =~= Seq::<MountV>::empty());
    }
    while rest.len() > 0
        invariant
            spec_group_mounts(Seq::empty(), all) == spec_group_mounts(
                mount_views(out@),
                mount_entry_views(rest@),
            ),
        decreases rest@.len(),
    {
        let ghost pre_rest = rest@;
        let e = rest.remove(0);
        proof {
            assert(mount_entry_views(pre_rest)[0] == e@);
            assert(mount_entry_views(pre_rest).drop_first() =~= mount_entry_views(rest@));
        }
        match find_mount(&out, &e.device) {
            Some(i) => {
                proof {
                    lemma_find_mount(mount_views(out@), e.device@);
                }
                let ghost pre_out = out@;
                let mut m = out.remove(i);
                let ghost m0 = m@;
                m.points.push(e.point);
                proof {
                    assert(m@.points =~= m0.points.push(e@.point));
                }
                let ghost m1 = m@;
                out.insert(i, m);
                proof {
                    let fv = spec_fold_mount(mount_views(pre_out), e@);
                    assert(mount_views(pre_out)[i as int] == pre_out[i as int]@);
                    assert(m0 == pre_out[i as int]@);
                    assert forall|j: int| 0 <= j < out@.len() implies mount_views(out@)[j]
                        == fv[j] by {
                        assert(mount_views(out@)[j] == out@[j]@);
                        if j < i as int {
                            assert(out@[j] == pre_out[j]);
                        } else if j == i as int {
                            assert(out@[j]@ == m1);
                        } else {
                            assert(out@[j] == pre_out[j]);
                        }
                    }
                    assert(mount_views(out@) =~= fv);
                }
            },
            None => {
                let ghost pre_out = out@;
                let mut points: Vec<String> = Vec::new();
                points.push(e.point);
                let m = Mount { device: e.device, points };
                proof {
                    assert(m@.points =~= seq![e@.point]);
                }
                out.push(m);
                proof {
                    assert(mount_views(out@) =~= spec_fold_mount(mount_views(pre_out), e@));
                }
            },
        }
    }
    out
}

/// One mounted block device with its cumulative counters, before the
/// filesystem sizes are known.
#[derive(Debug, Clone, PartialEq, Eq)]
pub struct VolumeCounter {
    pub device: String,
    pub stat: VolumeStat,
    pub points: Vec<String>,
}

/// The mathematical content of a `VolumeCounter`.
pub struct VolumeCounterV {
    pub device: Seq<char>,
    pub stat: VolumeStat,
    pub points: Seq<Seq<char>>,
}

impl View for VolumeCounter {
    type V = VolumeCounterV;

    open spec fn view(&self) -> VolumeCounterV {
        VolumeCounterV {
            device: self.device@,
            stat: self.stat,
            points: Seq::new(self.points@.len(), |i: int| self.points@[i]@),
        }
    }
}

/// The views of a sequence of volume counters.
pub open spec fn counter_views(s: Seq<VolumeCounter>) -> Seq<VolumeCounterV> {
    s.map_values(|c: VolumeCounter| c@)
}

/// One block device as reported to the caller, with its filesystem size
/// and usage in bytes.
#[derive(Debug, Clone, PartialEq, Eq)]
pub struct Volume {
    pub device: String,
    pub stat: VolumeStat,
    pub size: u64,
    pub used: u64,
    pub points: Vec<String>,
}

/// The mathematical content of a `Volume`.
pub struct VolumeV {
    pub device: Seq<char>,
    pub stat: VolumeStat,
    pub size: u64,
    pub used: u64,
    pub points: Seq<Seq<char>>,
}

impl View for Volume {
    type V = VolumeV;

    open spec fn view(&self) -> VolumeV {
        VolumeV {
            device: self.device@,
            stat: self.stat,
            size: self.size,
            used: self.used,
            points: Seq::new(self.points@.len(), |i: int| self.points@[i]@),
        }
    }
}

impl Volume {
    /// Complete a counter record with the filesystem size and usage the
    /// caller queried for its first mount point.
    pub fn assemble(counter: VolumeCounter, size: u64, used: u64) -> (r: Volume)
        ensures
            r@.device == counter@.device,
            r@.stat == counter@.stat,
            r@.size == size,
            r@.used == used,
            r@.points == counter@.points,
    {
        Volume {
            device: counter.device,
            stat: counter.stat,
            size,
            used,
            points: counter.points,
        }
    }
}

/// What decoding the block-device counter lines yields, reading from
/// position `i` against the unmatched mounts: per line, two fields
/// skipped, the device name, and — for a mounted device — two skipped
/// fields, the read counter, three skipped, the write counter, two
/// skipped, and the cumulative time spent on transfers.  Each mount
/// matches at most once, and a device whose transfer-time counter is zero
/// was never active and is left out.
pub open spec fn spec_disk_entries(s: Seq<u8>, i: int, mounts: Seq<MountV>) -> Result<
    Seq<VolumeCounterV>,
    ProbeError,
>
    decreases s.len() - i when 0 <= i <= s.len() via spec_disk_entries_decreases
{
    if !has_tok(s, i) {
        Ok(Seq::empty())
    } else {
        let p1 = tok_end(s, i);
        if !has_tok(s, p1) {
            Err(ProbeError::UnexpectedEof)
        } else {
            let p2 = tok_end(s, p1);
            if !has_tok(s, p2) {
                Err(ProbeError::UnexpectedEof)
            } else {
                let dev = ascii_view(tok_bytes(s, p2));
                let p3 = tok_end(s, p2);
                match spec_find_mount(mounts, dev) {
                    None => spec_disk_entries(s, p3, mounts),
                    Some(ix) => match spec_skip_toks(s, p3, 2) {
                        None => Err(ProbeError::UnexpectedEof),
                        Some(p4) => match spec_next_u64(s, p4) {
                            Err(e) => Err(e),
                            Ok(rb) => match spec_skip_toks(s, tok_end(s, p4), 3) {
                                None => Err(ProbeError::UnexpectedEof),
                                Some(p6) => match spec_next_u64(s, p6) {
                                    Err(e) => Err(e),
                                    Ok(wb) => match spec_skip_toks(s, tok_end(s, p6), 2) {
                                        None => Err(ProbeError::UnexpectedEof),
                                        Some(p8) => match spec_next_u64(s, p8) {
                                            Err(e) => Err(e),
                                            Ok(ts) => {
                                                let p9 = tok_end(s, p8);
                                                if p9 == s.len() {
                                                    Err(ProbeError::UnexpectedEof)
                                                } else {
                                                    match spec_disk_entries(
                                                        s,
                                                        after_line(s, p9),
                                                        mounts.remove(ix),
                                                    ) {
                                                        Err(e) => Err(e),
                                                        Ok(rest) => if ts > 0 {
                                                            Ok(
                                                                seq![
                                                                    VolumeCounterV {
                                                                        device: dev,
                                                                        stat: VolumeStat {
                                                                            read_bytes: rb,
                                                                            write_bytes: wb,
                                                                        },
                                                                        points: mounts[ix].points,
                                                                    },
                                                                ] + rest,
                                                            )
                                                        } else {
                                                            Ok(rest)
                                                        },
                                                    }
                                                }
                                            },
                                        },
                                    },
                                },
                            },
                        },
                    },
                }
            }
        }
    }
}

#[via_fn]
proof fn spec_disk_entries_decreases(s: Seq<u8>, i: int, mounts: Seq<MountV>) {
    lemma_tok_advance(s, i);
    lemma_tok_advance(s, tok_end(s, i));
    lemma_tok_advance(s, tok_end(s, tok_end(s, i)));
    let p3 = tok_end(s, tok_end(s, tok_end(s, i)));
    lemma_skip_toks_ge(s, p3, 2);
    let p4o = spec_skip_toks(s, p3, 2);
    if p4o is Some {
        let p4 = p4o->0;
        lemma_tok_advance(s, p4);
        lemma_skip_toks_ge(s, tok_end(s, p4), 3);
        let p6o = spec_skip_toks(s, tok_end(s, p4), 3);
        if p6o is Some {
            let p6 = p6o->0;
            lemma_tok_advance(s, p6);
            lemma_skip_toks_ge(s, tok_end(s, p6), 2);
            let p8o = spec_skip_toks(s, tok_end(s, p6), 2);
            if p8o is Some {
                let p8 = p8o->0;
                lemma_tok_advance(s, p8);
                lemma_span_until(s, tok_end(s, p8), 10);
            }
        }
    }
}

/// Counters already decoded, followed by whatever the rest yields.
pub open spec fn prepend_counters(
    vs: Seq<VolumeCounterV>,
    r: Result<Seq<VolumeCounterV>, ProbeError>,
) -> Result<Seq<VolumeCounterV>, ProbeError> {
    match r {
        Ok(rest) => Ok(vs + rest),
        Err(e) => Err(e),
    }
}

/// Decode the counters of every mounted, ever-active block device from
/// the contents of the block-device counters file, consuming the mount
/// table.
#[verifier::rlimit(100)]
pub fn get_volume_stats(data: Vec<u8>, mounts: Vec<Mount>) -> (r: Result<
    Vec<VolumeCounter>,
    ProbeError,
>)
    ensures
        match spec_disk_entries(data@, 0, mount_views(mounts@)) {
            Ok(vs) => r matches Ok(v) && counter_views(v@) == vs,
            Err(e) => r == Err::<Vec<VolumeCounter>, ProbeError>(e),
        },
{
    let ghost s = data@;
    let ghost g = spec_disk_entries(data@, 0, mount_views(mounts@));
    let mut cur = Cursor::new(data);
    let mut ms = mounts;
    let mut out: Vec<VolumeCounter> = Vec::new();
    let mut done = false;
    proof {
        assert(counter_views(out@) =~= Seq::<VolumeCounterV>::empty());
    }
    while !done
        invariant
            cur.wf(),
            cur.bytes() == s,
            s == data@,
            g == spec_disk_entries(s, 0, mount_views(mounts@)),
            !done ==> g == prepend_counters(
                counter_views(out@),
                spec_disk_entries(s, cur.at(), mount_views(ms@)),
            ),
            done ==> g == Ok::<Seq<VolumeCounterV>, ProbeError>(counter_views(out@)),
        decreases s.len() - cur.at() + (if done { 0int } else { 1int }),
    {
        let ghost p = cur.at();
        proof {
            lemma_tok_advance(s, p);
        }
        match cur.next_raw() {
            None => {
                proof {
                    assert(counter_views(out@) + Seq::<VolumeCounterV>::empty() =~= counter_views(
                        out@,
                    ));
                }
                done = true;
            },
            Some(_) => {
                let ghost q1 = cur.at();
                proof {
                    lemma_tok_advance(s, q1);
                }
                match cur.next_raw() {
                    None => {
                        return Err(ProbeError::UnexpectedEof);
                    },
                    Some(_) => {},
                }
                let ghost q2 = cur.at();
                proof {
                    lemma_tok_advance(s, q2);
                }
                let dev_b = match cur.next_raw() {
                    None => {
                        return Err(ProbeError::UnexpectedEof);
                    },
                    Some(v) => v,
                };
                let device = bytes_to_string(&dev_b);
                match find_mount(&ms, &device) {
                    None => {
                        proof {
                            lemma_find_mount(mount_views(ms@), device@);
                        }
                    },
                    Some(ix) => {
                        proof {
                            lemma_find_mount(mount_views(ms@), device@);
                        }
                        let ghost q3 = cur.at();
                        match cur.skip_toks(2) {
                            Err(e) => {
                                return Err(e);
                            },
                            Ok(()) => {},
                        }
                        proof {
                            lemma_skip_toks_ge(s, q3, 2);
                        }
                        let ghost q4 = cur.at();
                        let rb = match cur.next_u64() {
                            Err(e) => {
                                return Err(e);
                            },
                            Ok(v) => v,
                        };
                        proof {
                            lemma_tok_advance(s, q4);
                        }
                        let ghost q5 = cur.at();
                        match cur.skip_toks(3) {
                            Err(e) => {
                                return Err(e);
                            },
                            Ok(()) => {},
                        }
                        proof {
                            lemma_skip_toks_ge(s, q5, 3);
                        }
                        let ghost q6 = cur.at();
                        let wb = match cur.next_u64() {
                            Err(e) => {
                                return Err(e);
                            },
                            Ok(v) => v,
                        };
                        proof {
                            lemma_tok_advance(s, q6);
                        }
                        let ghost q7 = cur.at();
                        match cur.skip_toks(2) {
                            Err(e) => {
                                return Err(e);
                            },
                            Ok(()) => {},
                        }
                        proof {
                            lemma_skip_toks_ge(s, q7, 2);
                        }
                        let ghost q8 = cur.at();
                        let ts = match cur.next_u64() {
                            Err(e) => {
                                return Err(e);
                            },
                            Ok(v) => v,
                        };
                        proof {
                            lemma_tok_advance(s, q8);
                        }
                        let ghost q9 = cur.at();
                        proof {
                            lemma_span_until(s, q9, 10);
                        }
                        if !cur.skip_line() {
                            return Err(ProbeError::UnexpectedEof);
                        }
                        let ghost pre_ms = ms@;
                        let m = ms.remove(ix);
                        proof {
                            assert(mount_views(pre_ms).remove(ix as int) =~= mount_views(ms@));
                            assert(mount_views(pre_ms)[ix as int] == pre_ms[ix as int]@);
                        }
                        if ts > 0 {
                            let entry = VolumeCounter {
                                device,
                                stat: VolumeStat { read_bytes: rb, write_bytes: wb },
                                points: m.points,
                            };
                            proof {
                                assert(entry@.points =~= m@.points);
                                let rest = spec_disk_entries(s, cur.at(), mount_views(ms@));
                                match rest {
                                    Ok(tail) => {
                                        assert(counter_views(out@) + (seq![entry@] + tail) =~= (
                                        counter_views(out@) + seq![entry@]) + tail);
                                    },
                                    Err(_) => {},
                                }
                                assert(counter_views(out@.push(entry)) =~= counter_views(out@)
                                    + seq![entry@]);
                            }
                            out.push(entry);
                        }
                    },
                }
            },
        }
    }
    Ok(out)
}

/// The first volume of the given device name.
pub open spec fn spec_find_vol(pre: Seq<VolumeV>, device: Seq<char>) -> Option<int>
    decreases pre.len(),
{
    if pre.len() == 0 {
        None
    } else if pre[0].device == device {
        Some(0int)
    } else {
        match spec_find_vol(pre.drop_first(), device) {
            Some(i) => Some(i + 1),
            None => None,
        }
    }
}

proof fn lemma_find_vol(pre: Seq<VolumeV>, device: Seq<char>)
    ensures
        match spec_find_vol(pre, device) {
            Some(i) => 0 <= i < pre.len() && pre[i].device == device && forall|j: int|
                0 <= j < i ==> (#[trigger] pre[j]).device != device,
            None => forall|j: int| 0 <= j < pre.len() ==> (#[trigger] pre[j]).device != device,
        },
    decreases pre.len(),
{
    if pre.len() > 0 && pre[0].device != device {
        lemma_find_vol(pre.drop_first(), device);
        assert(forall|j: int| 1 <= j < pre.len() ==> #[trigger] pre[j] == pre.drop_first()[j - 1]);
    }
}

/// The views of a sequence of volumes.
pub open spec fn vol_views(s: Seq<Volume>) -> Seq<VolumeV> {
    s.map_values(|v: Volume| v@)
}

fn find_volume(pre: &Vec<Volume>, device: &String) -> (r: Option<usize>)
    ensures
        r matches Some(k) ==> spec_find_vol(vol_views(pre@), device@) == Some(k as int),
        r is None ==> spec_find_vol(vol_views(pre@), device@) is None,
{
    proof {
        lemma_find_vol(vol_views(pre@), device@);
    }
    let mut k: usize = 0;
    while k < pre.len()
        invariant
            0 <= k <= pre@.len(),
            forall|j: int| 0 <= j < k ==> (#[trigger] vol_views(pre@)[j]).device != device@,
        decreases pre@.len() - k,
    {
        proof {
            assert(vol_views(pre@)[k as int] == pre@[k as int]@);
        }
        if pre[k].device == *device {
            proof {
                lemma_find_vol(vol_views(pre@), device@);
                assert(vol_views(pre@)[k as int].device == device@);
            }
            return Some(k);
        }
        k = k + 1;
    }
    proof {
        lemma_find_vol(vol_views(pre@), device@);
    }
    None
}

/// The volumes of the later snapshot matched by device name against the
/// earlier one, each with its transfer rates; a device present in only
/// one snapshot is dropped.
pub open spec fn spec_vol_pairs(pre: Seq<VolumeV>, post: Seq<VolumeV>, elapsed_ms: u64) -> Seq<
    (VolumeV, VolumeSpeed),
>
    decreases post.len(),
{
    if post.len() == 0 {
        Seq::empty()
    } else {
        let rest = spec_vol_pairs(pre, post.drop_first(), elapsed_ms);
        match spec_find_vol(pre, post[0].device) {
            None => rest,
            Some(i) => seq![
                (
                    post[0],
                    VolumeSpeed {
                        read: speed_of(
                            pre[i].stat.read_bytes,
                            post[0].stat.read_bytes,
                            elapsed_ms,
                        ) as u64,
                        write: speed_of(
                            pre[i].stat.write_bytes,
                            post[0].stat.write_bytes,
                            elapsed_ms,
                        ) as u64,
                    },
                ),
            ] + rest,
        }
    }
}

/// The views of a sequence of paired volumes and rates.
pub open spec fn vol_pair_views(s: Seq<(Volume, VolumeSpeed)>) -> Seq<(VolumeV, VolumeSpeed)> {
    s.map_values(|p: (Volume, VolumeSpeed)| (p.0@, p.1))
}

/// Match the volumes of two snapshots taken `elapsed_ms` milliseconds
/// apart and compute each matched device's transfer rates.
pub fn compute_volumes_speed(pre: &Vec<Volume>, post: Vec<Volume>, elapsed_ms: u64) -> (r: Vec<
    (Volume, VolumeSpeed),
>)
    requires
        elapsed_ms >= 1,
    ensures
        vol_pair_views(r@) == spec_vol_pairs(vol_views(pre@), vol_views(post@), elapsed_ms),
{
    let ghost g = spec_vol_pairs(vol_views(pre@), vol_views(post@), elapsed_ms);
    let mut rest = post;
    let mut out: Vec<(Volume, VolumeSpeed)> = Vec::new();
    proof {
        assert(vol_pair_views(out@) =~= Seq::<(VolumeV, VolumeSpeed)>::empty());
        assert(Seq::<(VolumeV, VolumeSpeed)>::empty() + g =~= g);
    }
    while rest.len() > 0
        invariant
            elapsed_ms >= 1,
            g == spec_vol_pairs(vol_views(pre@), vol_views(post@), elapsed_ms),
            g == vol_pair_views(out@) + spec_vol_pairs(
                vol_views(pre@),
                vol_views(rest@),
                elapsed_ms,
            ),
        decreases rest@.len(),
    {
        let ghost pre_rest = rest@;
        let v = rest.remove(0);
        proof {
            assert(vol_views(pre_rest)[0] == pre_rest[0]@);
            assert(vol_views(pre_rest)[0] == v@);
            assert(vol_views(pre_rest).drop_first() =~= vol_views(rest@));
        }
        match find_volume(pre, &v.device) {
            None => {
                proof {
                    lemma_find_vol(vol_views(pre@), v.device@);
                }
            },
            Some(i) => {
                proof {
                    lemma_find_vol(vol_views(pre@), v.device@);
                }
                let p = &pre[i];
                let speed = p.stat.compute_speed(&v.stat, elapsed_ms);
                proof {
                    crate::rate::lemma_rate_bounds(
                        p.stat.read_bytes,
                        v.stat.read_bytes,
                        elapsed_ms,
                    );
                    crate::rate::lemma_rate_bounds(
                        p.stat.write_bytes,
                        v.stat.write_bytes,
                        elapsed_ms,
                    );
                    assert(vol_views(pre@)[i as int] == pre@[i as int]@);
                    assert(speed == VolumeSpeed {
                        read: speed_of(
                            vol_views(pre@)[i as int].stat.read_bytes,
                            v@.stat.read_bytes,
                            elapsed_ms,
                        ) as u64,
                        write: speed_of(
                            vol_views(pre@)[i as int].stat.write_bytes,
                            v@.stat.write_bytes,
                            elapsed_ms,
                        ) as u64,
                    });
                    let entry = (v@, speed);
                    let tail = spec_vol_pairs(vol_views(pre@), vol_views(rest@), elapsed_ms);
                    assert(vol_views(pre_rest).drop_first() == vol_views(rest@));
                    assert(spec_vol_pairs(vol_views(pre@), vol_views(pre_rest), elapsed_ms)
                        == seq![entry] + tail);
                    assert(vol_pair_views(out@) + (seq![entry] + tail) =~= (vol_pair_views(out@)
                        + seq![entry]) + tail);
                    assert(vol_pair_views(out@.push((v, speed))) =~= vol_pair_views(out@) + seq![
                        entry,
                    ]);
                }
                out.push((v, speed));
            },
        }
    }
    proof {
        assert(vol_pair_views(out@) + Seq::<(VolumeV, VolumeSpeed)>::empty() =~= vol_pair_views(
            out@,
        ));
    }
    out
}

} // verus!
