use vstd::prelude::*;

use crate::error::ProbeError;
use crate::scan::{
    after_line, has_tok, lemma_span_until, lemma_tok_advance, span_until, starts_with, tok_bytes,
    tok_end, tok_starts_with, Cursor,
};
use crate::text::{ascii_view, bytes_to_string};

verus! {

/// One mount-table line for a block device: the device name (the path
/// with its `/dev/` prefix cut off) and the mount point.  A name under
/// `mapper/` is a device-mapper alias whose canonical name only the
/// filesystem can resolve, so it is flagged for the caller.
#[derive(Debug, Clone, PartialEq, Eq)]
pub struct MountEntry {
    pub device: String,
    pub point: String,
    pub device_mapper: bool,
}

/// The mathematical content of a `MountEntry`.
pub struct MountEntryV {
    pub device: Seq<char>,
    pub point: Seq<char>,
    pub device_mapper: bool,
}

impl View for MountEntry {
    type V = MountEntryV;

    open spec fn view(&self) -> MountEntryV {
        MountEntryV {
            device: self.device@,
            point: self.point@,
            device_mapper: self.device_mapper,
        }
    }
}

/// The views of a sequence of mount-table lines.
pub open spec fn mount_entry_views(s: Seq<MountEntry>) -> Seq<MountEntryV> {
    s.map_values(|e: MountEntry| e@)
}

/// The prefix of a block-device path.  Reads "/dev/".
pub open spec fn dev_prefix() -> Seq<u8> {
    seq![47u8, 100, 101, 118, 47]
}

/// The prefix of a device-mapper name.  Reads "mapper/".
pub open spec fn mapper_prefix() -> Seq<u8> {
    seq![109u8, 97, 112, 112, 101, 114, 47]
}

/// What decoding the mount-table lines yields, reading from position
/// `i`: per line whose first token begins with the block-device prefix,
/// the device name and the mount point; other lines are dropped whole.
pub open spec fn spec_mount_entries(s: Seq<u8>, i: int) -> Result<Seq<MountEntryV>, ProbeError>
    decreases s.len() - i when 0 <= i <= s.len() via spec_mount_entries_decreases
{
    if !has_tok(s, i) {
        Ok(Seq::empty())
    } else {
        let t = tok_bytes(s, i);
        let p1 = tok_end(s, i);
        if starts_with(t, dev_prefix()) {
            if !has_tok(s, p1) {
                Err(ProbeError::UnexpectedEof)
            } else {
                let point = tok_bytes(s, p1);
                let p2 = tok_end(s, p1);
                if p2 == s.len() {
                    Err(ProbeError::UnexpectedEof)
                } else {
                    match spec_mount_entries(s, after_line(s, p2)) {
                        Err(e) => Err(e),
                        Ok(rest) => {
                            let name = t.subrange(5, t.len() as int);
                            Ok(
                                seq![
                                    MountEntryV {
                                        device: ascii_view(name),
                                        point: ascii_view(point),
                                        device_mapper: starts_with(name, mapper_prefix()),
                                    },
                                ] + rest,
                            )
                        },
                    }
                }
            }
        } else {
            if p1 == s.len() {
                Err(ProbeError::UnexpectedEof)
            } else {
                spec_mount_entries(s, after_line(s, p1))
            }
        }
    }
}

#[via_fn]
proof fn spec_mount_entries_decreases(s: Seq<u8>, i: int) {
    lemma_tok_advance(s, i);
    lemma_span_until(s, tok_end(s, i), 10);
    if has_tok(s, i) {
        lemma_tok_advance(s, tok_end(s, i));
        lemma_span_until(s, tok_end(s, tok_end(s, i)), 10);
    }
}

/// Entries already decoded, followed by whatever the rest yields.
pub open spec fn prepend_mount_entries(
    vs: Seq<MountEntryV>,
    r: Result<Seq<MountEntryV>, ProbeError>,
) -> Result<Seq<MountEntryV>, ProbeError> {
    match r {
        Ok(rest) => Ok(vs + rest),
        Err(e) => Err(e),
    }
}

/// Decode the block-device mount lines from the contents of the mount
/// table file.
pub fn get_mounts(data: Vec<u8>) -> (r: Result<Vec<MountEntry>, ProbeError>)
    ensures
        match spec_mount_entries(data@, 0) {
            Ok(vs) => r matches Ok(v) && mount_entry_views(v@) == vs,
            Err(e) => r == Err::<Vec<MountEntry>, ProbeError>(e),
        },
{
    let ghost s = data@;
    let ghost g = spec_mount_entries(data@, 0);
    let mut cur = Cursor::new(data);
    let dev_p: [u8; 5] = [47, 100, 101, 118, 47];
    let map_p: [u8; 7] = [109, 97, 112, 112, 101, 114, 47];
    proof {
        assert(dev_p@ =~= dev_prefix());
        assert(map_p@ =~= mapper_prefix());
    }
    let mut out: Vec<MountEntry> = Vec::new();
    let mut done = false;
    proof {
        assert(mount_entry_views(out@) =~= Seq::<MountEntryV>::empty());
    }
    while !done
        invariant
            cur.wf(),
            cur.bytes() == s,
            s == data@,
            dev_p@ == dev_prefix(),
            map_p@ == mapper_prefix(),
            g == spec_mount_entries(s, 0),
            !done ==> g == prepend_mount_entries(
                mount_entry_views(out@),
                spec_mount_entries(s, cur.at()),
            ),
            done ==> g == Ok::<Seq<MountEntryV>, ProbeError>(mount_entry_views(out@)),
        decreases s.len() - cur.at() + (if done { 0int } else { 1int }),
    {
        let ghost p = cur.at();
        proof {
            lemma_tok_advance(s, p);
            lemma_span_until(s, tok_end(s, p), 10);
        }
        match cur.next_raw() {
            None => {
                proof {
                    assert(mount_entry_views(out@) + Seq::<MountEntryV>::empty()
                        =~= mount_entry_views(out@));
                }
                done = true;
            },
            Some(t) => {
                if tok_starts_with(&t, dev_p.as_slice()) {
                    let ghost p1 = cur.at();
                    proof {
                        lemma_tok_advance(s, p1);
                    }
                    let point = match cur.next_raw() {
                        None => {
                            return Err(ProbeError::UnexpectedEof);
                        },
                        Some(v) => v,
                    };
                    let ghost p2 = cur.at();
                    proof {
                        lemma_span_until(s, p2, 10);
                    }
                    if !cur.skip_line() {
                        return Err(ProbeError::UnexpectedEof);
                    }
                    let mut name: Vec<u8> = Vec::new();
                    let mut k: usize = 5;
                    while k < t.len()
                        invariant
                            5 <= k <= t@.len(),
                            name@ == t@.subrange(5, k as int),
                        decreases t@.len() - k,
                    {
                        let b = t[k];
                        name.push(b);
                        k = k + 1;
                        proof {
                            assert(name@ =~= t@.subrange(5, k as int));
                        }
                    }
                    proof {
                        assert(name@ =~= t@.subrange(5, t@.len() as int));
                    }
                    let mapper = tok_starts_with(&name, map_p.as_slice());
                    let entry = MountEntry {
                        device: bytes_to_string(&name),
                        point: bytes_to_string(&point),
                        device_mapper: mapper,
                    };
                    proof {
                        let rest = spec_mount_entries(s, cur.at());
                        match rest {
                            Ok(tail) => {
                                assert(mount_entry_views(out@) + (seq![entry@] + tail) =~= (
                                mount_entry_views(out@) + seq![entry@]) + tail);
                            },
                            Err(_) => {},
                        }
                        assert(mount_entry_views(out@.push(entry)) =~= mount_entry_views(out@)
                            + seq![entry@]);
                    }
                    out.push(entry);
                } else {
                    if !cur.skip_line() {
                        return Err(ProbeError::UnexpectedEof);
                    }
                }
            },
        }
    }
    Ok(out)
}

} // verus!
