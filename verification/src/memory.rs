//! Memory snapshot decoded from the memory-info file.

use vstd::prelude::*;

use crate::error::ProbeError;
use crate::scan::{
    has_tok, scan_to_label, spec_next_usize, spec_scan_label, spec_skip_toks, tok_end, Cursor,
};

verus! {

/// RAM usage in bytes.  `used` is what remains of `total` after free
/// memory, buffers and the reclaimable cache are taken out.
#[derive(Debug, Clone, Copy, PartialEq, Eq, Structural)]
pub struct Mem {
    pub total: usize,
    pub used: usize,
    pub free: usize,
    pub shared: usize,
    pub buffers: usize,
    pub cache: usize,
    pub available: usize,
}

/// Swap usage in bytes.
#[derive(Debug, Clone, Copy, PartialEq, Eq, Structural)]
pub struct Swap {
    pub total: usize,
    pub used: usize,
    pub free: usize,
    pub cache: usize,
}

/// One memory snapshot: RAM and swap.
#[derive(Debug, Clone, Copy, PartialEq, Eq, Structural)]
pub struct Free {
    pub mem: Mem,
    pub swap: Swap,
}

/// The label bytes of the `MemTotal` line.
pub open spec fn lbl_mem_total() -> Seq<u8> {
    seq![77u8, 101, 109, 84, 111, 116, 97, 108]
}

/// The label bytes of the `MemFree` line.
pub open spec fn lbl_mem_free() -> Seq<u8> {
    seq![77u8, 101, 109, 70, 114, 101, 101]
}

/// The label bytes of the `MemAvailable` line.
pub open spec fn lbl_mem_available() -> Seq<u8> {
    seq![77u8, 101, 109, 65, 118, 97, 105, 108, 97, 98, 108, 101]
}

/// The label bytes of the `Buffers` line.
pub open spec fn lbl_buffers() -> Seq<u8> {
    seq![66u8, 117, 102, 102, 101, 114, 115]
}

/// The label bytes of the `Cached` line.
pub open spec fn lbl_cached() -> Seq<u8> {
    seq![67u8, 97, 99, 104, 101, 100]
}

/// The label bytes of the `SwapCached` line.
pub open spec fn lbl_swap_cached() -> Seq<u8> {
    seq![83u8, 119, 97, 112, 67, 97, 99, 104, 101, 100]
}

/// The label bytes of the `SwapTotal` line.
pub open spec fn lbl_swap_total() -> Seq<u8> {
    seq![83u8, 119, 97, 112, 84, 111, 116, 97, 108]
}

/// The label bytes of the `SwapFree` line.
pub open spec fn lbl_swap_free() -> Seq<u8> {
    seq![83u8, 119, 97, 112, 70, 114, 101, 101]
}

/// The label bytes of the `Shmem` line.
pub open spec fn lbl_shmem() -> Seq<u8> {
    seq![83u8, 104, 109, 101, 109]
}

/// The label bytes of the `Slab` line.
pub open spec fn lbl_slab() -> Seq<u8> {
    seq![83u8, 108, 97, 98]
}

/// The label bytes of the `SUnreclaim` line.
pub open spec fn lbl_s_unreclaim() -> Seq<u8> {
    seq![83u8, 85, 110, 114, 101, 99, 108, 97, 105, 109]
}

/// One labelled value: find the line whose first token begins with
/// `label`, read its value in kibibytes, scale it to bytes, and step over
/// the unit token that follows.
pub open spec fn spec_label_kib(s: Seq<u8>, i: int, label: Seq<u8>) -> Result<
    (usize, int),
    ProbeError,
> {
    match spec_scan_label(s, i, label) {
        None => Err(ProbeError::UnexpectedEof),
        Some(j) => match spec_next_usize(s, j) {
            Err(e) => Err(e),
            Ok(v) => if v * 1024 > usize::MAX {
                Err(ProbeError::InvalidData)
            } else if !has_tok(s, tok_end(s, j)) {
                Err(ProbeError::UnexpectedEof)
            } else {
                Ok(((v * 1024) as usize, tok_end(s, tok_end(s, j))))
            },
        },
    }
}

/// What decoding the whole memory-info file yields: the eleven labelled
/// values in their fixed search order, then the derived usage figures.
/// Any subtraction that would go negative, or a value too large for the
/// machine word, rejects the snapshot.
pub open spec fn spec_free(s: Seq<u8>) -> Result<Free, ProbeError> {
    match spec_label_kib(s, 0, lbl_mem_total()) {
        Err(e) => Err(e),
        Ok((mem_total, p1)) => match spec_label_kib(s, p1, lbl_mem_free()) {
        Err(e) => Err(e),
        Ok((mem_free, p2)) => match spec_label_kib(s, p2, lbl_mem_available()) {
        Err(e) => Err(e),
        Ok((mem_available, p3)) => match spec_label_kib(s, p3, lbl_buffers()) {
        Err(e) => Err(e),
        Ok((buffers, p4)) => match spec_label_kib(s, p4, lbl_cached()) {
        Err(e) => Err(e),
        Ok((cached, p5)) => match spec_label_kib(s, p5, lbl_swap_cached()) {
        Err(e) => Err(e),
        Ok((swap_cached, p6)) => match spec_label_kib(s, p6, lbl_swap_total()) {
        Err(e) => Err(e),
        Ok((swap_total, p7)) => match spec_label_kib(s, p7, lbl_swap_free()) {
        Err(e) => Err(e),
        Ok((swap_free, p8)) => match spec_label_kib(s, p8, lbl_shmem()) {
        Err(e) => Err(e),
        Ok((shmem, p9)) => match spec_label_kib(s, p9, lbl_slab()) {
        Err(e) => Err(e),
        Ok((slab, p10)) => match spec_label_kib(s, p10, lbl_s_unreclaim()) {
        Err(e) => Err(e),
        Ok((s_unreclaim, p11)) => {
        let cs = cached + slab;
        if cs > usize::MAX {
            Err(ProbeError::InvalidData)
        } else if s_unreclaim > cs {
            Err(ProbeError::InvalidData)
        } else {
            let total_cached = cs - s_unreclaim;
            if mem_free + buffers + total_cached > mem_total {
                Err(ProbeError::InvalidData)
            } else if swap_free + swap_cached > swap_total {
                Err(ProbeError::InvalidData)
            } else {
                Ok(Free {
                    mem: Mem {
                        total: mem_total,
                        used: (mem_total - mem_free - buffers - total_cached) as usize,
                        free: mem_free,
                        shared: shmem,
                        buffers: buffers,
                        cache: total_cached as usize,
                        available: mem_available,
                    },
                    swap: Swap {
                        total: swap_total,
                        used: (swap_total - swap_free - swap_cached) as usize,
                        free: swap_free,
                        cache: swap_cached,
                    },
                })
            }
        }
    },
    },
    },
    },
    },
    },
    },
    },
    },
    },
    },
    }
}

/// Read one labelled kibibyte value, scaled to bytes.
fn read_label_kib(cur: &mut Cursor, label: &[u8]) -> (r: Result<usize, ProbeError>)
    requires
        old(cur).wf(),
    ensures
        final(cur).wf(),
        final(cur).bytes() == old(cur).bytes(),
        match spec_label_kib(old(cur).bytes(), old(cur).at(), label@) {
            Ok((v, j)) => r == Ok::<usize, ProbeError>(v) && final(cur).at() == j,
            Err(e) => r == Err::<usize, ProbeError>(e),
        },
{
    let ghost s = old(cur).bytes();
    match scan_to_label(cur, label) {
        Err(e) => Err(e),
        Ok(()) => {
            let ghost j = cur.at();
            match cur.next_usize() {
                Err(e) => Err(e),
                Ok(v) => {
                    let wide: u128 = v as u128 * 1024;
                    if wide > usize::MAX as u128 {
                        return Err(ProbeError::InvalidData);
                    }
                    proof {
                        assert(spec_skip_toks(s, tok_end(s, j), 1) == (if has_tok(
                            s,
                            tok_end(s, j),
                        ) {
                            spec_skip_toks(s, tok_end(s, tok_end(s, j)), 0)
                        } else {
                            None::<int>
                        }));
                        assert(spec_skip_toks(s, tok_end(s, tok_end(s, j)), 0) == Some(
                            tok_end(s, tok_end(s, j)),
                        ));
                    }
                    match cur.skip_toks(1) {
                        Err(e) => Err(e),
                        Ok(()) => Ok(wide as usize),
                    }
                },
            }
        },
    }
}

/// Decode a memory snapshot, like the `free` command, from the contents
/// of the memory-info file.
///
/// For every accepted snapshot the RAM identity
/// `used + free + buffers + cache == total` holds exactly, and so does
/// `used + free + cache == total` for swap.
pub fn free(data: Vec<u8>) -> (r: Result<Free, ProbeError>)
    ensures
        r == spec_free(data@),
        r matches Ok(f) ==> f.mem.used + f.mem.free + f.mem.buffers + f.mem.cache
            == f.mem.total,
        r matches Ok(f) ==> f.swap.used + f.swap.free + f.swap.cache == f.swap.total,
{
    let mut cur = Cursor::new(data);
    let l_mem_total: [u8; 8] = [77, 101, 109, 84, 111, 116, 97, 108];
    proof {
        assert(l_mem_total@ =~= lbl_mem_total());
    }
    let l_mem_free: [u8; 7] = [77, 101, 109, 70, 114, 101, 101];
    proof {
        assert(l_mem_free@ =~= lbl_mem_free());
    }
    let l_mem_available: [u8; 12] = [77, 101, 109, 65, 118, 97, 105, 108, 97, 98, 108, 101];
    proof {
        assert(l_mem_available@ =~= lbl_mem_available());
    }
    let l_buffers: [u8; 7] = [66, 117, 102, 102, 101, 114, 115];
    proof {
        assert(l_buffers@ =~= lbl_buffers());
    }
    let l_cached: [u8; 6] = [67, 97, 99, 104, 101, 100];
    proof {
        assert(l_cached@ =~= lbl_cached());
    }
    let l_swap_cached: [u8; 10] = [83, 119, 97, 112, 67, 97, 99, 104, 101, 100];
    proof {
        assert(l_swap_cached@ =~= lbl_swap_cached());
    }
    let l_swap_total: [u8; 9] = [83, 119, 97, 112, 84, 111, 116, 97, 108];
    proof {
        assert(l_swap_total@ =~= lbl_swap_total());
    }
    let l_swap_free: [u8; 8] = [83, 119, 97, 112, 70, 114, 101, 101];
    proof {
        assert(l_swap_free@ =~= lbl_swap_free());
    }
    let l_shmem: [u8; 5] = [83, 104, 109, 101, 109];
    proof {
        assert(l_shmem@ =~= lbl_shmem());
    }
    let l_slab: [u8; 4] = [83, 108, 97, 98];
    proof {
        assert(l_slab@ =~= lbl_slab());
    }
    let l_s_unreclaim: [u8; 10] = [83, 85, 110, 114, 101, 99, 108, 97, 105, 109];
    proof {
        assert(l_s_unreclaim@ =~= lbl_s_unreclaim());
    }
    let mem_total = match read_label_kib(&mut cur, l_mem_total.as_slice()) {
        Ok(v) => v,
        Err(e) => {
            return Err(e);
        },
    };
    let mem_free = match read_label_kib(&mut cur, l_mem_free.as_slice()) {
        Ok(v) => v,
        Err(e) => {
            return Err(e);
        },
    };
    let mem_available = match read_label_kib(&mut cur, l_mem_available.as_slice()) {
        Ok(v) => v,
        Err(e) => {
            return Err(e);
        },
    };
    let buffers = match read_label_kib(&mut cur, l_buffers.as_slice()) {
        Ok(v) => v,
        Err(e) => {
            return Err(e);
        },
    };
    let cached = match read_label_kib(&mut cur, l_cached.as_slice()) {
        Ok(v) => v,
        Err(e) => {
            return Err(e);
        },
    };
    let swap_cached = match read_label_kib(&mut cur, l_swap_cached.as_slice()) {
        Ok(v) => v,
        Err(e) => {
            return Err(e);
        },
    };
    let swap_total = match read_label_kib(&mut cur, l_swap_total.as_slice()) {
        Ok(v) => v,
        Err(e) => {
            return Err(e);
        },
    };
    let swap_free = match read_label_kib(&mut cur, l_swap_free.as_slice()) {
        Ok(v) => v,
        Err(e) => {
            return Err(e);
        },
    };
    let shmem = match read_label_kib(&mut cur, l_shmem.as_slice()) {
        Ok(v) => v,
        Err(e) => {
            return Err(e);
        },
    };
    let slab = match read_label_kib(&mut cur, l_slab.as_slice()) {
        Ok(v) => v,
        Err(e) => {
            return Err(e);
        },
    };
    let s_unreclaim = match read_label_kib(&mut cur, l_s_unreclaim.as_slice()) {
        Ok(v) => v,
        Err(e) => {
            return Err(e);
        },
    };
    let cs: u128 = cached as u128 + slab as u128;
    if cs > usize::MAX as u128 {
        return Err(ProbeError::InvalidData);
    }
    let cs: usize = cs as usize;
    if s_unreclaim > cs {
        return Err(ProbeError::InvalidData);
    }
    let total_cached = cs - s_unreclaim;
    let need: u128 = mem_free as u128 + buffers as u128 + total_cached as u128;
    if need > mem_total as u128 {
        return Err(ProbeError::InvalidData);
    }
    let swap_need: u128 = swap_free as u128 + swap_cached as u128;
    if swap_need > swap_total as u128 {
        return Err(ProbeError::InvalidData);
    }
    let used = mem_total - mem_free - buffers - total_cached;
    let swap_used = swap_total - swap_free - swap_cached;
    Ok(Free {
        mem: Mem {
            total: mem_total,
            used,
            free: mem_free,
            shared: shmem,
            buffers,
            cache: total_cached,
            available: mem_available,
        },
        swap: Swap { total: swap_total, used: swap_used, free: swap_free, cache: swap_cached },
    })
}

} // verus!
