use vstd::prelude::*;

use crate::error::ProbeError;
use crate::scan::{scan_to_label, spec_next_u32, spec_scan_label, tok_end, Cursor};

verus! {

/// The owners of one process: its four user ids and four group ids.
#[derive(Debug, Clone, Copy, PartialEq, Eq, Structural)]
pub struct ProcessStatus {
    /// The user who created this process, or the one set by a root caller.
    pub real_uid: u32,
    /// The group who created this process, or the one set by a root caller.
    pub real_gid: u32,
    /// The user this process acts as.
    pub effective_uid: u32,
    /// The group this process acts as.
    pub effective_gid: u32,
    /// The saved user id.
    pub saved_set_uid: u32,
    /// The saved group id.
    pub saved_set_gid: u32,
    /// The user id used for file access checks.
    pub fs_uid: u32,
    /// The group id used for file access checks.
    pub fs_gid: u32,
}

/// The label bytes of the user-id line.  Reads "Uid".
pub open spec fn uid_label() -> Seq<u8> {
    seq![85u8, 105, 100]
}

/// The label bytes of the group-id line.  Reads "Gid".
pub open spec fn gid_label() -> Seq<u8> {
    seq![71u8, 105, 100]
}

/// Four consecutive 32-bit ids starting at position `i`, with the
/// position after them.
pub open spec fn spec_four_u32(s: Seq<u8>, i: int) -> Result<((u32, u32, u32, u32), int),
    ProbeError,
> {
    match spec_next_u32(s, i) {
        Err(e) => Err(e),
        Ok(a) => {
            let p1 = tok_end(s, i);
            match spec_next_u32(s, p1) {
                Err(e) => Err(e),
                Ok(b) => {
                    let p2 = tok_end(s, p1);
                    match spec_next_u32(s, p2) {
                        Err(e) => Err(e),
                        Ok(c) => {
                            let p3 = tok_end(s, p2);
                            match spec_next_u32(s, p3) {
                                Err(e) => Err(e),
                                Ok(d) => Ok(((a, b, c, d), tok_end(s, p3))),
                            }
                        },
                    }
                },
            }
        },
    }
}

/// What decoding the process status file yields: the line labelled `Uid`
/// with its four ids, then the line labelled `Gid` with its four.
pub open spec fn spec_get_process_status(s: Seq<u8>) -> Result<ProcessStatus, ProbeError> {
    match spec_scan_label(s, 0, uid_label()) {
        None => Err(ProbeError::UnexpectedEof),
        Some(ju) => match spec_four_u32(s, ju) {
            Err(e) => Err(e),
            Ok(((real_uid, effective_uid, saved_set_uid, fs_uid), pu)) => match spec_scan_label(
                s,
                pu,
                gid_label(),
            ) {
                None => Err(ProbeError::UnexpectedEof),
                Some(jg) => match spec_four_u32(s, jg) {
                    Err(e) => Err(e),
                    Ok(((real_gid, effective_gid, saved_set_gid, fs_gid), _)) => Ok(
                        ProcessStatus {
                            real_uid,
                            real_gid,
                            effective_uid,
                            effective_gid,
                            saved_set_uid,
                            saved_set_gid,
                            fs_uid,
                            fs_gid,
                        },
                    ),
                },
            },
        },
    }
}

/// Read four consecutive 32-bit ids.
fn read_four_u32(cur: &mut Cursor) -> (r: Result<(u32, u32, u32, u32), ProbeError>)
    requires
        old(cur).wf(),
    ensures
        final(cur).wf(),
        final(cur).bytes() == old(cur).bytes(),
        match spec_four_u32(old(cur).bytes(), old(cur).at()) {
            Ok((vs, j)) => r == Ok::<(u32, u32, u32, u32), ProbeError>(vs) && final(cur).at()
                == j,
            Err(e) => r == Err::<(u32, u32, u32, u32), ProbeError>(e),
        },
{
    let a = match cur.next_u32() {
        Err(e) => {
            return Err(e);
        },
        Ok(v) => v,
    };
    let b = match cur.next_u32() {
        Err(e) => {
            return Err(e);
        },
        Ok(v) => v,
    };
    let c = match cur.next_u32() {
        Err(e) => {
            return Err(e);
        },
        Ok(v) => v,
    };
    let d = match cur.next_u32() {
        Err(e) => {
            return Err(e);
        },
        Ok(v) => v,
    };
    Ok((a, b, c, d))
}

/// Decode the owners of a process from the contents of its status file.
pub fn get_process_status(data: Vec<u8>) -> (r: Result<ProcessStatus, ProbeError>)
    ensures
        r == spec_get_process_status(data@),
{
    let mut cur = Cursor::new(data);
    let uid_l: [u8; 3] = [85, 105, 100];
    let gid_l: [u8; 3] = [71, 105, 100];
    proof {
        assert(uid_l@ =~= uid_label());
        assert(gid_l@ =~= gid_label());
    }
    match scan_to_label(&mut cur, uid_l.as_slice()) {
        Err(e) => {
            return Err(e);
        },
        Ok(()) => {},
    }
    let (real_uid, effective_uid, saved_set_uid, fs_uid) = match read_four_u32(&mut cur) {
        Err(e) => {
            return Err(e);
        },
        Ok(v) => v,
    };
    match scan_to_label(&mut cur, gid_l.as_slice()) {
        Err(e) => {
            return Err(e);
        },
        Ok(()) => {},
    }
    let (real_gid, effective_gid, saved_set_gid, fs_gid) = match read_four_u32(&mut cur) {
        Err(e) => {
            return Err(e);
        },
        Ok(v) => v,
    };
    Ok(
        ProcessStatus {
            real_uid,
            real_gid,
            effective_uid,
            effective_gid,
            saved_set_uid,
            saved_set_gid,
            fs_uid,
            fs_gid,
        },
    )
}

} // verus!
