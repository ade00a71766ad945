//! Kernel version decoded from the version file.

use vstd::prelude::*;

use crate::error::ProbeError;
use crate::scan::{has_tok, tok_bytes, tok_end, Cursor};
use crate::text::{ascii_view, bytes_to_string};

verus! {

/// The number of bytes of the fixed prefix that opens the version file.
pub open spec fn version_prefix_len() -> int {
    14
}

/// Whether decoding the version file succeeds: the fixed prefix must be
/// present and a version token must follow it.
pub open spec fn spec_kernel_version_ok(s: Seq<u8>) -> bool {
    s.len() >= version_prefix_len() && has_tok(s, version_prefix_len())
}

/// The version text: the first token after the fixed prefix.
pub open spec fn spec_kernel_version(s: Seq<u8>) -> Seq<char> {
    ascii_view(tok_bytes(s, version_prefix_len()))
}

/// Decode the kernel version from the contents of the version file: skip
/// the fixed prefix, then take the next token.
pub fn get_kernel_version(data: Vec<u8>) -> (r: Result<String, ProbeError>)
    ensures
        r is Ok == spec_kernel_version_ok(data@),
        r matches Ok(v) ==> v@ == spec_kernel_version(data@),
        r is Err ==> r == Err::<String, ProbeError>(ProbeError::UnexpectedEof),
{
    let mut cur = Cursor::new(data);
    match cur.skip_bytes(14) {
        Err(e) => {
            return Err(e);
        },
        Ok(()) => {},
    }
    match cur.next_raw() {
        None => Err(ProbeError::UnexpectedEof),
        Some(v) => Ok(bytes_to_string(&v)),
    }
}

} // verus!
