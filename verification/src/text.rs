//! Validated decoding of kernel-file bytes into text.
//!
//! The kernel pseudo-files are expected to be plain ASCII; any byte
//! outside that range is substituted with `?` rather than silently passed
//! through as ill-formed text.

use vstd::prelude::*;

verus! {

/// The character a raw byte decodes to: itself for ASCII, `?` otherwise.
pub open spec fn byte_char(b: u8) -> char {
    if b < 128 {
        b as char
    } else {
        63u8 as char
    }
}

/// The text a byte sequence decodes to, byte for byte.
pub open spec fn ascii_view(s: Seq<u8>) -> Seq<char> {
    Seq::new(s.len(), |i: int| byte_char(s[i]))
}

/// Substitute every non-ASCII byte with `?` (byte 63).
fn sanitize(v: &Vec<u8>) -> (r: Vec<u8>)
    ensures
        r@.len() == v@.len(),
        forall|i: int| 0 <= i < r@.len() ==> #[trigger] r@[i] < 128,
        forall|i: int| 0 <= i < r@.len() ==> r@[i] == (if v@[i] < 128 {
            v@[i]
        } else {
            63u8
        }),
{
    let mut out: Vec<u8> = Vec::new();
    let mut i: usize = 0;
    while i < v.len()
        invariant
            0 <= i <= v@.len(),
            out@.len() == i,
            forall|j: int| 0 <= j < i ==> #[trigger] out@[j] < 128,
            forall|j: int| 0 <= j < i ==> out@[j] == (if v@[j] < 128 {
                v@[j]
            } else {
                63u8
            }),
        decreases v@.len() - i,
    {
        let b = v[i];
        if b < 128 {
            out.push(b);
        } else {
            out.push(63);
        }
        i = i + 1;
    }
    out
}

/// Relies on `String::from_utf8`: ASCII bytes are valid UTF-8 and decode
/// to exactly one character per byte, each the character with that code.
#[verifier::external_body]
fn ascii_to_string(v: Vec<u8>) -> (r: String)
    requires
        forall|i: int| 0 <= i < v@.len() ==> #[trigger] v@[i] < 128,
    ensures
        r@.len() == v@.len(),
        forall|i: int| 0 <= i < v@.len() ==> r@[i] == (#[trigger] v@[i]) as char,
        r.is_ascii(),
{
    match String::from_utf8(v) {
        Ok(s) => s,
        Err(_) => String::new(),
    }
}

/// Decode raw kernel-file bytes into text, substituting `?` for any byte
/// that is not ASCII.
pub fn bytes_to_string(v: &Vec<u8>) -> (r: String)
    ensures
        r@ == ascii_view(v@),
        r.is_ascii(),
{
    let clean = sanitize(v);
    let s = ascii_to_string(clean);
    proof {
        assert forall|i: int| 0 <= i < s@.len() implies s@[i] == ascii_view(v@)[i] by {
            assert(s@[i] == clean@[i] as char);
            assert(clean@[i] == (if v@[i] < 128 {
                v@[i]
            } else {
                63u8
            }));
        }
        assert(s@ =~= ascii_view(v@));
    }
    s
}

} // verus!
