//! Load average decoded from the load-average file.

use vstd::prelude::*;

use crate::error::ProbeError;
use crate::scan::{has_tok, parse_fixed_point, spec_fixed_point, tok_bytes, tok_end, Cursor};

verus! {

/// The 1-, 5- and 15-minute load averages, in hundredths: a reading of
/// `0.52` is stored as `52`.
#[derive(Debug, Clone, Copy, PartialEq, Eq, Structural)]
pub struct LoadAverage {
    pub one: u64,
    pub five: u64,
    pub fifteen: u64,
}

/// What decoding the load-average file yields: three readings kept to the
/// hundredth.
pub open spec fn spec_get_load_average(s: Seq<u8>) -> Result<LoadAverage, ProbeError> {
    if !has_tok(s, 0) {
        Err(ProbeError::UnexpectedEof)
    } else {
        match spec_fixed_point(tok_bytes(s, 0), 2) {
            Err(e) => Err(e),
            Ok(one) => {
                let p1 = tok_end(s, 0);
                if !has_tok(s, p1) {
                    Err(ProbeError::UnexpectedEof)
                } else {
                    match spec_fixed_point(tok_bytes(s, p1), 2) {
                        Err(e) => Err(e),
                        Ok(five) => {
                            let p2 = tok_end(s, p1);
                            if !has_tok(s, p2) {
                                Err(ProbeError::UnexpectedEof)
                            } else {
                                match spec_fixed_point(tok_bytes(s, p2), 2) {
                                    Err(e) => Err(e),
                                    Ok(fifteen) => Ok(LoadAverage { one, five, fifteen }),
                                }
                            }
                        },
                    }
                }
            },
        }
    }
}

/// Decode the load average from the contents of the load-average file.
pub fn get_load_average(data: Vec<u8>) -> (r: Result<LoadAverage, ProbeError>)
    ensures
        r == spec_get_load_average(data@),
{
    let mut cur = Cursor::new(data);
    let one = match cur.next_raw() {
        None => {
            return Err(ProbeError::UnexpectedEof);
        },
        Some(v) => match parse_fixed_point(&v, 2) {
            Err(e) => {
                return Err(e);
            },
            Ok(x) => x,
        },
    };
    let five = match cur.next_raw() {
        None => {
            return Err(ProbeError::UnexpectedEof);
        },
        Some(v) => match parse_fixed_point(&v, 2) {
            Err(e) => {
                return Err(e);
            },
            Ok(x) => x,
        },
    };
    let fifteen = match cur.next_raw() {
        None => {
            return Err(ProbeError::UnexpectedEof);
        },
        Some(v) => match parse_fixed_point(&v, 2) {
            Err(e) => {
                return Err(e);
            },
            Ok(x) => x,
        },
    };
    Ok(LoadAverage { one, five, fifteen })
}

} // verus!
