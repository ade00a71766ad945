use vstd::prelude::*;

verus! {

/// Why a snapshot could not be taken.
///
/// `UnexpectedEof` and `InvalidData` are format errors: a required field was
/// absent, or a token was present but did not have the expected shape.
/// `NotFound` reports that a per-process file vanished while it was being
/// read (the process exited); enumeration treats it as "skip this process".
/// `Io` stands for every other operating-system failure reported by the
/// caller who performed the reads.
#[derive(Debug, Clone, Copy, PartialEq, Eq, Structural)]
pub enum ProbeError {
    UnexpectedEof,
    InvalidData,
    NotFound,
    Io,
}

impl ProbeError {
    /// A short diagnostic name for the error.
    pub fn describe(&self) -> (r: &'static str)
        ensures
            r@ == match self {
                ProbeError::UnexpectedEof => "unexpected end of file"@,
                ProbeError::InvalidData => "invalid data"@,
                ProbeError::NotFound => "not found"@,
                ProbeError::Io => "I/O error"@,
            },
    {
        match self {
            ProbeError::UnexpectedEof => "unexpected end of file",
            ProbeError::InvalidData => "invalid data",
            ProbeError::NotFound => "not found",
            ProbeError::Io => "I/O error",
        }
    }
}

} // verus!
