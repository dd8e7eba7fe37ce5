//! The error taxonomy of the library: configuration errors caught at
//! construction, stream failures, and per-line decode failures.

use vstd::prelude::*;

verus! {

/// What can go wrong while producing lines.
#[derive(Debug, PartialEq, Eq)]
pub enum RevLinesError {
    /// The scanner was configured with an invalid buffer capacity.
    Config,
    /// A seek or read against the underlying stream failed. A scanner over
    /// an in-memory source never raises this; front ends that drive a
    /// fallible stream report their failures through it.
    Io,
    /// One produced line was not valid UTF-8; the offending bytes are
    /// carried unchanged. The scan itself is unaffected.
    InvalidUtf8(Vec<u8>),
}

impl RevLinesError {
    /// A short name for the error kind, for callers that print it.
    pub fn describe(&self) -> (r: &'static str)
        ensures
            r@ == match self {
                RevLinesError::Config => "invalid buffer capacity"@,
                RevLinesError::Io => "stream failure"@,
                RevLinesError::InvalidUtf8(_) => "invalid utf-8"@,
            },
    {
        match self {
            RevLinesError::Config => "invalid buffer capacity",
            RevLinesError::Io => "stream failure",
            RevLinesError::InvalidUtf8(_) => "invalid utf-8",
        }
    }
}

} // verus!
