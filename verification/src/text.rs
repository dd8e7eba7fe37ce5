//! The text decoding wrapper: each raw line the backward scanner produces
//! is decoded as UTF-8, and a decode failure is surfaced for that line
//! alone while the scan position stays intact.

use vstd::prelude::*;
use vstd::utf8::{decode_utf8, valid_utf8};

use crate::error::RevLinesError;
use crate::raw::{DEFAULT_SIZE, RawRevLines};
use crate::split::rev_lines_of;

verus! {

/// A backward scanner that yields the lines of its source as text, last
/// line first. Lines that are not valid UTF-8 are reported one by one and
/// do not disturb the lines around them.
pub struct RevLines {
    raw: RawRevLines,
}

impl RevLines {
    /// The well-formedness of the wrapper.
    pub closed spec fn inv(self) -> bool {
        self.raw.inv()
    }

    /// The bytes of the stream this scanner was built over.
    pub closed spec fn source_bytes(self) -> Seq<u8> {
        self.raw.source_bytes()
    }

    /// The raw byte lines still to be produced, first produced first.
    pub closed spec fn lines(self) -> Seq<Seq<u8>> {
        self.raw.lines()
    }

    /// The window capacity the scanner was configured with.
    pub closed spec fn buffer_capacity(self) -> nat {
        self.raw.buffer_capacity()
    }

    /// A text scanner over `source` with the default window capacity.
    pub fn new(source: Vec<u8>) -> (r: RevLines)
        ensures
            r.inv(),
            r.source_bytes() == source@,
            r.buffer_capacity() == DEFAULT_SIZE,
            r.lines() == rev_lines_of(source@),
    {
        RevLines { raw: RawRevLines::new(source) }
    }

    /// A text scanner over `source` whose refills read at most `cap`
    /// bytes. A capacity of 0 is invalid and is refused as a configuration
    /// error.
    pub fn with_capacity(cap: usize, source: Vec<u8>) -> (r: Result<RevLines, RevLinesError>)
        ensures
            r is Err <==> cap == 0,
            r matches Err(e) ==> e is Config,
            r matches Ok(scanner) ==> {
                &&& scanner.inv()
                &&& scanner.source_bytes() == source@
                &&& scanner.buffer_capacity() == cap
                &&& scanner.lines() == rev_lines_of(source@)
            },
    {
        match RawRevLines::with_capacity(cap, source) {
            Ok(raw) => Ok(RevLines { raw }),
            Err(e) => Err(e),
        }
    }

    /// Produce the next line as text: `None` once the stream is exhausted
    /// (a stable terminal state); otherwise the line decoded from UTF-8,
    /// or a decode failure carrying the offending bytes. A decode failure
    /// is scoped to this one line: the scan continues behind it.
    pub fn next_line(&mut self) -> (r: Option<Result<String, RevLinesError>>)
        requires
            old(self).inv(),
        ensures
            final(self).inv(),
            final(self).source_bytes() == old(self).source_bytes(),
            final(self).buffer_capacity() == old(self).buffer_capacity(),
            match r {
                None => {
                    &&& old(self).lines().len() == 0
                    &&& final(self).lines().len() == 0
                },
                Some(item) => {
                    &&& old(self).lines().len() > 0
                    &&& final(self).lines() == old(self).lines().drop_first()
                    &&& match item {
                        Ok(text) => valid_utf8(old(self).lines()[0]) && text@ == decode_utf8(
                            old(self).lines()[0],
                        ),
                        Err(e) => !valid_utf8(old(self).lines()[0]) && (e matches
                            RevLinesError::InvalidUtf8(bytes) && bytes@ == old(self).lines()[0]),
                    }
                },
            },
    {
        let line = match self.raw.next_line() {
            None => {
                return None;
            },
            Some(line) => line,
        };
        match decode_line(line) {
            Ok(text) => Some(Ok(text)),
            Err(bytes) => Some(Err(RevLinesError::InvalidUtf8(bytes))),
        }
    }
}

/// Relies on std's String::from_utf8: it succeeds exactly on bytes that
/// are valid UTF-8, yields the characters those bytes encode, and on
/// failure hands the input bytes back unchanged through the error's
/// into_bytes.
#[verifier::external_body]
fn decode_line(bytes: Vec<u8>) -> (r: Result<String, Vec<u8>>)
    ensures
        r matches Ok(text) ==> valid_utf8(bytes@) && text@ == decode_utf8(bytes@),
        r matches Err(same) ==> !valid_utf8(bytes@) && same@ == bytes@,
{
    String::from_utf8(bytes).map_err(|err| err.into_bytes())
}

} // verus!
