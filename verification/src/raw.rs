//! The backward line scanner over raw bytes: a fixed-capacity window is
//! refilled from progressively earlier positions of an in-memory seekable
//! source, and one delimited line is assembled per call.

use vstd::prelude::*;

use crate::error::RevLinesError;
use crate::split::{CR, LF, lemma_reverse_cons, lemma_reverse_push, rev_lines_of, scan_lines};

verus! {

/// The window capacity used when the caller names none.
pub const DEFAULT_SIZE: usize = 4096;

/// A backward scanner that yields the lines of `source` as raw byte
/// sequences, last line first.
///
/// The source bytes are scanned back to front through a window of at most
/// `capacity` bytes at a time, so correctness never depends on a line or a
/// terminator pair fitting into one refill.
pub struct RawRevLines {
    /// The stream being scanned.
    source: Vec<u8>,
    /// How many source bytes lie before the window and are still unread.
    ahead: usize,
    /// The bytes read most recently and not yet consumed; consumed from
    /// its back.
    window: Vec<u8>,
    /// The largest number of bytes a refill may read. At least 1.
    capacity: usize,
    /// Whether the byte consumed most recently was a line feed. Carried
    /// across refills so that a carriage return directly before a line
    /// feed is elided even when a refill boundary separates the two.
    lf_prev: bool,
    /// Whether the one-time end-of-stream setup has run.
    started: bool,
}

impl RawRevLines {
    /// The well-formedness of the scanner state.
    pub closed spec fn inv(self) -> bool {
        &&& self.capacity >= 1
        &&& self.ahead + self.window@.len() <= self.source@.len()
        &&& !self.started ==> self.ahead == 0 && self.window@.len() == 0 && !self.lf_prev
    }

    /// The bytes of the stream this scanner was built over.
    pub closed spec fn source_bytes(self) -> Seq<u8> {
        self.source@
    }

    /// Whether no line has been requested yet.
    pub closed spec fn is_fresh(self) -> bool {
        !self.started
    }

    /// The window capacity the scanner was configured with.
    pub closed spec fn buffer_capacity(self) -> nat {
        self.capacity as nat
    }

    /// How many source bytes lie before the current window, still unread.
    pub closed spec fn unread(self) -> nat {
        self.ahead as nat
    }

    /// How many bytes of the window are not yet consumed.
    pub closed spec fn window_len(self) -> nat {
        self.window@.len()
    }

    /// Whether the byte consumed most recently was a line feed.
    pub closed spec fn lf_pending(self) -> bool {
        self.lf_prev
    }

    /// The bytes not yet consumed by the scan: everything before the
    /// window, then the window itself.
    pub closed spec fn unscanned(self) -> Seq<u8> {
        self.source@.take(self.ahead as int) + self.window@
    }

    /// The lines this scanner has still to produce, first produced first.
    pub closed spec fn lines(self) -> Seq<Seq<u8>> {
        if self.started {
            scan_lines(self.unscanned(), self.lf_prev, Seq::<u8>::empty())
        } else {
            rev_lines_of(self.source@)
        }
    }

    /// The shared constructor; capacity has been checked by the callers.
    fn build(cap: usize, source: Vec<u8>) -> (r: RawRevLines)
        requires
            cap >= 1,
        ensures
            r.inv(),
            r.is_fresh(),
            r.source_bytes() == source@,
            r.buffer_capacity() == cap,
            r.lines() == rev_lines_of(source@),
    {
        RawRevLines {
            source,
            ahead: 0,
            window: Vec::new(),
            capacity: cap,
            lf_prev: false,
            started: false,
        }
    }

    /// A scanner over `source` with the default window capacity.
    pub fn new(source: Vec<u8>) -> (r: RawRevLines)
        ensures
            r.inv(),
            r.is_fresh(),
            r.source_bytes() == source@,
            r.buffer_capacity() == DEFAULT_SIZE,
            r.lines() == rev_lines_of(source@),
    {
        RawRevLines::build(DEFAULT_SIZE, source)
    }

    /// A scanner over `source` whose refills read at most `cap` bytes.
    /// A capacity of 0 is invalid and is refused as a configuration error.
    pub fn with_capacity(cap: usize, source: Vec<u8>) -> (r: Result<RawRevLines, RevLinesError>)
        ensures
            r is Err <==> cap == 0,
            r matches Err(e) ==> e is Config,
            r matches Ok(scanner) ==> {
                &&& scanner.inv()
                &&& scanner.is_fresh()
                &&& scanner.source_bytes() == source@
                &&& scanner.buffer_capacity() == cap
                &&& scanner.lines() == rev_lines_of(source@)
            },
    {
        if cap == 0 {
            Err(RevLinesError::Config)
        } else {
            Ok(RawRevLines::build(cap, source))
        }
    }

    /// Refill the exhausted window with the bytes of the source directly
    /// before the previously read region: as many as fit the capacity, or
    /// as many as remain.
    pub fn read_to_buffer(&mut self)
        requires
            old(self).inv(),
            !old(self).is_fresh(),
            old(self).window_len() == 0,
        ensures
            final(self).inv(),
            !final(self).is_fresh(),
            final(self).lines() == old(self).lines(),
            final(self).unscanned() == old(self).unscanned(),
            final(self).lf_pending() == old(self).lf_pending(),
            final(self).source_bytes() == old(self).source_bytes(),
            final(self).buffer_capacity() == old(self).buffer_capacity(),
            final(self).window_len() == if old(self).unread() < old(self).buffer_capacity() {
                old(self).unread()
            } else {
                old(self).buffer_capacity()
            },
            final(self).unread() + final(self).window_len() == old(self).unread(),
    {
        let n = if self.ahead < self.capacity {
            self.ahead
        } else {
            self.capacity
        };
        let start = self.ahead - n;
        let mut filled: Vec<u8> = Vec::new();
        let mut j: usize = start;
        while j < self.ahead
            invariant
                start <= j <= self.ahead,
                self.ahead <= self.source@.len(),
                filled@ == self.source@.subrange(start as int, j as int),
            decreases self.ahead - j,
        {
            filled.push(self.source[j]);
            assert(filled@ == self.source@.subrange(start as int, j + 1));
            j = j + 1;
        }
        self.window = filled;
        self.ahead = start;
        proof {
            assert(self.unscanned() == old(self).unscanned());
        }
    }

    /// The one-time setup: position the scan at the end of the stream and
    /// consume a single trailing line feed, so the first produced line is
    /// the last line of content and not a spurious empty line.
    fn start_scan(&mut self)
        requires
            old(self).inv(),
            old(self).is_fresh(),
        ensures
            final(self).inv(),
            !final(self).is_fresh(),
            final(self).lines() == old(self).lines(),
            final(self).source_bytes() == old(self).source_bytes(),
            final(self).buffer_capacity() == old(self).buffer_capacity(),
    {
        self.ahead = self.source.len();
        self.started = true;
        proof {
            assert(self.unscanned() =~= self.source@);
        }
        self.read_to_buffer();
        assert(self.unscanned() == self.source@);
        if self.window.len() > 0 {
            proof {
                assert(self.unscanned().last() == self.window@.last());
            }
            if self.window[self.window.len() - 1] == LF {
                self.window.pop();
                self.lf_prev = true;
                proof {
                    assert(self.unscanned() =~= self.source@.drop_last());
                }
            }
        }
    }

    /// Produce the next line, scanning backward: the line's raw bytes with
    /// its terminator stripped, or `None` once the whole stream has been
    /// consumed. `None` is a stable terminal state.
    #[verifier::loop_isolation(false)]
    pub fn next_line(&mut self) -> (r: Option<Vec<u8>>)
        requires
            old(self).inv(),
        ensures
            final(self).inv(),
            !final(self).is_fresh(),
            final(self).source_bytes() == old(self).source_bytes(),
            final(self).buffer_capacity() == old(self).buffer_capacity(),
            match r {
                Some(line) => {
                    &&& old(self).lines().len() > 0
                    &&& line@ == old(self).lines()[0]
                    &&& final(self).lines() == old(self).lines().drop_first()
                },
                None => {
                    &&& old(self).lines().len() == 0
                    &&& final(self).lines().len() == 0
                },
            },
    {
        if !self.started {
            self.start_scan();
        }
        let ghost target = self.lines();
        let mut acc: Vec<u8> = Vec::new();
        proof {
            assert(acc@.reverse() =~= Seq::<u8>::empty());
        }
        loop
            invariant
                self.inv(),
                !self.is_fresh(),
                self.source_bytes() == old(self).source_bytes(),
                self.buffer_capacity() == old(self).buffer_capacity(),
                scan_lines(self.unscanned(), self.lf_prev, acc@.reverse()) == target,
            decreases self.unscanned().len(),
        {
            if self.window.len() == 0 {
                self.read_to_buffer();
                if self.window.len() == 0 {
                    // The stream start was reached: what has accumulated is
                    // the first line of the stream, if anything has.
                    proof {
                        assert(self.unscanned() =~= Seq::<u8>::empty());
                    }
                    if acc.len() == 0 {
                        return None;
                    } else {
                        let line = reversed(&acc);
                        proof {
                            assert(target =~= seq![acc@.reverse()]);
                        }
                        return Some(line);
                    }
                }
            }
            let ghost before = *self;
            assert(before.window@.len() > 0);
            while self.window.len() > 0
                invariant
                    self.inv(),
                    !self.is_fresh(),
                    self.unread() == before.unread(),
                    self.source_bytes() == old(self).source_bytes(),
                    self.buffer_capacity() == old(self).buffer_capacity(),
                    scan_lines(self.unscanned(), self.lf_prev, acc@.reverse()) == target,
                decreases self.window@.len(),
            {
                let ghost u = self.unscanned();
                proof {
                    assert(u.last() == self.window@.last());
                    assert(u.drop_last() =~= self.source@.take(self.ahead as int)
                        + self.window@.drop_last());
                }
                let c = self.window.pop().unwrap();
                assert(self.unscanned() =~= u.drop_last());
                if c == LF {
                    // A line feed ends the current line.
                    self.lf_prev = true;
                    let line = reversed(&acc);
                    proof {
                        assert(target == seq![acc@.reverse()]
                            + scan_lines(self.unscanned(), true, Seq::<u8>::empty()));
                        assert(target[0] == acc@.reverse());
                        assert(target.drop_first()
                            =~= scan_lines(self.unscanned(), true, Seq::<u8>::empty()));
                    }
                    return Some(line);
                }
                if c == CR && self.lf_prev {
                    // A carriage return directly before a line feed is
                    // elided from the content.
                } else {
                    let ghost gathered = acc@;
                    acc.push(c);
                    proof {
                        lemma_reverse_push(gathered, c);
                    }
                }
                self.lf_prev = false;
            }
        }
    }
}

/// Scanning a stream does not depend on the window capacity: two fresh
/// scanners over the same bytes produce the same lines, whatever their
/// capacities are.
pub proof fn lemma_capacity_independent(a: RawRevLines, b: RawRevLines)
    requires
        a.inv(),
        b.inv(),
        a.is_fresh(),
        b.is_fresh(),
        a.source_bytes() == b.source_bytes(),
    ensures
        a.lines() == b.lines(),
{
}

/// The bytes of `v` in the opposite order.
#[verifier::loop_isolation(false)]
fn reversed(v: &Vec<u8>) -> (r: Vec<u8>)
    ensures
        r@ == v@.reverse(),
{
    let mut r: Vec<u8> = Vec::new();
    let mut i: usize = v.len();
    while i > 0
        invariant
            i <= v@.len(),
            r@ == v@.skip(i as int).reverse(),
        decreases i,
    {
        i = i - 1;
        r.push(v[i]);
        proof {
            assert(v@.skip(i as int) =~= seq![v@[i as int]] + v@.skip(i + 1));
            lemma_reverse_cons(v@[i as int], v@.skip(i + 1));
        }
    }
    r
}

} // verus!
