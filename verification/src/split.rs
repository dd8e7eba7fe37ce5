//! The mathematical model of line splitting: a forward split of a byte
//! stream on line feeds, the backward-scan model that the scanner follows,
//! and the law relating the two.

use vstd::prelude::*;

verus! {

/// The byte that ends every line.
pub const LF: u8 = 10;

/// The byte that is elided from line content when it stands directly
/// before a line feed.
pub const CR: u8 = 13;

/// One trailing carriage return removed, if present.
pub open spec fn strip_cr(line: Seq<u8>) -> Seq<u8> {
    if line.len() > 0 && line.last() == CR {
        line.drop_last()
    } else {
        line
    }
}

/// Forward split of a stream on line feeds: every line feed closes the
/// current segment, eliding a carriage return directly before it; every
/// other byte extends the current segment. The result always holds one
/// segment more than the stream holds line feeds.
pub open spec fn split_lines(s: Seq<u8>) -> Seq<Seq<u8>>
    decreases s.len(),
{
    if s.len() == 0 {
        seq![Seq::<u8>::empty()]
    } else {
        let rest = split_lines(s.drop_last());
        let c = s.last();
        if c == LF {
            rest.update(rest.len() - 1, strip_cr(rest.last())).push(Seq::<u8>::empty())
        } else {
            rest.update(rest.len() - 1, rest.last().push(c))
        }
    }
}

/// The line list of a stream as a forward reader produces it: the segment
/// after the last line feed is dropped when it is the empty segment a
/// trailing line feed leaves behind.
pub open spec fn forward_lines(s: Seq<u8>) -> Seq<Seq<u8>> {
    if s.len() == 0 {
        Seq::<Seq<u8>>::empty()
    } else if s.last() == LF {
        split_lines(s).drop_last()
    } else {
        split_lines(s)
    }
}

/// The lines a backward scan still has to produce, given the bytes `s` not
/// yet consumed, whether the byte consumed just after `s` was a line feed
/// (`lf_prev`), and the tail `acc` of the current line gathered so far.
pub open spec fn scan_lines(s: Seq<u8>, lf_prev: bool, acc: Seq<u8>) -> Seq<Seq<u8>>
    decreases s.len(),
{
    if s.len() == 0 {
        if acc.len() == 0 {
            Seq::<Seq<u8>>::empty()
        } else {
            seq![acc]
        }
    } else {
        let c = s.last();
        if c == LF {
            seq![acc] + scan_lines(s.drop_last(), true, Seq::<u8>::empty())
        } else if c == CR && lf_prev {
            scan_lines(s.drop_last(), false, acc)
        } else {
            scan_lines(s.drop_last(), false, seq![c] + acc)
        }
    }
}

/// Every line a backward scan of the stream `s` produces, first line first
/// (so: in reverse stream order). One trailing line feed is consumed before
/// scanning begins and yields no line of its own.
pub open spec fn rev_lines_of(s: Seq<u8>) -> Seq<Seq<u8>> {
    if s.len() > 0 && s.last() == LF {
        scan_lines(s.drop_last(), true, Seq::<u8>::empty())
    } else {
        scan_lines(s, false, Seq::<u8>::empty())
    }
}

/// A forward split always yields at least one segment.
proof fn lemma_split_lines_nonempty(s: Seq<u8>)
    ensures
        split_lines(s).len() >= 1,
    decreases s.len(),
{
    if s.len() > 0 {
        lemma_split_lines_nonempty(s.drop_last());
    }
}

/// The line list with its last line extended by `tail`.
spec fn extend_last(lines: Seq<Seq<u8>>, tail: Seq<u8>) -> Seq<Seq<u8>>
    recommends
        lines.len() > 0,
{
    lines.update(lines.len() - 1, lines.last() + tail)
}

/// The line list without its first line, when that line is empty.
pub open spec fn drop_leading_empty(lines: Seq<Seq<u8>>) -> Seq<Seq<u8>> {
    if lines.len() > 0 && lines[0].len() == 0 {
        lines.drop_first()
    } else {
        lines
    }
}

/// Reversing after a push puts the pushed element in front.
pub(crate) proof fn lemma_reverse_push<A>(s: Seq<A>, x: A)
    ensures
        s.push(x).reverse() == seq![x] + s.reverse(),
{
    assert(s.push(x).reverse() =~= seq![x] + s.reverse());
}

/// Reversing after putting an element in front pushes it to the back.
pub(crate) proof fn lemma_reverse_cons<A>(x: A, s: Seq<A>)
    ensures
        (seq![x] + s).reverse() == s.reverse().push(x),
{
    assert((seq![x] + s).reverse() =~= s.reverse().push(x));
}

/// Splitting after one trailing carriage return was removed equals
/// splitting first and removing it from the last segment.
proof fn lemma_split_strip_cr(s: Seq<u8>)
    ensures
        split_lines(strip_cr(s)) == split_lines(s).update(
            split_lines(s).len() - 1,
            strip_cr(split_lines(s).last()),
        ),
{
    lemma_split_lines_nonempty(s);
    if s.len() == 0 {
        assert(split_lines(strip_cr(s)) =~~= split_lines(s).update(
            split_lines(s).len() - 1,
            strip_cr(split_lines(s).last()),
        ));
    } else {
        let d = s.drop_last();
        let r0 = split_lines(d);
        lemma_split_lines_nonempty(d);
        if s.last() == CR {
            // The split appended the carriage return to the last segment;
            // removing it again restores the split of the shorter stream.
            assert(strip_cr(s) =~= d);
            assert(split_lines(s).last() == r0.last().push(CR));
            assert(strip_cr(r0.last().push(CR)) =~= r0.last());
            assert(split_lines(s).update(
                split_lines(s).len() - 1,
                strip_cr(split_lines(s).last()),
            ) =~~= r0);
        } else if s.last() == LF {
            // The last segment is the empty one the line feed opened, and
            // stripping the empty segment changes nothing.
            assert(split_lines(s).last() == Seq::<u8>::empty());
            assert(split_lines(s).update(
                split_lines(s).len() - 1,
                strip_cr(split_lines(s).last()),
            ) =~~= split_lines(s));
        } else {
            // The last segment ends in a byte that is not a carriage
            // return, so stripping changes nothing.
            assert(split_lines(s).last() == r0.last().push(s.last()));
            assert(split_lines(s).update(
                split_lines(s).len() - 1,
                strip_cr(split_lines(s).last()),
            ) =~~= split_lines(s));
        }
    }
}

/// The backward scan model agrees with the forward split, segment by
/// segment: scanning the bytes `s` with the gathered tail `acc` produces
/// the forward segments of `s` (the last one extended by `acc`, an empty
/// first one dropped), in reverse. When `lf_prev` holds, a line feed was
/// already consumed after `s`, so one trailing carriage return of `s` is
/// elided first.
proof fn lemma_scan_split(s: Seq<u8>, lf_prev: bool, acc: Seq<u8>)
    ensures
        scan_lines(s, lf_prev, acc) == drop_leading_empty(
            extend_last(split_lines(if lf_prev { strip_cr(s) } else { s }), acc),
        ).reverse(),
    decreases s.len(),
{
    if s.len() > 0 && lf_prev && s.last() == CR {
        // The elided carriage return: scanning continues on the shorter
        // stream, which is exactly what stripping produced.
        lemma_scan_split(s.drop_last(), false, acc);
        assert(strip_cr(s) =~= s.drop_last());
    } else if s.len() == 0 {
        let ext = extend_last(split_lines(s), acc);
        assert(ext =~~= seq![acc]);
        if acc.len() == 0 {
            assert(drop_leading_empty(ext) =~= Seq::<Seq<u8>>::empty());
            assert(Seq::<Seq<u8>>::empty().reverse() =~= Seq::<Seq<u8>>::empty());
        } else {
            assert(drop_leading_empty(ext) =~= seq![acc]);
            assert(seq![acc].reverse() =~= seq![acc]);
        }
    } else if s.last() == LF {
        let d = s.drop_last();
        lemma_scan_split(d, true, Seq::<u8>::empty());
        lemma_split_strip_cr(d);
        lemma_split_lines_nonempty(d);
        let x = split_lines(d).update(split_lines(d).len() - 1, strip_cr(split_lines(d).last()));
        // The recursive scan covers all segments but the one `acc` closes.
        assert(extend_last(split_lines(strip_cr(d)), Seq::<u8>::empty()) =~~= x);
        assert(split_lines(s) =~= x.push(Seq::<u8>::empty()));
        assert(extend_last(split_lines(s), acc) =~~= x.push(acc));
        if x[0].len() == 0 {
            assert(drop_leading_empty(x.push(acc)) =~= x.drop_first().push(acc));
            lemma_reverse_push(x.drop_first(), acc);
            assert(drop_leading_empty(x) =~= x.drop_first());
        } else {
            assert(drop_leading_empty(x.push(acc)) =~= x.push(acc));
            lemma_reverse_push(x, acc);
            assert(drop_leading_empty(x) =~= x);
        }
    } else {
        let d = s.drop_last();
        let c = s.last();
        lemma_scan_split(d, false, seq![c] + acc);
        lemma_split_lines_nonempty(d);
        // Extending the last segment with the byte and then with the rest
        // of the tail is one extension with the longer tail.
        assert(extend_last(split_lines(s), acc) =~~= extend_last(split_lines(d), seq![c] + acc));
    }
}

/// What a backward scan produces is the forward line list reversed, after
/// the one normalization the scanner applies: a first line of the stream
/// that is empty is not produced.
pub proof fn lemma_rev_lines_reverses_forward(s: Seq<u8>)
    ensures
        rev_lines_of(s) == drop_leading_empty(forward_lines(s)).reverse(),
{
    if s.len() == 0 {
        lemma_scan_split(s, false, Seq::<u8>::empty());
        assert(drop_leading_empty(forward_lines(s)) =~= Seq::<Seq<u8>>::empty());
        assert(extend_last(split_lines(s), Seq::<u8>::empty()) =~~= seq![Seq::<u8>::empty()]);
        assert(drop_leading_empty(seq![Seq::<u8>::empty()]) =~= Seq::<Seq<u8>>::empty());
    } else if s.last() == LF {
        let d = s.drop_last();
        lemma_scan_split(d, true, Seq::<u8>::empty());
        lemma_split_strip_cr(d);
        lemma_split_lines_nonempty(d);
        let x = split_lines(d).update(split_lines(d).len() - 1, strip_cr(split_lines(d).last()));
        assert(extend_last(split_lines(strip_cr(d)), Seq::<u8>::empty()) =~~= x);
        assert(split_lines(s) =~= x.push(Seq::<u8>::empty()));
        assert(forward_lines(s) =~= x);
    } else {
        lemma_scan_split(s, false, Seq::<u8>::empty());
        lemma_split_lines_nonempty(s);
        assert(extend_last(split_lines(s), Seq::<u8>::empty()) =~~= split_lines(s));
    }
}

/// Round trip: for a stream whose first line is not empty, splitting
/// forward on line feeds (a carriage return before each elided, the
/// segment a trailing line feed leaves dropped) and reversing the list is
/// exactly what the backward scan produces.
pub proof fn lemma_round_trip(s: Seq<u8>)
    requires
        forward_lines(s).len() == 0 || forward_lines(s)[0].len() > 0,
    ensures
        rev_lines_of(s) == forward_lines(s).reverse(),
{
    lemma_rev_lines_reverses_forward(s);
    assert(drop_leading_empty(forward_lines(s)) =~= forward_lines(s));
}

} // verus!
