use rev_lines::RawRevLines;
use rev_lines::RevLines;
use rev_lines::RevLinesError;

#[test]
fn zero_capacity_is_a_configuration_error() {
    assert_eq!(
        RawRevLines::with_capacity(0, b"ABCD\n".to_vec()).err(),
        Some(RevLinesError::Config)
    );
    assert!(matches!(
        RevLines::with_capacity(0, b"ABCD\n".to_vec()),
        Err(RevLinesError::Config)
    ));
}

#[test]
fn exhaustion_is_a_stable_terminal_state() {
    let mut rev_lines = RawRevLines::new(b"ABCD\n".to_vec());

    assert_eq!(rev_lines.next_line(), Some(b"ABCD".to_vec()));
    assert_eq!(rev_lines.next_line(), None);
    assert_eq!(rev_lines.next_line(), None);
    assert_eq!(rev_lines.next_line(), None);
}

#[test]
fn one_trailing_terminator_is_consumed_but_not_more() {
    // A lone line feed at the very end yields no line of its own.
    let mut rev_lines = RawRevLines::new(b"\n".to_vec());
    assert_eq!(rev_lines.next_line(), None);

    // The same holds for a trailing carriage-return/line-feed pair.
    let mut rev_lines = RawRevLines::new(b"AB\r\n".to_vec());
    assert_eq!(rev_lines.next_line(), Some(b"AB".to_vec()));
    assert_eq!(rev_lines.next_line(), None);

    // A second terminator beyond the first does yield an empty line.
    let mut rev_lines = RawRevLines::new(b"\n\n".to_vec());
    assert_eq!(rev_lines.next_line(), Some(b"".to_vec()));
    assert_eq!(rev_lines.next_line(), None);
}

#[test]
fn last_line_without_terminator_is_produced() {
    let mut rev_lines = RawRevLines::new(b"ABCD\nEF".to_vec());

    assert_eq!(rev_lines.next_line(), Some(b"EF".to_vec()));
    assert_eq!(rev_lines.next_line(), Some(b"ABCD".to_vec()));
    assert_eq!(rev_lines.next_line(), None);
}

#[test]
fn bare_carriage_return_at_stream_end_is_kept() {
    let mut rev_lines = RawRevLines::new(b"AB\r".to_vec());

    assert_eq!(rev_lines.next_line(), Some(b"AB\r".to_vec()));
    assert_eq!(rev_lines.next_line(), None);
}

#[test]
fn carriage_return_pair_split_by_smallest_window() {
    // With a window of one byte every carriage-return/line-feed pair sits
    // across a refill boundary; the pair must still be stripped as one
    // terminator.
    let text = b"A\r\nB\r\nC\r\n".to_vec();
    let mut rev_lines = RawRevLines::with_capacity(1, text).unwrap();

    assert_eq!(rev_lines.next_line(), Some(b"C".to_vec()));
    assert_eq!(rev_lines.next_line(), Some(b"B".to_vec()));
    assert_eq!(rev_lines.next_line(), Some(b"A".to_vec()));
    assert_eq!(rev_lines.next_line(), None);
}

#[test]
fn empty_first_line_is_not_produced() {
    // A stream that opens with a line feed has an empty first line; the
    // backward scan consumes that line feed last and produces no line for
    // it.
    let mut rev_lines = RawRevLines::new(b"\nA".to_vec());

    assert_eq!(rev_lines.next_line(), Some(b"A".to_vec()));
    assert_eq!(rev_lines.next_line(), None);
}

#[test]
fn decode_failure_leaves_the_scan_position_intact() {
    // Two broken lines in a row, each reported once, with sound lines
    // around them.
    let mut rev_lines = RevLines::new(vec![b'A', b'\n', 0xC0, b'\n', 0xFF, b'\n', b'B', b'\n']);

    assert_eq!(rev_lines.next_line(), Some(Ok("B".to_string())));
    assert_eq!(
        rev_lines.next_line(),
        Some(Err(RevLinesError::InvalidUtf8(vec![0xFF])))
    );
    assert_eq!(
        rev_lines.next_line(),
        Some(Err(RevLinesError::InvalidUtf8(vec![0xC0])))
    );
    assert_eq!(rev_lines.next_line(), Some(Ok("A".to_string())));
    assert_eq!(rev_lines.next_line(), None);
}

#[test]
fn scan_agrees_with_forward_split_for_every_capacity() {
    // The reverse of a forward line split, reproduced for every window
    // capacity from one byte up to the whole stream.
    let text = b"one\r\ntwo\nthree\rthree\n\nfive".to_vec();
    let forward = vec![
        b"one".to_vec(),
        b"two".to_vec(),
        b"three\rthree".to_vec(),
        b"".to_vec(),
        b"five".to_vec(),
    ];
    for cap in 1..(text.len() + 1) {
        let mut rev_lines = RawRevLines::with_capacity(cap, text.clone()).unwrap();
        let mut produced = Vec::new();
        while let Some(line) = rev_lines.next_line() {
            produced.push(line);
        }
        let mut expected = forward.clone();
        expected.reverse();
        assert_eq!(produced, expected);
    }
}

#[test]
fn error_kinds_describe_themselves() {
    assert_eq!(RevLinesError::Config.describe(), "invalid buffer capacity");
    assert_eq!(RevLinesError::Io.describe(), "stream failure");
    assert_eq!(
        RevLinesError::InvalidUtf8(vec![0xFF]).describe(),
        "invalid utf-8"
    );
}
