use tw_econ::Error;
use tw_econ::LineReassembler;

#[test]
fn whole_lines_come_out_at_once() {
    let mut r = LineReassembler::new(64);
    let lines = r.feed(b"a\nbb\nccc\n").unwrap();
    assert_eq!(lines, vec![b"a".to_vec(), b"bb".to_vec(), b"ccc".to_vec()]);
    assert_eq!(r.pending_len(), 0);
}

#[test]
fn fragments_carry_over_between_reads() {
    let mut r = LineReassembler::new(64);
    assert_eq!(r.feed(b"he").unwrap(), Vec::<Vec<u8>>::new());
    assert_eq!(r.pending_len(), 2);
    assert_eq!(r.feed(b"llo\nwo").unwrap(), vec![b"hello".to_vec()]);
    assert_eq!(r.pending_len(), 2);
    assert_eq!(r.feed(b"rld\n").unwrap(), vec![b"world".to_vec()]);
    assert_eq!(r.pending_len(), 0);
}

#[test]
fn padding_bytes_are_stripped() {
    let mut r = LineReassembler::new(64);
    let lines = r.feed(b"he\0llo\n\0\0").unwrap();
    assert_eq!(lines, vec![b"hello".to_vec()]);
    assert_eq!(r.pending_len(), 0);
}

#[test]
fn empty_lines_are_emitted() {
    let mut r = LineReassembler::new(64);
    let lines = r.feed(b"\n\nx\n").unwrap();
    assert_eq!(lines, vec![Vec::new(), Vec::new(), b"x".to_vec()]);
}

#[test]
fn rejoining_lines_reproduces_the_stream() {
    // Cut one stream at awkward places; what comes out, re-joined, is the
    // stream minus its padding bytes.
    let chunks: Vec<&[u8]> = vec![b"[a]:", b" 1\n[b]", b"\0: 2\n[c]: 3", b"\n"];
    let mut r = LineReassembler::new(64);
    let mut joined = Vec::new();
    for c in chunks {
        for line in r.feed(c).unwrap() {
            joined.extend_from_slice(&line);
            joined.push(b'\n');
        }
    }
    assert_eq!(joined, b"[a]: 1\n[b]: 2\n[c]: 3\n".to_vec());
    assert_eq!(r.pending_len(), 0);
}

#[test]
fn oversized_line_is_refused_not_truncated() {
    let mut r = LineReassembler::new(4);
    assert_eq!(r.feed(b"abcdef").unwrap_err(), Error::BufferExhausted);
    // The failed read left the reassembler as it was.
    assert_eq!(r.pending_len(), 0);
    assert_eq!(r.feed(b"ab\n").unwrap(), vec![b"ab".to_vec()]);
}

#[test]
fn oversized_fragment_across_reads_is_refused() {
    let mut r = LineReassembler::new(4);
    assert_eq!(r.feed(b"abc").unwrap(), Vec::<Vec<u8>>::new());
    assert_eq!(r.feed(b"de").unwrap_err(), Error::BufferExhausted);
    // A delimiter inside the buffer bound still goes through.
    assert_eq!(r.feed(b"d\n").unwrap(), vec![b"abcd".to_vec()]);
}
