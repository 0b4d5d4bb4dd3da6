//! Tests of word-by-word string assembly.

use norm::cstr::push_word;

/// Feed a memory image, given as bytes in word-sized chunks, through the
/// scanner and return what it assembled and whether it terminated.
fn scan(image: &[u8]) -> (Vec<u8>, bool) {
    assert!(image.len() % 4 == 0);
    let mut buf: Vec<u8> = Vec::new();
    for chunk in image.chunks(4) {
        let w = u32::from_le_bytes([chunk[0], chunk[1], chunk[2], chunk[3]]);
        if push_word(&mut buf, w) {
            return (buf, true);
        }
    }
    (buf, false)
}

#[test]
fn empty_string_terminates_at_once() {
    let (buf, done) = scan(b"\0abc");
    assert!(done);
    assert_eq!(buf, b"");
}

#[test]
fn terminator_at_each_intra_word_offset() {
    let (buf, done) = scan(b"a\0cd");
    assert!(done);
    assert_eq!(buf, b"a");

    let (buf, done) = scan(b"ab\0d");
    assert!(done);
    assert_eq!(buf, b"ab");

    let (buf, done) = scan(b"abc\0");
    assert!(done);
    assert_eq!(buf, b"abc");
}

#[test]
fn string_spanning_full_words() {
    // Four full words of payload, then the terminator at the start of
    // the next word.
    let (buf, done) = scan(b"/tmp/foobar/baaz\0xyz");
    assert!(done);
    assert_eq!(buf, b"/tmp/foobar/baaz");
}

#[test]
fn full_word_then_partial_word() {
    let (buf, done) = scan(b"abcdef\0h");
    assert!(done);
    assert_eq!(buf, b"abcdef");
}

#[test]
fn missing_terminator_keeps_going() {
    let (buf, done) = scan(b"abcdefgh");
    assert!(!done);
    assert_eq!(buf, b"abcdefgh");
}

#[test]
fn bytes_after_the_terminator_are_dropped() {
    let (buf, done) = scan(b"ab\0dEFGH");
    assert!(done);
    assert_eq!(buf, b"ab");
}
