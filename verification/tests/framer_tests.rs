use serial_bridge::framer::{handle_serial_data, trim_chars, PendingBuffer};

fn chars_of(s: &str) -> Vec<char> {
    s.chars().collect()
}

#[test]
fn feed_without_newline_produces_no_line() {
    let mut buf = PendingBuffer::new();
    let r = handle_serial_data(b"abc", &mut buf);
    assert!(r.is_none());
    assert_eq!(*buf.as_chars(), chars_of("abc"));
}

#[test]
fn feed_empty_chunk_produces_no_line() {
    let mut buf = PendingBuffer::new();
    let r = handle_serial_data(b"", &mut buf);
    assert!(r.is_none());
    assert_eq!(*buf.as_chars(), chars_of(""));
}

#[test]
fn feed_one_newline_extracts_one_line_and_buffers_remainder() {
    let mut buf = PendingBuffer::new();
    let r = handle_serial_data(b"hello\nwor", &mut buf);
    let line = r.expect("one newline must surface one line");
    assert_eq!(*line.as_chars(), chars_of("hello"));
    assert_eq!(*buf.as_chars(), chars_of("wor"));
}

#[test]
fn feed_one_newline_at_end_leaves_empty_buffer() {
    let mut buf = PendingBuffer::new();
    let r = handle_serial_data(b"hello\n", &mut buf);
    let line = r.expect("one newline must surface one line");
    assert_eq!(*line.as_chars(), chars_of("hello"));
    assert_eq!(*buf.as_chars(), chars_of(""));
}

#[test]
fn feed_two_newlines_surfaces_only_first_line() {
    let mut buf = PendingBuffer::new();
    let r = handle_serial_data(b"a\nb\n", &mut buf);
    let line = r.expect("a newline must surface a line");
    assert_eq!(*line.as_chars(), chars_of("a"));
    // The second complete line stays buffered, newline included.
    assert_eq!(*buf.as_chars(), chars_of("b\n"));
    // A later feed surfaces it even when the chunk itself has no newline.
    let r2 = handle_serial_data(b"", &mut buf);
    let line2 = r2.expect("the buffered line must surface on the next feed");
    assert_eq!(*line2.as_chars(), chars_of("b"));
    assert_eq!(*buf.as_chars(), chars_of(""));
}

#[test]
fn extracted_line_is_trimmed() {
    let mut buf = PendingBuffer::new();
    let r = handle_serial_data(b"  hi \r\n after", &mut buf);
    let line = r.expect("a newline must surface a line");
    assert_eq!(*line.as_chars(), chars_of("hi"));
    assert_eq!(*buf.as_chars(), chars_of(" after"));
}

#[test]
fn line_split_across_chunks_is_reassembled() {
    let mut buf = PendingBuffer::new();
    assert!(handle_serial_data(b"ab", &mut buf).is_none());
    let r = handle_serial_data(b"c\nde", &mut buf);
    let line = r.expect("the newline completes the line");
    assert_eq!(*line.as_chars(), chars_of("abc"));
    assert_eq!(*buf.as_chars(), chars_of("de"));
}

#[test]
fn invalid_utf8_is_replaced_not_fatal() {
    let mut buf = PendingBuffer::new();
    let r = handle_serial_data(&[0xff, 0xfe, b'a', b'\n'], &mut buf);
    let line = r.expect("a newline must surface a line");
    assert_eq!(*line.as_chars(), chars_of("\u{fffd}\u{fffd}a"));
    assert_eq!(*buf.as_chars(), chars_of(""));
}

#[test]
fn framing_reconstructs_the_input_without_whitespace_loss() {
    // With no surrounding whitespace to trim, the produced lines glued back
    // with newlines, plus the final buffer, reproduce the whole input.
    let chunks: [&[u8]; 3] = [b"ab", b"c\nd", b"e\nf"];
    let mut buf = PendingBuffer::new();
    let mut rebuilt = String::new();
    for chunk in chunks {
        if let Some(line) = handle_serial_data(chunk, &mut buf) {
            rebuilt.push_str(&line.as_chars().iter().collect::<String>());
            rebuilt.push('\n');
        }
    }
    rebuilt.push_str(&buf.as_chars().iter().collect::<String>());
    assert_eq!(rebuilt, "abc\nde\nf");
}

#[test]
fn trim_chars_strips_both_ends() {
    assert_eq!(trim_chars(&chars_of("  a b\t\r\n")), chars_of("a b"));
    assert_eq!(trim_chars(&chars_of("ab")), chars_of("ab"));
    assert_eq!(trim_chars(&chars_of(" \t\r\n ")), chars_of(""));
    assert_eq!(trim_chars(&chars_of("")), chars_of(""));
}
