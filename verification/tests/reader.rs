use ratlog::constants::MAX_LINE_LEN;
use ratlog::reader::{read_line_bounded, ByteReader};

fn read_all(data: &[u8], window: usize) -> (Vec<String>, Vec<usize>) {
    let mut reader = ByteReader::with_window(data, window);
    let mut lines = Vec::new();
    let mut positions = Vec::new();
    while let Some(line) = read_line_bounded(&mut reader) {
        lines.push(line);
        positions.push(reader.position());
    }
    assert_eq!(read_line_bounded(&mut reader), None);
    (lines, positions)
}

#[test]
fn reader_empty_stream_has_no_line() {
    let mut reader = ByteReader::new(b"");
    assert_eq!(read_line_bounded(&mut reader), None);
    assert_eq!(reader.position(), 0);
}

#[test]
fn reader_single_newline_is_one_empty_line() {
    let (lines, positions) = read_all(b"\n", 8192);
    assert_eq!(lines, vec![String::new()]);
    assert_eq!(positions, vec![1]);
}

#[test]
fn reader_splits_at_newlines() {
    let (lines, positions) = read_all(b"alpha\nbeta\n\ngamma\n", 8192);
    assert_eq!(lines, vec!["alpha", "beta", "", "gamma"]);
    assert_eq!(positions, vec![6, 11, 12, 18]);
}

#[test]
fn reader_last_line_without_newline() {
    let (lines, positions) = read_all(b"alpha\nbeta", 8192);
    assert_eq!(lines, vec!["alpha", "beta"]);
    assert_eq!(positions, vec![6, 10]);
}

#[test]
fn reader_keeps_carriage_returns() {
    let (lines, _) = read_all(b"alpha\r\nbeta\r\n", 8192);
    assert_eq!(lines, vec!["alpha\r", "beta\r"]);
}

#[test]
fn reader_result_does_not_depend_on_window() {
    let data = b"first line\n\nsecond\nthird without end";
    let expected = read_all(data, 8192);
    for window in 1..=40 {
        assert_eq!(read_all(data, window), expected, "window {}", window);
    }
}

#[test]
fn reader_replaces_invalid_utf8() {
    let (lines, positions) = read_all(b"ok\n\xff\xfebad\ncaf\xc3\xa9\n", 8192);
    assert_eq!(lines, vec!["ok", "\u{fffd}\u{fffd}bad", "café"]);
    assert_eq!(positions, vec![3, 9, 15]);
}

#[test]
fn reader_oversized_line_is_one_line_of_max_len() {
    let mut data = vec![b'a'; 70000];
    data.push(b'\n');
    data.extend_from_slice(b"next\n");
    for window in [1usize, 4096, 8192, 65536, 65537, 100000] {
        let (lines, positions) = read_all(&data, window);
        assert_eq!(lines.len(), 2, "window {}", window);
        assert_eq!(lines[0].len(), MAX_LINE_LEN);
        assert!(lines[0].bytes().all(|b| b == b'a'));
        assert_eq!(lines[1], "next");
        assert_eq!(positions, vec![70001, 70006]);
    }
}

#[test]
fn reader_oversized_line_at_end_of_stream() {
    let data = vec![b'z'; 70000];
    let (lines, positions) = read_all(&data, 8192);
    assert_eq!(lines.len(), 1);
    assert_eq!(lines[0].len(), MAX_LINE_LEN);
    assert_eq!(positions, vec![70000]);
}

#[test]
fn reader_line_of_exactly_max_len_is_kept_whole() {
    let mut data = vec![b'b'; MAX_LINE_LEN];
    data.push(b'\n');
    data.extend_from_slice(b"tail");
    for window in [1usize, 8192, MAX_LINE_LEN, MAX_LINE_LEN + 1, MAX_LINE_LEN + 2] {
        let (lines, positions) = read_all(&data, window);
        assert_eq!(lines.len(), 2, "window {}", window);
        assert_eq!(lines[0].len(), MAX_LINE_LEN);
        assert_eq!(lines[1], "tail");
        assert_eq!(positions, vec![MAX_LINE_LEN + 1, MAX_LINE_LEN + 5]);
    }
}

#[test]
fn reader_line_one_byte_over_max_len_is_cut() {
    let mut data = vec![b'c'; MAX_LINE_LEN + 1];
    data.push(b'\n');
    data.extend_from_slice(b"tail\n");
    for window in [1usize, 8192, MAX_LINE_LEN, MAX_LINE_LEN + 1, MAX_LINE_LEN + 2] {
        let (lines, positions) = read_all(&data, window);
        assert_eq!(lines.len(), 2, "window {}", window);
        assert_eq!(lines[0].len(), MAX_LINE_LEN);
        assert_eq!(lines[1], "tail");
        assert_eq!(positions, vec![MAX_LINE_LEN + 2, MAX_LINE_LEN + 7]);
    }
}

#[test]
fn reader_cut_inside_a_character_decodes_lossily() {
    // 65535 ASCII bytes, then a two-byte character that straddles the cap.
    let mut data = vec![b'a'; MAX_LINE_LEN - 1];
    data.extend_from_slice("é".as_bytes());
    data.extend_from_slice(b"rest\nnext");
    let (lines, _) = read_all(&data, 8192);
    assert_eq!(lines.len(), 2);
    assert!(lines[0].ends_with('\u{fffd}'));
    assert_eq!(lines[0].chars().count(), MAX_LINE_LEN);
    assert_eq!(lines[1], "next");
}

#[test]
fn byte_reader_windows_and_positions() {
    let data = b"abcdefghij";
    let mut reader = ByteReader::with_window(data, 4);
    assert_eq!(reader.position(), 0);
    assert_eq!(reader.fill_buf(), b"abcd");
    reader.consume(3);
    assert_eq!(reader.position(), 3);
    assert_eq!(reader.fill_buf(), b"defg");
    reader.consume(4);
    assert_eq!(reader.fill_buf(), b"hij");
    reader.consume(3);
    assert_eq!(reader.fill_buf(), b"");
    assert_eq!(reader.position(), 10);
}
