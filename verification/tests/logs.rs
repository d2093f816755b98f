use ratlog::constants::{MAX_LINES, MAX_LINE_LEN, TAIL_READ_SIZE};
use ratlog::logs::{
    load_by_lines, load_from_tail, load_logs, mark_oversized, offset_after_n_newlines,
    parse_tail_lines, read_plan, sample_logs, LoadError, LogInput, ReadPlan,
};

fn numbered(prefix: &str, count: usize) -> Vec<String> {
    (0..count).map(|i| format!("{} {}", prefix, i)).collect()
}

fn joined(lines: &[String]) -> Vec<u8> {
    let mut bytes = Vec::new();
    for line in lines {
        bytes.extend_from_slice(line.as_bytes());
        bytes.push(b'\n');
    }
    bytes
}

#[test]
fn test_sample_logs_non_empty() {
    let logs = sample_logs();
    assert!(!logs.is_empty());
    assert!(logs.len() <= MAX_LINES);
    assert!(
        logs[0].contains("INFO")
            || logs[0].contains("DEBUG")
            || logs[0].contains("WARN")
            || logs[0].contains("ERROR")
    );
}

#[test]
fn sample_logs_are_the_fifteen_fixed_lines() {
    let logs = sample_logs();
    assert_eq!(logs.len(), 15);
    assert_eq!(logs[0], "2025-02-15T10:00:00Z INFO  Server started on 0.0.0.0:8080");
    assert_eq!(logs[7], "2025-02-15T10:00:20Z DEBUG Request GET /api/health completed in 2ms");
    assert_eq!(logs[14], "2025-02-15T10:00:50Z INFO  Backup job completed successfully");
}

#[test]
fn load_small_file_keeps_every_line() {
    let lines = numbered("entry", MAX_LINES);
    let (kept, offset, first) = load_by_lines(&joined(&lines));
    assert_eq!(kept, lines);
    assert_eq!(offset, 0);
    assert_eq!(first, 1);
}

#[test]
fn load_empty_file() {
    let (kept, offset, first) = load_by_lines(b"");
    assert!(kept.is_empty());
    assert_eq!(offset, 0);
    assert_eq!(first, 1);
}

#[test]
fn load_keeps_blank_lines_and_unterminated_last_line() {
    let (kept, offset, first) = load_by_lines(b"a\n\nb\n\nlast");
    assert_eq!(kept, vec!["a", "", "b", "", "last"]);
    assert_eq!(offset, 0);
    assert_eq!(first, 1);
}

#[test]
fn load_two_hundred_lines_keeps_last_hundred_and_fifty() {
    let lines = numbered("line", 200);
    let bytes = joined(&lines);
    let (kept, offset, first) = load_by_lines(&bytes);
    assert_eq!(kept.len(), 150);
    assert_eq!(first, 51);
    assert_eq!(kept[0], "line 50");
    assert_eq!(kept[149], "line 199");
    assert_eq!(kept, lines[50..].to_vec());
    // "line 0".."line 9" take 7 bytes each, "line 10".."line 49" take 8.
    assert_eq!(offset, 10 * 7 + 40 * 8);
    assert!(bytes[offset as usize..].starts_with(b"line 50\n"));
}

#[test]
fn load_one_line_over_the_cap() {
    let lines = numbered("l", MAX_LINES + 1);
    let (kept, offset, first) = load_by_lines(&joined(&lines));
    assert_eq!(kept.len(), MAX_LINES);
    assert_eq!(first, 2);
    assert_eq!(kept[0], "l 1");
    assert_eq!(offset, 4);
}

#[test]
fn load_counts_an_oversized_line_as_one_line() {
    let mut bytes = Vec::new();
    bytes.extend_from_slice(&vec![b'x'; 70000]);
    bytes.push(b'\n');
    let rest = numbered("r", MAX_LINES);
    bytes.extend_from_slice(&joined(&rest));
    let (kept, offset, first) = load_by_lines(&bytes);
    assert_eq!(kept, rest);
    assert_eq!(first, 2);
    assert_eq!(offset, 70001);
}

#[test]
fn load_keeps_an_oversized_line_cut_to_max_len() {
    let mut bytes = vec![b'x'; 70000];
    bytes.extend_from_slice(b"\nafter\n");
    let (kept, offset, first) = load_by_lines(&bytes);
    assert_eq!(kept.len(), 2);
    assert_eq!(kept[0].len(), MAX_LINE_LEN);
    assert_eq!(kept[1], "after");
    assert_eq!((offset, first), (0, 1));
}

#[test]
fn offsets_after_newlines() {
    let data = b"ab\ncd\n\nef";
    assert_eq!(offset_after_n_newlines(data, 0), 0);
    assert_eq!(offset_after_n_newlines(data, 1), 3);
    assert_eq!(offset_after_n_newlines(data, 2), 6);
    assert_eq!(offset_after_n_newlines(data, 3), 7);
    assert_eq!(offset_after_n_newlines(data, 4), 9);
    assert_eq!(offset_after_n_newlines(data, 100), 9);
    assert_eq!(offset_after_n_newlines(b"", 3), 0);
}

#[test]
fn tail_scan_drops_the_first_line_and_blank_lines() {
    let lines = parse_tail_lines(b"rtial\none\n\ntwo\n");
    assert_eq!(lines, vec!["one", "two"]);
}

#[test]
fn tail_scan_keeps_an_unterminated_last_line() {
    let lines = parse_tail_lines(b"x\none\ntwo");
    assert_eq!(lines, vec!["one", "two"]);
}

#[test]
fn tail_scan_drops_a_window_without_newline() {
    assert!(parse_tail_lines(b"no newline here").is_empty());
    assert!(parse_tail_lines(b"a").is_empty());
    assert!(parse_tail_lines(b"").is_empty());
    assert!(parse_tail_lines(b"only first line\n").is_empty());
    assert!(parse_tail_lines(&vec![b'x'; 70000]).is_empty());
}

#[test]
fn tail_load_of_a_window_inside_one_line_is_empty() {
    let (kept, offset, first) = load_from_tail(b"the middle of one long line", 3_000_000);
    assert!(kept.is_empty());
    assert_eq!((offset, first), (3_000_000, 1));
}

#[test]
fn tail_scan_keeps_the_last_max_lines() {
    let mut bytes = b"cut\n".to_vec();
    let lines = numbered("t", 400);
    bytes.extend_from_slice(&joined(&lines));
    let kept = parse_tail_lines(&bytes);
    assert_eq!(kept.len(), MAX_LINES);
    assert_eq!(kept, lines[250..].to_vec());
}

#[test]
fn tail_scan_replaces_invalid_utf8() {
    let lines = parse_tail_lines(b"skip\nbad \xff byte\n");
    assert_eq!(lines, vec!["bad \u{fffd} byte"]);
}

#[test]
fn tail_scan_marks_an_oversized_line() {
    let mut bytes = b"skip\n".to_vec();
    bytes.extend_from_slice(&vec![b'y'; 70000]);
    bytes.extend_from_slice(b"\nnext\n");
    let lines = parse_tail_lines(&bytes);
    assert_eq!(lines.len(), 2);
    assert_eq!(lines[0].len(), MAX_LINE_LEN + 3);
    assert!(lines[0].ends_with("y..."));
    assert!(lines[0][..MAX_LINE_LEN].bytes().all(|b| b == b'y'));
    assert_eq!(lines[1], "next");
}

#[test]
fn marking_leaves_short_lines_alone() {
    assert_eq!(mark_oversized(String::new()), "");
    assert_eq!(mark_oversized("short".to_string()), "short");
    let exact = "z".repeat(MAX_LINE_LEN);
    assert_eq!(mark_oversized(exact.clone()), exact);
}

#[test]
fn marking_cuts_at_max_len() {
    let long = "z".repeat(MAX_LINE_LEN + 1);
    let marked = mark_oversized(long);
    assert_eq!(marked, format!("{}...", "z".repeat(MAX_LINE_LEN)));
}

#[test]
fn marking_cuts_at_a_character_boundary() {
    // Three-byte characters: 65536 is not a multiple of 3, so the cut falls
    // back to 65535 bytes.
    let long = "日".repeat(30000);
    let marked = mark_oversized(long);
    assert_eq!(marked, format!("{}...", "日".repeat(21845)));
    assert_eq!(marked.len(), 65535 + 3);
    // Two-byte characters end exactly at the cap.
    let long = "é".repeat(40000);
    let marked = mark_oversized(long);
    assert_eq!(marked, format!("{}...", "é".repeat(32768)));
}

#[test]
fn tail_load_reports_line_one_and_the_file_size() {
    let (kept, offset, first) = load_from_tail(b"artial\nalpha\nbeta\n", 5_000_000);
    assert_eq!(kept, vec!["alpha", "beta"]);
    assert_eq!(offset, 5_000_000);
    assert_eq!(first, 1);
}

#[test]
fn tail_load_looks_at_no_more_than_the_tail_size() {
    let mut window = vec![b'a'; TAIL_READ_SIZE as usize - 4];
    window.extend_from_slice(b"\nin\nout\n");
    let (kept, offset, first) = load_from_tail(&window, 9_000_000);
    assert_eq!(kept, vec!["in"]);
    assert_eq!((offset, first), (9_000_000, 1));
}

#[test]
fn read_plan_by_size() {
    assert_eq!(matches!(read_plan(0), ReadPlan::Whole), true);
    assert!(matches!(read_plan(TAIL_READ_SIZE), ReadPlan::Whole));
    assert!(matches!(read_plan(TAIL_READ_SIZE + 1), ReadPlan::Tail { start: 1 }));
    assert!(matches!(read_plan(10_000_000), ReadPlan::Tail { start: 7_902_848 }));
}

#[test]
fn load_logs_without_a_file_gives_the_sample() {
    match load_logs(LogInput::Sample) {
        Ok((lines, path, offset, first)) => {
            assert_eq!(lines, sample_logs());
            assert_eq!(path, None);
            assert_eq!((offset, first), (0, 1));
        }
        Err(_) => panic!("the sample always loads"),
    }
}

#[test]
fn load_logs_names_a_missing_file() {
    match load_logs(LogInput::Missing { path: "/var/log/none.log".to_string() }) {
        Ok(_) => panic!("a missing file does not load"),
        Err(error) => {
            assert!(matches!(&error, LoadError::NotFound { path } if path == "/var/log/none.log"));
            assert_eq!(error.message(), "Log file not found: /var/log/none.log");
        }
    }
}

#[test]
fn load_logs_reads_a_small_file_line_by_line() {
    let lines = numbered("line", 200);
    let bytes = joined(&lines);
    let size = bytes.len() as u64;
    match load_logs(LogInput::File { path: "app.log".to_string(), size, bytes }) {
        Ok((kept, path, offset, first)) => {
            assert_eq!(kept, lines[50..].to_vec());
            assert_eq!(path.as_deref(), Some("app.log"));
            assert_eq!(offset, 390);
            assert_eq!(first, 51);
        }
        Err(_) => panic!("an existing file loads"),
    }
}

#[test]
fn load_logs_reads_a_large_file_from_its_tail() {
    let bytes = b"partial\nalpha\n\nbeta\n".to_vec();
    let size = TAIL_READ_SIZE + 1;
    match load_logs(LogInput::File { path: "big.log".to_string(), size, bytes }) {
        Ok((kept, path, offset, first)) => {
            assert_eq!(kept, vec!["alpha", "beta"]);
            assert_eq!(path.as_deref(), Some("big.log"));
            assert_eq!(offset, size);
            assert_eq!(first, 1);
        }
        Err(_) => panic!("an existing file loads"),
    }
}
