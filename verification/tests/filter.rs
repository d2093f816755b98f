use ratlog::constants::MAX_LINES;
use ratlog::filter::apply_filter;

fn strings(items: &[&str]) -> Vec<String> {
    items.iter().map(|s| s.to_string()).collect()
}

#[test]
fn test_apply_filter_empty_query_returns_all() {
    let lines: Vec<String> = vec!["a".into(), "b".into(), "c".into()];
    let out = apply_filter(&lines, "", 10);
    assert_eq!(out.len(), 3);
    assert_eq!(out[0], (0, "a".to_string()));
    assert_eq!(out[1], (1, "b".to_string()));
    assert_eq!(out[2], (2, "c".to_string()));
}

#[test]
fn test_apply_filter_matching_case_insensitive() {
    let lines: Vec<String> = vec!["INFO foo".into(), "ERROR bar".into(), "info baz".into()];
    let out = apply_filter(&lines, "info", 10);
    assert_eq!(out.len(), 2);
    assert_eq!(out[0], (0, "INFO foo".to_string()));
    assert_eq!(out[1], (2, "info baz".to_string()));
}

#[test]
fn test_apply_filter_cap_max_lines() {
    let lines: Vec<String> = (0..20).map(|i| format!("x {}", i)).collect();
    let out = apply_filter(&lines, "x", 5);
    assert_eq!(out.len(), 5);
    assert_eq!(out[0].1, "x 15");
    assert_eq!(out[4].1, "x 19");
}

#[test]
fn filter_cap_keeps_indices_of_the_most_recent_matches() {
    let lines: Vec<String> = (0..20).map(|i| format!("x {}", i)).collect();
    let out = apply_filter(&lines, "x", 5);
    let expected: Vec<(usize, String)> = (15..20).map(|i| (i, format!("x {}", i))).collect();
    assert_eq!(out, expected);
}

#[test]
fn filter_query_is_lowercased_before_matching() {
    let lines = strings(&["info one", "Info two", "warn three"]);
    let out = apply_filter(&lines, "INFO", 10);
    assert_eq!(out, vec![(0, "info one".to_string()), (1, "Info two".to_string())]);
}

#[test]
fn filter_query_is_trimmed_before_matching() {
    let lines = strings(&["alpha", "beta", "alphabet"]);
    let out = apply_filter(&lines, "  alpha \t", 10);
    assert_eq!(out, vec![(0, "alpha".to_string()), (2, "alphabet".to_string())]);
}

#[test]
fn filter_whitespace_only_query_returns_all() {
    let lines = strings(&["alpha", "", "gamma"]);
    let out = apply_filter(&lines, " \t ", 10);
    assert_eq!(
        out,
        vec![(0, "alpha".to_string()), (1, "".to_string()), (2, "gamma".to_string())]
    );
}

#[test]
fn filter_without_match_is_empty() {
    let lines = strings(&["alpha", "beta"]);
    assert!(apply_filter(&lines, "zeta", 10).is_empty());
}

#[test]
fn filter_inner_whitespace_is_kept() {
    let lines = strings(&["a b", "ab"]);
    let out = apply_filter(&lines, "a b", 10);
    assert_eq!(out, vec![(0, "a b".to_string())]);
}

#[test]
fn filter_zero_cap_returns_nothing() {
    let lines = strings(&["alpha", "beta"]);
    assert!(apply_filter(&lines, "", 0).is_empty());
    assert!(apply_filter(&lines, "a", 0).is_empty());
}

#[test]
fn filter_empty_query_is_capped_to_most_recent() {
    let lines: Vec<String> = (0..200).map(|i| format!("line {}", i)).collect();
    let out = apply_filter(&lines, "", MAX_LINES);
    assert_eq!(out.len(), MAX_LINES);
    assert_eq!(out[0], (50, "line 50".to_string()));
    assert_eq!(out[MAX_LINES - 1], (199, "line 199".to_string()));
}

#[test]
fn filter_matches_non_ascii_case_insensitively() {
    let lines = strings(&["ÄRGER im Log", "alles gut"]);
    let out = apply_filter(&lines, "ärger", 10);
    assert_eq!(out, vec![(0, "ÄRGER im Log".to_string())]);
}

#[test]
fn filter_on_empty_buffer_is_empty() {
    let lines: Vec<String> = Vec::new();
    assert!(apply_filter(&lines, "", 10).is_empty());
    assert!(apply_filter(&lines, "x", 10).is_empty());
}
