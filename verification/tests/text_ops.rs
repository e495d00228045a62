//! The text operations: trimming, substring search, placeholder
//! replacement, joining and line splitting.

use commit_generator::text::contains_str;
use commit_generator::text::join_lines;
use commit_generator::text::replace;
use commit_generator::text::split_lines;
use commit_generator::text::trim;

#[test]
fn trim_removes_both_ends() {
    assert_eq!(trim("  hi\t\n"), "hi");
    assert_eq!(trim("\r\n feat: x \r\n"), "feat: x");
    assert_eq!(trim("no-edges"), "no-edges");
}

#[test]
fn trim_handles_unicode_whitespace() {
    assert_eq!(trim("\u{00A0}\u{2003}feat: x\u{3000}"), "feat: x");
}

#[test]
fn trim_keeps_inner_whitespace() {
    assert_eq!(trim("  a  b  "), "a  b");
}

#[test]
fn trim_of_blank_text_is_empty() {
    assert_eq!(trim(""), "");
    assert_eq!(trim(" \t\r\n"), "");
}

#[test]
fn contains_finds_runs() {
    assert!(contains_str("model xyz not found", "model"));
    assert!(contains_str("model xyz not found", "not found"));
    assert!(!contains_str("model xyz", "not found"));
    assert!(contains_str("anything", ""));
    assert!(!contains_str("", "a"));
}

#[test]
fn replace_substitutes_every_occurrence() {
    assert_eq!(replace("a{}b{}c", "{}", "X"), "aXbXc");
    assert_eq!(replace("no placeholder", "{}", "X"), "no placeholder");
    assert_eq!(replace("{{}}", "{}", "X"), "{X}");
    assert_eq!(replace("{}", "{}", "a\nb"), "a\nb");
}

#[test]
fn join_inserts_newlines_between_parts() {
    assert_eq!(join_lines(&vec![String::from("a"), String::from("b")]), "a\nb");
    assert_eq!(join_lines(&vec![String::from("a")]), "a");
    assert_eq!(join_lines(&Vec::new()), "");
}

#[test]
fn split_lines_matches_line_semantics() {
    assert_eq!(split_lines("a\nb\n"), vec!["a", "b"]);
    assert_eq!(split_lines("a\r\nb"), vec!["a", "b"]);
    assert_eq!(split_lines("a"), vec!["a"]);
    assert_eq!(split_lines("\n"), vec![""]);
    assert_eq!(split_lines(""), Vec::<String>::new());
}

#[test]
fn split_lines_keeps_a_bare_trailing_carriage_return() {
    assert_eq!(split_lines("a\r"), vec!["a\r"]);
    assert_eq!(split_lines("a\r\n"), vec!["a"]);
    assert_eq!(split_lines("a\rb"), vec!["a\rb"]);
    assert_eq!(split_lines("a\r\nb\r"), vec!["a", "b\r"]);
}

#[test]
fn split_then_join_round_trips_plain_lines() {
    let raw = "diff --git a/feat.ts b/feat.ts\n+export {};\n";
    let lines = split_lines(raw);
    assert_eq!(join_lines(&lines), "diff --git a/feat.ts b/feat.ts\n+export {};");
}
