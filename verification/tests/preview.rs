use strictfix::diff::{diff_header, exec_diff, preview_lines, same_bytes, unified_hunk};
use strictfix::finding::StrictResult;
use strictfix::stamp::{civil_date, days_in_month, format_stamp, leap_year};

fn text(bytes: Vec<u8>) -> String {
    String::from_utf8(bytes).expect("text")
}

fn numbered(n: usize) -> Vec<String> {
    let mut lines: Vec<String> = Vec::new();
    for i in 1..=n {
        lines.push(format!("line {}\n", i));
    }
    lines
}

#[test]
fn same_bytes_compares_contents() {
    assert!(same_bytes(b"abc", b"abc"));
    assert!(same_bytes(b"", b""));
    assert!(!same_bytes(b"abc", b"abd"));
    assert!(!same_bytes(b"abc", b"ab"));
}

#[test]
fn hunk_in_the_middle_has_three_lines_of_context() {
    let lines = numbered(10);
    let out = text(unified_hunk(&lines, 5, b"changed\n"));
    assert_eq!(
        out,
        "@@ -2,7 +2,7 @@\n line 2\n line 3\n line 4\n-line 5\n+changed\n line 6\n line 7\n line 8\n"
    );
}

#[test]
fn hunk_at_the_start_has_no_context_before() {
    let lines = numbered(10);
    let out = text(unified_hunk(&lines, 1, b"changed\n"));
    assert_eq!(out, "@@ -1,4 +1,4 @@\n-line 1\n+changed\n line 2\n line 3\n line 4\n");
}

#[test]
fn hunk_at_the_end_stops_with_the_file() {
    let lines = numbered(5);
    let out = text(unified_hunk(&lines, 4, b"changed\n"));
    assert_eq!(out, "@@ -1,5 +1,5 @@\n line 1\n line 2\n line 3\n-line 4\n+changed\n line 5\n");
}

#[test]
fn hunk_of_a_single_line() {
    let lines: Vec<String> = vec!["only\n".to_string()];
    assert_eq!(text(unified_hunk(&lines, 1, b"other\n")), "@@ -1,1 +1,1 @@\n-only\n+other\n");
}

#[test]
fn hunk_notes_a_missing_line_feed() {
    let lines: Vec<String> = vec!["first\n".to_string(), "last".to_string()];
    assert_eq!(
        text(unified_hunk(&lines, 2, b"new")),
        "@@ -1,2 +1,2 @@\n first\n-last\n\\ No newline at end of file\n+new\n\\ No newline at end of file\n"
    );
    assert_eq!(
        text(unified_hunk(&lines, 1, b"1st\n")),
        "@@ -1,2 +1,2 @@\n-first\n+1st\n last\n\\ No newline at end of file\n"
    );
}

#[test]
fn no_hunk_without_a_change() {
    let lines = numbered(3);
    assert!(unified_hunk(&lines, 2, b"line 2\n").is_empty());
    assert!(unified_hunk(&lines, 0, b"x\n").is_empty());
    assert!(unified_hunk(&lines, 4, b"x\n").is_empty());
}

#[test]
fn preview_shows_the_rewritten_line() {
    let lines: Vec<String> = vec!["fn f() {\n".to_string(), "    a.unwrap();\n".to_string(), "}\n".to_string()];
    assert_eq!(
        text(preview_lines(&lines, 2, "ff")),
        "@@ -1,3 +1,3 @@\n fn f() {\n-    a.unwrap();\n+    a.expect(\"error-id:ff\");\n }\n"
    );
    assert!(preview_lines(&lines, 1, "ff").is_empty());
    assert!(preview_lines(&lines, 9, "ff").is_empty());
}

#[test]
fn diff_carries_the_identifier_and_leaves_the_lines() {
    let lines: Vec<String> = vec!["let x = a.unwrap();".to_string()];
    let kept = lines.clone();
    let f = StrictResult::new("a.rs", 1, 9, "let x = a.unwrap();");
    assert_eq!(
        text(exec_diff(&f, &lines)),
        "@@ -1,1 +1,1 @@\n-let x = a.unwrap();\n\\ No newline at end of file\n+let x = a.expect(\"error-id:2d6d09ac2fee3d9d1d0a67cff7742e84\");\n\\ No newline at end of file\n"
    );
    assert_eq!(lines, kept);
}

#[test]
fn header_names_both_files() {
    assert_eq!(
        text(diff_header("a.rs", "2024-01-02 03:04:05", "a.rs.strictfix", "2024-01-02 03:04:06")),
        "--- a.rs\t2024-01-02 03:04:05\n+++ a.rs.strictfix\t2024-01-02 03:04:06\n"
    );
}

#[test]
fn leap_years() {
    assert!(leap_year(2000));
    assert!(leap_year(2024));
    assert!(!leap_year(1900));
    assert!(!leap_year(2023));
    assert_eq!(days_in_month(2024, 2), 29);
    assert_eq!(days_in_month(2023, 2), 28);
    assert_eq!(days_in_month(2023, 4), 30);
    assert_eq!(days_in_month(2023, 12), 31);
}

#[test]
fn dates_from_day_counts() {
    let first = civil_date(0);
    assert_eq!((first.year, first.month, first.day), (1970, 1, 1));
    let end_of_year = civil_date(364);
    assert_eq!((end_of_year.year, end_of_year.month, end_of_year.day), (1970, 12, 31));
    let next = civil_date(365);
    assert_eq!((next.year, next.month, next.day), (1971, 1, 1));
    let leap_day = civil_date(19782);
    assert_eq!((leap_day.year, leap_day.month, leap_day.day), (2024, 2, 29));
    let after = civil_date(19783);
    assert_eq!((after.year, after.month, after.day), (2024, 3, 1));
}

#[test]
fn stamps_are_padded() {
    assert_eq!(text(format_stamp(0)), "1970-01-01 00:00:00");
    assert_eq!(text(format_stamp(1709251199)), "2024-02-29 23:59:59");
    assert_eq!(text(format_stamp(1709251200)), "2024-03-01 00:00:00");
    assert_eq!(text(format_stamp(951782400 + 3661)), "2000-02-29 01:01:01");
}

#[test]
fn modes_exclude_each_other() {
    assert_eq!(strictfix::output::select_mode(false, false), Some(strictfix::output::Mode::Report));
    assert_eq!(strictfix::output::select_mode(true, false), Some(strictfix::output::Mode::Fix));
    assert_eq!(strictfix::output::select_mode(false, true), Some(strictfix::output::Mode::Diff));
    assert_eq!(strictfix::output::select_mode(true, true), None);
}

#[test]
fn scratch_file_stands_beside_the_file() {
    assert_eq!(strictfix::output::scratch_name("src/a.rs"), "src/a.rs.strictfix");
    assert_eq!(strictfix::output::scratch_name(""), ".strictfix");
}
