use git_prompt::status::{GitFileInfo, GitInfo, parse, parse_text};

fn parse_lines(lines: &[&str]) -> GitInfo {
    let owned: Vec<String> = lines.iter().map(|l| l.to_string()).collect();
    parse(&owned)
}

fn assert_zero(info: &GitInfo) {
    assert_eq!(info.staged.modified, 0);
    assert_eq!(info.staged.added, 0);
    assert_eq!(info.staged.deleted, 0);
    assert_eq!(info.staged.copied, 0);
    assert_eq!(info.unstaged.modified, 0);
    assert_eq!(info.unstaged.added, 0);
    assert_eq!(info.unstaged.deleted, 0);
    assert_eq!(info.unstaged.copied, 0);
    assert_eq!(info.unmerged, 0);
    assert_eq!(info.untracked, 0);
    assert_eq!(info.ahead, 0);
    assert_eq!(info.behind, 0);
    assert_eq!(info.oid, "");
    assert_eq!(info.head, "");
    assert_eq!(info.upstream, "");
    assert!(!info.failed);
}

#[test]
fn empty_report_is_zero() {
    let info = parse_lines(&[]);
    assert_zero(&info);
}

#[test]
fn unrecognized_lines_are_ignored() {
    let info = parse_lines(&["", "   ", "zzz abc def", "x", "\t"]);
    assert_zero(&info);
}

#[test]
fn change_record_mm_counts_both_sides() {
    let info = parse_lines(&["1 MM N... 100644 100644 100644 0123 4567 file.txt"]);
    assert_eq!(info.staged.modified, 1);
    assert_eq!(info.unstaged.modified, 1);
    assert_eq!(info.staged.added, 0);
    assert_eq!(info.unstaged.added, 0);
    assert!(!info.failed);
}

#[test]
fn change_record_codes_map_per_side() {
    let info = parse_lines(&["1 AD x", "2 RC y", "1 .M z"]);
    assert_eq!(info.staged.added, 1);
    assert_eq!(info.unstaged.deleted, 1);
    assert_eq!(info.staged.copied, 1);
    assert_eq!(info.unstaged.copied, 1);
    assert_eq!(info.unstaged.modified, 1);
    assert_eq!(info.staged.modified, 0);
}

#[test]
fn unmerged_and_untracked_count() {
    let info = parse_lines(&["u UU x", "? a", "? b", "? c"]);
    assert_eq!(info.unmerged, 1);
    assert_eq!(info.untracked, 3);
}

#[test]
fn permutation_gives_same_counts() {
    let a = parse_lines(&["1 MM x", "? a", "u q", "2 AD y", "? b"]);
    let b = parse_lines(&["? b", "2 AD y", "u q", "? a", "1 MM x"]);
    assert_eq!(a.staged.modified, b.staged.modified);
    assert_eq!(a.staged.added, b.staged.added);
    assert_eq!(a.staged.deleted, b.staged.deleted);
    assert_eq!(a.staged.copied, b.staged.copied);
    assert_eq!(a.unstaged.modified, b.unstaged.modified);
    assert_eq!(a.unstaged.added, b.unstaged.added);
    assert_eq!(a.unstaged.deleted, b.unstaged.deleted);
    assert_eq!(a.unstaged.copied, b.unstaged.copied);
    assert_eq!(a.unmerged, b.unmerged);
    assert_eq!(a.untracked, b.untracked);
}

#[test]
fn branch_headers_set_names() {
    let info = parse_lines(&[
        "# branch.oid abcdef1234567890",
        "# branch.head main",
        "# branch.upstream origin/main",
    ]);
    assert_eq!(info.oid, "abcdef1234567890");
    assert_eq!(info.head, "main");
    assert_eq!(info.upstream, "origin/main");
    assert!(!info.failed);
}

#[test]
fn repeated_header_last_write_wins() {
    let info = parse_lines(&["# branch.head one", "# branch.head two"]);
    assert_eq!(info.head, "two");
}

#[test]
fn ahead_behind_parsed() {
    let info = parse_lines(&["# branch.ab +3 -1"]);
    assert_eq!(info.ahead, 3);
    assert_eq!(info.behind, 1);
    assert!(!info.failed);
}

#[test]
fn ahead_behind_zero() {
    let info = parse_lines(&["# branch.ab +0 -0"]);
    assert_eq!(info.ahead, 0);
    assert_eq!(info.behind, 0);
    assert!(!info.failed);
}

#[test]
fn unknown_header_is_ignored() {
    let info = parse_lines(&["# branch.something else"]);
    assert_zero(&info);
}

#[test]
fn failure_sentinel_sets_failed() {
    let info = parse_lines(&["fatal: not a git repository"]);
    assert!(info.failed);
}

#[test]
fn malformed_ahead_behind_sets_failed() {
    assert!(parse_lines(&["# branch.ab 3 -1"]).failed);
    assert!(parse_lines(&["# branch.ab +3 1"]).failed);
    assert!(parse_lines(&["# branch.ab +x -1"]).failed);
    assert!(parse_lines(&["# branch.ab +3"]).failed);
    assert!(parse_lines(&["# branch.ab"]).failed);
    assert!(parse_lines(&["# branch.ab +-3 -0"]).failed);
}

#[test]
fn ahead_behind_leading_zeros() {
    let info = parse_lines(&["# branch.ab +003 -010"]);
    assert_eq!(info.ahead, 3);
    assert_eq!(info.behind, 10);
    assert!(!info.failed);
}

#[test]
fn malformed_change_record_sets_failed() {
    assert!(parse_lines(&["1"]).failed);
    assert!(parse_lines(&["2 M"]).failed);
}

#[test]
fn malformed_header_sets_failed() {
    assert!(parse_lines(&["#"]).failed);
    assert!(parse_lines(&["# branch.oid"]).failed);
    assert!(parse_lines(&["# branch.head"]).failed);
    assert!(parse_lines(&["# branch.upstream"]).failed);
}

#[test]
fn large_ahead_count_parsed() {
    let info = parse_lines(&["# branch.ab +18446744073709551615 -0"]);
    assert_eq!(info.ahead, u64::MAX);
    assert!(!info.failed);
}

#[test]
fn oversized_ahead_count_sets_failed() {
    assert!(parse_lines(&["# branch.ab +18446744073709551616 -0"]).failed);
}

#[test]
fn parse_text_splits_lines() {
    let info = parse_text("# branch.head main\n1 MM x\n? y\n");
    assert_eq!(info.head, "main");
    assert_eq!(info.staged.modified, 1);
    assert_eq!(info.unstaged.modified, 1);
    assert_eq!(info.untracked, 1);
}

#[test]
fn parse_text_handles_crlf() {
    let info = parse_text("# branch.head main\r\n? y\r\n");
    assert_eq!(info.head, "main");
    assert_eq!(info.untracked, 1);
}

#[test]
fn parse_text_last_line_without_newline() {
    let info = parse_text("? y");
    assert_eq!(info.untracked, 1);
}

#[test]
fn git_file_info_add_maps_characters() {
    let counts = GitFileInfo::default()
        .add(&'M')
        .add(&'A')
        .add(&'A')
        .add(&'D')
        .add(&'R')
        .add(&'C')
        .add(&'.')
        .add(&'x');
    assert_eq!(counts.modified, 1);
    assert_eq!(counts.added, 2);
    assert_eq!(counts.deleted, 1);
    assert_eq!(counts.copied, 2);
}

#[test]
fn git_info_add_folds_one_line() {
    let info = GitInfo::default().add("? something");
    assert_eq!(info.untracked, 1);
    let info = info.add("u UU both.txt");
    assert_eq!(info.unmerged, 1);
    assert_eq!(info.untracked, 1);
}

#[test]
fn tabs_separate_tokens_too() {
    let info = parse_lines(&["1\tMM\tx"]);
    assert_eq!(info.staged.modified, 1);
    assert_eq!(info.unstaged.modified, 1);
}
