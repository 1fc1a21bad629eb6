use github_dashboard::hunks::{build_hunk_args, parse_diff_hunks};
use github_dashboard::model::DiffHunk;

const DIFF: &str = "diff --git a/f b/f\nindex 1..2 100644\n--- a/f\n+++ b/f\n@@ -1 +1 @@\n-old\n+new\n@@ -9,0 +10,2 @@ fn x\n+one\n+two\n";

#[test]
fn hunks_are_asked_for_without_context() {
    assert_eq!(
        build_hunk_args("-p", true),
        vec!["diff", "--cached", "-U0", "--color=never", "--", "-p"]
    );
    assert_eq!(
        build_hunk_args("src/x", false),
        vec!["diff", "-U0", "--color=never", "--", "src/x"]
    );
}

#[test]
fn each_hunk_is_a_patch_of_its_own() {
    let head = "diff --git a/f b/f\nindex 1..2 100644\n--- a/f\n+++ b/f\n";
    assert_eq!(
        parse_diff_hunks(DIFF, true),
        vec![
            DiffHunk {
                header: "@@ -1 +1 @@".to_string(),
                patch: format!("{head}@@ -1 +1 @@\n-old\n+new\n"),
                cached: true,
            },
            DiffHunk {
                header: "@@ -9,0 +10,2 @@ fn x".to_string(),
                patch: format!("{head}@@ -9,0 +10,2 @@ fn x\n+one\n+two\n"),
                cached: true,
            },
        ]
    );
}

#[test]
fn a_patch_holds_one_hunk_that_reads_back() {
    for hunk in parse_diff_hunks(DIFF, false) {
        assert_eq!(parse_diff_hunks(&hunk.patch, false), vec![hunk]);
    }
}

#[test]
fn a_diff_without_hunks_has_none() {
    assert!(parse_diff_hunks("", true).is_empty());
    assert!(parse_diff_hunks(" \n\t\n", true).is_empty());
    assert!(parse_diff_hunks("diff --git a/f b/f\nBinary files differ\n", true).is_empty());
}

#[test]
fn a_hunk_without_a_head_keeps_an_empty_line_before_it() {
    assert_eq!(
        parse_diff_hunks("@@ x\n+y", false),
        vec![DiffHunk {
            header: "@@ x".to_string(),
            patch: "\n@@ x\n+y\n".to_string(),
            cached: false,
        }]
    );
}
