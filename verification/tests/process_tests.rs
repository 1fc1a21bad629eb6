use github_dashboard::process::{
    detect_default_branch, git_dir, git_output, patch_outcome, reply_of_texts, run_git,
};

#[test]
fn output_is_passed_on_as_text() {
    assert_eq!(git_output(true, b"out\n", b"warning"), Ok("out\n".to_string()));
    assert_eq!(git_output(true, b"a\xffb", b""), Ok("a\u{fffd}b".to_string()));
    assert_eq!(git_output(true, "é".as_bytes(), b""), Ok("é".to_string()));
}

#[test]
fn a_failure_says_what_was_printed() {
    assert_eq!(git_output(false, b"out", b" fatal: x\n"), Err("fatal: x".to_string()));
    assert_eq!(git_output(false, b" out\n", b" \n"), Err("out".to_string()));
    assert_eq!(git_output(false, b"", b""), Err(String::new()));
    assert_eq!(git_output(false, b"", b"\xff"), Err("\u{fffd}".to_string()));
    assert_eq!(
        reply_of_texts(false, "o".to_string(), "e".to_string()),
        Err("e".to_string())
    );
    assert_eq!(
        reply_of_texts(true, "o".to_string(), "e".to_string()),
        Ok("o".to_string())
    );
}

#[test]
fn output_is_dropped_where_only_the_effect_counts() {
    assert_eq!(run_git(Ok("out".to_string())), Ok(()));
    assert_eq!(run_git(Err("no".to_string())), Err("no".to_string()));
}

#[test]
fn a_patch_that_fails_says_why() {
    assert_eq!(patch_outcome(true, b"ignored"), Ok(()));
    assert_eq!(
        patch_outcome(false, b"error: patch failed\n"),
        Err("error: patch failed".to_string())
    );
}

#[test]
fn the_directory_of_the_repository_is_trimmed() {
    assert_eq!(git_dir(true, b".git\n"), Some(".git".to_string()));
    assert_eq!(git_dir(false, b".git\n"), None);
}

#[test]
fn the_default_branch_is_the_head_of_the_remote() {
    assert_eq!(
        detect_default_branch(Some("refs/remotes/origin/trunk\n"), true, true),
        Some("trunk".to_string())
    );
    assert_eq!(detect_default_branch(Some("\n"), true, true), Some(String::new()));
    assert_eq!(detect_default_branch(Some("dev"), false, false), Some("dev".to_string()));
}

#[test]
fn without_a_head_the_usual_branches_are_tried() {
    assert_eq!(detect_default_branch(None, true, true), Some("main".to_string()));
    assert_eq!(detect_default_branch(None, false, true), Some("master".to_string()));
    assert_eq!(detect_default_branch(None, false, false), None);
}
