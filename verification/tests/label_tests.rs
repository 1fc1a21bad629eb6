use github_dashboard::clock::Moment;
use github_dashboard::labels::{
    branch_label, change_summary, comment_label, commit_target_label, default_branch_label,
    diff_line_tone, file_overlay_title, file_row, header_labels, largest_total, pull_request_label,
    pull_request_tone, run_label, run_tone, selected_commit_label, selected_file_label,
    status_tone, trim_display_width, FileRow, Tone,
};
use github_dashboard::model::{
    Author, Comment, DashboardState, DiffHunk, FileChange, PullRequest, WorkflowRun,
};

fn at(millis: i64) -> Moment {
    Moment { millis, offset: 0 }
}

fn change(path: &str, status: &str, additions: u32, deletions: u32) -> FileChange {
    FileChange {
        path: path.to_string(),
        status: status.to_string(),
        additions,
        deletions,
    }
}

fn pull_request(state: &str) -> PullRequest {
    PullRequest {
        number: 12,
        title: "A title that is longer than thirty-six characters".to_string(),
        author: Author {
            login: "ada".to_string(),
        },
        state: state.to_string(),
        head_ref_name: "topic".to_string(),
    }
}

fn run(conclusion: Option<&str>) -> WorkflowRun {
    WorkflowRun {
        name: "build".to_string(),
        status: "completed".to_string(),
        conclusion: conclusion.map(str::to_string),
    }
}

#[test]
fn long_text_ends_in_an_ellipsis() {
    assert_eq!(trim_display_width("hello", 5), "hello");
    assert_eq!(trim_display_width("hello", 4), "hel…");
    assert_eq!(trim_display_width("hello", 2), "h…");
    assert_eq!(trim_display_width("hello", 1), "…");
    assert_eq!(trim_display_width("hello", 0), "…");
    assert_eq!(trim_display_width("", 0), "");
    assert_eq!(trim_display_width("äöüß", 3), "äö…");
    assert_eq!(trim_display_width("äöü", 3), "äöü");
    assert_eq!(trim_display_width(&trim_display_width("hello", 3), 3), "he…");
    assert_eq!(trim_display_width(&trim_display_width("hello", 4), 2), "h…");
    assert_eq!(trim_display_width(&trim_display_width("hello", 4), 0), "…");
}

#[test]
fn the_head_names_repository_branches_and_times() {
    let mut state = DashboardState::new(at(0));
    state.repo_name = "owner/straße".to_string();
    state.current_branch = "topic".to_string();
    state.default_branch = "main".to_string();
    state.last_local_refresh = at(3_723_999);
    state.last_remote_refresh = Moment {
        millis: 947_638_923_004,
        offset: -7_200,
    };
    let labels = header_labels(&state).unwrap();
    assert_eq!(labels.repo, "OWNER/STRASSE");
    assert_eq!(labels.branch, "Branch: topic");
    assert_eq!(labels.base, "Base: main");
    assert_eq!(labels.local, "Local: 01:02:03");
    assert_eq!(labels.remote, "GitHub: 23:02:03");
    assert_eq!(branch_label(&state), "Branch: topic");
    assert_eq!(default_branch_label(&state), "Last commit on MAIN");
    assert_eq!(commit_target_label(&state), "owner/straße/topic");
}

#[test]
fn a_time_outside_the_calendar_has_no_labels() {
    let mut state = DashboardState::new(at(0));
    state.last_remote_refresh = at(i64::MAX);
    assert!(header_labels(&state).is_none());
    state.last_remote_refresh = at(0);
    assert!(header_labels(&state).is_some());
}

#[test]
fn changed_files_are_counted_in_words() {
    let mut state = DashboardState::new(at(0));
    assert_eq!(change_summary(&state), "No changes");
    state.working_tree.push(change("a", "M", 0, 0));
    assert_eq!(change_summary(&state), "1 changed file");
    for _ in 0..11 {
        state.working_tree.push(change("b", "M", 0, 0));
    }
    assert_eq!(change_summary(&state), "12 changed files");
}

#[test]
fn each_status_has_its_tone() {
    for status in ["M", "MM", "AM", " T"] {
        assert_eq!(status_tone(status), Tone::Warning);
    }
    for status in ["A", "??"] {
        assert_eq!(status_tone(status), Tone::Good);
    }
    for status in ["D", "AD"] {
        assert_eq!(status_tone(status), Tone::Bad);
    }
    assert_eq!(status_tone("R"), Tone::Info);
    for status in ["", "T", "UU", "m", "M "] {
        assert_eq!(status_tone(status), Tone::Neutral);
    }
}

#[test]
fn the_largest_total_is_at_least_one() {
    assert_eq!(largest_total(&vec![]), Some(1));
    assert_eq!(largest_total(&vec![change("a", "M", 0, 0)]), Some(1));
    assert_eq!(
        largest_total(&vec![change("a", "M", 3, 4), change("b", "M", 5, 1)]),
        Some(7)
    );
    assert_eq!(largest_total(&vec![change("a", "M", u32::MAX, 0)]), Some(u32::MAX));
    assert_eq!(
        largest_total(&vec![change("b", "M", 1, 1), change("a", "M", u32::MAX, 1)]),
        None
    );
}

#[test]
fn a_row_shows_a_bar_of_eighteen_blocks() {
    let row = file_row(&change("src/a_path_that_is_too_long_to_show.rs", "M", 12, 3), 10, 8);
    assert_eq!(
        row,
        FileRow {
            status: " M".to_string(),
            tone: Tone::Warning,
            path: "src/a_path_that_is_too_long…".to_string(),
            added_bar: "████████".to_string(),
            deleted_bar: "██".to_string(),
            empty_bar: "░░░░░░░░".to_string(),
            counts: "+12 -3".to_string(),
        }
    );
    let full = file_row(&change("a", "A", 1, 0), 18, 30);
    assert_eq!(full.added_bar.chars().count(), 18);
    assert_eq!(full.deleted_bar, "");
    assert_eq!(full.empty_bar, "");
    let over = file_row(&change("a", "A", 1, 0), 19, 0);
    assert_eq!(over.deleted_bar.chars().count(), 19);
    assert_eq!(over.empty_bar, "");
    let none = file_row(&change("a", "A", 0, 0), 0, 0);
    assert_eq!(none.empty_bar.chars().count(), 18);
}

#[test]
fn pull_requests_have_a_line_and_a_tone() {
    assert_eq!(
        pull_request_label(&pull_request("OPEN")),
        "#12 A title that is longer than thirty-… [topic] by @ada"
    );
    assert_eq!(pull_request_tone(&pull_request("OPEN")), Tone::Good);
    assert_eq!(pull_request_tone(&pull_request("CLOSED")), Tone::Bad);
    assert_eq!(pull_request_tone(&pull_request("MERGED")), Tone::Merged);
    assert_eq!(pull_request_tone(&pull_request("DRAFT")), Tone::Warning);
}

#[test]
fn runs_have_a_line_and_a_tone() {
    assert_eq!(run_label(&run(None)), "build - completed");
    let mut long = run(None);
    long.name = "a workflow with quite a long name".to_string();
    assert_eq!(run_label(&long), "a workflow with quite a long na… - completed");
    assert_eq!(run_tone(&run(Some("success"))), Tone::Good);
    assert_eq!(run_tone(&run(Some("failure"))), Tone::Bad);
    assert_eq!(run_tone(&run(Some("cancelled"))), Tone::Warning);
    assert_eq!(run_tone(&run(None)), Tone::Warning);
}

#[test]
fn a_comment_is_shown_on_one_line() {
    let comment = Comment {
        body: "first\nsecond".to_string(),
        author: Author {
            login: "bob".to_string(),
        },
    };
    assert_eq!(comment_label(&comment), "@bob: first second");
    let long = Comment {
        body: "x".repeat(60),
        author: Author {
            login: "bob".to_string(),
        },
    };
    assert_eq!(comment_label(&long), format!("@bob: {}…", "x".repeat(51)));
}

#[test]
fn the_foot_names_what_is_selected() {
    let mut state = DashboardState::new(at(0));
    assert_eq!(selected_commit_label(&state), "Selected commit: none");
    assert_eq!(selected_file_label(&state), "Selected file: clean");
    state.git_graph = vec!["* abc1234 x".to_string()];
    state.working_tree = vec![change("src/x.rs", "M", 0, 0)];
    assert_eq!(selected_commit_label(&state), "Selected commit: abc1234");
    assert_eq!(selected_file_label(&state), "Selected file: src/x.rs");
}

#[test]
fn the_overlay_names_the_hunk() {
    let mut state = DashboardState::new(at(0));
    assert_eq!(file_overlay_title(&state), "File Diff");
    for header in ["@@ 1 @@", "@@ 2 @@"] {
        state.selected_file_hunks.push(DiffHunk {
            header: header.to_string(),
            patch: String::new(),
            cached: false,
        });
    }
    state.selected_hunk_index = 1;
    assert_eq!(file_overlay_title(&state), "File Diff | hunk 2/2 @@ 2 @@");
}

#[test]
fn lines_of_a_diff_have_tones() {
    for (line, tone) in [
        ("+added", Tone::Good),
        ("+++ b/f", Tone::Plain),
        ("++x", Tone::Good),
        ("-gone", Tone::Bad),
        ("--- a/f", Tone::Plain),
        ("@@ -1 +1 @@", Tone::Warning),
        ("diff --git a/f b/f", Tone::Info),
        ("index 1..2", Tone::Info),
        ("===== STAGED =====", Tone::Info),
        (" context", Tone::Plain),
        ("", Tone::Plain),
    ] {
        assert_eq!(diff_line_tone(line), tone, "{line}");
    }
}
