use github_dashboard::clock::Moment;
use github_dashboard::commands::Command;
use github_dashboard::file_diff::begin_file_diff;
use github_dashboard::jobs::{
    can_start, commit_all_changes, load_selected_commit_show, push_current_branch,
    revert_selected_file, revert_selected_hunk, selected_commit_url, start, Next, Reply, Request,
};
use github_dashboard::local_refresh::{begin_local_refresh, LocalNext, LocalRefresh};
use github_dashboard::model::{
    Author, Comment, DashboardState, DiffHunk, FileChange, PullRequest, WorkflowRun,
};
use github_dashboard::remote_refresh::{
    begin_remote_refresh, RemoteNext, RemoteRefresh, RemoteReply,
};

fn at(millis: i64) -> Moment {
    Moment { millis, offset: 0 }
}

fn ok(output: &str) -> Reply {
    Reply::Git(Ok(output.to_string()))
}

fn err(message: &str) -> Reply {
    Reply::Git(Err(message.to_string()))
}

fn done() -> Next {
    Next::Done {
        remote_refreshed: false,
    }
}

fn git(args: &[&str]) -> Request {
    Request::Git(args.iter().map(|a| a.to_string()).collect())
}

/// Asks for the command, checks each request and hands back its reply.
fn play(
    command: Command,
    state: &mut DashboardState,
    millis: i64,
    script: Vec<(Option<Request>, Reply)>,
) -> Next {
    let now = at(millis);
    assert!(can_start(command, state));
    let mut next = start(command, state, now);
    for (request, reply) in script {
        match next {
            Next::Wait(job) => {
                if let Some(expected) = request {
                    assert_eq!(job.request(state), expected);
                }
                assert!(job.accepts(&reply));
                next = job.step(state, reply, now);
            }
            Next::Done { .. } => panic!("done before {request:?}"),
        }
    }
    next
}

/// The answers of a small repository to a refresh of the local data.
fn repository() -> Vec<(Option<Request>, Reply)> {
    vec![
        (
            Some(git(&["remote", "get-url", "origin"])),
            ok("git@github.com:ada/engine.git\n"),
        ),
        (Some(git(&["branch", "--show-current"])), ok("topic\n")),
        (
            Some(git(&["symbolic-ref", "refs/remotes/origin/HEAD"])),
            ok("refs/remotes/origin/trunk\n"),
        ),
        (
            Some(git(&["log", "trunk", "-1", "--format=%h | %s | %an | %ar"])),
            ok("abc1234 | x | ada | now\n"),
        ),
        (
            Some(git(&[
                "log",
                "--all",
                "--graph",
                "--decorate",
                "--oneline",
                "--color=never",
                "-24",
            ])),
            ok("* abc1234 (HEAD -> topic) x\n* abc1235 y\n"),
        ),
        (Some(git(&["status", "--short"])), ok(" M f\n?? n\n")),
        (Some(git(&["diff", "--numstat"])), ok("1\t2\tf\n")),
        (Some(git(&["diff", "--cached", "--numstat"])), ok("3\t0\tf\n")),
    ]
}

fn file(path: &str, status: &str, additions: u32, deletions: u32) -> FileChange {
    FileChange {
        path: path.to_string(),
        status: status.to_string(),
        additions,
        deletions,
    }
}

fn with_file(status: &str) -> DashboardState {
    let mut state = DashboardState::new(at(0));
    state.working_tree = vec![file("-f", status, 4, 2)];
    state
}

fn shown(state: &DashboardState) {
    assert_eq!(state.repo_name, "ada/engine");
    assert_eq!(state.current_branch, "topic");
    assert_eq!(state.default_branch, "trunk");
    assert_eq!(state.last_commit_main, "abc1234 | x | ada | now");
    assert_eq!(state.git_graph, vec!["* abc1234 (HEAD -> topic) x", "* abc1235 y"]);
    assert_eq!(state.working_tree, vec![file("f", "M", 4, 2), file("n", "??", 0, 0)]);
}

fn remote_answers() -> Vec<(Option<Request>, Reply)> {
    let author = || Author {
        login: "ada".to_string(),
    };
    vec![
        (
            Some(Request::Gh(
                RemoteRefresh::PullRequests,
                vec![
                    "pr".to_string(),
                    "list".to_string(),
                    "--limit".to_string(),
                    "5".to_string(),
                    "--json".to_string(),
                    "number,title,author,state,headRefName".to_string(),
                ],
            )),
            Reply::Gh(RemoteReply::PullRequests(vec![PullRequest {
                number: 1,
                title: "t".to_string(),
                author: author(),
                state: "OPEN".to_string(),
                head_ref_name: "b".to_string(),
            }])),
        ),
        (
            Some(Request::Gh(
                RemoteRefresh::WorkflowRuns,
                vec![
                    "run".to_string(),
                    "list".to_string(),
                    "--limit".to_string(),
                    "5".to_string(),
                    "--json".to_string(),
                    "name,status,conclusion".to_string(),
                ],
            )),
            Reply::Gh(RemoteReply::WorkflowRuns(vec![WorkflowRun {
                name: "ci".to_string(),
                status: "queued".to_string(),
                conclusion: None,
            }])),
        ),
        (
            Some(Request::Gh(
                RemoteRefresh::Comments,
                vec![
                    "api".to_string(),
                    "repos/{owner}/{repo}/issues/comments".to_string(),
                    "-q".to_string(),
                    ".[:5] | map({body: .body[:100], author: {login: .user.login}})".to_string(),
                ],
            )),
            Reply::Gh(RemoteReply::Comments(vec![Comment {
                body: "c".to_string(),
                author: author(),
            }])),
        ),
    ]
}

#[test]
fn a_local_refresh_reads_the_repository() {
    let mut state = DashboardState::new(at(0));
    state.selected_commit_index = 9;
    state.selected_file_index = 9;
    assert_eq!(play(Command::RefreshLocal, &mut state, 5, repository()), done());
    shown(&state);
    assert_eq!(state.selected_commit_index, 1);
    assert_eq!(state.selected_file_index, 1);
    assert_eq!(state.last_updated, at(5));
    assert_eq!(state.last_local_refresh, at(5));
    assert_eq!(state.last_remote_refresh, at(0));
    assert_eq!(state.error_msg, None);
}

#[test]
fn a_repository_without_a_remote_is_read_too() {
    let mut state = DashboardState::new(at(0));
    state.repo_name = "kept".to_string();
    let next = play(
        Command::RefreshLocal,
        &mut state,
        1,
        vec![
            (None, err("no remote")),
            (None, ok("")),
            (None, err("no head")),
            (Some(git(&["rev-parse", "--verify", "main"])), err("no main")),
            (Some(git(&["rev-parse", "--verify", "master"])), ok("1234")),
            (
                Some(git(&["log", "master", "-1", "--format=%h | %s | %an | %ar"])),
                ok("x"),
            ),
            (None, ok("")),
            (None, ok("")),
            (None, ok("")),
            (None, ok("")),
        ],
    );
    assert_eq!(next, done());
    assert_eq!(state.repo_name, "kept");
    assert_eq!(state.current_branch, "");
    assert_eq!(state.default_branch, "master");
}

#[test]
fn an_address_elsewhere_leaves_a_local_name() {
    let mut state = DashboardState::new(at(0));
    state.repo_name = "old".to_string();
    play(
        Command::RefreshLocal,
        &mut state,
        1,
        vec![(None, ok("https://example.com/a/b.git"))],
    );
    assert_eq!(state.repo_name, "Local Repo");
}

#[test]
fn main_is_the_default_branch_where_nothing_else_is_known() {
    for main_there in [true, false] {
        let mut state = DashboardState::new(at(0));
        state.default_branch = "x".to_string();
        let mut script = vec![(None, ok("")), (None, ok("b")), (None, err("no head"))];
        if main_there {
            script.push((None, ok("1234")));
        } else {
            script.push((None, err("no main")));
            script.push((None, err("no master")));
        }
        play(Command::RefreshLocal, &mut state, 1, script);
        assert_eq!(state.default_branch, "main");
    }
}

#[test]
fn a_failure_ends_the_local_refresh() {
    for failing in [1usize, 3, 4, 5, 6, 7] {
        let mut state = DashboardState::new(at(0));
        let mut script: Vec<(Option<Request>, Reply)> = repository();
        script.truncate(failing);
        script.push((None, err("boom")));
        assert_eq!(play(Command::RefreshLocal, &mut state, 1, script), done());
        assert_eq!(state.error_msg, Some("Local refresh failed: boom".to_string()));
        assert!(state.working_tree.is_empty());
    }
}

#[test]
fn an_answer_that_cannot_be_read_is_not_accepted() {
    let mut state = DashboardState::new(at(0));
    let mut refresh = begin_local_refresh(&mut state, at(1));
    for reply in ["u", "b", "h", "l", "g"] {
        refresh = match refresh.step(&mut state, Ok(reply.to_string())) {
            LocalNext::Wait(next) => next,
            LocalNext::Done(outcome) => panic!("{outcome:?}"),
        };
    }
    assert_eq!(refresh, LocalRefresh::Status);
    assert_eq!(refresh.args(&state), vec!["status", "--short"]);
    assert!(!refresh.can_read(&Ok("abé\n".to_string())));
    assert!(refresh.can_read(&Err("no".to_string())));
    let unstaged = LocalRefresh::Unstaged {
        status: String::new(),
    };
    assert!(!unstaged.can_read(&Ok("4294967295\t0\ta\n1\t0\ta\n".to_string())));
    let staged = LocalRefresh::Staged {
        status: String::new(),
        unstaged: "4294967295\t0\ta\n".to_string(),
    };
    assert!(!staged.can_read(&Ok("1\t0\ta\n".to_string())));
    assert!(staged.can_read(&Ok("0\t1\ta\n".to_string())));
}

#[test]
fn a_remote_refresh_reads_three_lists() {
    let mut state = DashboardState::new(at(0));
    state.error_msg = Some("Remote refresh failed: earlier".to_string());
    assert_eq!(
        play(Command::RefreshRemote, &mut state, 8, remote_answers()),
        Next::Done {
            remote_refreshed: true
        }
    );
    assert_eq!(state.prs.len(), 1);
    assert_eq!(state.workflow_runs.len(), 1);
    assert_eq!(state.recent_comments.len(), 1);
    assert_eq!(state.last_remote_refresh, at(8));
    assert_eq!(state.last_updated, at(8));
    assert_eq!(state.last_local_refresh, at(0));
    assert_eq!(state.error_msg, None);
}

#[test]
fn a_remote_refresh_that_fails_keeps_what_it_read() {
    let mut state = DashboardState::new(at(0));
    let mut script = remote_answers();
    script.truncate(1);
    script.push((None, Reply::Gh(RemoteReply::Failed("offline".to_string()))));
    assert_eq!(play(Command::RefreshRemote, &mut state, 8, script), done());
    assert_eq!(state.prs.len(), 1);
    assert!(state.workflow_runs.is_empty());
    assert_eq!(state.error_msg, Some("Remote refresh failed: offline".to_string()));
}

#[test]
fn a_remote_answer_has_to_fit_the_question() {
    let mut state = DashboardState::new(at(0));
    let refresh = begin_remote_refresh(&mut state, at(3));
    assert_eq!(refresh, RemoteRefresh::PullRequests);
    assert!(!refresh.is_answered_by(&RemoteReply::Comments(vec![])));
    assert!(!refresh.is_answered_by(&RemoteReply::WorkflowRuns(vec![])));
    assert!(refresh.is_answered_by(&RemoteReply::PullRequests(vec![])));
    assert!(refresh.is_answered_by(&RemoteReply::Failed("x".to_string())));
    assert_eq!(
        refresh.step(&mut state, RemoteReply::Failed("x".to_string())),
        RemoteNext::Done(Err("x".to_string()))
    );
}

#[test]
fn a_refresh_takes_back_only_its_own_error() {
    let mut state = DashboardState::new(at(0));
    state.error_msg = Some("Local refresh failed: earlier".to_string());
    play(Command::RefreshRemote, &mut state, 1, remote_answers());
    assert_eq!(state.error_msg, Some("Local refresh failed: earlier".to_string()));
    play(Command::RefreshLocal, &mut state, 1, repository());
    assert_eq!(state.error_msg, None);
    state.error_msg = Some("git push failed: x".to_string());
    play(Command::RefreshLocal, &mut state, 1, repository());
    assert_eq!(state.error_msg, Some("git push failed: x".to_string()));
}

#[test]
fn a_commit_needs_a_message() {
    let mut state = DashboardState::new(at(0));
    state.commit_message_input = " \n\t".to_string();
    assert_eq!(commit_all_changes(&mut state), done());
    assert_eq!(state.error_msg, Some("Commit message cannot be empty".to_string()));
}

#[test]
fn a_commit_stages_commits_and_reads_again() {
    let mut state = DashboardState::new(at(0));
    state.show_commit_prompt = true;
    state.commit_message_input = "  a message \n".to_string();
    state.error_msg = Some("old".to_string());
    let mut script = vec![
        (Some(git(&["add", "-A"])), ok("")),
        (Some(git(&["commit", "-m", "a message"])), ok("done")),
    ];
    script.extend(repository());
    assert_eq!(play(Command::CommitAll, &mut state, 4, script), done());
    shown(&state);
    assert!(!state.show_commit_prompt);
    assert_eq!(state.commit_message_input, "");
    assert_eq!(state.error_msg, None);
    assert_eq!(state.last_local_refresh, at(4));
}

#[test]
fn a_commit_that_fails_keeps_the_message() {
    for (script, error) in [
        (vec![(None, err("a"))], "git add failed: a"),
        (vec![(None, ok("")), (None, err("c"))], "git commit failed: c"),
    ] {
        let mut state = DashboardState::new(at(0));
        state.show_commit_prompt = true;
        state.commit_message_input = "m".to_string();
        assert_eq!(play(Command::CommitAll, &mut state, 1, script), done());
        assert_eq!(state.error_msg, Some(error.to_string()));
        assert!(state.show_commit_prompt);
        assert_eq!(state.commit_message_input, "m");
    }
}

#[test]
fn a_refresh_that_fails_after_a_commit_is_told() {
    let mut state = DashboardState::new(at(0));
    state.commit_message_input = "m".to_string();
    let script = vec![(None, ok("")), (None, ok("")), (None, ok("u")), (None, err("b"))];
    assert_eq!(play(Command::CommitAll, &mut state, 1, script), done());
    assert_eq!(state.error_msg, Some("Local refresh failed: b".to_string()));
}

#[test]
fn the_prompt_opens_empty_and_can_be_given_up() {
    let mut state = DashboardState::new(at(0));
    state.error_msg = Some("old".to_string());
    state.commit_message_input = "left over".to_string();
    play(Command::OpenPrompt, &mut state, 1, vec![]);
    assert!(state.show_commit_prompt);
    assert_eq!(state.commit_message_input, "");
    assert_eq!(state.error_msg, None);
    state.commit_message_input = "typed".to_string();
    play(Command::CancelPrompt, &mut state, 1, vec![]);
    assert!(!state.show_commit_prompt);
    assert_eq!(start(Command::CommitAll, &mut state, at(1)), done());
    assert_eq!(state.error_msg, Some("Commit message cannot be empty".to_string()));
}

#[test]
fn a_push_reads_local_and_remote_again() {
    let mut state = DashboardState::new(at(0));
    state.current_branch = " topic ".to_string();
    state.error_msg = Some("old".to_string());
    let mut script = vec![(Some(git(&["push", "origin", "topic"])), ok(""))];
    script.extend(repository());
    script.extend(remote_answers());
    assert_eq!(play(Command::Push, &mut state, 6, script), done());
    shown(&state);
    assert_eq!(state.prs.len(), 1);
    assert_eq!(state.last_remote_refresh, at(6));
    assert_eq!(state.error_msg, None);
}

#[test]
fn a_push_reads_the_remote_even_where_the_local_data_fails() {
    let mut state = DashboardState::new(at(0));
    let mut script = vec![(None, ok("")), (None, ok("u")), (None, err("b"))];
    script.extend(remote_answers());
    assert_eq!(play(Command::Push, &mut state, 6, script), done());
    assert_eq!(state.error_msg, Some("Local refresh failed: b".to_string()));
    assert_eq!(state.recent_comments.len(), 1);
    let script = vec![
        (None, ok("")),
        (None, ok("u")),
        (None, err("b")),
        (None, Reply::Gh(RemoteReply::Failed("r".to_string()))),
    ];
    assert_eq!(play(Command::Push, &mut state, 6, script), done());
    assert_eq!(state.error_msg, Some("Remote refresh failed: r".to_string()));
}

#[test]
fn a_push_needs_a_branch_and_may_fail() {
    let mut state = DashboardState::new(at(0));
    state.current_branch = " ".to_string();
    assert_eq!(push_current_branch(&mut state), done());
    assert_eq!(state.error_msg, Some("No current branch available to push".to_string()));
    state.current_branch = "b".to_string();
    assert_eq!(play(Command::Push, &mut state, 1, vec![(None, err("denied"))]), done());
    assert_eq!(state.error_msg, Some("git push failed: denied".to_string()));
}

#[test]
fn a_commit_is_shown_up_to_220_lines() {
    let mut state = DashboardState::new(at(0));
    state.git_graph = vec!["* abc1234 x".to_string()];
    state.show_file_overlay = true;
    let output: String = (0..300).map(|n| format!("{n}\n")).collect();
    let request = git(&[
        "show",
        "--stat",
        "--patch",
        "--color=never",
        "--format=fuller",
        "abc1234",
    ]);
    assert_eq!(
        play(Command::ShowCommit, &mut state, 1, vec![(Some(request), ok(&output))]),
        done()
    );
    assert_eq!(state.selected_commit_show.len(), 220);
    assert_eq!(state.selected_commit_show[219], "219");
    assert!(state.show_commit_overlay && !state.show_file_overlay);
    play(Command::ShowCommit, &mut state, 1, vec![(None, ok("a\nb"))]);
    assert_eq!(state.selected_commit_show, vec!["a", "b"]);
}

#[test]
fn a_commit_that_cannot_be_shown_is_told() {
    let mut state = DashboardState::new(at(0));
    assert_eq!(load_selected_commit_show(&mut state), done());
    assert_eq!(state.error_msg, Some("No commit selected to show".to_string()));
    state.git_graph = vec!["* abc1234 x".to_string()];
    play(Command::ShowCommit, &mut state, 1, vec![(None, err("bad"))]);
    assert_eq!(state.error_msg, Some("git show failed: bad".to_string()));
    assert!(!state.show_commit_overlay);
}

#[test]
fn the_diff_of_a_file_shows_both_sides() {
    let mut state = with_file("MM");
    state.show_commit_overlay = true;
    state.selected_hunk_index = 7;
    state.error_msg = Some("old".to_string());
    let script = vec![
        (
            Some(git(&["diff", "--cached", "--stat", "--patch", "--color=never", "--", "-f"])),
            ok("staged\nlines\n"),
        ),
        (
            Some(git(&["diff", "--cached", "-U0", "--color=never", "--", "-f"])),
            ok("head\n@@ s\n+x\n"),
        ),
        (
            Some(git(&["diff", "--stat", "--patch", "--color=never", "--", "-f"])),
            ok("worktree\n"),
        ),
        (
            Some(git(&["diff", "-U0", "--color=never", "--", "-f"])),
            ok("head\n@@ w\n-y\n"),
        ),
    ];
    assert_eq!(play(Command::ShowFileDiff, &mut state, 1, script), done());
    assert_eq!(
        state.selected_file_diff,
        vec![
            "-f (+4 / -2)",
            "",
            "===== STAGED =====",
            "staged",
            "lines",
            "",
            "===== WORKTREE =====",
            "worktree",
        ]
    );
    assert_eq!(
        state.selected_file_hunks,
        vec![
            DiffHunk {
                header: "@@ s".to_string(),
                patch: "head\n@@ s\n+x\n".to_string(),
                cached: true,
            },
            DiffHunk {
                header: "@@ w".to_string(),
                patch: "head\n@@ w\n-y\n".to_string(),
                cached: false,
            },
        ]
    );
    assert_eq!(state.selected_hunk_index, 1);
    assert!(state.show_file_overlay && !state.show_commit_overlay);
    assert_eq!(state.error_msg, None);
}

#[test]
fn a_file_without_a_diff_says_so() {
    let mut state = with_file("M");
    let script = vec![(None, ok(" \n")), (None, err("x")), (None, err("y")), (None, ok(""))];
    play(Command::ShowFileDiff, &mut state, 1, script);
    assert_eq!(
        state.selected_file_diff,
        vec!["-f (+4 / -2)", "No diff available for this file."]
    );
    assert!(state.selected_file_hunks.is_empty());
}

#[test]
fn an_untracked_file_has_no_diff() {
    let mut state = with_file("??");
    assert_eq!(begin_file_diff(&mut state), None);
    assert_eq!(
        state.selected_file_diff,
        vec![
            "-f (+4 / -2)",
            "Untracked file. Revert file will remove it from the working tree.",
        ]
    );
    assert!(state.show_file_overlay);
}

#[test]
fn without_a_file_there_is_no_diff() {
    let mut state = DashboardState::new(at(0));
    assert_eq!(start(Command::ShowFileDiff, &mut state, at(1)), done());
    assert_eq!(state.error_msg, Some("No file selected".to_string()));
    assert!(!state.show_file_overlay);
}

#[test]
fn an_open_diff_is_read_again_with_the_local_data() {
    let mut state = DashboardState::new(at(0));
    state.show_file_overlay = true;
    let mut script = repository();
    script.push((
        Some(git(&["diff", "--cached", "--stat", "--patch", "--color=never", "--", "f"])),
        ok(""),
    ));
    script.push((None, ok("")));
    script.push((None, ok("w")));
    script.push((None, ok("")));
    assert_eq!(play(Command::RefreshLocal, &mut state, 1, script), done());
    assert_eq!(
        state.selected_file_diff,
        vec!["f (+4 / -2)", "", "===== WORKTREE =====", "w"]
    );
}

#[test]
fn a_tracked_file_is_restored_and_an_untracked_one_removed() {
    for (status, request) in [
        (
            "M",
            git(&["restore", "--source=HEAD", "--staged", "--worktree", "--", "-f"]),
        ),
        ("??", git(&["clean", "-f", "--", "-f"])),
    ] {
        let mut state = with_file(status);
        state.show_file_overlay = true;
        let mut script = vec![(Some(request), ok(""))];
        script.extend(repository());
        assert_eq!(play(Command::RevertFile, &mut state, 1, script), done());
        shown(&state);
        assert!(!state.show_file_overlay);
    }
}

#[test]
fn a_revert_that_fails_changes_nothing_else() {
    let mut state = DashboardState::new(at(0));
    assert_eq!(revert_selected_file(&mut state), done());
    assert_eq!(state.error_msg, Some("No file selected".to_string()));
    let mut state = with_file("M");
    state.show_file_overlay = true;
    play(Command::RevertFile, &mut state, 1, vec![(None, err("x"))]);
    assert_eq!(state.error_msg, Some("Revert failed: x".to_string()));
    assert!(state.show_file_overlay);
}

#[test]
fn a_hunk_is_taken_back_where_it_was_found() {
    for cached in [true, false] {
        let mut state = with_file("M");
        state.selected_file_hunks = vec![DiffHunk {
            header: "@@".to_string(),
            patch: "the patch".to_string(),
            cached,
        }];
        let mut args = vec!["apply".to_string(), "-R".to_string()];
        if cached {
            args.push("--cached".to_string());
        }
        let mut script = vec![(
            Some(Request::GitApply {
                args,
                patch: "the patch".to_string(),
            }),
            Reply::Outcome(Ok(())),
        )];
        script.extend(repository());
        script.push((
            Some(git(&["diff", "--cached", "--stat", "--patch", "--color=never", "--", "f"])),
            ok(""),
        ));
        script.push((None, ok("")));
        script.push((None, ok("")));
        script.push((None, ok("")));
        assert_eq!(play(Command::RevertHunk, &mut state, 1, script), done());
        assert!(state.selected_file_hunks.is_empty());
        assert!(state.show_file_overlay);
    }
}

#[test]
fn a_hunk_that_cannot_be_taken_back_is_told() {
    let mut state = DashboardState::new(at(0));
    assert_eq!(revert_selected_hunk(&mut state), done());
    assert_eq!(state.error_msg, Some("No diff hunk available to revert".to_string()));
    state.selected_file_hunks = vec![DiffHunk {
        header: String::new(),
        patch: String::new(),
        cached: false,
    }];
    let failed = Reply::Outcome(Err("x".to_string()));
    play(Command::RevertHunk, &mut state, 1, vec![(None, failed)]);
    assert_eq!(state.error_msg, Some("Hunk revert failed: x".to_string()));
    let script = vec![
        (None, Reply::Outcome(Ok(()))),
        (None, ok("u")),
        (None, err("b")),
    ];
    assert_eq!(play(Command::RevertHunk, &mut state, 1, script), done());
    assert_eq!(state.error_msg, Some("Local refresh failed: b".to_string()));
}

#[test]
fn a_commit_is_opened_on_github() {
    let mut state = DashboardState::new(at(0));
    assert_eq!(selected_commit_url(&state), None);
    assert_eq!(start(Command::OpenOnGithub, &mut state, at(1)), done());
    assert_eq!(state, DashboardState::new(at(0)));
    state.repo_name = "ada/engine".to_string();
    state.git_graph = vec!["* abc1234 x".to_string()];
    let url = "https://github.com/ada/engine/commit/abc1234".to_string();
    assert_eq!(selected_commit_url(&state), Some(url.clone()));
    let failed = Reply::Outcome(Err("failed to open URL".to_string()));
    let script = vec![(Some(Request::OpenUrl(url)), failed)];
    assert_eq!(play(Command::OpenOnGithub, &mut state, 1, script), done());
    assert_eq!(state.error_msg, None);
}

#[test]
fn selections_and_overlays_are_changed_at_once() {
    let mut state = with_file("M");
    state.git_graph = vec!["* 1".to_string(), "* 2".to_string()];
    assert_eq!(start(Command::SelectCommit(1), &mut state, at(1)), done());
    assert_eq!(state.selected_commit_index, 1);
    start(Command::MoveUp, &mut state, at(1));
    assert_eq!(state.selected_commit_index, 0);
    start(Command::MoveDown, &mut state, at(1));
    assert_eq!(state.selected_commit_index, 1);
    start(Command::TogglePanel, &mut state, at(1));
    start(Command::SelectFile(0), &mut state, at(1));
    start(Command::NextHunk, &mut state, at(1));
    start(Command::PreviousHunk, &mut state, at(1));
    assert_eq!(state.selected_hunk_index, 0);
    state.show_commit_overlay = true;
    start(Command::CloseCommitOverlay, &mut state, at(1));
    assert!(!state.show_commit_overlay);
    state.show_file_overlay = true;
    start(Command::CloseFileOverlay, &mut state, at(1));
    assert!(!state.show_file_overlay);
    state.show_file_overlay = true;
    start(Command::CloseOverlays, &mut state, at(1));
    assert!(!state.show_file_overlay);
    state.error_msg = Some("x".to_string());
    start(Command::DismissError, &mut state, at(1));
    assert_eq!(state.error_msg, None);
}

#[test]
fn a_selection_at_the_end_of_all_indices_cannot_move_down() {
    let mut state = DashboardState::new(at(0));
    assert!(can_start(Command::MoveDown, &state));
    state.selected_commit_index = usize::MAX;
    assert!(!can_start(Command::MoveDown, &state));
    state.toggle_active_panel();
    assert!(can_start(Command::MoveDown, &state));
    state.selected_hunk_index = usize::MAX;
    assert!(!can_start(Command::NextHunk, &state));
    assert!(can_start(Command::PreviousHunk, &state));
}

#[test]
fn no_command_waits_for_more_than_nineteen_answers() {
    let mut state = with_file("M");
    state.selected_file_hunks = vec![DiffHunk {
        header: String::new(),
        patch: String::new(),
        cached: false,
    }];
    state.show_file_overlay = true;
    let mut answers = 0;
    let mut next = start(Command::RevertHunk, &mut state, at(0));
    while let Next::Wait(job) = next {
        let reply = match job.request(&state) {
            Request::GitApply { .. } => Reply::Outcome(Ok(())),
            Request::Git(args) if args[0] == "symbolic-ref" || args[0] == "rev-parse" => err("no"),
            Request::Git(args) if args[0] == "status" => ok(" M f\n"),
            _ => ok(""),
        };
        assert!(job.accepts(&reply));
        next = job.step(&mut state, reply, at(0));
        answers += 1;
    }
    assert_eq!(answers, 19);
}

#[test]
fn a_reply_to_something_else_is_not_accepted() {
    let mut state = DashboardState::new(at(0));
    state.commit_message_input = "m".to_string();
    match start(Command::CommitAll, &mut state, at(0)) {
        Next::Wait(job) => {
            assert!(!job.accepts(&Reply::Outcome(Ok(()))));
            assert!(!job.accepts(&Reply::Gh(RemoteReply::Comments(vec![]))));
            assert!(job.accepts(&ok("")));
        }
        Next::Done { .. } => unreachable!(),
    }
}
