//! What holds of all commands and jobs.

use vstd::prelude::*;

use crate::clock::Moment;
use crate::commands::Command;
use crate::file_diff;
use crate::file_diff::{DiffPhase, FileDiffView};
use crate::hunks;
use crate::jobs;
use crate::jobs::{
    AfterLocal, AfterRemote, Job, JobView, Next, NextView, Reply, ReplyView, Request, RequestView,
};
use crate::local_refresh;
use crate::local_refresh::{LocalNextView, LocalRefreshView};
use crate::model::{DashboardView, RefreshKind};
use crate::patterns;
use crate::remote_refresh;
use crate::remote_refresh::{RemoteNextView, RemoteRefresh, RemoteReplyView};
use crate::text;
use crate::text::Text;

verus! {

// ---------------------------------------------------------------------------
// Every command ends
// ---------------------------------------------------------------------------

/// How many answers a diff still needs.
pub open spec fn diff_rank(d: FileDiffView) -> nat {
    match d.phase {
        DiffPhase::StagedPatch => 4,
        DiffPhase::StagedHunks => 3,
        DiffPhase::WorktreePatch => 2,
        DiffPhase::WorktreeHunks => 1,
    }
}

/// How many answers a refresh of the local data needs at the most.
pub open spec fn local_rank(m: LocalRefreshView) -> nat {
    match m {
        LocalRefreshView::RemoteUrl => 14,
        LocalRefreshView::CurrentBranch => 13,
        LocalRefreshView::OriginHead => 12,
        LocalRefreshView::MainBranch => 11,
        LocalRefreshView::MasterBranch => 10,
        LocalRefreshView::LastCommit => 9,
        LocalRefreshView::Graph => 8,
        LocalRefreshView::Status => 7,
        LocalRefreshView::Unstaged { .. } => 6,
        LocalRefreshView::Staged { .. } => 5,
        LocalRefreshView::Diff(d) => diff_rank(d),
    }
}

/// How many answers a refresh of the remote data needs at the most.
pub open spec fn remote_rank(m: RemoteRefresh) -> nat {
    match m {
        RemoteRefresh::PullRequests => 3,
        RemoteRefresh::WorkflowRuns => 2,
        RemoteRefresh::Comments => 1,
    }
}

/// How many answers what follows a refresh of the local data needs at the most.
pub open spec fn after_rank(after: AfterLocal) -> nat {
    match after {
        AfterLocal::Report | AfterLocal::Note => 0,
        AfterLocal::Remote => 3,
        AfterLocal::Diff => 4,
    }
}

/// How many answers a job needs at the most.
pub open spec fn rank(job: JobView) -> nat {
    match job {
        JobView::Local(after, m) => local_rank(m) + after_rank(after),
        JobView::Remote(_, m) => remote_rank(m),
        JobView::ShowDiff(d) => diff_rank(d),
        JobView::ShowCommit { .. } => 1,
        JobView::OpenUrl { .. } => 1,
        JobView::Commit { .. } => 15,
        JobView::StageAll { .. } => 16,
        JobView::RevertFile { .. } => 15,
        JobView::Push { .. } => 18,
        JobView::RevertHunk { .. } => 19,
    }
}

/// How many answers a command needs at the most.
pub const LONGEST_JOB: usize = 19;

/// A job that gets these answers at these times, one after the other.
pub open spec fn run(next: NextView, s: DashboardView, replies: Seq<(ReplyView, Moment)>) -> (
    NextView,
    DashboardView,
)
    decreases replies.len(),
{
    match next {
        NextView::Done { .. } => (next, s),
        NextView::Wait(job) => if replies.len() == 0 {
            (next, s)
        } else {
            let (n, t) = jobs::stepped(job, s, replies[0].0, replies[0].1);
            run(n, t, replies.skip(1))
        },
    }
}

/// Whether each answer is one to what was asked, and can be read.
pub open spec fn answered(next: NextView, s: DashboardView, replies: Seq<(ReplyView, Moment)>) -> bool
    decreases replies.len(),
{
    match next {
        NextView::Done { .. } => true,
        NextView::Wait(job) => if replies.len() == 0 {
            true
        } else {
            let (n, t) = jobs::stepped(job, s, replies[0].0, replies[0].1);
            jobs::acceptable(job, replies[0].0) && answered(n, t, replies.skip(1))
        },
    }
}

/// Every answer brings a job nearer to its end.
pub proof fn every_answer_counts(job: JobView, s: DashboardView, reply: ReplyView, now: Moment)
    requires
        jobs::acceptable(job, reply),
    ensures
        jobs::stepped(job, s, reply, now).0 matches NextView::Wait(next) ==> rank(next) < rank(
            job,
        ),
        rank(job) > 0,
{
}

/// A job is done once it has got as many answers as its rank, whatever they say.
pub proof fn every_job_ends(job: JobView, s: DashboardView, replies: Seq<(ReplyView, Moment)>)
    requires
        replies.len() >= rank(job),
        answered(NextView::Wait(job), s, replies),
    ensures
        run(NextView::Wait(job), s, replies).0 is Done,
    decreases replies.len(),
{
    reveal_with_fuel(run, 2);
    assert(rank(job) > 0);
    every_answer_counts(job, s, replies[0].0, replies[0].1);
    let (n, t) = jobs::stepped(job, s, replies[0].0, replies[0].1);
    if let NextView::Wait(next) = n {
        every_job_ends(next, t, replies.skip(1));
    }
}

/// No command asks for more than [`LONGEST_JOB`] answers before it is done.
pub proof fn every_command_ends(
    command: Command,
    s: DashboardView,
    now: Moment,
    replies: Seq<(ReplyView, Moment)>,
)
    requires
        replies.len() >= LONGEST_JOB,
        ({
            let (next, t) = jobs::started(command, s, now);
            answered(next, t, replies)
        }),
    ensures
        ({
            let (next, t) = jobs::started(command, s, now);
            run(next, t, replies).0 is Done
        }),
{
    let (next, t) = jobs::started(command, s, now);
    if let NextView::Wait(job) = next {
        every_job_ends(job, t, replies);
    }
}

// ---------------------------------------------------------------------------
// Refusals and failures
// ---------------------------------------------------------------------------

/// Whether the command changes the repository or shows a commit, so that it has to be asked of
/// git first.
pub open spec fn asks_git_first(command: Command) -> bool {
    command is CommitAll || command is Push || command is ShowCommit || command is RevertFile
        || command is RevertHunk
}

/// A command that has to be asked of git either asks and changes nothing yet, or is refused:
/// then nothing is asked and nothing changes but the error.
pub proof fn refusal_only_reports(command: Command, s: DashboardView, now: Moment)
    requires
        asks_git_first(command),
    ensures
        ({
            let (next, t) = jobs::started(command, s, now);
            match next {
                NextView::Wait(_) => t == s,
                NextView::Done { remote_refreshed } => !remote_refreshed && t.error_msg is Some
                    && t == (DashboardView { error_msg: t.error_msg, ..s }),
            }
        }),
{
}

/// How the error begins when what the job asked for failed.
pub open spec fn failure_label(job: JobView) -> Text {
    match job {
        JobView::ShowCommit { .. } => "git show failed: "@,
        JobView::StageAll { .. } => "git add failed: "@,
        JobView::Commit { .. } => "git commit failed: "@,
        JobView::Push { .. } => "git push failed: "@,
        JobView::RevertFile { .. } => "Revert failed: "@,
        _ => "Hunk revert failed: "@,
    }
}

/// A command of git that fails ends its job, and nothing changes but the error, which says what
/// failed and why. So nothing is committed when the changes cannot be staged, and nothing is
/// read again when a push or a revert fails.
pub proof fn failure_only_reports(job: JobView, s: DashboardView, message: Text, now: Moment)
    requires
        job is ShowCommit || job is StageAll || job is Commit || job is Push || job is RevertFile
            || job is RevertHunk,
    ensures
        ({
            let reply = if job is RevertHunk {
                ReplyView::Outcome(Err(message))
            } else {
                ReplyView::Git(Err(message))
            };
            &&& jobs::acceptable(job, reply)
            &&& jobs::stepped(job, s, reply, now) == (
                NextView::Done { remote_refreshed: false },
                DashboardView { error_msg: Some(failure_label(job) + message), ..s },
            )
        }),
{
}

/// To look at a commit on GitHub changes nothing, whether it can be opened or not.
pub proof fn opening_changes_nothing(s: DashboardView, outcome: Result<(), Text>, now: Moment)
    ensures
        ({
            let (next, t) = jobs::started(Command::OpenOnGithub, s, now);
            &&& t == s
            &&& next matches NextView::Wait(job) ==> jobs::stepped(
                job,
                s,
                ReplyView::Outcome(outcome),
                now,
            ) == (NextView::Done { remote_refreshed: false }, s)
        }),
{
}

// ---------------------------------------------------------------------------
// Commits, pushes and reverts
// ---------------------------------------------------------------------------

/// A commit stages everything and then commits with the message that was typed, less the white
/// space around it. Only when both have gone well does the prompt close and the local data get
/// read again.
pub proof fn commit_stages_then_commits(
    s: DashboardView,
    staged: Text,
    committed: Text,
    times: (Moment, Moment, Moment),
)
    requires
        text::trim(s.commit_message_input).len() > 0,
    ensures
        ({
            let message = text::trim(s.commit_message_input);
            let stage = JobView::StageAll { message };
            let commit = JobView::Commit { message };
            &&& jobs::started(Command::CommitAll, s, times.0) == (NextView::Wait(stage), s)
            &&& jobs::request_of(stage, s) == RequestView::Git(seq!["add"@, "-A"@])
            &&& jobs::stepped(stage, s, ReplyView::Git(Ok(staged)), times.1) == (
                NextView::Wait(commit),
                s,
            )
            &&& jobs::request_of(commit, s) == RequestView::Git(seq!["commit"@, "-m"@, message])
            &&& jobs::stepped(commit, s, ReplyView::Git(Ok(committed)), times.2) == (
                NextView::Wait(JobView::Local(AfterLocal::Note, LocalRefreshView::RemoteUrl)),
                DashboardView {
                    show_commit_prompt: false,
                    commit_message_input: seq![],
                    error_msg: None,
                    last_updated: times.2,
                    last_local_refresh: times.2,
                    ..s
                },
            )
        }),
{
}

/// A message that was given up is never committed, even when both are asked for at once.
pub proof fn given_up_message_is_not_committed(s: DashboardView, now: Moment)
    ensures
        ({
            let t = jobs::started(Command::CancelPrompt, s, now).1;
            jobs::started(Command::CommitAll, t, now) == (
                NextView::Done { remote_refreshed: false },
                DashboardView { error_msg: Some("Commit message cannot be empty"@), ..t },
            )
        }),
{
    text::trim_cuts_only_spaces(seq![]);
}

/// After a push the local data is read again, and then, however that went, the remote data.
pub proof fn push_reads_both_again(
    s: DashboardView,
    branch: Text,
    output: Text,
    outcome: Result<(), Text>,
    t: DashboardView,
    now: Moment,
)
    ensures
        jobs::stepped(JobView::Push { branch }, s, ReplyView::Git(Ok(output)), now) == (
            NextView::Wait(JobView::Local(AfterLocal::Remote, LocalRefreshView::RemoteUrl)),
            DashboardView { error_msg: None, last_updated: now, last_local_refresh: now, ..s },
        ),
        jobs::local_ended(AfterLocal::Remote, outcome, t, now).0 == NextView::Wait(
            JobView::Remote(AfterRemote::Note, RemoteRefresh::PullRequests),
        ),
{
}

/// A file that git does not know is removed, any other is restored from the last commit, both
/// in the index and in the worktree. The path comes last and right after `--`, so that git never
/// takes it for an option.
pub proof fn revert_names_the_selected_file(s: DashboardView, now: Moment)
    requires
        s.selected_file() is Some,
    ensures
        ({
            let file = s.selected_file()->0;
            let job = jobs::started(Command::RevertFile, s, now).0->Wait_0;
            let args = jobs::request_of(job, s)->Git_0;
            &&& jobs::request_of(job, s) is Git
            &&& args[0] == if file.status == "??"@ {
                "clean"@
            } else {
                "restore"@
            }
            &&& args.last() == file.path
            &&& args[args.len() - 2] == "--"@
        }),
{
}

/// A hunk is taken back where it was found: one of the index from the index, one of the worktree
/// from the worktree.
pub proof fn hunk_is_reverted_where_it_was_found(output: Text, cached: bool, i: int)
    requires
        0 <= i < hunks::diff_hunks(output, cached).len(),
    ensures
        ({
            let hunk = hunks::diff_hunks(output, cached)[i];
            &&& hunk.cached == cached
            &&& jobs::apply_args(hunk.cached).contains("--cached"@) == cached
        }),
{
    reveal_strlit("apply");
    reveal_strlit("-R");
    reveal_strlit("--cached");
    assert(jobs::apply_args(true)[2] == "--cached"@);
    assert("apply"@.len() != "--cached"@.len());
    assert("-R"@.len() != "--cached"@.len());
}

// ---------------------------------------------------------------------------
// What is shown
// ---------------------------------------------------------------------------

/// Of a commit the first [`jobs::COMMIT_LINES`] lines are shown, or all when there are fewer.
pub proof fn commit_shows_first_lines(s: DashboardView, output: Text)
    ensures
        ({
            let all = text::lines(output);
            let shown = jobs::commit_shown(s, output).selected_commit_show;
            &&& shown.is_prefix_of(all)
            &&& shown.len() == all.len() || shown.len() == jobs::COMMIT_LINES < all.len()
        }),
{
}

/// A refresh for its own sake that goes well takes back the error of an earlier one of the same
/// kind, and leaves that of the other kind on the screen.
pub proof fn refresh_takes_back_its_own_error(
    kind: RefreshKind,
    earlier: RefreshKind,
    s: DashboardView,
    message: Text,
)
    ensures
        ({
            let t = DashboardView {
                error_msg: Some(
                    (match earlier {
                        RefreshKind::Local => "Local refresh failed: "@,
                        RefreshKind::Remote => "Remote refresh failed: "@,
                    }) + message,
                ),
                ..s
            };
            jobs::refresh_reported(kind, t) == if kind == earlier {
                DashboardView { error_msg: None, ..s }
            } else {
                t
            }
        }),
{
    reveal_strlit("Local refresh failed");
    reveal_strlit("Remote refresh failed");
    reveal_strlit("Local refresh failed: ");
    reveal_strlit("Remote refresh failed: ");
    reveal_strlit(":");
    let error = (match earlier {
        RefreshKind::Local => "Local refresh failed: "@,
        RefreshKind::Remote => "Remote refresh failed: "@,
    }) + message;
    let prefix = jobs::refresh_label(kind) + ":"@;
    if kind == earlier {
        assert(error.take(prefix.len() as int) =~= prefix);
    } else {
        assert(error[0] != prefix[0]);
        assert(error.take(prefix.len() as int)[0] == error[0]);
    }
}

/// The time of a refresh is kept: of the local data when that begins, of the remote data when
/// that begins, and neither touches the other's.
pub proof fn refresh_keeps_its_time(s: DashboardView, now: Moment)
    ensures
        local_refresh::local_begun(s, now).last_local_refresh == now,
        local_refresh::local_begun(s, now).last_remote_refresh == s.last_remote_refresh,
        remote_refresh::remote_begun(s, now).last_remote_refresh == now,
        remote_refresh::remote_begun(s, now).last_local_refresh == s.last_local_refresh,
{
}

// ---------------------------------------------------------------------------
// What each command asks for and changes
// ---------------------------------------------------------------------------

/// To take back a hunk is to hand the patch of the hunk at the selected index, and no other, to
/// git for the side on which it was found. Without such a hunk nothing is asked and only the error
/// changes.
pub proof fn selected_hunk_is_taken_back(s: DashboardView, now: Moment)
    ensures
        s.selected_hunk_index >= s.selected_file_hunks.len() ==> jobs::started(
            Command::RevertHunk,
            s,
            now,
        ) == (
            NextView::Done { remote_refreshed: false },
            DashboardView { error_msg: Some("No diff hunk available to revert"@), ..s },
        ),
        s.selected_hunk_index < s.selected_file_hunks.len() ==> ({
            let hunk = s.selected_file_hunks[s.selected_hunk_index as int];
            let (next, t) = jobs::started(Command::RevertHunk, s, now);
            &&& t == s
            &&& next is Wait
            &&& jobs::request_of(next->Wait_0, s) == (RequestView::GitApply {
                args: if hunk.cached {
                    seq!["apply"@, "-R"@, "--cached"@]
                } else {
                    seq!["apply"@, "-R"@]
                },
                patch: hunk.patch,
            })
        }),
{
}

/// To push is to push the whole name of the current branch, less the white space around it, to the
/// remote. Without a name nothing is asked and only the error changes.
pub proof fn current_branch_is_pushed(s: DashboardView, now: Moment)
    ensures
        ({
            let branch = text::trim(s.current_branch);
            let (next, t) = jobs::started(Command::Push, s, now);
            if branch.len() == 0 {
                &&& next == (NextView::Done { remote_refreshed: false })
                &&& t == (DashboardView {
                    error_msg: Some("No current branch available to push"@),
                    ..s
                })
            } else {
                &&& t == s
                &&& next is Wait
                &&& jobs::request_of(next->Wait_0, s) == RequestView::Git(
                    seq!["push"@, "origin"@, branch],
                )
            }
        }),
        exists|from: int, to: int|
            #![trigger s.current_branch.subrange(from, to)]
            0 <= from <= to <= s.current_branch.len() && text::trim(s.current_branch)
                == s.current_branch.subrange(from, to) && (forall|i: int|
                (0 <= i < from || to <= i < s.current_branch.len()) ==> text::is_space(
                    #[trigger] s.current_branch[i],
                )),
{
    text::trim_cuts_only_spaces(s.current_branch);
}

/// To show a commit, or to look at it on GitHub, is to name the commit that is found on the line of
/// the graph at the selected index, and no other. Without one nothing is asked; and only the
/// request to show it leaves an error.
pub proof fn selected_commit_is_shown(s: DashboardView, now: Moment)
    ensures
        ({
            let found = if s.selected_commit_index < s.git_graph.len() {
                patterns::commit_in(s.git_graph[s.selected_commit_index as int])
            } else {
                None
            };
            let (show, t) = jobs::started(Command::ShowCommit, s, now);
            let (open, u) = jobs::started(Command::OpenOnGithub, s, now);
            &&& u == s
            &&& match found {
                Some((before, name, after)) => {
                    &&& t == s
                    &&& show is Wait
                    &&& jobs::request_of(show->Wait_0, s) == RequestView::Git(
                        seq![
                            "show"@,
                            "--stat"@,
                            "--patch"@,
                            "--color=never"@,
                            "--format=fuller"@,
                            name,
                        ],
                    )
                    &&& open is Wait
                    &&& jobs::request_of(open->Wait_0, s) == RequestView::OpenUrl(
                        "https://github.com/"@ + s.repo_name + "/commit/"@ + name,
                    )
                },
                None => {
                    &&& t == (DashboardView {
                        error_msg: Some("No commit selected to show"@),
                        ..s
                    })
                    &&& show == (NextView::Done { remote_refreshed: false })
                    &&& open == (NextView::Done { remote_refreshed: false })
                },
            }
        }),
{
}

/// To bring a file back is to name the file at the selected index: git removes it where git does
/// not know it, and restores it from the last commit in the index and in the worktree where git
/// does. Without a file nothing is asked and only the error changes.
pub proof fn selected_file_is_brought_back(s: DashboardView, now: Moment)
    ensures
        s.selected_file_index >= s.working_tree.len() ==> jobs::started(
            Command::RevertFile,
            s,
            now,
        ) == (
            NextView::Done { remote_refreshed: false },
            DashboardView { error_msg: Some("No file selected"@), ..s },
        ),
        s.selected_file_index < s.working_tree.len() ==> ({
            let file = s.working_tree[s.selected_file_index as int];
            let (next, t) = jobs::started(Command::RevertFile, s, now);
            &&& t == s
            &&& next is Wait
            &&& jobs::request_of(next->Wait_0, s) == RequestView::Git(
                if file.status == "??"@ {
                    seq!["clean"@, "-f"@, "--"@, file.path]
                } else {
                    seq!["restore"@, "--source=HEAD"@, "--staged"@, "--worktree"@, "--"@, file.path]
                },
            )
        }),
{
}

/// To show a diff is to begin the diff of the selected file and to carry it through, question by
/// question; it is done when the diff is.
pub proof fn diff_is_carried_through(
    s: DashboardView,
    d: FileDiffView,
    reply: Result<Text, Text>,
    now: Moment,
)
    ensures
        ({
            let (next, t) = jobs::started(Command::ShowFileDiff, s, now);
            let (diff, u) = file_diff::diff_begun(s);
            &&& t == u
            &&& diff is None ==> next == (NextView::Done { remote_refreshed: false })
            &&& diff matches Some(e) ==> next == NextView::Wait(JobView::ShowDiff(e))
        }),
        jobs::request_of(JobView::ShowDiff(d), s) == RequestView::Git(file_diff::diff_args(d)),
        ({
            let (next, t) = jobs::stepped(JobView::ShowDiff(d), s, ReplyView::Git(reply), now);
            let (diff, u) = file_diff::diff_stepped(d, s, reply);
            &&& t == u
            &&& diff is None ==> next == (NextView::Done { remote_refreshed: false })
            &&& diff matches Some(e) ==> next == NextView::Wait(JobView::ShowDiff(e))
        }),
{
}

/// A refresh for its own sake begins with its time kept and nothing else changed.
pub proof fn refreshes_begin(s: DashboardView, now: Moment)
    ensures
        jobs::started(Command::RefreshLocal, s, now) == (
            NextView::Wait(JobView::Local(AfterLocal::Report, LocalRefreshView::RemoteUrl)),
            DashboardView { last_updated: now, last_local_refresh: now, ..s },
        ),
        jobs::started(Command::RefreshRemote, s, now) == (
            NextView::Wait(JobView::Remote(AfterRemote::Report, RemoteRefresh::PullRequests)),
            DashboardView { last_updated: now, last_remote_refresh: now, ..s },
        ),
{
}

/// The other commands are done at once, ask for nothing, and change what they name and nothing
/// else.
pub proof fn small_commands_are_done_at_once(s: DashboardView, index: usize, now: Moment)
    ensures
        ({
            let done = NextView::Done { remote_refreshed: false };
            &&& jobs::started(Command::TogglePanel, s, now) == (done, s.panel_toggled())
            &&& jobs::started(Command::MoveUp, s, now) == (done, s.moved_up())
            &&& jobs::started(Command::MoveDown, s, now) == (done, s.moved_down())
            &&& jobs::started(Command::SelectCommit(index), s, now) == (
                done,
                s.commit_selected(index),
            )
            &&& jobs::started(Command::SelectFile(index), s, now) == (done, s.file_selected(index))
            &&& jobs::started(Command::PreviousHunk, s, now) == (done, s.previous_hunk_selected())
            &&& jobs::started(Command::NextHunk, s, now) == (done, s.next_hunk_selected())
            &&& jobs::started(Command::OpenPrompt, s, now) == (
                done,
                DashboardView {
                    show_commit_prompt: true,
                    commit_message_input: seq![],
                    error_msg: None,
                    ..s
                },
            )
            &&& jobs::started(Command::CancelPrompt, s, now) == (
                done,
                DashboardView { show_commit_prompt: false, commit_message_input: seq![], ..s },
            )
            &&& jobs::started(Command::CloseOverlays, s, now) == (
                done,
                DashboardView { show_commit_overlay: false, show_file_overlay: false, ..s },
            )
            &&& jobs::started(Command::CloseCommitOverlay, s, now) == (
                done,
                DashboardView { show_commit_overlay: false, ..s },
            )
            &&& jobs::started(Command::CloseFileOverlay, s, now) == (
                done,
                DashboardView { show_file_overlay: false, ..s },
            )
            &&& jobs::started(Command::DismissError, s, now) == (
                done,
                DashboardView { error_msg: None, ..s },
            )
        }),
{
}

/// The commands that commit, push, show a commit and bring a file or a hunk back do what these
/// operations do by themselves, at any time.
pub proof fn commands_begin_their_operations(s: DashboardView, now: Moment)
    ensures
        jobs::started(Command::CommitAll, s, now) == jobs::commit_starts(s),
        jobs::started(Command::Push, s, now) == jobs::push_starts(s),
        jobs::started(Command::ShowCommit, s, now) == jobs::show_starts(s),
        jobs::started(Command::RevertFile, s, now) == jobs::file_revert_starts(s),
        jobs::started(Command::RevertHunk, s, now) == jobs::hunk_revert_starts(s),
{
}

/// A commit without a message that is more than white space is refused: nothing is asked, and only
/// the error changes.
pub proof fn blank_message_is_refused(s: DashboardView, now: Moment)
    requires
        forall|i: int|
            0 <= i < s.commit_message_input.len() ==> text::is_space(
                #[trigger] s.commit_message_input[i],
            ),
    ensures
        jobs::started(Command::CommitAll, s, now) == (
            NextView::Done { remote_refreshed: false },
            DashboardView { error_msg: Some("Commit message cannot be empty"@), ..s },
        ),
{
    let input = s.commit_message_input;
    text::trim_cuts_only_spaces(input);
    let (from, to) = choose|from: int, to: int|
        #![trigger input.subrange(from, to)]
        0 <= from <= to <= input.len() && text::trim(input) == input.subrange(from, to) && (forall|
            i: int,
        |
            (0 <= i < from || to <= i < input.len()) ==> text::is_space(#[trigger] input[i]));
    if text::trim(input).len() > 0 {
        assert(text::trim(input)[0] == input[from]);
    }
}

// ---------------------------------------------------------------------------
// What becomes of the answers
// ---------------------------------------------------------------------------

/// What git printed of a commit is shown up to its 220th line, over a diff that was shown before.
pub proof fn commit_is_shown_over_the_diff(s: DashboardView, sha: Text, output: Text, now: Moment)
    ensures
        jobs::stepped(JobView::ShowCommit { sha }, s, ReplyView::Git(Ok(output)), now) == (
            NextView::Done { remote_refreshed: false },
            DashboardView {
                selected_commit_show: if text::lines(output).len() <= 220 {
                    text::lines(output)
                } else {
                    text::lines(output).take(220)
                },
                show_commit_overlay: true,
                show_file_overlay: false,
                error_msg: None,
                ..s
            },
        ),
{
}

/// A failure is shown behind the name of what failed, and nothing else changes: a commit that
/// could not be shown, changes that could not be staged or committed, a branch that could not be
/// pushed, a file or a hunk that could not be brought back.
pub proof fn failures_are_named(
    s: DashboardView,
    text: Text,
    flag: bool,
    message: Text,
    now: Moment,
)
    ensures
        ({
            let git = ReplyView::Git(Err(message));
            let outcome = ReplyView::Outcome(Err(message));
            let done = NextView::Done { remote_refreshed: false };
            &&& jobs::stepped(JobView::ShowCommit { sha: text }, s, git, now) == (
                done,
                DashboardView { error_msg: Some("git show failed: "@ + message), ..s },
            )
            &&& jobs::stepped(JobView::StageAll { message: text }, s, git, now) == (
                done,
                DashboardView { error_msg: Some("git add failed: "@ + message), ..s },
            )
            &&& jobs::stepped(JobView::Commit { message: text }, s, git, now) == (
                done,
                DashboardView { error_msg: Some("git commit failed: "@ + message), ..s },
            )
            &&& jobs::stepped(JobView::Push { branch: text }, s, git, now) == (
                done,
                DashboardView { error_msg: Some("git push failed: "@ + message), ..s },
            )
            &&& jobs::stepped(JobView::RevertFile { path: text, untracked: flag }, s, git, now) == (
                done,
                DashboardView { error_msg: Some("Revert failed: "@ + message), ..s },
            )
            &&& jobs::stepped(JobView::RevertHunk { patch: text, cached: flag }, s, outcome, now)
                == (
                done,
                DashboardView { error_msg: Some("Hunk revert failed: "@ + message), ..s },
            )
        }),
{
}

/// A revert that goes well takes the error back and reads the local data again: that of a file
/// closes its diff, that of a hunk goes on with the diff.
pub proof fn reverts_read_again(s: DashboardView, text: Text, flag: bool, output: Text, now: Moment)
    ensures
        jobs::stepped(
            JobView::RevertFile { path: text, untracked: flag },
            s,
            ReplyView::Git(Ok(output)),
            now,
        ) == (
            NextView::Wait(JobView::Local(AfterLocal::Note, LocalRefreshView::RemoteUrl)),
            DashboardView {
                show_file_overlay: false,
                error_msg: None,
                last_updated: now,
                last_local_refresh: now,
                ..s
            },
        ),
        jobs::stepped(
            JobView::RevertHunk { patch: text, cached: flag },
            s,
            ReplyView::Outcome(Ok(())),
            now,
        ) == (
            NextView::Wait(JobView::Local(AfterLocal::Diff, LocalRefreshView::RemoteUrl)),
            DashboardView { error_msg: None, last_updated: now, last_local_refresh: now, ..s },
        ),
{
}

/// A refresh is carried through, question by question and answer by answer, for whatever it is
/// done for.
pub proof fn refreshes_are_carried_through(
    after: AfterLocal,
    m: LocalRefreshView,
    reply: Result<Text, Text>,
    after_remote: AfterRemote,
    r: RemoteRefresh,
    list: RemoteReplyView,
    s: DashboardView,
    now: Moment,
)
    ensures
        jobs::request_of(JobView::Local(after, m), s) == RequestView::Git(
            local_refresh::local_args(m, s),
        ),
        jobs::request_of(JobView::Remote(after_remote, r), s) == RequestView::Gh(
            r,
            remote_refresh::remote_args(r),
        ),
        ({
            let (next, t) = local_refresh::local_stepped(m, s, reply);
            let (job, u) = jobs::stepped(JobView::Local(after, m), s, ReplyView::Git(reply), now);
            &&& next matches LocalNextView::Wait(n) ==> job == NextView::Wait(
                JobView::Local(after, n),
            ) && u == t
            &&& next matches LocalNextView::Done(outcome) ==> (job, u) == jobs::local_ended(
                after,
                outcome,
                t,
                now,
            )
        }),
        ({
            let (next, t) = remote_refresh::remote_stepped(s, list);
            let (job, u) = jobs::stepped(
                JobView::Remote(after_remote, r),
                s,
                ReplyView::Gh(list),
                now,
            );
            &&& next matches RemoteNextView::Wait(n) ==> job == NextView::Wait(
                JobView::Remote(after_remote, n),
            ) && u == t
            &&& next matches RemoteNextView::Done(outcome) ==> (job, u) == jobs::remote_ended(
                after_remote,
                outcome,
                t,
            )
        }),
{
}

/// A refresh of the local data that fails leaves its error, whatever it was done for. One that
/// goes well leaves the state as it is, but for one for its own sake, which takes an error of its
/// own kind back. Then it is done; or the remote data is read, however it went; or, if it went
/// well, the diff is begun.
pub proof fn local_refresh_is_followed_up(
    after: AfterLocal,
    s: DashboardView,
    message: Text,
    now: Moment,
)
    ensures
        ({
            let done = NextView::Done { remote_refreshed: false };
            let remote = NextView::Wait(
                JobView::Remote(AfterRemote::Note, RemoteRefresh::PullRequests),
            );
            let t = DashboardView { error_msg: Some("Local refresh failed: "@ + message), ..s };
            let mine = s.error_msg is Some && text::starts_with(
                s.error_msg->0,
                "Local refresh failed:"@,
            );
            let bad = jobs::local_ended(after, Err(message), s, now);
            let good = jobs::local_ended(after, Ok(()), s, now);
            match after {
                AfterLocal::Report => {
                    &&& bad == (done, t)
                    &&& good == (
                        done,
                        if mine {
                            DashboardView { error_msg: None, ..s }
                        } else {
                            s
                        },
                    )
                },
                AfterLocal::Note => bad == (done, t) && good == (done, s),
                AfterLocal::Remote => {
                    &&& bad == (
                        remote,
                        DashboardView { last_updated: now, last_remote_refresh: now, ..t },
                    )
                    &&& good == (
                        remote,
                        DashboardView { last_updated: now, last_remote_refresh: now, ..s },
                    )
                },
                AfterLocal::Diff => {
                    &&& bad == (done, t)
                    &&& good.1 == file_diff::diff_begun(s).1
                    &&& file_diff::diff_begun(s).0 is None ==> good.0 == done
                    &&& file_diff::diff_begun(s).0 matches Some(d) ==> good.0 == NextView::Wait(
                        JobView::ShowDiff(d),
                    )
                },
            }
        }),
{
    reveal_strlit("Local refresh failed");
    reveal_strlit("Local refresh failed: ");
    reveal_strlit("Local refresh failed:");
    reveal_strlit(": ");
    reveal_strlit(":");
    assert("Local refresh failed"@ + ": "@ =~= "Local refresh failed: "@);
    assert("Local refresh failed"@ + ":"@ =~= "Local refresh failed:"@);
}

/// A refresh of the remote data that fails leaves its error. One for its own sake that goes well
/// takes an error of its own kind back and is reported as having gone well; one after a push
/// leaves the state as it is.
pub proof fn remote_refresh_is_followed_up(after: AfterRemote, s: DashboardView, message: Text)
    ensures
        jobs::remote_ended(after, Err(message), s) == (
            NextView::Done { remote_refreshed: false },
            DashboardView { error_msg: Some("Remote refresh failed: "@ + message), ..s },
        ),
        jobs::remote_ended(AfterRemote::Note, Ok(()), s) == (
            NextView::Done { remote_refreshed: false },
            s,
        ),
        jobs::remote_ended(AfterRemote::Report, Ok(()), s) == (
            NextView::Done { remote_refreshed: true },
            if s.error_msg is Some && text::starts_with(
                s.error_msg->0,
                "Remote refresh failed:"@,
            ) {
                DashboardView { error_msg: None, ..s }
            } else {
                s
            },
        ),
{
    reveal_strlit("Remote refresh failed");
    reveal_strlit("Remote refresh failed: ");
    reveal_strlit("Remote refresh failed:");
    reveal_strlit(": ");
    reveal_strlit(":");
    assert("Remote refresh failed"@ + ": "@ =~= "Remote refresh failed: "@);
    assert("Remote refresh failed"@ + ":"@ =~= "Remote refresh failed:"@);
}

/// Every answer of git is one that a job that asked git can go on with, but for those of a refresh
/// that cannot be read; and so is every outcome of a patch or of an opening, and every list that
/// was asked for.
pub proof fn answers_are_accepted(job: JobView, reply: ReplyView)
    ensures
        jobs::acceptable(job, reply) <==> match job {
            JobView::Local(_, m) => reply matches ReplyView::Git(r)
                && local_refresh::local_readable(m, r),
            JobView::Remote(_, m) => reply matches ReplyView::Gh(r)
                && remote_refresh::answers(m, r),
            JobView::RevertHunk { .. } | JobView::OpenUrl { .. } => reply is Outcome,
            _ => reply is Git,
        },
{
}

/// In a well-formed state every command can be carried out.
pub proof fn every_command_can_start(command: Command, s: DashboardView)
    requires
        s.wf(),
        s.git_graph.len() <= usize::MAX,
        s.working_tree.len() <= usize::MAX,
        s.selected_file_hunks.len() <= usize::MAX,
    ensures
        jobs::startable(command, s),
{
}

/// A command that names a row selects what is there when the list has such a row; the others
/// always do.
pub proof fn rows_are_there(command: Command, s: DashboardView)
    ensures
        jobs::selects_what_is_there(command, s) <==> {
            &&& command matches Command::SelectCommit(index) ==> s.git_graph.len() > index
            &&& command matches Command::SelectFile(index) ==> s.working_tree.len() > index
        },
{
}

/// The views of jobs, requests and replies show all that they hold.
pub proof fn job_views_show_every_field(
    job: Job,
    request: Request,
    reply: Reply,
    next: Next,
    i: int,
)
    ensures
        job matches Job::Local(after, m) ==> job.deep_view() == JobView::Local(
            after,
            m.deep_view(),
        ),
        job matches Job::Remote(after, m) ==> job.deep_view() == JobView::Remote(after, m),
        job matches Job::ShowDiff(d) ==> job.deep_view() == JobView::ShowDiff(d.deep_view()),
        job matches Job::ShowCommit { sha } ==> job.deep_view() == (JobView::ShowCommit {
            sha: sha@,
        }),
        job matches Job::StageAll { message } ==> job.deep_view() == (JobView::StageAll {
            message: message@,
        }),
        job matches Job::Commit { message } ==> job.deep_view() == (JobView::Commit {
            message: message@,
        }),
        job matches Job::Push { branch } ==> job.deep_view() == (JobView::Push { branch: branch@ }),
        job matches Job::RevertFile { path, untracked } ==> job.deep_view()
            == (JobView::RevertFile { path: path@, untracked }),
        job matches Job::RevertHunk { patch, cached } ==> job.deep_view()
            == (JobView::RevertHunk { patch: patch@, cached }),
        job matches Job::OpenUrl { url } ==> job.deep_view() == (JobView::OpenUrl { url: url@ }),
        request matches Request::Git(args) ==> {
            &&& request.deep_view() matches RequestView::Git(w)
            &&& w.len() == args.len()
            &&& 0 <= i < args.len() ==> w[i] == args[i]@
        },
        request matches Request::GitApply { args, patch } ==> {
            &&& request.deep_view() matches RequestView::GitApply { args: w, patch: p }
            &&& w.len() == args.len()
            &&& 0 <= i < args.len() ==> w[i] == args[i]@
            &&& p == patch@
        },
        request matches Request::Gh(what, args) ==> {
            &&& request.deep_view() matches RequestView::Gh(kind, w)
            &&& kind == what
            &&& w.len() == args.len()
            &&& 0 <= i < args.len() ==> w[i] == args[i]@
        },
        request matches Request::OpenUrl(url) ==> request.deep_view() == RequestView::OpenUrl(url@),
        reply matches Reply::Git(Ok(output)) ==> reply.deep_view() == ReplyView::Git(Ok(output@)),
        reply matches Reply::Git(Err(message)) ==> reply.deep_view() == ReplyView::Git(
            Err(message@),
        ),
        reply matches Reply::Outcome(Ok(_)) ==> reply.deep_view() == ReplyView::Outcome(Ok(())),
        reply matches Reply::Outcome(Err(message)) ==> reply.deep_view() == ReplyView::Outcome(
            Err(message@),
        ),
        reply matches Reply::Gh(r) ==> reply.deep_view() == ReplyView::Gh(r.deep_view()),
        next matches Next::Wait(j) ==> next.deep_view() == NextView::Wait(j.deep_view()),
        next matches Next::Done { remote_refreshed } ==> next.deep_view() == (NextView::Done {
            remote_refreshed,
        }),
{
}

} // verus!
