//! What the dashboard does for each command: the programs that it runs, one after the other, and
//! what becomes of their answers.
//!
//! A command either is done at once or becomes a [`Job`] that waits for an answer. Whoever
//! carries out the jobs asks for the [`Request`], hands back the [`Reply`] and goes on until the
//! job is done.

use vstd::prelude::*;

use crate::clock::Moment;
use crate::commands::Command;
use crate::file_diff;
use crate::file_diff::{begin_file_diff, FileDiff, FileDiffView};
use crate::local_refresh;
use crate::local_refresh::{
    begin_local_refresh, LocalNext, LocalNextView, LocalRefresh, LocalRefreshView,
};
use crate::model::{ActivePanel, DashboardState, DashboardView, RefreshKind};
use crate::patterns::selected_commit_sha;
use crate::process;
use crate::process::run_git;
use crate::remote_refresh;
use crate::remote_refresh::{
    begin_remote_refresh, RemoteNext, RemoteNextView, RemoteRefresh, RemoteReply, RemoteReplyView,
};
use crate::selection::{selected_diff_hunk, selected_file_change};
use crate::strings::{has_prefix, line_range, lines_of, same_text, trimmed};
use crate::text;
use crate::text::Text;

verus! {

// ---------------------------------------------------------------------------
// Jobs
// ---------------------------------------------------------------------------

/// What follows a refresh of the local data. `Report` is a refresh for its own sake, `Note` one
/// after a commit or a reverted file, `Remote` one after a push, which goes on with the remote
/// data, and `Diff` one after a reverted hunk, which goes on with the diff of the file.
#[derive(Debug, Clone, Copy, PartialEq, Eq, Structural)]
pub enum AfterLocal {
    Report,
    Note,
    Remote,
    Diff,
}

/// What follows a refresh of the remote data. `Report` is a refresh for its own sake, `Note` one
/// after a push.
#[derive(Debug, Clone, Copy, PartialEq, Eq, Structural)]
pub enum AfterRemote {
    Report,
    Note,
}

/// A command that waits for an answer.
#[derive(Debug, PartialEq, Eq)]
pub enum Job {
    Local(AfterLocal, LocalRefresh),
    Remote(AfterRemote, RemoteRefresh),
    ShowDiff(FileDiff),
    ShowCommit { sha: String },
    StageAll { message: String },
    Commit { message: String },
    Push { branch: String },
    RevertFile { path: String, untracked: bool },
    RevertHunk { patch: String, cached: bool },
    OpenUrl { url: String },
}

/// A [`Job`] as a mathematical value.
#[verifier::ext_equal]
pub enum JobView {
    Local(AfterLocal, LocalRefreshView),
    Remote(AfterRemote, RemoteRefresh),
    ShowDiff(FileDiffView),
    ShowCommit { sha: Text },
    StageAll { message: Text },
    Commit { message: Text },
    Push { branch: Text },
    RevertFile { path: Text, untracked: bool },
    RevertHunk { patch: Text, cached: bool },
    OpenUrl { url: Text },
}

impl DeepView for Job {
    type V = JobView;

    open spec fn deep_view(&self) -> JobView {
        match self {
            Job::Local(after, m) => JobView::Local(*after, m.deep_view()),
            Job::Remote(after, m) => JobView::Remote(*after, *m),
            Job::ShowDiff(d) => JobView::ShowDiff(d.deep_view()),
            Job::ShowCommit { sha } => JobView::ShowCommit { sha: sha@ },
            Job::StageAll { message } => JobView::StageAll { message: message@ },
            Job::Commit { message } => JobView::Commit { message: message@ },
            Job::Push { branch } => JobView::Push { branch: branch@ },
            Job::RevertFile { path, untracked } => JobView::RevertFile {
                path: path@,
                untracked: *untracked,
            },
            Job::RevertHunk { patch, cached } => JobView::RevertHunk {
                patch: patch@,
                cached: *cached,
            },
            Job::OpenUrl { url } => JobView::OpenUrl { url: url@ },
        }
    }
}

/// What happens next: the job waits for an answer, or it is done. A refresh of the remote data
/// for its own sake that went well is told from all else, for the next one is due some time
/// after it.
#[derive(Debug, PartialEq, Eq)]
pub enum Next {
    Wait(Job),
    Done { remote_refreshed: bool },
}

/// A [`Next`] as a mathematical value.
#[verifier::ext_equal]
pub enum NextView {
    Wait(JobView),
    Done { remote_refreshed: bool },
}

impl DeepView for Next {
    type V = NextView;

    open spec fn deep_view(&self) -> NextView {
        match self {
            Next::Wait(job) => NextView::Wait(job.deep_view()),
            Next::Done { remote_refreshed } => NextView::Done {
                remote_refreshed: *remote_refreshed,
            },
        }
    }
}

/// What a job asks for: to run `git` or `gh` with these arguments, to run `git` with these
/// arguments and the patch as its input, or to open an address.
#[derive(Debug, PartialEq, Eq)]
pub enum Request {
    Git(Vec<String>),
    GitApply { args: Vec<String>, patch: String },
    Gh(RemoteRefresh, Vec<String>),
    OpenUrl(String),
}

/// A [`Request`] as a mathematical value.
#[verifier::ext_equal]
pub enum RequestView {
    Git(Seq<Text>),
    GitApply { args: Seq<Text>, patch: Text },
    Gh(RemoteRefresh, Seq<Text>),
    OpenUrl(Text),
}

impl DeepView for Request {
    type V = RequestView;

    open spec fn deep_view(&self) -> RequestView {
        match self {
            Request::Git(args) => RequestView::Git(args.deep_view()),
            Request::GitApply { args, patch } => RequestView::GitApply {
                args: args.deep_view(),
                patch: patch@,
            },
            Request::Gh(what, args) => RequestView::Gh(*what, args.deep_view()),
            Request::OpenUrl(url) => RequestView::OpenUrl(url@),
        }
    }
}

/// The answer to a request: what `git` printed, how the patch or the opening went, or what
/// `gh` reported.
#[derive(Debug, PartialEq, Eq)]
pub enum Reply {
    Git(Result<String, String>),
    Outcome(Result<(), String>),
    Gh(RemoteReply),
}

/// A [`Reply`] as a mathematical value.
#[verifier::ext_equal]
pub enum ReplyView {
    Git(Result<Text, Text>),
    Outcome(Result<(), Text>),
    Gh(RemoteReplyView),
}

impl DeepView for Reply {
    type V = ReplyView;

    open spec fn deep_view(&self) -> ReplyView {
        match self {
            Reply::Git(reply) => ReplyView::Git(process::reply_view(*reply)),
            Reply::Outcome(outcome) => ReplyView::Outcome(process::outcome_view(*outcome)),
            Reply::Gh(reply) => ReplyView::Gh(reply.deep_view()),
        }
    }
}

// ---------------------------------------------------------------------------
// What the jobs mean
// ---------------------------------------------------------------------------

/// The state with this error.
pub open spec fn failed(s: DashboardView, message: Text) -> DashboardView {
    DashboardView { error_msg: Some(message), ..s }
}

/// The job is done, and it was no refresh of the remote data that went well.
pub open spec fn done(s: DashboardView) -> (NextView, DashboardView) {
    (NextView::Done { remote_refreshed: false }, s)
}

/// The job waits.
pub open spec fn waits(job: JobView, s: DashboardView) -> (NextView, DashboardView) {
    (NextView::Wait(job), s)
}

/// How the errors of a refresh begin.
pub open spec fn refresh_label(kind: RefreshKind) -> Text {
    match kind {
        RefreshKind::Local => "Local refresh failed"@,
        RefreshKind::Remote => "Remote refresh failed"@,
    }
}

/// The error of a refresh that failed.
pub open spec fn refresh_error(kind: RefreshKind, message: Text) -> Text {
    refresh_label(kind) + ": "@ + message
}

/// The state after a refresh for its own sake that went well: an error that an earlier refresh
/// of the same kind left behind goes away, and no other.
pub open spec fn refresh_reported(kind: RefreshKind, s: DashboardView) -> DashboardView {
    match s.error_msg {
        Some(message) => if text::starts_with(message, refresh_label(kind) + ":"@) {
            DashboardView { error_msg: None, ..s }
        } else {
            s
        },
        None => s,
    }
}

/// A refresh of the local data begins.
pub open spec fn local_starts(after: AfterLocal, s: DashboardView, now: Moment) -> (
    NextView,
    DashboardView,
) {
    waits(
        JobView::Local(after, LocalRefreshView::RemoteUrl),
        local_refresh::local_begun(s, now),
    )
}

/// A refresh of the remote data begins.
pub open spec fn remote_starts(after: AfterRemote, s: DashboardView, now: Moment) -> (
    NextView,
    DashboardView,
) {
    waits(
        JobView::Remote(after, RemoteRefresh::PullRequests),
        remote_refresh::remote_begun(s, now),
    )
}

/// The diff of the selected file begins.
pub open spec fn diff_starts(s: DashboardView) -> (NextView, DashboardView) {
    let (diff, t) = file_diff::diff_begun(s);
    match diff {
        Some(d) => waits(JobView::ShowDiff(d), t),
        None => done(t),
    }
}

/// What follows a refresh of the local data.
pub open spec fn local_ended(
    after: AfterLocal,
    outcome: Result<(), Text>,
    s: DashboardView,
    now: Moment,
) -> (NextView, DashboardView) {
    let t = match outcome {
        Ok(()) => if after == AfterLocal::Report {
            refresh_reported(RefreshKind::Local, s)
        } else {
            s
        },
        Err(message) => failed(s, refresh_error(RefreshKind::Local, message)),
    };
    match after {
        AfterLocal::Report | AfterLocal::Note => done(t),
        AfterLocal::Remote => remote_starts(AfterRemote::Note, t, now),
        AfterLocal::Diff => if outcome is Ok {
            diff_starts(t)
        } else {
            done(t)
        },
    }
}

/// What follows a refresh of the remote data.
pub open spec fn remote_ended(after: AfterRemote, outcome: Result<(), Text>, s: DashboardView) -> (
    NextView,
    DashboardView,
) {
    match outcome {
        Ok(()) => if after == AfterRemote::Report {
            (
                NextView::Done { remote_refreshed: true },
                refresh_reported(RefreshKind::Remote, s),
            )
        } else {
            done(s)
        },
        Err(message) => done(failed(s, refresh_error(RefreshKind::Remote, message))),
    }
}

/// The address of a commit on GitHub.
pub open spec fn commit_url(repo: Text, sha: Text) -> Text {
    "https://github.com/"@ + repo + "/commit/"@ + sha
}

/// A commit of all changes begins: with the message that was typed, less the white space around
/// it, or not at all when there is none.
pub open spec fn commit_starts(s: DashboardView) -> (NextView, DashboardView) {
    let message = text::trim(s.commit_message_input);
    if message.len() == 0 {
        done(failed(s, "Commit message cannot be empty"@))
    } else {
        waits(JobView::StageAll { message }, s)
    }
}

/// A push of the current branch begins.
pub open spec fn push_starts(s: DashboardView) -> (NextView, DashboardView) {
    let branch = text::trim(s.current_branch);
    if branch.len() == 0 {
        done(failed(s, "No current branch available to push"@))
    } else {
        waits(JobView::Push { branch }, s)
    }
}

/// The selected commit begins to be shown.
pub open spec fn show_starts(s: DashboardView) -> (NextView, DashboardView) {
    match s.selected_sha() {
        Some(sha) => waits(JobView::ShowCommit { sha }, s),
        None => done(failed(s, "No commit selected to show"@)),
    }
}

/// The selected file begins to be brought back to the last commit.
pub open spec fn file_revert_starts(s: DashboardView) -> (NextView, DashboardView) {
    match s.selected_file() {
        Some(file) => waits(
            JobView::RevertFile { path: file.path, untracked: file.status == "??"@ },
            s,
        ),
        None => done(failed(s, "No file selected"@)),
    }
}

/// The selected hunk begins to be taken back.
pub open spec fn hunk_revert_starts(s: DashboardView) -> (NextView, DashboardView) {
    match s.selected_hunk() {
        Some(hunk) => waits(JobView::RevertHunk { patch: hunk.patch, cached: hunk.cached }, s),
        None => done(failed(s, "No diff hunk available to revert"@)),
    }
}

/// What a command does at the time `now`.
pub open spec fn started(command: Command, s: DashboardView, now: Moment) -> (
    NextView,
    DashboardView,
) {
    match command {
        Command::TogglePanel => done(s.panel_toggled()),
        Command::MoveUp => done(s.moved_up()),
        Command::MoveDown => done(s.moved_down()),
        Command::SelectCommit(index) => done(s.commit_selected(index)),
        Command::SelectFile(index) => done(s.file_selected(index)),
        Command::PreviousHunk => done(s.previous_hunk_selected()),
        Command::NextHunk => done(s.next_hunk_selected()),
        Command::OpenPrompt => done(
            DashboardView {
                show_commit_prompt: true,
                commit_message_input: seq![],
                error_msg: None,
                ..s
            },
        ),
        Command::CancelPrompt => done(
            DashboardView { show_commit_prompt: false, commit_message_input: seq![], ..s },
        ),
        Command::CommitAll => commit_starts(s),
        Command::Push => push_starts(s),
        Command::ShowCommit => show_starts(s),
        Command::ShowFileDiff => diff_starts(s),
        Command::RevertFile => file_revert_starts(s),
        Command::RevertHunk => hunk_revert_starts(s),
        Command::OpenOnGithub => match s.selected_sha() {
            Some(sha) => waits(JobView::OpenUrl { url: commit_url(s.repo_name, sha) }, s),
            None => done(s),
        },
        Command::RefreshLocal => local_starts(AfterLocal::Report, s, now),
        Command::RefreshRemote => remote_starts(AfterRemote::Report, s, now),
        Command::CloseOverlays => done(
            DashboardView { show_commit_overlay: false, show_file_overlay: false, ..s },
        ),
        Command::CloseCommitOverlay => done(DashboardView { show_commit_overlay: false, ..s }),
        Command::CloseFileOverlay => done(DashboardView { show_file_overlay: false, ..s }),
        Command::DismissError => done(DashboardView { error_msg: None, ..s }),
    }
}

/// Whether the command can be carried out: a selection can be moved down unless it is at the
/// largest index there is.
pub open spec fn startable(command: Command, s: DashboardView) -> bool {
    match command {
        Command::MoveDown => match s.active_panel {
            ActivePanel::Commits => s.selected_commit_index < usize::MAX,
            ActivePanel::Files => s.selected_file_index < usize::MAX,
        },
        Command::NextHunk => s.selected_hunk_index < usize::MAX,
        _ => true,
    }
}

/// Whether what the command selects, if anything, is there.
pub open spec fn selects_what_is_there(command: Command, s: DashboardView) -> bool {
    match command {
        Command::SelectCommit(index) => index < s.git_graph.len(),
        Command::SelectFile(index) => index < s.working_tree.len(),
        _ => true,
    }
}

/// The arguments for `git` that take a patch back, from the index when `cached`, else from the
/// worktree.
pub open spec fn apply_args(cached: bool) -> Seq<Text> {
    if cached {
        seq!["apply"@, "-R"@, "--cached"@]
    } else {
        seq!["apply"@, "-R"@]
    }
}

/// The arguments for `git` that bring a file back to the last commit: one that git does not
/// know is removed.
pub open spec fn revert_args(path: Text, untracked: bool) -> Seq<Text> {
    if untracked {
        seq!["clean"@, "-f"@, "--"@, path]
    } else {
        seq!["restore"@, "--source=HEAD"@, "--staged"@, "--worktree"@, "--"@, path]
    }
}

/// What a job asks for.
pub open spec fn request_of(job: JobView, s: DashboardView) -> RequestView {
    match job {
        JobView::Local(_, m) => RequestView::Git(local_refresh::local_args(m, s)),
        JobView::Remote(_, m) => RequestView::Gh(m, remote_refresh::remote_args(m)),
        JobView::ShowDiff(d) => RequestView::Git(file_diff::diff_args(d)),
        JobView::ShowCommit { sha } => RequestView::Git(
            seq!["show"@, "--stat"@, "--patch"@, "--color=never"@, "--format=fuller"@, sha],
        ),
        JobView::StageAll { .. } => RequestView::Git(seq!["add"@, "-A"@]),
        JobView::Commit { message } => RequestView::Git(seq!["commit"@, "-m"@, message]),
        JobView::Push { branch } => RequestView::Git(seq!["push"@, "origin"@, branch]),
        JobView::RevertFile { path, untracked } => RequestView::Git(revert_args(path, untracked)),
        JobView::RevertHunk { patch, cached } => RequestView::GitApply {
            args: apply_args(cached),
            patch,
        },
        JobView::OpenUrl { url } => RequestView::OpenUrl(url),
    }
}

/// Whether the reply answers what the job asked for, and can be read.
pub open spec fn acceptable(job: JobView, reply: ReplyView) -> bool {
    match (job, reply) {
        (JobView::Local(_, m), ReplyView::Git(r)) => local_refresh::local_readable(m, r),
        (JobView::Remote(_, m), ReplyView::Gh(r)) => remote_refresh::answers(m, r),
        (JobView::ShowDiff(_), ReplyView::Git(_)) => true,
        (JobView::ShowCommit { .. }, ReplyView::Git(_)) => true,
        (JobView::StageAll { .. }, ReplyView::Git(_)) => true,
        (JobView::Commit { .. }, ReplyView::Git(_)) => true,
        (JobView::Push { .. }, ReplyView::Git(_)) => true,
        (JobView::RevertFile { .. }, ReplyView::Git(_)) => true,
        (JobView::RevertHunk { .. }, ReplyView::Outcome(_)) => true,
        (JobView::OpenUrl { .. }, ReplyView::Outcome(_)) => true,
        _ => false,
    }
}

/// How many lines of a commit are shown.
pub const COMMIT_LINES: usize = 220;

/// The state in which the overlay shows a commit.
pub open spec fn commit_shown(s: DashboardView, output: Text) -> DashboardView {
    let lines = text::lines(output);
    DashboardView {
        selected_commit_show: if lines.len() <= COMMIT_LINES {
            lines
        } else {
            lines.take(COMMIT_LINES as int)
        },
        show_commit_overlay: true,
        show_file_overlay: false,
        error_msg: None,
        ..s
    }
}

/// How a job goes on with an answer at the time `now`.
pub open spec fn stepped(job: JobView, s: DashboardView, reply: ReplyView, now: Moment) -> (
    NextView,
    DashboardView,
) {
    match (job, reply) {
        (JobView::Local(after, m), ReplyView::Git(r)) => {
            let (next, t) = local_refresh::local_stepped(m, s, r);
            match next {
                LocalNextView::Wait(n) => waits(JobView::Local(after, n), t),
                LocalNextView::Done(outcome) => local_ended(after, outcome, t, now),
            }
        },
        (JobView::Remote(after, _), ReplyView::Gh(r)) => {
            let (next, t) = remote_refresh::remote_stepped(s, r);
            match next {
                RemoteNextView::Wait(n) => waits(JobView::Remote(after, n), t),
                RemoteNextView::Done(outcome) => remote_ended(after, outcome, t),
            }
        },
        (JobView::ShowDiff(d), ReplyView::Git(r)) => {
            let (next, t) = file_diff::diff_stepped(d, s, r);
            match next {
                Some(e) => waits(JobView::ShowDiff(e), t),
                None => done(t),
            }
        },
        (JobView::ShowCommit { .. }, ReplyView::Git(r)) => match r {
            Ok(output) => done(commit_shown(s, output)),
            Err(message) => done(failed(s, "git show failed: "@ + message)),
        },
        (JobView::StageAll { message }, ReplyView::Git(r)) => match r {
            Ok(_) => waits(JobView::Commit { message }, s),
            Err(error) => done(failed(s, "git add failed: "@ + error)),
        },
        (JobView::Commit { .. }, ReplyView::Git(r)) => match r {
            Ok(_) => local_starts(
                AfterLocal::Note,
                DashboardView {
                    show_commit_prompt: false,
                    commit_message_input: seq![],
                    error_msg: None,
                    ..s
                },
                now,
            ),
            Err(error) => done(failed(s, "git commit failed: "@ + error)),
        },
        (JobView::Push { .. }, ReplyView::Git(r)) => match r {
            Ok(_) => local_starts(
                AfterLocal::Remote,
                DashboardView { error_msg: None, ..s },
                now,
            ),
            Err(error) => done(failed(s, "git push failed: "@ + error)),
        },
        (JobView::RevertFile { .. }, ReplyView::Git(r)) => match r {
            Ok(_) => local_starts(
                AfterLocal::Note,
                DashboardView { show_file_overlay: false, error_msg: None, ..s },
                now,
            ),
            Err(error) => done(failed(s, "Revert failed: "@ + error)),
        },
        (JobView::RevertHunk { .. }, ReplyView::Outcome(r)) => match r {
            Ok(()) => local_starts(AfterLocal::Diff, DashboardView { error_msg: None, ..s }, now),
            Err(error) => done(failed(s, "Hunk revert failed: "@ + error)),
        },
        _ => done(s),
    }
}

// ---------------------------------------------------------------------------
// The jobs at work
// ---------------------------------------------------------------------------

fn fail(state: &mut DashboardState, label: &str, message: &str)
    ensures
        final(state)@ == failed(old(state)@, label@ + message@),
{
    let mut error = label.to_string();
    error.append(message);
    state.error_msg = Some(error);
}

fn fail_refresh(state: &mut DashboardState, kind: RefreshKind, message: &str)
    ensures
        final(state)@ == failed(old(state)@, refresh_error(kind, message@)),
{
    let mut error = match kind {
        RefreshKind::Local => "Local refresh failed".to_string(),
        RefreshKind::Remote => "Remote refresh failed".to_string(),
    };
    error.append(": ");
    error.append(message);
    state.error_msg = Some(error);
}

fn report_refresh(state: &mut DashboardState, kind: RefreshKind)
    ensures
        final(state)@ == refresh_reported(kind, old(state)@),
{
    let mut prefix = match kind {
        RefreshKind::Local => "Local refresh failed".to_string(),
        RefreshKind::Remote => "Remote refresh failed".to_string(),
    };
    prefix.append(":");
    let cleared = match &state.error_msg {
        Some(message) => has_prefix(message.as_str(), prefix.as_str()),
        None => false,
    };
    if cleared {
        state.error_msg = None;
    }
}

fn start_local(after: AfterLocal, state: &mut DashboardState, now: Moment) -> (r: Next)
    ensures
        (r.deep_view(), final(state)@) == local_starts(after, old(state)@, now),
        old(state)@.wf() ==> final(state)@.wf(),
{
    Next::Wait(Job::Local(after, begin_local_refresh(state, now)))
}

fn start_remote(after: AfterRemote, state: &mut DashboardState, now: Moment) -> (r: Next)
    ensures
        (r.deep_view(), final(state)@) == remote_starts(after, old(state)@, now),
        old(state)@.wf() ==> final(state)@.wf(),
{
    Next::Wait(Job::Remote(after, begin_remote_refresh(state, now)))
}

fn start_diff(state: &mut DashboardState) -> (r: Next)
    ensures
        (r.deep_view(), final(state)@) == diff_starts(old(state)@),
        old(state)@.wf() ==> final(state)@.wf(),
{
    match begin_file_diff(state) {
        Some(d) => Next::Wait(Job::ShowDiff(d)),
        None => Next::Done { remote_refreshed: false },
    }
}

fn end_local(
    after: AfterLocal,
    outcome: Result<(), String>,
    state: &mut DashboardState,
    now: Moment,
) -> (r: Next)
    ensures
        (r.deep_view(), final(state)@) == local_ended(
            after,
            process::outcome_view(outcome),
            old(state)@,
            now,
        ),
        old(state)@.wf() ==> final(state)@.wf(),
{
    match &outcome {
        Ok(()) => {
            if after == AfterLocal::Report {
                report_refresh(state, RefreshKind::Local);
            }
        },
        Err(message) => {
            fail_refresh(state, RefreshKind::Local, message.as_str());
        },
    }
    match after {
        AfterLocal::Report | AfterLocal::Note => Next::Done { remote_refreshed: false },
        AfterLocal::Remote => start_remote(AfterRemote::Note, state, now),
        AfterLocal::Diff => {
            if outcome.is_ok() {
                start_diff(state)
            } else {
                Next::Done { remote_refreshed: false }
            }
        },
    }
}

fn end_remote(after: AfterRemote, outcome: Result<(), String>, state: &mut DashboardState) -> (r:
    Next)
    ensures
        (r.deep_view(), final(state)@) == remote_ended(
            after,
            process::outcome_view(outcome),
            old(state)@,
        ),
        old(state)@.wf() ==> final(state)@.wf(),
{
    match outcome {
        Ok(()) => {
            if after == AfterRemote::Report {
                report_refresh(state, RefreshKind::Remote);
                Next::Done { remote_refreshed: true }
            } else {
                Next::Done { remote_refreshed: false }
            }
        },
        Err(message) => {
            fail_refresh(state, RefreshKind::Remote, message.as_str());
            Next::Done { remote_refreshed: false }
        },
    }
}

/// The address of the selected commit on GitHub. The commit is the leftmost on its line.
pub fn selected_commit_url(state: &DashboardState) -> (r: Option<String>)
    ensures
        state@.selected_is_leftmost(),
        r.deep_view() == match state@.selected_sha() {
            Some(sha) => Some(commit_url(state@.repo_name, sha)),
            None => None,
        },
{
    match selected_commit_sha(state) {
        Some(sha) => {
            let mut url = "https://github.com/".to_string();
            url.append(state.repo_name.as_str());
            url.append("/commit/");
            url.append(sha.as_str());
            Some(url)
        },
        None => None,
    }
}

/// Begins to commit all changes with the message that was typed.
pub fn commit_all_changes(state: &mut DashboardState) -> (r: Next)
    ensures
        (r.deep_view(), final(state)@) == commit_starts(old(state)@),
        old(state)@.wf() ==> final(state)@.wf(),
{
    let message = trimmed(state.commit_message_input.as_str());
    if message.as_str().is_empty() {
        state.error_msg = Some("Commit message cannot be empty".to_string());
        Next::Done { remote_refreshed: false }
    } else {
        Next::Wait(Job::StageAll { message })
    }
}

/// Begins to push the current branch.
pub fn push_current_branch(state: &mut DashboardState) -> (r: Next)
    ensures
        (r.deep_view(), final(state)@) == push_starts(old(state)@),
        old(state)@.wf() ==> final(state)@.wf(),
{
    let branch = trimmed(state.current_branch.as_str());
    if branch.as_str().is_empty() {
        state.error_msg = Some("No current branch available to push".to_string());
        Next::Done { remote_refreshed: false }
    } else {
        Next::Wait(Job::Push { branch })
    }
}

/// Begins to show the selected commit, which is the leftmost on its line.
pub fn load_selected_commit_show(state: &mut DashboardState) -> (r: Next)
    ensures
        old(state)@.selected_is_leftmost(),
        (r.deep_view(), final(state)@) == show_starts(old(state)@),
        old(state)@.wf() ==> final(state)@.wf(),
{
    match selected_commit_sha(state) {
        Some(sha) => Next::Wait(Job::ShowCommit { sha }),
        None => {
            state.error_msg = Some("No commit selected to show".to_string());
            Next::Done { remote_refreshed: false }
        },
    }
}

/// Begins to bring the selected file back to the last commit.
pub fn revert_selected_file(state: &mut DashboardState) -> (r: Next)
    ensures
        (r.deep_view(), final(state)@) == file_revert_starts(old(state)@),
        old(state)@.wf() ==> final(state)@.wf(),
{
    match selected_file_change(state) {
        Some(file) => {
            let path = file.path.clone();
            let untracked = same_text(file.status.as_str(), "??");
            Next::Wait(Job::RevertFile { path, untracked })
        },
        None => {
            state.error_msg = Some("No file selected".to_string());
            Next::Done { remote_refreshed: false }
        },
    }
}

/// Begins to take the selected hunk back.
pub fn revert_selected_hunk(state: &mut DashboardState) -> (r: Next)
    ensures
        (r.deep_view(), final(state)@) == hunk_revert_starts(old(state)@),
        old(state)@.wf() ==> final(state)@.wf(),
{
    match selected_diff_hunk(state) {
        Some(hunk) => {
            let patch = hunk.patch.clone();
            let cached = hunk.cached;
            Next::Wait(Job::RevertHunk { patch, cached })
        },
        None => {
            state.error_msg = Some("No diff hunk available to revert".to_string());
            Next::Done { remote_refreshed: false }
        },
    }
}

/// Whether the command can be carried out.
pub fn can_start(command: Command, state: &DashboardState) -> (r: bool)
    ensures
        r == startable(command, state@),
{
    match command {
        Command::MoveDown => match state.active_panel {
            ActivePanel::Commits => state.selected_commit_index < usize::MAX,
            ActivePanel::Files => state.selected_file_index < usize::MAX,
        },
        Command::NextHunk => state.selected_hunk_index < usize::MAX,
        _ => true,
    }
}

/// Carries out a command at the time `now`, as far as it goes without an answer. A commit that is
/// shown or opened is the leftmost on its line.
pub fn start(command: Command, state: &mut DashboardState, now: Moment) -> (r: Next)
    requires
        startable(command, old(state)@),
    ensures
        (r.deep_view(), final(state)@) == started(command, old(state)@, now),
        old(state)@.wf() && selects_what_is_there(command, old(state)@) ==> final(state)@.wf(),
        command is ShowCommit || command is OpenOnGithub ==> old(state)@.selected_is_leftmost(),
{
    match command {
        Command::TogglePanel => {
            state.toggle_active_panel();
        },
        Command::MoveUp => {
            state.move_selection_up();
        },
        Command::MoveDown => {
            state.move_selection_down();
        },
        Command::SelectCommit(index) => {
            state.select_commit(index);
        },
        Command::SelectFile(index) => {
            state.select_file(index);
        },
        Command::PreviousHunk => {
            state.select_previous_hunk();
        },
        Command::NextHunk => {
            state.select_next_hunk();
        },
        Command::OpenPrompt => {
            state.show_commit_prompt = true;
            state.commit_message_input = String::new();
            state.error_msg = None;
        },
        Command::CancelPrompt => {
            state.show_commit_prompt = false;
            state.commit_message_input = String::new();
        },
        Command::CommitAll => {
            return commit_all_changes(state);
        },
        Command::Push => {
            return push_current_branch(state);
        },
        Command::ShowCommit => {
            return load_selected_commit_show(state);
        },
        Command::ShowFileDiff => {
            return start_diff(state);
        },
        Command::RevertFile => {
            return revert_selected_file(state);
        },
        Command::RevertHunk => {
            return revert_selected_hunk(state);
        },
        Command::OpenOnGithub => {
            return match selected_commit_url(state) {
                Some(url) => Next::Wait(Job::OpenUrl { url }),
                None => Next::Done { remote_refreshed: false },
            };
        },
        Command::RefreshLocal => {
            return start_local(AfterLocal::Report, state, now);
        },
        Command::RefreshRemote => {
            return start_remote(AfterRemote::Report, state, now);
        },
        Command::CloseOverlays => {
            state.show_commit_overlay = false;
            state.show_file_overlay = false;
        },
        Command::CloseCommitOverlay => {
            state.show_commit_overlay = false;
        },
        Command::CloseFileOverlay => {
            state.show_file_overlay = false;
        },
        Command::DismissError => {
            state.error_msg = None;
        },
    }
    Next::Done { remote_refreshed: false }
}

fn show_commit(state: &mut DashboardState, output: &str)
    ensures
        final(state)@ == commit_shown(old(state)@, output@),
{
    let all = lines_of(output);
    let ghost lines = all.deep_view();
    state.selected_commit_show = if all.len() <= COMMIT_LINES {
        all
    } else {
        line_range(&all, 0, COMMIT_LINES)
    };
    assert(lines.len() > COMMIT_LINES ==> lines.subrange(0, COMMIT_LINES as int) =~= lines.take(
        COMMIT_LINES as int,
    ));
    state.show_commit_overlay = true;
    state.show_file_overlay = false;
    state.error_msg = None;
}

fn build_apply_args(cached: bool) -> (r: Vec<String>)
    ensures
        r.deep_view() == apply_args(cached),
{
    let r = if cached {
        vec!["apply".to_string(), "-R".to_string(), "--cached".to_string()]
    } else {
        vec!["apply".to_string(), "-R".to_string()]
    };
    assert(r.deep_view() =~= apply_args(cached));
    r
}

fn build_revert_args(path: &str, untracked: bool) -> (r: Vec<String>)
    ensures
        r.deep_view() == revert_args(path@, untracked),
{
    let r = if untracked {
        vec!["clean".to_string(), "-f".to_string(), "--".to_string(), path.to_string()]
    } else {
        vec![
            "restore".to_string(),
            "--source=HEAD".to_string(),
            "--staged".to_string(),
            "--worktree".to_string(),
            "--".to_string(),
            path.to_string(),
        ]
    };
    assert(r.deep_view() =~= revert_args(path@, untracked));
    r
}

impl Job {
    /// What the job asks for.
    pub fn request(&self, state: &DashboardState) -> (r: Request)
        ensures
            r.deep_view() == request_of(self.deep_view(), state@),
    {
        match self {
            Job::Local(_, m) => Request::Git(m.args(state)),
            Job::Remote(_, m) => Request::Gh(*m, m.args()),
            Job::ShowDiff(d) => Request::Git(d.args()),
            Job::ShowCommit { sha } => {
                let args = vec![
                    "show".to_string(),
                    "--stat".to_string(),
                    "--patch".to_string(),
                    "--color=never".to_string(),
                    "--format=fuller".to_string(),
                    sha.clone(),
                ];
                assert(args.deep_view() =~= seq![
                    "show"@,
                    "--stat"@,
                    "--patch"@,
                    "--color=never"@,
                    "--format=fuller"@,
                    sha@,
                ]);
                Request::Git(args)
            },
            Job::StageAll { .. } => {
                let args = vec!["add".to_string(), "-A".to_string()];
                assert(args.deep_view() =~= seq!["add"@, "-A"@]);
                Request::Git(args)
            },
            Job::Commit { message } => {
                let args = vec!["commit".to_string(), "-m".to_string(), message.clone()];
                assert(args.deep_view() =~= seq!["commit"@, "-m"@, message@]);
                Request::Git(args)
            },
            Job::Push { branch } => {
                let args = vec!["push".to_string(), "origin".to_string(), branch.clone()];
                assert(args.deep_view() =~= seq!["push"@, "origin"@, branch@]);
                Request::Git(args)
            },
            Job::RevertFile { path, untracked } => Request::Git(
                build_revert_args(path.as_str(), *untracked),
            ),
            Job::RevertHunk { patch, cached } => Request::GitApply {
                args: build_apply_args(*cached),
                patch: patch.clone(),
            },
            Job::OpenUrl { url } => Request::OpenUrl(url.clone()),
        }
    }

    /// Whether the reply answers what the job asked for, and can be read.
    pub fn accepts(&self, reply: &Reply) -> (r: bool)
        ensures
            r == acceptable(self.deep_view(), reply.deep_view()),
    {
        match (self, reply) {
            (Job::Local(_, m), Reply::Git(r)) => m.can_read(r),
            (Job::Remote(_, m), Reply::Gh(r)) => m.is_answered_by(r),
            (Job::ShowDiff(_), Reply::Git(_)) => true,
            (Job::ShowCommit { .. }, Reply::Git(_)) => true,
            (Job::StageAll { .. }, Reply::Git(_)) => true,
            (Job::Commit { .. }, Reply::Git(_)) => true,
            (Job::Push { .. }, Reply::Git(_)) => true,
            (Job::RevertFile { .. }, Reply::Git(_)) => true,
            (Job::RevertHunk { .. }, Reply::Outcome(_)) => true,
            (Job::OpenUrl { .. }, Reply::Outcome(_)) => true,
            _ => false,
        }
    }

    /// Goes on with the answer at the time `now`.
    pub fn step(self, state: &mut DashboardState, reply: Reply, now: Moment) -> (r: Next)
        requires
            acceptable(self.deep_view(), reply.deep_view()),
        ensures
            (r.deep_view(), final(state)@) == stepped(
                self.deep_view(),
                old(state)@,
                reply.deep_view(),
                now,
            ),
            old(state)@.wf() ==> final(state)@.wf(),
    {
        match (self, reply) {
            (Job::Local(after, m), Reply::Git(r)) => match m.step(state, r) {
                LocalNext::Wait(n) => Next::Wait(Job::Local(after, n)),
                LocalNext::Done(outcome) => end_local(after, outcome, state, now),
            },
            (Job::Remote(after, m), Reply::Gh(r)) => match m.step(state, r) {
                RemoteNext::Wait(n) => Next::Wait(Job::Remote(after, n)),
                RemoteNext::Done(outcome) => end_remote(after, outcome, state),
            },
            (Job::ShowDiff(d), Reply::Git(r)) => match d.step(state, r) {
                Some(e) => Next::Wait(Job::ShowDiff(e)),
                None => Next::Done { remote_refreshed: false },
            },
            (Job::ShowCommit { .. }, Reply::Git(r)) => {
                match r {
                    Ok(output) => {
                        show_commit(state, output.as_str());
                    },
                    Err(message) => {
                        fail(state, "git show failed: ", message.as_str());
                    },
                }
                Next::Done { remote_refreshed: false }
            },
            (Job::StageAll { message }, Reply::Git(r)) => match run_git(r) {
                Ok(()) => Next::Wait(Job::Commit { message }),
                Err(error) => {
                    fail(state, "git add failed: ", error.as_str());
                    Next::Done { remote_refreshed: false }
                },
            },
            (Job::Commit { .. }, Reply::Git(r)) => match run_git(r) {
                Ok(()) => {
                    state.show_commit_prompt = false;
                    state.commit_message_input = String::new();
                    state.error_msg = None;
                    start_local(AfterLocal::Note, state, now)
                },
                Err(error) => {
                    fail(state, "git commit failed: ", error.as_str());
                    Next::Done { remote_refreshed: false }
                },
            },
            (Job::Push { .. }, Reply::Git(r)) => match run_git(r) {
                Ok(()) => {
                    state.error_msg = None;
                    start_local(AfterLocal::Remote, state, now)
                },
                Err(error) => {
                    fail(state, "git push failed: ", error.as_str());
                    Next::Done { remote_refreshed: false }
                },
            },
            (Job::RevertFile { .. }, Reply::Git(r)) => match run_git(r) {
                Ok(()) => {
                    state.show_file_overlay = false;
                    state.error_msg = None;
                    start_local(AfterLocal::Note, state, now)
                },
                Err(error) => {
                    fail(state, "Revert failed: ", error.as_str());
                    Next::Done { remote_refreshed: false }
                },
            },
            (Job::RevertHunk { .. }, Reply::Outcome(r)) => match r {
                Ok(()) => {
                    state.error_msg = None;
                    start_local(AfterLocal::Diff, state, now)
                },
                Err(error) => {
                    fail(state, "Hunk revert failed: ", error.as_str());
                    Next::Done { remote_refreshed: false }
                },
            },
            _ => Next::Done { remote_refreshed: false },
        }
    }
}

} // verus!
