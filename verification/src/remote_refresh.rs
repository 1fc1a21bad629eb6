//! Bringing the data of the remote up to date: what is asked of GitHub, one command after the
//! other, and what becomes of the answers.

use vstd::prelude::*;

use crate::clock::Moment;
use crate::model::{
    Comment, CommentView, DashboardState, DashboardView, PullRequest, PullRequestView, WorkflowRun,
    WorkflowRunView,
};
use crate::process;
use crate::text::Text;

verus! {

/// Which answer a refresh waits for.
#[derive(Debug, Clone, Copy, PartialEq, Eq, Structural)]
pub enum RemoteRefresh {
    PullRequests,
    WorkflowRuns,
    Comments,
}

/// An answer of GitHub, or why there is none.
#[derive(Debug, PartialEq, Eq)]
pub enum RemoteReply {
    PullRequests(Vec<PullRequest>),
    WorkflowRuns(Vec<WorkflowRun>),
    Comments(Vec<Comment>),
    Failed(String),
}

/// A [`RemoteReply`] as a mathematical value.
#[verifier::ext_equal]
pub enum RemoteReplyView {
    PullRequests(Seq<PullRequestView>),
    WorkflowRuns(Seq<WorkflowRunView>),
    Comments(Seq<CommentView>),
    Failed(Text),
}

impl DeepView for RemoteReply {
    type V = RemoteReplyView;

    open spec fn deep_view(&self) -> RemoteReplyView {
        match self {
            RemoteReply::PullRequests(v) => RemoteReplyView::PullRequests(v.deep_view()),
            RemoteReply::WorkflowRuns(v) => RemoteReplyView::WorkflowRuns(v.deep_view()),
            RemoteReply::Comments(v) => RemoteReplyView::Comments(v.deep_view()),
            RemoteReply::Failed(message) => RemoteReplyView::Failed(message@),
        }
    }
}

/// What a refresh does next: it waits for another answer, or it is done, well or not.
#[derive(Debug, PartialEq, Eq)]
pub enum RemoteNext {
    Wait(RemoteRefresh),
    Done(Result<(), String>),
}

/// A [`RemoteNext`] as a mathematical value.
#[verifier::ext_equal]
pub enum RemoteNextView {
    Wait(RemoteRefresh),
    Done(Result<(), Text>),
}

impl DeepView for RemoteNext {
    type V = RemoteNextView;

    open spec fn deep_view(&self) -> RemoteNextView {
        match self {
            RemoteNext::Wait(m) => RemoteNextView::Wait(*m),
            RemoteNext::Done(outcome) => RemoteNextView::Done(process::outcome_view(*outcome)),
        }
    }
}

/// The state when a refresh begins at the time `now`.
pub open spec fn remote_begun(s: DashboardView, now: Moment) -> DashboardView {
    DashboardView { last_updated: now, last_remote_refresh: now, ..s }
}

/// The arguments for `gh` whose answer the refresh waits for.
pub open spec fn remote_args(m: RemoteRefresh) -> Seq<Text> {
    match m {
        RemoteRefresh::PullRequests => seq![
            "pr"@,
            "list"@,
            "--limit"@,
            "5"@,
            "--json"@,
            "number,title,author,state,headRefName"@,
        ],
        RemoteRefresh::WorkflowRuns => seq![
            "run"@,
            "list"@,
            "--limit"@,
            "5"@,
            "--json"@,
            "name,status,conclusion"@,
        ],
        RemoteRefresh::Comments => seq![
            "api"@,
            "repos/{owner}/{repo}/issues/comments"@,
            "-q"@,
            ".[:5] | map({body: .body[:100], author: {login: .user.login}})"@,
        ],
    }
}

/// Whether this is an answer to what was asked.
pub open spec fn answers(m: RemoteRefresh, reply: RemoteReplyView) -> bool {
    match reply {
        RemoteReplyView::PullRequests(_) => m == RemoteRefresh::PullRequests,
        RemoteReplyView::WorkflowRuns(_) => m == RemoteRefresh::WorkflowRuns,
        RemoteReplyView::Comments(_) => m == RemoteRefresh::Comments,
        RemoteReplyView::Failed(_) => true,
    }
}

/// How a refresh goes on with an answer: each answer is kept at once, and a failure ends the
/// refresh.
pub open spec fn remote_stepped(s: DashboardView, reply: RemoteReplyView) -> (
    RemoteNextView,
    DashboardView,
) {
    match reply {
        RemoteReplyView::PullRequests(prs) => (
            RemoteNextView::Wait(RemoteRefresh::WorkflowRuns),
            DashboardView { prs, ..s },
        ),
        RemoteReplyView::WorkflowRuns(workflow_runs) => (
            RemoteNextView::Wait(RemoteRefresh::Comments),
            DashboardView { workflow_runs, ..s },
        ),
        RemoteReplyView::Comments(recent_comments) => (
            RemoteNextView::Done(Ok(())),
            DashboardView { recent_comments, ..s },
        ),
        RemoteReplyView::Failed(message) => (RemoteNextView::Done(Err(message)), s),
    }
}

/// A refresh that gets these answers, one after the other.
pub open spec fn remote_run(
    next: RemoteNextView,
    s: DashboardView,
    replies: Seq<RemoteReplyView>,
) -> (RemoteNextView, DashboardView)
    decreases replies.len(),
{
    match next {
        RemoteNextView::Done(_) => (next, s),
        RemoteNextView::Wait(_) => if replies.len() == 0 {
            (next, s)
        } else {
            let (n, t) = remote_stepped(s, replies[0]);
            remote_run(n, t, replies.skip(1))
        },
    }
}

/// A refresh that gets all its answers ends well and shows them, and nothing else has changed.
pub proof fn remote_refresh_shows_answers(
    s: DashboardView,
    prs: Seq<PullRequestView>,
    workflow_runs: Seq<WorkflowRunView>,
    recent_comments: Seq<CommentView>,
)
    ensures
        remote_run(
            RemoteNextView::Wait(RemoteRefresh::PullRequests),
            s,
            seq![
                RemoteReplyView::PullRequests(prs),
                RemoteReplyView::WorkflowRuns(workflow_runs),
                RemoteReplyView::Comments(recent_comments),
            ],
        ) == (
            RemoteNextView::Done(Ok(())),
            DashboardView { prs, workflow_runs, recent_comments, ..s },
        ),
{
    reveal_with_fuel(remote_run, 4);
}

/// A refresh begins with its time kept and asks for the pull requests, the runs and the comments,
/// in this order, each by a command of its own.
pub proof fn remote_refresh_asks_for_three_lists(s: DashboardView, now: Moment)
    ensures
        remote_begun(s, now) == (DashboardView {
            last_updated: now,
            last_remote_refresh: now,
            ..s
        }),
        remote_args(RemoteRefresh::PullRequests) == seq![
            "pr"@,
            "list"@,
            "--limit"@,
            "5"@,
            "--json"@,
            "number,title,author,state,headRefName"@,
        ],
        remote_args(RemoteRefresh::WorkflowRuns) == seq![
            "run"@,
            "list"@,
            "--limit"@,
            "5"@,
            "--json"@,
            "name,status,conclusion"@,
        ],
        remote_args(RemoteRefresh::Comments) == seq![
            "api"@,
            "repos/{owner}/{repo}/issues/comments"@,
            "-q"@,
            ".[:5] | map({body: .body[:100], author: {login: .user.login}})"@,
        ],
{
}

/// Each list is kept as soon as it comes and leaves the rest as it is, and the refresh goes on to
/// the next one or ends well; a failure ends it with its reason and changes nothing.
pub proof fn each_list_is_kept_at_once(
    s: DashboardView,
    prs: Seq<PullRequestView>,
    workflow_runs: Seq<WorkflowRunView>,
    recent_comments: Seq<CommentView>,
    message: Text,
)
    ensures
        remote_stepped(s, RemoteReplyView::PullRequests(prs)) == (
            RemoteNextView::Wait(RemoteRefresh::WorkflowRuns),
            DashboardView { prs, ..s },
        ),
        remote_stepped(s, RemoteReplyView::WorkflowRuns(workflow_runs)) == (
            RemoteNextView::Wait(RemoteRefresh::Comments),
            DashboardView { workflow_runs, ..s },
        ),
        remote_stepped(s, RemoteReplyView::Comments(recent_comments)) == (
            RemoteNextView::Done(Ok(())),
            DashboardView { recent_comments, ..s },
        ),
        remote_stepped(s, RemoteReplyView::Failed(message)) == (
            RemoteNextView::Done(Err(message)),
            s,
        ),
{
}

/// A list answers its own question and no other, and a failure answers any.
pub proof fn lists_answer_their_questions(m: RemoteRefresh, reply: RemoteReplyView)
    ensures
        answers(m, reply) <==> match m {
            RemoteRefresh::PullRequests => reply is PullRequests || reply is Failed,
            RemoteRefresh::WorkflowRuns => reply is WorkflowRuns || reply is Failed,
            RemoteRefresh::Comments => reply is Comments || reply is Failed,
        },
{
}

/// The view of an answer shows all that it holds.
pub proof fn remote_views_show_every_item(reply: RemoteReply, next: RemoteNext, i: int)
    ensures
        reply matches RemoteReply::PullRequests(v) ==> {
            &&& reply.deep_view() matches RemoteReplyView::PullRequests(w)
            &&& w.len() == v.len()
            &&& 0 <= i < v.len() ==> w[i] == v[i].deep_view()
        },
        reply matches RemoteReply::WorkflowRuns(v) ==> {
            &&& reply.deep_view() matches RemoteReplyView::WorkflowRuns(w)
            &&& w.len() == v.len()
            &&& 0 <= i < v.len() ==> w[i] == v[i].deep_view()
        },
        reply matches RemoteReply::Comments(v) ==> {
            &&& reply.deep_view() matches RemoteReplyView::Comments(w)
            &&& w.len() == v.len()
            &&& 0 <= i < v.len() ==> w[i] == v[i].deep_view()
        },
        reply matches RemoteReply::Failed(message) ==> reply.deep_view() == RemoteReplyView::Failed(
            message@,
        ),
        next matches RemoteNext::Wait(m) ==> next.deep_view() == RemoteNextView::Wait(m),
        next matches RemoteNext::Done(Ok(_)) ==> next.deep_view() == RemoteNextView::Done(Ok(())),
        next matches RemoteNext::Done(Err(message)) ==> next.deep_view() == RemoteNextView::Done(
            Err(message@),
        ),
{
}

/// A refresh that fails ends with the reason, and what was read before it stays.
pub proof fn remote_failure_keeps_what_was_read(
    s: DashboardView,
    prs: Seq<PullRequestView>,
    workflow_runs: Seq<WorkflowRunView>,
    message: Text,
)
    ensures
        ({
            let start = RemoteNextView::Wait(RemoteRefresh::PullRequests);
            let broken = RemoteNextView::Done(Err(message));
            let first = RemoteReplyView::PullRequests(prs);
            let second = RemoteReplyView::WorkflowRuns(workflow_runs);
            let failure = RemoteReplyView::Failed(message);
            &&& remote_run(start, s, seq![failure]) == (broken, s)
            &&& remote_run(start, s, seq![first, failure]) == (broken, DashboardView { prs, ..s })
            &&& remote_run(start, s, seq![first, second, failure]) == (
                broken,
                DashboardView { prs, workflow_runs, ..s },
            )
        }),
{
    reveal_with_fuel(remote_run, 4);
}

/// Begins a refresh at the time `now`.
pub fn begin_remote_refresh(state: &mut DashboardState, now: Moment) -> (r: RemoteRefresh)
    ensures
        r == RemoteRefresh::PullRequests,
        final(state)@ == remote_begun(old(state)@, now),
        old(state)@.wf() ==> final(state)@.wf(),
{
    state.last_updated = now;
    state.last_remote_refresh = now;
    RemoteRefresh::PullRequests
}

impl RemoteRefresh {
    /// The arguments for `gh` whose answer the refresh waits for.
    pub fn args(&self) -> (r: Vec<String>)
        ensures
            r.deep_view() == remote_args(*self),
    {
        let r = match self {
            RemoteRefresh::PullRequests => vec![
                "pr".to_string(),
                "list".to_string(),
                "--limit".to_string(),
                "5".to_string(),
                "--json".to_string(),
                "number,title,author,state,headRefName".to_string(),
            ],
            RemoteRefresh::WorkflowRuns => vec![
                "run".to_string(),
                "list".to_string(),
                "--limit".to_string(),
                "5".to_string(),
                "--json".to_string(),
                "name,status,conclusion".to_string(),
            ],
            RemoteRefresh::Comments => vec![
                "api".to_string(),
                "repos/{owner}/{repo}/issues/comments".to_string(),
                "-q".to_string(),
                ".[:5] | map({body: .body[:100], author: {login: .user.login}})".to_string(),
            ],
        };
        assert(r.deep_view() =~= remote_args(*self));
        r
    }

    /// Whether this is an answer to what was asked.
    pub fn is_answered_by(&self, reply: &RemoteReply) -> (r: bool)
        ensures
            r == answers(*self, reply.deep_view()),
    {
        match reply {
            RemoteReply::PullRequests(_) => *self == RemoteRefresh::PullRequests,
            RemoteReply::WorkflowRuns(_) => *self == RemoteRefresh::WorkflowRuns,
            RemoteReply::Comments(_) => *self == RemoteRefresh::Comments,
            RemoteReply::Failed(_) => true,
        }
    }

    /// Goes on with the answer.
    pub fn step(self, state: &mut DashboardState, reply: RemoteReply) -> (r: RemoteNext)
        requires
            answers(self, reply.deep_view()),
        ensures
            (r.deep_view(), final(state)@) == remote_stepped(old(state)@, reply.deep_view()),
            old(state)@.wf() ==> final(state)@.wf(),
    {
        match reply {
            RemoteReply::PullRequests(prs) => {
                state.prs = prs;
                RemoteNext::Wait(RemoteRefresh::WorkflowRuns)
            },
            RemoteReply::WorkflowRuns(runs) => {
                state.workflow_runs = runs;
                RemoteNext::Wait(RemoteRefresh::Comments)
            },
            RemoteReply::Comments(comments) => {
                state.recent_comments = comments;
                RemoteNext::Done(Ok(()))
            },
            RemoteReply::Failed(message) => RemoteNext::Done(Err(message)),
        }
    }
}

} // verus!
