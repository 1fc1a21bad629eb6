//! Bringing the data of the local repository up to date: what is asked of git, one command
//! after the other, and what becomes of the answers.

use vstd::prelude::*;

use crate::clock::Moment;
use crate::file_diff;
use crate::file_diff::{begin_file_diff, FileDiff, FileDiffView};
use crate::model::{DashboardState, DashboardView, FileChange, FileChangeView};
use crate::patterns;
use crate::patterns::extract_repo_name;
use crate::process;
use crate::process::detect_default_branch;
use crate::selection;
use crate::selection::clamp_index;
use crate::strings::{lines_of, trimmed};
use crate::text;
use crate::text::Text;
use crate::working_tree;
use crate::working_tree::{
    load_working_tree_changes, try_load_working_tree_changes, try_parse_numstat_entries,
    try_parse_status_entries,
};

verus! {

/// A refresh that waits for an answer, with what it has to remember of the earlier ones.
#[derive(Debug, PartialEq, Eq)]
pub enum LocalRefresh {
    RemoteUrl,
    CurrentBranch,
    OriginHead,
    MainBranch,
    MasterBranch,
    LastCommit,
    Graph,
    Status,
    Unstaged { status: String },
    Staged { status: String, unstaged: String },
    Diff(FileDiff),
}

/// A [`LocalRefresh`] as a mathematical value.
#[verifier::ext_equal]
pub enum LocalRefreshView {
    RemoteUrl,
    CurrentBranch,
    OriginHead,
    MainBranch,
    MasterBranch,
    LastCommit,
    Graph,
    Status,
    Unstaged { status: Text },
    Staged { status: Text, unstaged: Text },
    Diff(FileDiffView),
}

impl DeepView for LocalRefresh {
    type V = LocalRefreshView;

    open spec fn deep_view(&self) -> LocalRefreshView {
        match self {
            LocalRefresh::RemoteUrl => LocalRefreshView::RemoteUrl,
            LocalRefresh::CurrentBranch => LocalRefreshView::CurrentBranch,
            LocalRefresh::OriginHead => LocalRefreshView::OriginHead,
            LocalRefresh::MainBranch => LocalRefreshView::MainBranch,
            LocalRefresh::MasterBranch => LocalRefreshView::MasterBranch,
            LocalRefresh::LastCommit => LocalRefreshView::LastCommit,
            LocalRefresh::Graph => LocalRefreshView::Graph,
            LocalRefresh::Status => LocalRefreshView::Status,
            LocalRefresh::Unstaged { status } => LocalRefreshView::Unstaged { status: status@ },
            LocalRefresh::Staged { status, unstaged } => LocalRefreshView::Staged {
                status: status@,
                unstaged: unstaged@,
            },
            LocalRefresh::Diff(d) => LocalRefreshView::Diff(d.deep_view()),
        }
    }
}

/// What a refresh does next: it waits for another answer, or it is done, well or not.
#[derive(Debug, PartialEq, Eq)]
pub enum LocalNext {
    Wait(LocalRefresh),
    Done(Result<(), String>),
}

/// A [`LocalNext`] as a mathematical value.
#[verifier::ext_equal]
pub enum LocalNextView {
    Wait(LocalRefreshView),
    Done(Result<(), Text>),
}

impl DeepView for LocalNext {
    type V = LocalNextView;

    open spec fn deep_view(&self) -> LocalNextView {
        match self {
            LocalNext::Wait(m) => LocalNextView::Wait(m.deep_view()),
            LocalNext::Done(outcome) => LocalNextView::Done(process::outcome_view(*outcome)),
        }
    }
}

/// The state when a refresh begins at the time `now`.
pub open spec fn local_begun(s: DashboardView, now: Moment) -> DashboardView {
    DashboardView { last_updated: now, last_local_refresh: now, ..s }
}

/// The arguments for `git` whose answer the refresh waits for.
pub open spec fn local_args(m: LocalRefreshView, s: DashboardView) -> Seq<Text> {
    match m {
        LocalRefreshView::RemoteUrl => seq!["remote"@, "get-url"@, "origin"@],
        LocalRefreshView::CurrentBranch => seq!["branch"@, "--show-current"@],
        LocalRefreshView::OriginHead => seq!["symbolic-ref"@, "refs/remotes/origin/HEAD"@],
        LocalRefreshView::MainBranch => seq!["rev-parse"@, "--verify"@, "main"@],
        LocalRefreshView::MasterBranch => seq!["rev-parse"@, "--verify"@, "master"@],
        LocalRefreshView::LastCommit => seq![
            "log"@,
            s.default_branch,
            "-1"@,
            "--format=%h | %s | %an | %ar"@,
        ],
        LocalRefreshView::Graph => seq![
            "log"@,
            "--all"@,
            "--graph"@,
            "--decorate"@,
            "--oneline"@,
            "--color=never"@,
            "-24"@,
        ],
        LocalRefreshView::Status => seq!["status"@, "--short"@],
        LocalRefreshView::Unstaged { .. } => seq!["diff"@, "--numstat"@],
        LocalRefreshView::Staged { .. } => seq!["diff"@, "--cached"@, "--numstat"@],
        LocalRefreshView::Diff(d) => file_diff::diff_args(d),
    }
}

/// Whether the answer can be read. Where git failed there is nothing to read.
pub open spec fn local_readable(m: LocalRefreshView, reply: Result<Text, Text>) -> bool {
    match reply {
        Ok(output) => match m {
            LocalRefreshView::Status => working_tree::status_readable(text::lines(output)),
            LocalRefreshView::Unstaged { .. } => working_tree::counts_fit(
                working_tree::numstat_map(text::lines(output)),
            ),
            LocalRefreshView::Staged { status, unstaged } => working_tree::tree_readable(
                status,
                unstaged,
                output,
            ),
            _ => true,
        },
        Err(_) => true,
    }
}

/// The name of the repository that the answer gives, if it gives any.
pub open spec fn named_repo(output: Text) -> Text {
    match patterns::repo_name(output) {
        Some(name) => name,
        None => "Local Repo"@,
    }
}

/// The state with the commit graph that git printed.
pub open spec fn with_graph(s: DashboardView, output: Text) -> DashboardView {
    let graph = text::lines(output);
    DashboardView {
        git_graph: graph,
        selected_commit_index: selection::clamp(s.selected_commit_index as int, graph.len()),
        ..s
    }
}

/// The state with these changed files.
pub open spec fn with_tree(s: DashboardView, files: Seq<FileChangeView>) -> DashboardView {
    DashboardView {
        working_tree: files,
        selected_file_index: selection::clamp(s.selected_file_index as int, files.len()),
        ..s
    }
}

/// How a refresh ends: the diff of the selected file is read again when it is on the screen.
pub open spec fn tree_read(s: DashboardView) -> (LocalNextView, DashboardView) {
    if s.show_file_overlay {
        let (diff, t) = file_diff::diff_begun(s);
        match diff {
            Some(d) => (LocalNextView::Wait(LocalRefreshView::Diff(d)), t),
            None => (LocalNextView::Done(Ok(())), t),
        }
    } else {
        (LocalNextView::Done(Ok(())), s)
    }
}

/// The refresh waits for the answer that `m` names.
pub open spec fn wait(m: LocalRefreshView, s: DashboardView) -> (LocalNextView, DashboardView) {
    (LocalNextView::Wait(m), s)
}

/// How a refresh goes on with an answer. A failure ends it, with two exceptions: a repository
/// without a remote keeps the name it had, and a remote without a head leaves the default branch
/// to be found among those that are there.
pub open spec fn local_stepped(
    m: LocalRefreshView,
    s: DashboardView,
    reply: Result<Text, Text>,
) -> (LocalNextView, DashboardView) {
    match (m, reply) {
        (LocalRefreshView::RemoteUrl, Ok(output)) => wait(
            LocalRefreshView::CurrentBranch,
            DashboardView { repo_name: named_repo(output), ..s },
        ),
        (LocalRefreshView::RemoteUrl, Err(_)) => wait(LocalRefreshView::CurrentBranch, s),
        (LocalRefreshView::CurrentBranch, Ok(output)) => wait(
            LocalRefreshView::OriginHead,
            DashboardView { current_branch: text::trim(output), ..s },
        ),
        (LocalRefreshView::OriginHead, Ok(output)) => wait(
            LocalRefreshView::LastCommit,
            DashboardView {
                default_branch: process::default_branch(Some(output), false, false)->0,
                ..s
            },
        ),
        (LocalRefreshView::OriginHead, Err(_)) => wait(LocalRefreshView::MainBranch, s),
        (LocalRefreshView::MainBranch, Ok(_)) => wait(
            LocalRefreshView::LastCommit,
            DashboardView { default_branch: process::default_branch(None, true, false)->0, ..s },
        ),
        (LocalRefreshView::MainBranch, Err(_)) => wait(LocalRefreshView::MasterBranch, s),
        (LocalRefreshView::MasterBranch, _) => wait(
            LocalRefreshView::LastCommit,
            DashboardView {
                default_branch: match process::default_branch(None, false, reply is Ok) {
                    Some(name) => name,
                    None => "main"@,
                },
                ..s
            },
        ),
        (LocalRefreshView::LastCommit, Ok(output)) => wait(
            LocalRefreshView::Graph,
            DashboardView { last_commit_main: text::trim(output), ..s },
        ),
        (LocalRefreshView::Graph, Ok(output)) => wait(
            LocalRefreshView::Status,
            with_graph(s, output),
        ),
        (LocalRefreshView::Status, Ok(output)) => wait(
            LocalRefreshView::Unstaged { status: output },
            s,
        ),
        (LocalRefreshView::Unstaged { status }, Ok(output)) => wait(
            LocalRefreshView::Staged { status, unstaged: output },
            s,
        ),
        (LocalRefreshView::Staged { status, unstaged }, Ok(output)) => tree_read(
            with_tree(s, working_tree::working_tree(status, unstaged, output)),
        ),
        (LocalRefreshView::Diff(d), _) => {
            let (next, t) = file_diff::diff_stepped(d, s, reply);
            match next {
                Some(e) => wait(LocalRefreshView::Diff(e), t),
                None => (LocalNextView::Done(Ok(())), t),
            }
        },
        (_, Err(message)) => (LocalNextView::Done(Err(message)), s),
    }
}

// ---------------------------------------------------------------------------
// Laws
// ---------------------------------------------------------------------------

/// A refresh that gets these answers, one after the other.
pub open spec fn local_run(
    next: LocalNextView,
    s: DashboardView,
    replies: Seq<Result<Text, Text>>,
) -> (LocalNextView, DashboardView)
    decreases replies.len(),
{
    match next {
        LocalNextView::Done(_) => (next, s),
        LocalNextView::Wait(m) => if replies.len() == 0 {
            (next, s)
        } else {
            let (n, t) = local_stepped(m, s, replies[0]);
            local_run(n, t, replies.skip(1))
        },
    }
}

/// What a repository answers: the address of its remote, if it has one, the head of the remote,
/// if it has one, which of the usual branches are there, and the rest.
pub struct Repository {
    pub url: Result<Text, Text>,
    pub branch: Text,
    pub head: Result<Text, Text>,
    pub main: Result<Text, Text>,
    pub master: Result<Text, Text>,
    pub last_commit: Text,
    pub graph: Text,
    pub status: Text,
    pub unstaged: Text,
    pub staged: Text,
}

impl Repository {
    /// The answers from which the default branch is found.
    pub open spec fn branch_replies(self) -> Seq<Result<Text, Text>> {
        if self.head is Ok {
            seq![self.head]
        } else if self.main is Ok {
            seq![self.head, self.main]
        } else {
            seq![self.head, self.main, self.master]
        }
    }

    /// The answers after the default branch is found.
    pub open spec fn later_replies(self) -> Seq<Result<Text, Text>> {
        seq![
            Ok(self.last_commit),
            Ok(self.graph),
            Ok(self.status),
            Ok(self.unstaged),
            Ok(self.staged),
        ]
    }

    /// All answers of a refresh, in the order in which they are asked for.
    pub open spec fn replies(self) -> Seq<Result<Text, Text>> {
        seq![self.url, Ok(self.branch)] + self.branch_replies() + self.later_replies()
    }

    /// The default branch.
    pub open spec fn default_branch(self) -> Text {
        match process::default_branch(
            match self.head {
                Ok(head) => Some(head),
                Err(_) => None,
            },
            self.main is Ok,
            self.master is Ok,
        ) {
            Some(name) => name,
            None => "main"@,
        }
    }

    /// The state once all answers are read.
    pub open spec fn shown(self, s: DashboardView) -> DashboardView {
        let graph = text::lines(self.graph);
        let files = working_tree::working_tree(self.status, self.unstaged, self.staged);
        DashboardView {
            repo_name: match self.url {
                Ok(url) => match patterns::repo_name(url) {
                    Some(name) => name,
                    None => "Local Repo"@,
                },
                Err(_) => s.repo_name,
            },
            current_branch: text::trim(self.branch),
            default_branch: self.default_branch(),
            last_commit_main: text::trim(self.last_commit),
            git_graph: graph,
            selected_commit_index: selection::clamp(s.selected_commit_index as int, graph.len()),
            working_tree: files,
            selected_file_index: selection::clamp(s.selected_file_index as int, files.len()),
            ..s
        }
    }
}

/// Answers that come in two batches lead where they lead in one.
proof fn local_run_splits(
    next: LocalNextView,
    s: DashboardView,
    first: Seq<Result<Text, Text>>,
    second: Seq<Result<Text, Text>>,
)
    ensures
        local_run(next, s, first + second) == ({
            let (n, t) = local_run(next, s, first);
            local_run(n, t, second)
        }),
    decreases first.len(),
{
    if first.len() == 0 {
        assert(first + second =~= second);
    } else if let LocalNextView::Wait(m) = next {
        let (n, t) = local_stepped(m, s, first[0]);
        assert((first + second).skip(1) =~= first.skip(1) + second);
        local_run_splits(n, t, first.skip(1), second);
    }
}

/// The answers from which the default branch is found lead to it.
proof fn branch_is_found(s: DashboardView, repository: Repository)
    ensures
        local_run(
            LocalNextView::Wait(LocalRefreshView::OriginHead),
            s,
            repository.branch_replies(),
        ) == wait(
            LocalRefreshView::LastCommit,
            DashboardView { default_branch: repository.default_branch(), ..s },
        ),
{
    reveal_with_fuel(local_run, 4);
    let replies = repository.branch_replies();
    if repository.head is Ok {
        assert(replies.skip(1) =~= seq![]);
    } else if repository.main is Ok {
        assert(replies.skip(1) =~= seq![repository.main]);
        assert(replies.skip(1).skip(1) =~= seq![]);
    } else {
        assert(replies.skip(1) =~= seq![repository.main, repository.master]);
        assert(replies.skip(1).skip(1) =~= seq![repository.master]);
        assert(replies.skip(1).skip(1).skip(1) =~= seq![]);
    }
}

/// The answers after the default branch is found are all read.
proof fn rest_is_read(s: DashboardView, repository: Repository)
    ensures
        local_run(
            LocalNextView::Wait(LocalRefreshView::LastCommit),
            s,
            repository.later_replies(),
        ) == tree_read(
            with_tree(
                with_graph(
                    DashboardView { last_commit_main: text::trim(repository.last_commit), ..s },
                    repository.graph,
                ),
                working_tree::working_tree(
                    repository.status,
                    repository.unstaged,
                    repository.staged,
                ),
            ),
        ),
{
    let r0 = repository.later_replies();
    let r1 = r0.skip(1);
    let r2 = r1.skip(1);
    let r3 = r2.skip(1);
    let r4 = r3.skip(1);
    let s1 = DashboardView { last_commit_main: text::trim(repository.last_commit), ..s };
    let s2 = with_graph(s1, repository.graph);
    let unstaged = LocalRefreshView::Unstaged { status: repository.status };
    let staged = LocalRefreshView::Staged {
        status: repository.status,
        unstaged: repository.unstaged,
    };
    assert(r4.skip(1) =~= seq![]);
    local_run_step(LocalRefreshView::LastCommit, s, r0);
    local_run_step(LocalRefreshView::Graph, s1, r1);
    local_run_step(LocalRefreshView::Status, s2, r2);
    local_run_step(unstaged, s2, r3);
    local_run_step(staged, s2, r4);
}

/// A refresh that gets an answer takes one step.
proof fn local_run_step(m: LocalRefreshView, s: DashboardView, replies: Seq<Result<Text, Text>>)
    requires
        replies.len() > 0,
    ensures
        local_run(LocalNextView::Wait(m), s, replies) == ({
            let (n, t) = local_stepped(m, s, replies[0]);
            local_run(n, t, replies.skip(1))
        }),
{
}

/// Once the repository has answered everything, the dashboard shows what it answered, with each
/// changed file once and in the order of the paths, and nothing else has changed: what is asked
/// for on the way to the default branch leaves no trace.
/// The refresh then ends well, or goes on with the diff of the selected file where that is on
/// the screen.
pub proof fn local_refresh_shows_repository(s: DashboardView, repository: Repository)
    ensures
        local_run(LocalNextView::Wait(LocalRefreshView::RemoteUrl), s, repository.replies())
            == tree_read(repository.shown(s)),
        working_tree::lists_tree(
            repository.shown(s).working_tree,
            repository.status,
            repository.unstaged,
            repository.staged,
        ),
        !s.show_file_overlay ==> tree_read(repository.shown(s)) == (
            LocalNextView::Done(Ok(())),
            repository.shown(s),
        ),
{
    let front: Seq<Result<Text, Text>> = seq![repository.url, Ok(repository.branch)];
    let middle = repository.branch_replies();
    let back = repository.later_replies();
    let start = LocalNextView::Wait(LocalRefreshView::RemoteUrl);
    let s1 = DashboardView {
        repo_name: match repository.url {
            Ok(url) => named_repo(url),
            Err(_) => s.repo_name,
        },
        ..s
    };
    let s2 = DashboardView { current_branch: text::trim(repository.branch), ..s1 };
    let s3 = DashboardView { default_branch: repository.default_branch(), ..s2 };
    local_run_splits(start, s, front + middle, back);
    local_run_splits(start, s, front, middle);
    local_run_step(LocalRefreshView::RemoteUrl, s, front);
    local_run_step(LocalRefreshView::CurrentBranch, s1, front.skip(1));
    branch_is_found(s2, repository);
    rest_is_read(s3, repository);
    working_tree::working_tree_lists(
        repository.status,
        repository.unstaged,
        repository.staged,
    );
}

/// What a refresh asks for while it gets these answers.
pub open spec fn local_trace(
    next: LocalNextView,
    s: DashboardView,
    replies: Seq<Result<Text, Text>>,
) -> Seq<Seq<Text>>
    decreases replies.len(),
{
    match next {
        LocalNextView::Done(_) => seq![],
        LocalNextView::Wait(m) => if replies.len() == 0 {
            seq![]
        } else {
            let (n, t) = local_stepped(m, s, replies[0]);
            seq![local_args(m, s)] + local_trace(n, t, replies.skip(1))
        },
    }
}

/// One question, and then the rest.
proof fn local_trace_step(m: LocalRefreshView, s: DashboardView, replies: Seq<Result<Text, Text>>)
    requires
        replies.len() > 0,
    ensures
        local_trace(LocalNextView::Wait(m), s, replies) == ({
            let (n, t) = local_stepped(m, s, replies[0]);
            seq![local_args(m, s)] + local_trace(n, t, replies.skip(1))
        }),
{
}

/// What is asked for the default branch: the head of the remote, and only where that is not there
/// whether the usual branches are, `main` before `master`.
proof fn branch_questions(
    s: DashboardView,
    repository: Repository,
    rest: Seq<Result<Text, Text>>,
)
    ensures
        local_trace(
            LocalNextView::Wait(LocalRefreshView::OriginHead),
            s,
            repository.branch_replies() + rest,
        ) == (if repository.head is Ok {
            seq![seq!["symbolic-ref"@, "refs/remotes/origin/HEAD"@]]
        } else if repository.main is Ok {
            seq![
                seq!["symbolic-ref"@, "refs/remotes/origin/HEAD"@],
                seq!["rev-parse"@, "--verify"@, "main"@],
            ]
        } else {
            seq![
                seq!["symbolic-ref"@, "refs/remotes/origin/HEAD"@],
                seq!["rev-parse"@, "--verify"@, "main"@],
                seq!["rev-parse"@, "--verify"@, "master"@],
            ]
        }) + local_trace(
            LocalNextView::Wait(LocalRefreshView::LastCommit),
            DashboardView { default_branch: repository.default_branch(), ..s },
            rest,
        ),
{
    let all = repository.branch_replies() + rest;
    let t = DashboardView { default_branch: repository.default_branch(), ..s };
    let end = local_trace(LocalNextView::Wait(LocalRefreshView::LastCommit), t, rest);
    let head = seq!["symbolic-ref"@, "refs/remotes/origin/HEAD"@];
    let main = seq!["rev-parse"@, "--verify"@, "main"@];
    let master = seq!["rev-parse"@, "--verify"@, "master"@];
    local_trace_step(LocalRefreshView::OriginHead, s, all);
    if repository.head is Ok {
        assert(all.skip(1) =~= rest);
    } else {
        local_trace_step(LocalRefreshView::MainBranch, s, all.skip(1));
        if repository.main is Ok {
            assert(all.skip(1).skip(1) =~= rest);
            assert(seq![head] + (seq![main] + end) =~= seq![head, main] + end);
        } else {
            local_trace_step(LocalRefreshView::MasterBranch, s, all.skip(1).skip(1));
            assert(all.skip(1).skip(1).skip(1) =~= rest);
            assert(seq![head] + (seq![main] + (seq![master] + end)) =~= seq![head, main, master]
                + end);
        }
    }
}

/// What is asked for once the default branch is known.
proof fn later_questions(s: DashboardView, repository: Repository)
    ensures
        local_trace(
            LocalNextView::Wait(LocalRefreshView::LastCommit),
            s,
            repository.later_replies(),
        ) == seq![
            seq!["log"@, s.default_branch, "-1"@, "--format=%h | %s | %an | %ar"@],
            seq![
                "log"@,
                "--all"@,
                "--graph"@,
                "--decorate"@,
                "--oneline"@,
                "--color=never"@,
                "-24"@,
            ],
            seq!["status"@, "--short"@],
            seq!["diff"@, "--numstat"@],
            seq!["diff"@, "--cached"@, "--numstat"@],
        ],
{
    let r0 = repository.later_replies();
    let r1 = r0.skip(1);
    let r2 = r1.skip(1);
    let r3 = r2.skip(1);
    let r4 = r3.skip(1);
    let r5 = r4.skip(1);
    assert(r5 =~= seq![]);
    let s1 = DashboardView { last_commit_main: text::trim(repository.last_commit), ..s };
    let s2 = with_graph(s1, repository.graph);
    let unstaged = LocalRefreshView::Unstaged { status: repository.status };
    let staged = LocalRefreshView::Staged {
        status: repository.status,
        unstaged: repository.unstaged,
    };
    local_trace_step(LocalRefreshView::LastCommit, s, r0);
    local_trace_step(LocalRefreshView::Graph, s1, r1);
    local_trace_step(LocalRefreshView::Status, s2, r2);
    local_trace_step(unstaged, s2, r3);
    local_trace_step(staged, s2, r4);
    let (n, t) = local_stepped(staged, s2, r4[0]);
    assert(local_trace(n, t, r5) =~= seq![]);
    let a0 = local_args(LocalRefreshView::LastCommit, s);
    let a1 = local_args(LocalRefreshView::Graph, s1);
    let a2 = local_args(LocalRefreshView::Status, s2);
    let a3 = local_args(unstaged, s2);
    let a4 = local_args(staged, s2);
    assert(seq![a0] + (seq![a1] + (seq![a2] + (seq![a3] + (seq![a4] + local_trace(n, t, r5)))))
        =~= seq![a0, a1, a2, a3, a4]);
}

/// A refresh asks git for the address of the remote, the current branch, what it takes to find
/// the default branch, the last commit of that branch, the graph of the last commits, the status
/// and the two counts, in this order and with these arguments.
pub proof fn local_refresh_asks_in_turn(s: DashboardView, repository: Repository)
    ensures
        local_trace(LocalNextView::Wait(LocalRefreshView::RemoteUrl), s, repository.replies())
            == seq![
            seq!["remote"@, "get-url"@, "origin"@],
            seq!["branch"@, "--show-current"@],
        ] + (if repository.head is Ok {
            seq![seq!["symbolic-ref"@, "refs/remotes/origin/HEAD"@]]
        } else if repository.main is Ok {
            seq![
                seq!["symbolic-ref"@, "refs/remotes/origin/HEAD"@],
                seq!["rev-parse"@, "--verify"@, "main"@],
            ]
        } else {
            seq![
                seq!["symbolic-ref"@, "refs/remotes/origin/HEAD"@],
                seq!["rev-parse"@, "--verify"@, "main"@],
                seq!["rev-parse"@, "--verify"@, "master"@],
            ]
        }) + seq![
            seq!["log"@, repository.default_branch(), "-1"@, "--format=%h | %s | %an | %ar"@],
            seq![
                "log"@,
                "--all"@,
                "--graph"@,
                "--decorate"@,
                "--oneline"@,
                "--color=never"@,
                "-24"@,
            ],
            seq!["status"@, "--short"@],
            seq!["diff"@, "--numstat"@],
            seq!["diff"@, "--cached"@, "--numstat"@],
        ],
{
    let all = repository.replies();
    let s1 = DashboardView {
        repo_name: match repository.url {
            Ok(url) => named_repo(url),
            Err(_) => s.repo_name,
        },
        ..s
    };
    let s2 = DashboardView { current_branch: text::trim(repository.branch), ..s1 };
    let s3 = DashboardView { default_branch: repository.default_branch(), ..s2 };
    let middle = repository.branch_replies();
    let back = repository.later_replies();
    local_trace_step(LocalRefreshView::RemoteUrl, s, all);
    local_trace_step(LocalRefreshView::CurrentBranch, s1, all.skip(1));
    assert(all.skip(1).skip(1) =~= middle + back);
    branch_questions(s2, repository, back);
    later_questions(s3, repository);
    let a = local_args(LocalRefreshView::RemoteUrl, s);
    let b = local_args(LocalRefreshView::CurrentBranch, s1);
    let rest = local_trace(LocalNextView::Wait(LocalRefreshView::OriginHead), s2, middle + back);
    assert(seq![a] + (seq![b] + rest) =~= seq![a, b] + rest);
    let end = local_trace(LocalNextView::Wait(LocalRefreshView::LastCommit), s3, back);
    let questions = if repository.head is Ok {
        seq![seq!["symbolic-ref"@, "refs/remotes/origin/HEAD"@]]
    } else if repository.main is Ok {
        seq![
            seq!["symbolic-ref"@, "refs/remotes/origin/HEAD"@],
            seq!["rev-parse"@, "--verify"@, "main"@],
        ]
    } else {
        seq![
            seq!["symbolic-ref"@, "refs/remotes/origin/HEAD"@],
            seq!["rev-parse"@, "--verify"@, "main"@],
            seq!["rev-parse"@, "--verify"@, "master"@],
        ]
    };
    assert(rest == questions + end);
    assert(seq![a, b] + (questions + end) =~= seq![a, b] + questions + end);
}

/// Each answer is kept as soon as it comes, and changes nothing else. The address gives the name
/// of the repository, or a stand-in; the branches and the last commit are trimmed; the graph is
/// taken line by line, and what is selected in it stays so as far as it is there.
pub proof fn each_answer_is_kept_at_once(s: DashboardView, output: Text, message: Text)
    ensures
        local_stepped(LocalRefreshView::RemoteUrl, s, Ok(output)) == (
            LocalNextView::Wait(LocalRefreshView::CurrentBranch),
            DashboardView {
                repo_name: match patterns::repo_name(output) {
                    Some(name) => name,
                    None => "Local Repo"@,
                },
                ..s
            },
        ),
        local_stepped(LocalRefreshView::RemoteUrl, s, Err(message)) == (
            LocalNextView::Wait(LocalRefreshView::CurrentBranch),
            s,
        ),
        local_stepped(LocalRefreshView::CurrentBranch, s, Ok(output)) == (
            LocalNextView::Wait(LocalRefreshView::OriginHead),
            DashboardView { current_branch: text::trim(output), ..s },
        ),
        local_stepped(LocalRefreshView::OriginHead, s, Ok(output)) == (
            LocalNextView::Wait(LocalRefreshView::LastCommit),
            DashboardView {
                default_branch: text::after_last_char(text::trim(output), '/'),
                ..s
            },
        ),
        local_stepped(LocalRefreshView::OriginHead, s, Err(message)) == (
            LocalNextView::Wait(LocalRefreshView::MainBranch),
            s,
        ),
        local_stepped(LocalRefreshView::MainBranch, s, Ok(output)) == (
            LocalNextView::Wait(LocalRefreshView::LastCommit),
            DashboardView { default_branch: "main"@, ..s },
        ),
        local_stepped(LocalRefreshView::MainBranch, s, Err(message)) == (
            LocalNextView::Wait(LocalRefreshView::MasterBranch),
            s,
        ),
        local_stepped(LocalRefreshView::MasterBranch, s, Ok(output)) == (
            LocalNextView::Wait(LocalRefreshView::LastCommit),
            DashboardView { default_branch: "master"@, ..s },
        ),
        local_stepped(LocalRefreshView::MasterBranch, s, Err(message)) == (
            LocalNextView::Wait(LocalRefreshView::LastCommit),
            DashboardView { default_branch: "main"@, ..s },
        ),
        local_stepped(LocalRefreshView::LastCommit, s, Ok(output)) == (
            LocalNextView::Wait(LocalRefreshView::Graph),
            DashboardView { last_commit_main: text::trim(output), ..s },
        ),
        local_stepped(LocalRefreshView::Graph, s, Ok(output)) == (
            LocalNextView::Wait(LocalRefreshView::Status),
            DashboardView {
                git_graph: text::lines(output),
                selected_commit_index: selection::clamp(
                    s.selected_commit_index as int,
                    text::lines(output).len(),
                ),
                ..s
            },
        ),
{
}

/// The status and the two counts are put together once all three are there, what is selected among
/// the files stays so as far as it is there, and until then nothing changes. Where no diff is on
/// the screen, the refresh then ends well.
pub proof fn tree_is_shown_once_it_is_whole(
    s: DashboardView,
    status: Text,
    unstaged: Text,
    staged: Text,
)
    ensures
        local_stepped(LocalRefreshView::Status, s, Ok(status)) == (
            LocalNextView::Wait(LocalRefreshView::Unstaged { status }),
            s,
        ),
        local_stepped(LocalRefreshView::Unstaged { status }, s, Ok(unstaged)) == (
            LocalNextView::Wait(LocalRefreshView::Staged { status, unstaged }),
            s,
        ),
        ({
            let files = working_tree::working_tree(status, unstaged, staged);
            let t = DashboardView {
                working_tree: files,
                selected_file_index: selection::clamp(s.selected_file_index as int, files.len()),
                ..s
            };
            let (next, u) = local_stepped(
                LocalRefreshView::Staged { status, unstaged },
                s,
                Ok(staged),
            );
            &&& !s.show_file_overlay ==> next == LocalNextView::Done(Ok(())) && u == t
            &&& s.show_file_overlay ==> ({
                let (diff, v) = file_diff::diff_begun(t);
                &&& u == v
                &&& diff is None ==> next == LocalNextView::Done(Ok(()))
                &&& diff matches Some(d) ==> next == LocalNextView::Wait(LocalRefreshView::Diff(d))
            })
        }),
{
}

/// The diff of a refresh is the diff of the file, question by question and answer by answer, and
/// the refresh ends well with it.
pub proof fn diff_of_a_refresh_is_the_diff(
    d: FileDiffView,
    s: DashboardView,
    reply: Result<Text, Text>,
)
    ensures
        local_args(LocalRefreshView::Diff(d), s) == file_diff::diff_args(d),
        ({
            let (next, t) = local_stepped(LocalRefreshView::Diff(d), s, reply);
            let (diff, u) = file_diff::diff_stepped(d, s, reply);
            &&& t == u
            &&& diff is None ==> next == LocalNextView::Done(Ok(()))
            &&& diff matches Some(e) ==> next == LocalNextView::Wait(LocalRefreshView::Diff(e))
        }),
{
}

/// Every failure can be read, and every answer but those that make up the tree; of these the
/// status has to have its columns, and the counts have to fit.
pub proof fn most_answers_can_be_read(m: LocalRefreshView, output: Text, message: Text)
    ensures
        local_readable(m, Err(message)),
        match m {
            LocalRefreshView::Status => local_readable(m, Ok(output))
                <==> working_tree::status_readable(text::lines(output)),
            LocalRefreshView::Unstaged { .. } => local_readable(m, Ok(output))
                <==> working_tree::counts_fit(working_tree::numstat_map(text::lines(output))),
            LocalRefreshView::Staged { status, unstaged } => local_readable(m, Ok(output))
                <==> working_tree::tree_readable(status, unstaged, output),
            _ => local_readable(m, Ok(output)),
        },
{
}

/// A refresh begins with its time kept, and nothing else changes.
pub proof fn local_refresh_keeps_its_time(s: DashboardView, now: Moment)
    ensures
        local_begun(s, now) == (DashboardView { last_updated: now, last_local_refresh: now, ..s }),
{
}

/// The views of a refresh show all that it holds.
pub proof fn local_views_show_every_field(m: LocalRefresh, next: LocalNext)
    ensures
        m is RemoteUrl ==> m.deep_view() == LocalRefreshView::RemoteUrl,
        m is CurrentBranch ==> m.deep_view() == LocalRefreshView::CurrentBranch,
        m is OriginHead ==> m.deep_view() == LocalRefreshView::OriginHead,
        m is MainBranch ==> m.deep_view() == LocalRefreshView::MainBranch,
        m is MasterBranch ==> m.deep_view() == LocalRefreshView::MasterBranch,
        m is LastCommit ==> m.deep_view() == LocalRefreshView::LastCommit,
        m is Graph ==> m.deep_view() == LocalRefreshView::Graph,
        m is Status ==> m.deep_view() == LocalRefreshView::Status,
        m matches LocalRefresh::Unstaged { status } ==> m.deep_view()
            == (LocalRefreshView::Unstaged { status: status@ }),
        m matches LocalRefresh::Staged { status, unstaged } ==> m.deep_view()
            == (LocalRefreshView::Staged { status: status@, unstaged: unstaged@ }),
        m matches LocalRefresh::Diff(d) ==> m.deep_view() == LocalRefreshView::Diff(d.deep_view()),
        next matches LocalNext::Wait(n) ==> next.deep_view() == LocalNextView::Wait(n.deep_view()),
        next matches LocalNext::Done(Ok(_)) ==> next.deep_view() == LocalNextView::Done(Ok(())),
        next matches LocalNext::Done(Err(message)) ==> next.deep_view() == LocalNextView::Done(
            Err(message@),
        ),
{
}

/// Where git fails, the refresh ends with what git said and leaves the state as it was, but for
/// the questions that may go unanswered: the address of the remote, the head of the remote and
/// whether a branch is there, and the diff of the selected file.
pub proof fn local_failure_is_passed_on(m: LocalRefreshView, s: DashboardView, message: Text)
    ensures
        match m {
            LocalRefreshView::RemoteUrl
            | LocalRefreshView::OriginHead
            | LocalRefreshView::MainBranch
            | LocalRefreshView::MasterBranch
            | LocalRefreshView::Diff(_) => local_stepped(m, s, Err(message)).0 != LocalNextView::Done(
                Err(message),
            ),
            _ => local_stepped(m, s, Err(message)) == (LocalNextView::Done(Err(message)), s),
        },
{
}

// ---------------------------------------------------------------------------
// The refresh at work
// ---------------------------------------------------------------------------

/// Begins a refresh at the time `now`.
pub fn begin_local_refresh(state: &mut DashboardState, now: Moment) -> (r: LocalRefresh)
    ensures
        r.deep_view() == LocalRefreshView::RemoteUrl,
        final(state)@ == local_begun(old(state)@, now),
        old(state)@.wf() ==> final(state)@.wf(),
{
    state.last_updated = now;
    state.last_local_refresh = now;
    LocalRefresh::RemoteUrl
}

fn finish_tree(state: &mut DashboardState, files: Vec<FileChange>) -> (r: LocalNext)
    ensures
        (r.deep_view(), final(state)@) == tree_read(with_tree(old(state)@, files.deep_view())),
        old(state)@.wf() ==> final(state)@.wf(),
{
    state.working_tree = files;
    state.selected_file_index = clamp_index(state.selected_file_index, state.working_tree.len());
    assert(state@ =~= with_tree(old(state)@, files.deep_view()));
    if state.show_file_overlay {
        match begin_file_diff(state) {
            Some(d) => LocalNext::Wait(LocalRefresh::Diff(d)),
            None => LocalNext::Done(Ok(())),
        }
    } else {
        LocalNext::Done(Ok(()))
    }
}

impl LocalRefresh {
    /// The arguments for `git` whose answer the refresh waits for.
    pub fn args(&self, state: &DashboardState) -> (r: Vec<String>)
        ensures
            r.deep_view() == local_args(self.deep_view(), state@),
    {
        let r = match self {
            LocalRefresh::RemoteUrl => vec![
                "remote".to_string(),
                "get-url".to_string(),
                "origin".to_string(),
            ],
            LocalRefresh::CurrentBranch => vec![
                "branch".to_string(),
                "--show-current".to_string(),
            ],
            LocalRefresh::OriginHead => vec![
                "symbolic-ref".to_string(),
                "refs/remotes/origin/HEAD".to_string(),
            ],
            LocalRefresh::MainBranch => vec![
                "rev-parse".to_string(),
                "--verify".to_string(),
                "main".to_string(),
            ],
            LocalRefresh::MasterBranch => vec![
                "rev-parse".to_string(),
                "--verify".to_string(),
                "master".to_string(),
            ],
            LocalRefresh::LastCommit => vec![
                "log".to_string(),
                state.default_branch.clone(),
                "-1".to_string(),
                "--format=%h | %s | %an | %ar".to_string(),
            ],
            LocalRefresh::Graph => vec![
                "log".to_string(),
                "--all".to_string(),
                "--graph".to_string(),
                "--decorate".to_string(),
                "--oneline".to_string(),
                "--color=never".to_string(),
                "-24".to_string(),
            ],
            LocalRefresh::Status => vec!["status".to_string(), "--short".to_string()],
            LocalRefresh::Unstaged { .. } => vec!["diff".to_string(), "--numstat".to_string()],
            LocalRefresh::Staged { .. } => vec![
                "diff".to_string(),
                "--cached".to_string(),
                "--numstat".to_string(),
            ],
            LocalRefresh::Diff(d) => d.args(),
        };
        assert(r.deep_view() =~= local_args(self.deep_view(), state@));
        r
    }

    /// Whether the answer can be read.
    pub fn can_read(&self, reply: &Result<String, String>) -> (r: bool)
        ensures
            r == local_readable(self.deep_view(), process::reply_view(*reply)),
    {
        match reply {
            Ok(output) => match self {
                LocalRefresh::Status => try_parse_status_entries(output.as_str()).is_some(),
                LocalRefresh::Unstaged { .. } => try_parse_numstat_entries(
                    output.as_str(),
                ).is_some(),
                LocalRefresh::Staged { status, unstaged } => try_load_working_tree_changes(
                    status.as_str(),
                    unstaged.as_str(),
                    output.as_str(),
                ).is_some(),
                _ => true,
            },
            Err(_) => true,
        }
    }

    /// Goes on with the answer.
    pub fn step(self, state: &mut DashboardState, reply: Result<String, String>) -> (r: LocalNext)
        requires
            local_readable(self.deep_view(), process::reply_view(reply)),
        ensures
            (r.deep_view(), final(state)@) == local_stepped(
                self.deep_view(),
                old(state)@,
                process::reply_view(reply),
            ),
            old(state)@.wf() ==> final(state)@.wf(),
    {
        match (self, reply) {
            (LocalRefresh::RemoteUrl, Ok(output)) => {
                state.repo_name = match extract_repo_name(output.as_str()) {
                    Some(name) => name,
                    None => "Local Repo".to_string(),
                };
                LocalNext::Wait(LocalRefresh::CurrentBranch)
            },
            (LocalRefresh::RemoteUrl, Err(_)) => LocalNext::Wait(LocalRefresh::CurrentBranch),
            (LocalRefresh::CurrentBranch, Ok(output)) => {
                state.current_branch = trimmed(output.as_str());
                LocalNext::Wait(LocalRefresh::OriginHead)
            },
            (LocalRefresh::OriginHead, Ok(output)) => {
                let found = detect_default_branch(Some(output.as_str()), false, false);
                assert(found.deep_view() is Some);
                state.default_branch = found.unwrap();
                LocalNext::Wait(LocalRefresh::LastCommit)
            },
            (LocalRefresh::OriginHead, Err(_)) => LocalNext::Wait(LocalRefresh::MainBranch),
            (LocalRefresh::MainBranch, Ok(_)) => {
                let found = detect_default_branch(None, true, false);
                assert(found.deep_view() is Some);
                state.default_branch = found.unwrap();
                LocalNext::Wait(LocalRefresh::LastCommit)
            },
            (LocalRefresh::MainBranch, Err(_)) => LocalNext::Wait(LocalRefresh::MasterBranch),
            (LocalRefresh::MasterBranch, reply) => {
                state.default_branch = match detect_default_branch(None, false, reply.is_ok()) {
                    Some(name) => name,
                    None => "main".to_string(),
                };
                LocalNext::Wait(LocalRefresh::LastCommit)
            },
            (LocalRefresh::LastCommit, Ok(output)) => {
                state.last_commit_main = trimmed(output.as_str());
                LocalNext::Wait(LocalRefresh::Graph)
            },
            (LocalRefresh::Graph, Ok(output)) => {
                state.git_graph = lines_of(output.as_str());
                state.selected_commit_index = clamp_index(
                    state.selected_commit_index,
                    state.git_graph.len(),
                );
                LocalNext::Wait(LocalRefresh::Status)
            },
            (LocalRefresh::Status, Ok(output)) => LocalNext::Wait(
                LocalRefresh::Unstaged { status: output },
            ),
            (LocalRefresh::Unstaged { status }, Ok(output)) => LocalNext::Wait(
                LocalRefresh::Staged { status, unstaged: output },
            ),
            (LocalRefresh::Staged { status, unstaged }, Ok(output)) => {
                let files = load_working_tree_changes(
                    status.as_str(),
                    unstaged.as_str(),
                    output.as_str(),
                );
                finish_tree(state, files)
            },
            (LocalRefresh::Diff(d), reply) => match d.step(state, reply) {
                Some(e) => LocalNext::Wait(LocalRefresh::Diff(e)),
                None => LocalNext::Done(Ok(())),
            },
            (_, Err(message)) => LocalNext::Done(Err(message)),
        }
    }
}

} // verus!
