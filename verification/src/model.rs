//! What the dashboard shows.

use vstd::prelude::*;

use crate::clock::Moment;
use crate::text::Text;

verus! {

// ---------------------------------------------------------------------------
// What the repository holds
// ---------------------------------------------------------------------------

/// A file of the working tree that differs from the last commit.
#[derive(Debug, PartialEq, Eq)]
pub struct FileChange {
    pub path: String,
    pub status: String,
    pub additions: u32,
    pub deletions: u32,
}

/// A [`FileChange`] as a mathematical value.
#[verifier::ext_equal]
pub struct FileChangeView {
    pub path: Text,
    pub status: Text,
    pub additions: u32,
    pub deletions: u32,
}

impl DeepView for FileChange {
    type V = FileChangeView;

    open spec fn deep_view(&self) -> FileChangeView {
        FileChangeView {
            path: self.path@,
            status: self.status@,
            additions: self.additions,
            deletions: self.deletions,
        }
    }
}

impl Clone for FileChange {
    fn clone(&self) -> (r: Self)
        ensures
            r.deep_view() == self.deep_view(),
    {
        FileChange {
            path: self.path.clone(),
            status: self.status.clone(),
            additions: self.additions,
            deletions: self.deletions,
        }
    }
}

/// One hunk of a diff, with a patch that holds this hunk alone.
#[derive(Debug, PartialEq, Eq)]
pub struct DiffHunk {
    pub header: String,
    pub patch: String,
    pub cached: bool,
}

/// A [`DiffHunk`] as a mathematical value.
#[verifier::ext_equal]
pub struct DiffHunkView {
    pub header: Text,
    pub patch: Text,
    pub cached: bool,
}

impl DeepView for DiffHunk {
    type V = DiffHunkView;

    open spec fn deep_view(&self) -> DiffHunkView {
        DiffHunkView { header: self.header@, patch: self.patch@, cached: self.cached }
    }
}

impl Clone for DiffHunk {
    fn clone(&self) -> (r: Self)
        ensures
            r.deep_view() == self.deep_view(),
    {
        DiffHunk { header: self.header.clone(), patch: self.patch.clone(), cached: self.cached }
    }
}

// ---------------------------------------------------------------------------
// What the remote holds
// ---------------------------------------------------------------------------

/// Who wrote a pull request or a comment.
#[derive(Debug, PartialEq, Eq)]
pub struct Author {
    pub login: String,
}

/// A pull request.
#[derive(Debug, PartialEq, Eq)]
pub struct PullRequest {
    pub number: u64,
    pub title: String,
    pub author: Author,
    pub state: String,
    pub head_ref_name: String,
}

/// A [`PullRequest`] as a mathematical value.
#[verifier::ext_equal]
pub struct PullRequestView {
    pub number: u64,
    pub title: Text,
    pub author: Text,
    pub state: Text,
    pub head_ref_name: Text,
}

impl DeepView for PullRequest {
    type V = PullRequestView;

    open spec fn deep_view(&self) -> PullRequestView {
        PullRequestView {
            number: self.number,
            title: self.title@,
            author: self.author.login@,
            state: self.state@,
            head_ref_name: self.head_ref_name@,
        }
    }
}

/// A comment on an issue.
#[derive(Debug, PartialEq, Eq)]
pub struct Comment {
    pub body: String,
    pub author: Author,
}

/// A [`Comment`] as a mathematical value.
#[verifier::ext_equal]
pub struct CommentView {
    pub body: Text,
    pub author: Text,
}

impl DeepView for Comment {
    type V = CommentView;

    open spec fn deep_view(&self) -> CommentView {
        CommentView { body: self.body@, author: self.author.login@ }
    }
}

/// A run of a workflow. It has a conclusion once it has ended.
#[derive(Debug, PartialEq, Eq)]
pub struct WorkflowRun {
    pub name: String,
    pub status: String,
    pub conclusion: Option<String>,
}

/// A [`WorkflowRun`] as a mathematical value.
#[verifier::ext_equal]
pub struct WorkflowRunView {
    pub name: Text,
    pub status: Text,
    pub conclusion: Option<Text>,
}

impl DeepView for WorkflowRun {
    type V = WorkflowRunView;

    open spec fn deep_view(&self) -> WorkflowRunView {
        WorkflowRunView {
            name: self.name@,
            status: self.status@,
            conclusion: self.conclusion.deep_view(),
        }
    }
}

// ---------------------------------------------------------------------------
// The state of the dashboard
// ---------------------------------------------------------------------------

/// The list that the arrow keys move in.
#[derive(Debug, Clone, Copy, PartialEq, Eq, Structural)]
pub enum ActivePanel {
    Commits,
    Files,
}

/// Which half of the data a refresh brings up to date.
#[derive(Debug, Clone, Copy, PartialEq, Eq, Structural)]
pub enum RefreshKind {
    Local,
    Remote,
}

/// All that the dashboard shows and remembers.
#[derive(Debug, PartialEq, Eq)]
pub struct DashboardState {
    pub repo_name: String,
    pub current_branch: String,
    pub default_branch: String,
    pub last_commit_main: String,
    pub git_graph: Vec<String>,
    pub selected_commit_index: usize,
    pub selected_commit_show: Vec<String>,
    pub working_tree: Vec<FileChange>,
    pub selected_file_index: usize,
    pub selected_file_diff: Vec<String>,
    pub selected_file_hunks: Vec<DiffHunk>,
    pub selected_hunk_index: usize,
    pub prs: Vec<PullRequest>,
    pub recent_comments: Vec<Comment>,
    pub workflow_runs: Vec<WorkflowRun>,
    pub last_updated: Moment,
    pub last_local_refresh: Moment,
    pub last_remote_refresh: Moment,
    pub error_msg: Option<String>,
    pub show_commit_overlay: bool,
    pub show_file_overlay: bool,
    pub show_commit_prompt: bool,
    pub commit_message_input: String,
    pub active_panel: ActivePanel,
}

/// A [`DashboardState`] as a mathematical value.
#[verifier::ext_equal]
pub struct DashboardView {
    pub repo_name: Text,
    pub current_branch: Text,
    pub default_branch: Text,
    pub last_commit_main: Text,
    pub git_graph: Seq<Text>,
    pub selected_commit_index: usize,
    pub selected_commit_show: Seq<Text>,
    pub working_tree: Seq<FileChangeView>,
    pub selected_file_index: usize,
    pub selected_file_diff: Seq<Text>,
    pub selected_file_hunks: Seq<DiffHunkView>,
    pub selected_hunk_index: usize,
    pub prs: Seq<PullRequestView>,
    pub recent_comments: Seq<CommentView>,
    pub workflow_runs: Seq<WorkflowRunView>,
    pub last_updated: Moment,
    pub last_local_refresh: Moment,
    pub last_remote_refresh: Moment,
    pub error_msg: Option<Text>,
    pub show_commit_overlay: bool,
    pub show_file_overlay: bool,
    pub show_commit_prompt: bool,
    pub commit_message_input: Text,
    pub active_panel: ActivePanel,
}

impl View for DashboardState {
    type V = DashboardView;

    open spec fn view(&self) -> DashboardView {
        DashboardView {
            repo_name: self.repo_name@,
            current_branch: self.current_branch@,
            default_branch: self.default_branch@,
            last_commit_main: self.last_commit_main@,
            git_graph: self.git_graph.deep_view(),
            selected_commit_index: self.selected_commit_index,
            selected_commit_show: self.selected_commit_show.deep_view(),
            working_tree: self.working_tree.deep_view(),
            selected_file_index: self.selected_file_index,
            selected_file_diff: self.selected_file_diff.deep_view(),
            selected_file_hunks: self.selected_file_hunks.deep_view(),
            selected_hunk_index: self.selected_hunk_index,
            prs: self.prs.deep_view(),
            recent_comments: self.recent_comments.deep_view(),
            workflow_runs: self.workflow_runs.deep_view(),
            last_updated: self.last_updated,
            last_local_refresh: self.last_local_refresh,
            last_remote_refresh: self.last_remote_refresh,
            error_msg: self.error_msg.deep_view(),
            show_commit_overlay: self.show_commit_overlay,
            show_file_overlay: self.show_file_overlay,
            show_commit_prompt: self.show_commit_prompt,
            commit_message_input: self.commit_message_input@,
            active_panel: self.active_panel,
        }
    }
}

/// Whether `index` points into a list of `len` items, or at the start of an empty one.
pub open spec fn selects(index: usize, len: nat) -> bool {
    index < len || index == 0
}

impl DashboardView {
    /// Every selection points into its list, and no more than one overlay is open.
    pub open spec fn wf(self) -> bool {
        &&& selects(self.selected_commit_index, self.git_graph.len())
        &&& selects(self.selected_file_index, self.working_tree.len())
        &&& selects(self.selected_hunk_index, self.selected_file_hunks.len())
        &&& !(self.show_commit_overlay && self.show_file_overlay)
    }

    /// The state before anything has been read, at the time `now`.
    pub open spec fn initial(now: Moment) -> DashboardView {
        DashboardView {
            repo_name: "Local Repo"@,
            current_branch: "main"@,
            default_branch: "main"@,
            last_commit_main: "Loading..."@,
            git_graph: seq![],
            selected_commit_index: 0,
            selected_commit_show: seq![],
            working_tree: seq![],
            selected_file_index: 0,
            selected_file_diff: seq![],
            selected_file_hunks: seq![],
            selected_hunk_index: 0,
            prs: seq![],
            recent_comments: seq![],
            workflow_runs: seq![],
            last_updated: now,
            last_local_refresh: now,
            last_remote_refresh: now,
            error_msg: None,
            show_commit_overlay: false,
            show_file_overlay: false,
            show_commit_prompt: false,
            commit_message_input: seq![],
            active_panel: ActivePanel::Commits,
        }
    }
}

impl DashboardState {
    /// The state before anything has been read, at the time `now`.
    pub fn new(now: Moment) -> (r: Self)
        ensures
            r@ == DashboardView::initial(now),
            r@.wf(),
    {
        let r = DashboardState {
            repo_name: "Local Repo".to_string(),
            current_branch: "main".to_string(),
            default_branch: "main".to_string(),
            last_commit_main: "Loading...".to_string(),
            git_graph: Vec::new(),
            selected_commit_index: 0,
            selected_commit_show: Vec::new(),
            working_tree: Vec::new(),
            selected_file_index: 0,
            selected_file_diff: Vec::new(),
            selected_file_hunks: Vec::new(),
            selected_hunk_index: 0,
            prs: Vec::new(),
            recent_comments: Vec::new(),
            workflow_runs: Vec::new(),
            last_updated: now,
            last_local_refresh: now,
            last_remote_refresh: now,
            error_msg: None,
            show_commit_overlay: false,
            show_file_overlay: false,
            show_commit_prompt: false,
            commit_message_input: String::new(),
            active_panel: ActivePanel::Commits,
        };
        assert(r@ =~= DashboardView::initial(now));
        r
    }
}

/// The views show all that the values hold.
pub proof fn views_show_every_field(
    file: FileChange,
    hunk: DiffHunk,
    pr: PullRequest,
    comment: Comment,
    run: WorkflowRun,
)
    ensures
        file.deep_view() == (FileChangeView {
            path: file.path@,
            status: file.status@,
            additions: file.additions,
            deletions: file.deletions,
        }),
        hunk.deep_view() == (DiffHunkView {
            header: hunk.header@,
            patch: hunk.patch@,
            cached: hunk.cached,
        }),
        pr.deep_view() == (PullRequestView {
            number: pr.number,
            title: pr.title@,
            author: pr.author.login@,
            state: pr.state@,
            head_ref_name: pr.head_ref_name@,
        }),
        comment.deep_view() == (CommentView { body: comment.body@, author: comment.author.login@ }),
        run.deep_view().name == run.name@,
        run.deep_view().status == run.status@,
        run.conclusion is None ==> run.deep_view().conclusion is None,
        run.conclusion matches Some(word) ==> run.deep_view().conclusion == Some(word@),
{
}

/// The view of the dashboard shows all that it holds, list by list and item by item.
pub proof fn dashboard_view_shows_every_field(state: DashboardState, i: int)
    ensures
        state@.repo_name == state.repo_name@,
        state@.current_branch == state.current_branch@,
        state@.default_branch == state.default_branch@,
        state@.last_commit_main == state.last_commit_main@,
        state@.git_graph.len() == state.git_graph.len(),
        0 <= i < state.git_graph.len() ==> state@.git_graph[i] == state.git_graph[i]@,
        state@.selected_commit_index == state.selected_commit_index,
        state@.selected_commit_show.len() == state.selected_commit_show.len(),
        0 <= i < state.selected_commit_show.len() ==> state@.selected_commit_show[i]
            == state.selected_commit_show[i]@,
        state@.working_tree.len() == state.working_tree.len(),
        0 <= i < state.working_tree.len() ==> state@.working_tree[i]
            == state.working_tree[i].deep_view(),
        state@.selected_file_index == state.selected_file_index,
        state@.selected_file_diff.len() == state.selected_file_diff.len(),
        0 <= i < state.selected_file_diff.len() ==> state@.selected_file_diff[i]
            == state.selected_file_diff[i]@,
        state@.selected_file_hunks.len() == state.selected_file_hunks.len(),
        0 <= i < state.selected_file_hunks.len() ==> state@.selected_file_hunks[i]
            == state.selected_file_hunks[i].deep_view(),
        state@.selected_hunk_index == state.selected_hunk_index,
        state@.prs.len() == state.prs.len(),
        0 <= i < state.prs.len() ==> state@.prs[i] == state.prs[i].deep_view(),
        state@.recent_comments.len() == state.recent_comments.len(),
        0 <= i < state.recent_comments.len() ==> state@.recent_comments[i]
            == state.recent_comments[i].deep_view(),
        state@.workflow_runs.len() == state.workflow_runs.len(),
        0 <= i < state.workflow_runs.len() ==> state@.workflow_runs[i]
            == state.workflow_runs[i].deep_view(),
        state@.last_updated == state.last_updated,
        state@.last_local_refresh == state.last_local_refresh,
        state@.last_remote_refresh == state.last_remote_refresh,
        state.error_msg is None ==> state@.error_msg is None,
        state.error_msg matches Some(message) ==> state@.error_msg == Some(message@),
        state@.show_commit_overlay == state.show_commit_overlay,
        state@.show_file_overlay == state.show_file_overlay,
        state@.show_commit_prompt == state.show_commit_prompt,
        state@.commit_message_input == state.commit_message_input@,
        state@.active_panel == state.active_panel,
{
}

/// Before anything has been read, all lists are empty, nothing is open or wrong, the first of each
/// list is selected, and the three times are the same.
pub proof fn first_state_is_empty(now: Moment)
    ensures
        ({
            let s = DashboardView::initial(now);
            &&& s.repo_name == "Local Repo"@
            &&& s.current_branch == "main"@
            &&& s.default_branch == "main"@
            &&& s.last_commit_main == "Loading..."@
            &&& s.git_graph.len() == 0 && s.selected_commit_show.len() == 0
            &&& s.working_tree.len() == 0 && s.selected_file_diff.len() == 0
            &&& s.selected_file_hunks.len() == 0 && s.prs.len() == 0
            &&& s.recent_comments.len() == 0 && s.workflow_runs.len() == 0
            &&& s.selected_commit_index == 0 && s.selected_file_index == 0
            &&& s.selected_hunk_index == 0
            &&& s.last_updated == now && s.last_local_refresh == now && s.last_remote_refresh == now
            &&& s.error_msg is None
            &&& !s.show_commit_overlay && !s.show_file_overlay && !s.show_commit_prompt
            &&& s.commit_message_input.len() == 0
            &&& s.active_panel == ActivePanel::Commits
        }),
{
}

/// In a well-formed state each selection points into its list, or at the start of an empty one,
/// and the two overlays are never open together.
pub proof fn well_formed_states_select_what_is_there(s: DashboardView)
    ensures
        s.wf() <==> {
            &&& s.selected_commit_index < s.git_graph.len() || s.selected_commit_index == 0
            &&& s.selected_file_index < s.working_tree.len() || s.selected_file_index == 0
            &&& s.selected_hunk_index < s.selected_file_hunks.len() || s.selected_hunk_index == 0
            &&& !s.show_commit_overlay || !s.show_file_overlay
        },
{
}

} // verus!
