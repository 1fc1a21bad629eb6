//! Moving through the lists of the dashboard.

use vstd::prelude::*;

use crate::model;
use crate::model::{
    ActivePanel, DashboardState, DashboardView, DiffHunk, DiffHunkView, FileChange, FileChangeView,
};

verus! {

/// The index nearest to `current` that points into a list of `len` items; zero for an empty one.
pub open spec fn clamp(current: int, len: nat) -> usize {
    if len == 0 {
        0
    } else if current < len {
        current as usize
    } else {
        (len - 1) as usize
    }
}

/// `current` moved one up, but not beyond the start.
pub open spec fn one_up(current: usize) -> usize {
    if current == 0 {
        0
    } else {
        (current - 1) as usize
    }
}

impl ActivePanel {
    /// The other list.
    pub open spec fn other(self) -> ActivePanel {
        match self {
            ActivePanel::Commits => ActivePanel::Files,
            ActivePanel::Files => ActivePanel::Commits,
        }
    }
}

impl DashboardView {
    /// The arrow keys move in the other list.
    pub open spec fn panel_toggled(self) -> DashboardView {
        DashboardView { active_panel: self.active_panel.other(), ..self }
    }

    /// The selection of the active list is one further down, or still on the last item.
    pub open spec fn moved_down(self) -> DashboardView {
        match self.active_panel {
            ActivePanel::Commits => DashboardView {
                selected_commit_index: clamp(
                    self.selected_commit_index + 1,
                    self.git_graph.len(),
                ),
                ..self
            },
            ActivePanel::Files => DashboardView {
                selected_file_index: clamp(self.selected_file_index + 1, self.working_tree.len()),
                ..self
            },
        }
    }

    /// The selection of the active list is one further up, or still on the first item.
    pub open spec fn moved_up(self) -> DashboardView {
        match self.active_panel {
            ActivePanel::Commits => DashboardView {
                selected_commit_index: one_up(self.selected_commit_index),
                ..self
            },
            ActivePanel::Files => DashboardView {
                selected_file_index: one_up(self.selected_file_index),
                ..self
            },
        }
    }

    /// The next hunk is selected, or still the last one.
    pub open spec fn next_hunk_selected(self) -> DashboardView {
        DashboardView {
            selected_hunk_index: clamp(
                self.selected_hunk_index + 1,
                self.selected_file_hunks.len(),
            ),
            ..self
        }
    }

    /// The hunk before is selected, or still the first one.
    pub open spec fn previous_hunk_selected(self) -> DashboardView {
        DashboardView { selected_hunk_index: one_up(self.selected_hunk_index), ..self }
    }

    /// The commit at `index` is selected, and the arrow keys move in the list of commits.
    pub open spec fn commit_selected(self, index: usize) -> DashboardView {
        DashboardView {
            active_panel: ActivePanel::Commits,
            selected_commit_index: index,
            ..self
        }
    }

    /// The file at `index` is selected, and the arrow keys move in the list of files.
    pub open spec fn file_selected(self, index: usize) -> DashboardView {
        DashboardView { active_panel: ActivePanel::Files, selected_file_index: index, ..self }
    }

    /// The file that is selected.
    pub open spec fn selected_file(self) -> Option<FileChangeView> {
        if self.selected_file_index < self.working_tree.len() {
            Some(self.working_tree[self.selected_file_index as int])
        } else {
            None
        }
    }

    /// The hunk that is selected.
    pub open spec fn selected_hunk(self) -> Option<DiffHunkView> {
        if self.selected_hunk_index < self.selected_file_hunks.len() {
            Some(self.selected_file_hunks[self.selected_hunk_index as int])
        } else {
            None
        }
    }
}

// ---------------------------------------------------------------------------
// Laws
// ---------------------------------------------------------------------------

/// A clamped index points into the list, an index that does so already stays as it is, and
/// clamping twice is clamping once.
pub proof fn clamp_points_into_list(current: usize, len: nat)
    requires
        len <= usize::MAX,
    ensures
        model::selects(clamp(current as int, len), len),
        model::selects(current, len) ==> clamp(current as int, len) == current,
        clamp(clamp(current as int, len) as int, len) == clamp(current as int, len),
{
}

/// Toggling the panel twice changes nothing.
pub proof fn toggle_twice_is_nothing(s: DashboardView)
    ensures
        s.panel_toggled().panel_toggled() == s,
{
}

/// No movement takes a selection out of its list.
pub proof fn moves_keep_wf(s: DashboardView)
    requires
        s.wf(),
        s.git_graph.len() <= usize::MAX,
        s.working_tree.len() <= usize::MAX,
        s.selected_file_hunks.len() <= usize::MAX,
    ensures
        s.panel_toggled().wf(),
        s.moved_down().wf(),
        s.moved_up().wf(),
        s.next_hunk_selected().wf(),
        s.previous_hunk_selected().wf(),
        forall|i: usize| i < s.git_graph.len() ==> #[trigger] s.commit_selected(i).wf(),
        forall|i: usize| i < s.working_tree.len() ==> #[trigger] s.file_selected(i).wf(),
{
}

/// Moving down and then up leads back, unless the selection was on the last item already.
pub proof fn up_undoes_down(s: DashboardView)
    requires
        match s.active_panel {
            ActivePanel::Commits => model::selects(s.selected_commit_index, s.git_graph.len())
                && s.git_graph.len() <= usize::MAX,
            ActivePanel::Files => model::selects(s.selected_file_index, s.working_tree.len())
                && s.working_tree.len() <= usize::MAX,
        },
    ensures
        s.moved_down() != s ==> s.moved_down().moved_up() == s,
        s.moved_up() != s ==> s.moved_up().moved_down() == s,
{
    if s.active_panel == ActivePanel::Commits {
        if s.selected_commit_index + 1 >= s.git_graph.len() {
            assert(s.moved_down().selected_commit_index == s.selected_commit_index);
            assert(s.moved_down() =~= s);
        }
        if s.selected_commit_index == 0 {
            assert(s.moved_up() =~= s);
        }
    } else {
        if s.selected_file_index + 1 >= s.working_tree.len() {
            assert(s.moved_down().selected_file_index == s.selected_file_index);
            assert(s.moved_down() =~= s);
        }
        if s.selected_file_index == 0 {
            assert(s.moved_up() =~= s);
        }
    }
}

/// Going to the next hunk and back leads back, unless the last hunk was selected already.
pub proof fn previous_undoes_next(s: DashboardView)
    requires
        model::selects(s.selected_hunk_index, s.selected_file_hunks.len()),
        s.selected_file_hunks.len() <= usize::MAX,
    ensures
        s.next_hunk_selected() != s ==> s.next_hunk_selected().previous_hunk_selected() == s,
        s.previous_hunk_selected() != s ==> s.previous_hunk_selected().next_hunk_selected() == s,
{
    if s.selected_hunk_index + 1 >= s.selected_file_hunks.len() {
        assert(s.next_hunk_selected() =~= s);
    }
    if s.selected_hunk_index == 0 {
        assert(s.previous_hunk_selected() =~= s);
    }
}

// ---------------------------------------------------------------------------
// The movements
// ---------------------------------------------------------------------------

/// The index nearest to `current` that points into a list of `len` items; zero for an empty one.
pub fn clamp_index(current: usize, len: usize) -> (r: usize)
    ensures
        r == clamp(current as int, len as nat),
{
    if len == 0 {
        0
    } else if current < len {
        current
    } else {
        len - 1
    }
}

/// The file that is selected.
pub fn selected_file_change(state: &DashboardState) -> (r: Option<&FileChange>)
    ensures
        r.deep_view() == state@.selected_file(),
{
    if state.selected_file_index < state.working_tree.len() {
        Some(&state.working_tree[state.selected_file_index])
    } else {
        None
    }
}

/// The hunk that is selected.
pub fn selected_diff_hunk(state: &DashboardState) -> (r: Option<&DiffHunk>)
    ensures
        r.deep_view() == state@.selected_hunk(),
{
    if state.selected_hunk_index < state.selected_file_hunks.len() {
        Some(&state.selected_file_hunks[state.selected_hunk_index])
    } else {
        None
    }
}

impl DashboardState {
    /// Lets the arrow keys move in the other list.
    pub fn toggle_active_panel(&mut self)
        ensures
            final(self)@ == old(self)@.panel_toggled(),
    {
        self.active_panel = match self.active_panel {
            ActivePanel::Commits => ActivePanel::Files,
            ActivePanel::Files => ActivePanel::Commits,
        };
    }

    /// Moves the selection of the active list one down.
    pub fn move_selection_down(&mut self)
        requires
            old(self).active_panel == ActivePanel::Commits ==> old(self).selected_commit_index
                < usize::MAX,
            old(self).active_panel == ActivePanel::Files ==> old(self).selected_file_index
                < usize::MAX,
        ensures
            final(self)@ == old(self)@.moved_down(),
            old(self)@.wf() ==> final(self)@.wf(),
    {
        match self.active_panel {
            ActivePanel::Commits => {
                self.selected_commit_index = clamp_index(
                    self.selected_commit_index + 1,
                    self.git_graph.len(),
                );
            },
            ActivePanel::Files => {
                self.selected_file_index = clamp_index(
                    self.selected_file_index + 1,
                    self.working_tree.len(),
                );
            },
        }
    }

    /// Moves the selection of the active list one up.
    pub fn move_selection_up(&mut self)
        ensures
            final(self)@ == old(self)@.moved_up(),
            old(self)@.wf() ==> final(self)@.wf(),
    {
        match self.active_panel {
            ActivePanel::Commits => {
                self.selected_commit_index = self.selected_commit_index.saturating_sub(1);
            },
            ActivePanel::Files => {
                self.selected_file_index = self.selected_file_index.saturating_sub(1);
            },
        }
    }

    /// Selects the next hunk.
    pub fn select_next_hunk(&mut self)
        requires
            old(self).selected_hunk_index < usize::MAX,
        ensures
            final(self)@ == old(self)@.next_hunk_selected(),
            old(self)@.wf() ==> final(self)@.wf(),
    {
        self.selected_hunk_index = clamp_index(
            self.selected_hunk_index + 1,
            self.selected_file_hunks.len(),
        );
    }

    /// Selects the hunk before.
    pub fn select_previous_hunk(&mut self)
        ensures
            final(self)@ == old(self)@.previous_hunk_selected(),
            old(self)@.wf() ==> final(self)@.wf(),
    {
        self.selected_hunk_index = self.selected_hunk_index.saturating_sub(1);
    }

    /// Selects the commit in a row of the list.
    pub fn select_commit(&mut self, index: usize)
        ensures
            final(self)@ == old(self)@.commit_selected(index),
    {
        self.active_panel = ActivePanel::Commits;
        self.selected_commit_index = index;
    }

    /// Selects the file in a row of the list.
    pub fn select_file(&mut self, index: usize)
        ensures
            final(self)@ == old(self)@.file_selected(index),
    {
        self.active_panel = ActivePanel::Files;
        self.selected_file_index = index;
    }
}

/// A clamped index stays where it points into the list, is the last one where it points behind
/// it, and is zero for an empty list.
pub proof fn clamp_is_nearest(current: int, len: nat)
    requires
        0 <= current,
        len <= usize::MAX,
    ensures
        len == 0 ==> clamp(current, len) == 0,
        current < len ==> clamp(current, len) == current,
        0 < len <= current ==> clamp(current, len) == len - 1,
{
}

/// The arrow keys move one step in the list that is active and stop at its ends, and nothing else
/// changes.
pub proof fn arrows_move_one_step_in_the_active_list(s: DashboardView)
    requires
        s.git_graph.len() <= usize::MAX,
        s.working_tree.len() <= usize::MAX,
    ensures
        ({
            let (index, len) = match s.active_panel {
                ActivePanel::Commits => (s.selected_commit_index, s.git_graph.len()),
                ActivePanel::Files => (s.selected_file_index, s.working_tree.len()),
            };
            let lower: int = if len == 0 {
                0
            } else if index + 1 < len {
                index + 1
            } else {
                len - 1
            };
            let upper: int = if index == 0 {
                0
            } else {
                index - 1
            };
            match s.active_panel {
                ActivePanel::Commits => {
                    &&& s.moved_down() == (DashboardView {
                        selected_commit_index: lower as usize,
                        ..s
                    })
                    &&& s.moved_up() == (DashboardView {
                        selected_commit_index: upper as usize,
                        ..s
                    })
                },
                ActivePanel::Files => {
                    &&& s.moved_down() == (DashboardView {
                        selected_file_index: lower as usize,
                        ..s
                    })
                    &&& s.moved_up() == (DashboardView { selected_file_index: upper as usize, ..s })
                },
            }
        }),
{
}

/// The brackets move one step through the hunks and stop at the ends, and nothing else changes.
pub proof fn brackets_move_one_hunk(s: DashboardView)
    requires
        s.selected_file_hunks.len() <= usize::MAX,
    ensures
        ({
            let len = s.selected_file_hunks.len();
            let next: int = if len == 0 {
                0
            } else if s.selected_hunk_index + 1 < len {
                s.selected_hunk_index + 1
            } else {
                len - 1
            };
            let previous: int = if s.selected_hunk_index == 0 {
                0
            } else {
                s.selected_hunk_index - 1
            };
            &&& s.next_hunk_selected() == (DashboardView {
                selected_hunk_index: next as usize,
                ..s
            })
            &&& s.previous_hunk_selected() == (DashboardView {
                selected_hunk_index: previous as usize,
                ..s
            })
        }),
{
}

/// The panel that is active is the other one after a toggle; a click makes its list active and
/// selects its row; and nothing else changes.
pub proof fn toggles_and_clicks_change_one_selection(s: DashboardView, index: usize)
    ensures
        s.panel_toggled().active_panel != s.active_panel,
        s.panel_toggled() == (DashboardView {
            active_panel: s.panel_toggled().active_panel,
            ..s
        }),
        s.commit_selected(index) == (DashboardView {
            active_panel: ActivePanel::Commits,
            selected_commit_index: index,
            ..s
        }),
        s.file_selected(index) == (DashboardView {
            active_panel: ActivePanel::Files,
            selected_file_index: index,
            ..s
        }),
{
}

/// What is selected is the item of the list at the selected index, where there is one.
pub proof fn selected_is_at_its_index(s: DashboardView)
    ensures
        s.selected_file_index < s.working_tree.len() ==> s.selected_file() == Some(
            s.working_tree[s.selected_file_index as int],
        ),
        s.selected_file_index >= s.working_tree.len() ==> s.selected_file() is None,
        s.selected_hunk_index < s.selected_file_hunks.len() ==> s.selected_hunk() == Some(
            s.selected_file_hunks[s.selected_hunk_index as int],
        ),
        s.selected_hunk_index >= s.selected_file_hunks.len() ==> s.selected_hunk() is None,
{
}

} // verus!
