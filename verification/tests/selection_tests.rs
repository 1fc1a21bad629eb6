use github_dashboard::clock::Moment;
use github_dashboard::commands::{
    is_change, overlay_commands, prompt_commands, remote_refresh_due, row_commands,
    shortcut_commands, toolbar_commands, Command, FileEvent, Keys, OverlayClicks, Poll, RowClick,
    ToolbarClicks,
};
use github_dashboard::model::{ActivePanel, DashboardState, DiffHunk, FileChange};
use github_dashboard::selection::{clamp_index, selected_diff_hunk, selected_file_change};

fn at(millis: i64) -> Moment {
    Moment { millis, offset: 0 }
}

const NO_KEYS: Keys = Keys {
    tab: false,
    left: false,
    right: false,
    up: false,
    down: false,
    c: false,
    p: false,
    s: false,
    d: false,
    f: false,
    h: false,
    o: false,
    r: false,
    open_bracket: false,
    close_bracket: false,
    escape: false,
};

const ALL_KEYS: Keys = Keys {
    tab: true,
    left: true,
    right: true,
    up: true,
    down: true,
    c: true,
    p: true,
    s: true,
    d: true,
    f: true,
    h: true,
    o: true,
    r: true,
    open_bracket: true,
    close_bracket: true,
    escape: true,
};

fn filled_state() -> DashboardState {
    let mut state = DashboardState::new(at(0));
    state.git_graph = vec!["* 1111111".to_string(), "* 2222222".to_string()];
    for path in ["a", "b", "c"] {
        state.working_tree.push(FileChange {
            path: path.to_string(),
            status: "M".to_string(),
            additions: 0,
            deletions: 0,
        });
        state.selected_file_hunks.push(DiffHunk {
            header: path.to_string(),
            patch: String::new(),
            cached: false,
        });
    }
    state
}

#[test]
fn an_index_is_kept_inside_its_list() {
    assert_eq!(clamp_index(5, 0), 0);
    assert_eq!(clamp_index(0, 3), 0);
    assert_eq!(clamp_index(2, 3), 2);
    assert_eq!(clamp_index(3, 3), 2);
    assert_eq!(clamp_index(usize::MAX, 1), 0);
}

#[test]
fn the_first_state_is_empty() {
    let state = DashboardState::new(at(42));
    assert_eq!(state.repo_name, "Local Repo");
    assert_eq!(state.current_branch, "main");
    assert_eq!(state.default_branch, "main");
    assert_eq!(state.last_commit_main, "Loading...");
    assert!(state.git_graph.is_empty() && state.working_tree.is_empty());
    assert!(state.prs.is_empty() && state.workflow_runs.is_empty());
    assert!(state.recent_comments.is_empty());
    assert_eq!(state.last_updated, at(42));
    assert_eq!(state.last_local_refresh, at(42));
    assert_eq!(state.last_remote_refresh, at(42));
    assert_eq!(state.error_msg, None);
    assert!(!state.show_commit_overlay && !state.show_file_overlay && !state.show_commit_prompt);
    assert_eq!(state.active_panel, ActivePanel::Commits);
}

#[test]
fn toggling_twice_changes_nothing() {
    let mut state = filled_state();
    state.toggle_active_panel();
    assert_eq!(state.active_panel, ActivePanel::Files);
    state.toggle_active_panel();
    assert_eq!(state, filled_state());
}

#[test]
fn the_selection_moves_in_the_active_panel() {
    let mut state = filled_state();
    state.move_selection_up();
    assert_eq!(state.selected_commit_index, 0);
    state.move_selection_down();
    assert_eq!(state.selected_commit_index, 1);
    state.move_selection_down();
    assert_eq!(state.selected_commit_index, 1);
    assert_eq!(state.selected_file_index, 0);
    state.toggle_active_panel();
    state.move_selection_down();
    state.move_selection_down();
    state.move_selection_down();
    assert_eq!(state.selected_file_index, 2);
    assert_eq!(state.selected_commit_index, 1);
    state.move_selection_up();
    assert_eq!(state.selected_file_index, 1);
    assert_eq!(selected_file_change(&state).unwrap().path, "b");
}

#[test]
fn up_undoes_down_and_previous_undoes_next() {
    let mut state = filled_state();
    state.move_selection_down();
    state.move_selection_up();
    assert_eq!(state, filled_state());
    state.select_next_hunk();
    assert_eq!(selected_diff_hunk(&state).unwrap().header, "b");
    state.select_previous_hunk();
    assert_eq!(state, filled_state());
}

#[test]
fn hunks_are_stepped_through() {
    let mut state = filled_state();
    state.select_previous_hunk();
    assert_eq!(state.selected_hunk_index, 0);
    for _ in 0..5 {
        state.select_next_hunk();
    }
    assert_eq!(state.selected_hunk_index, 2);
    state.selected_file_hunks.clear();
    state.select_next_hunk();
    assert_eq!(state.selected_hunk_index, 0);
    assert_eq!(selected_diff_hunk(&state), None);
}

#[test]
fn a_click_selects_and_makes_the_panel_active() {
    let mut state = filled_state();
    state.select_file(2);
    assert_eq!(state.active_panel, ActivePanel::Files);
    assert_eq!(state.selected_file_index, 2);
    state.select_commit(1);
    assert_eq!(state.active_panel, ActivePanel::Commits);
    assert_eq!(state.selected_commit_index, 1);
    assert_eq!(state.selected_file_index, 2);
}

#[test]
fn keys_ask_for_commands_in_order() {
    assert!(shortcut_commands(false, NO_KEYS).is_empty());
    assert_eq!(
        shortcut_commands(false, ALL_KEYS),
        vec![
            Command::TogglePanel,
            Command::MoveUp,
            Command::MoveDown,
            Command::OpenPrompt,
            Command::Push,
            Command::ShowCommit,
            Command::ShowFileDiff,
            Command::RevertFile,
            Command::RevertHunk,
            Command::OpenOnGithub,
            Command::RefreshLocal,
            Command::RefreshRemote,
            Command::PreviousHunk,
            Command::NextHunk,
            Command::CloseOverlays,
        ]
    );
    let mut keys = NO_KEYS;
    keys.right = true;
    assert_eq!(shortcut_commands(false, keys), vec![Command::TogglePanel]);
}

#[test]
fn keys_ask_for_nothing_while_a_message_is_typed() {
    assert!(shortcut_commands(true, ALL_KEYS).is_empty());
}

#[test]
fn buttons_ask_for_commands_in_order() {
    assert_eq!(
        toolbar_commands(ToolbarClicks {
            refresh: true,
            commit: true,
            push: true,
            show_commit: true,
            open_on_github: true,
            show_diff: true,
            revert_file: true,
            revert_hunk: true,
        }),
        vec![
            Command::RefreshLocal,
            Command::RefreshRemote,
            Command::OpenPrompt,
            Command::Push,
            Command::ShowCommit,
            Command::OpenOnGithub,
            Command::ShowFileDiff,
            Command::RevertFile,
            Command::RevertHunk,
        ]
    );
    assert_eq!(
        overlay_commands(OverlayClicks {
            close: true,
            revert_file: true,
            revert_hunk: true,
            previous_hunk: true,
            next_hunk: true,
        }),
        vec![
            Command::CloseFileOverlay,
            Command::PreviousHunk,
            Command::NextHunk,
            Command::RevertFile,
            Command::RevertHunk,
        ]
    );
    assert_eq!(
        prompt_commands(true, false, true),
        vec![Command::CancelPrompt, Command::CommitAll]
    );
    assert_eq!(prompt_commands(false, true, false), vec![Command::CancelPrompt]);
    assert!(prompt_commands(false, false, false).is_empty());
}

#[test]
fn clicks_on_rows_select_and_the_last_double_click_opens() {
    let row = |index: usize, clicked: bool, double_clicked: bool| RowClick {
        index,
        clicked,
        double_clicked,
    };
    assert!(row_commands(ActivePanel::Commits, &vec![]).is_empty());
    assert_eq!(
        row_commands(ActivePanel::Commits, &vec![row(0, false, false), row(1, true, false)]),
        vec![Command::SelectCommit(1)]
    );
    assert_eq!(
        row_commands(
            ActivePanel::Files,
            &vec![row(0, true, true), row(1, false, true), row(2, true, false)]
        ),
        vec![
            Command::SelectFile(0),
            Command::SelectFile(0),
            Command::SelectFile(1),
            Command::SelectFile(2),
            Command::SelectFile(1),
            Command::ShowFileDiff,
        ]
    );
    assert_eq!(
        row_commands(ActivePanel::Commits, &vec![row(3, true, true)]).last(),
        Some(&Command::ShowCommit)
    );
}

#[test]
fn the_remote_is_due_after_half_a_minute() {
    assert!(!remote_refresh_due(0));
    assert!(!remote_refresh_due(29));
    assert!(remote_refresh_due(30));
    assert!(remote_refresh_due(31));
}

#[test]
fn the_background_reads_local_data_before_remote_data() {
    for fs_changed in [true, false] {
        for (before, after) in [(0, 29), (29, 30), (30, 30), (31, 0)] {
            let (first, next) = Poll::Local { fs_changed }.step(before);
            let (second, last) = next.unwrap().step(after);
            let mut expected = Vec::new();
            if fs_changed {
                expected.push(Command::RefreshLocal);
            }
            if after >= 30 {
                expected.push(Command::RefreshRemote);
            }
            assert_eq!([first, second].concat(), expected);
            assert_eq!(last, None);
        }
    }
}

#[test]
fn what_is_made_changed_or_removed_counts_as_a_change() {
    assert!(is_change(FileEvent::Created));
    assert!(is_change(FileEvent::Modified));
    assert!(is_change(FileEvent::Removed));
    assert!(!is_change(FileEvent::Accessed));
    assert!(!is_change(FileEvent::Other));
}
