//! Showing the diff of the selected file: what is asked of git, and what becomes of the answers.

use vstd::prelude::*;

use crate::hunks;
use crate::hunks::{build_hunk_args, parse_diff_hunks};
use crate::model::{
    DashboardState, DashboardView, DiffHunk, DiffHunkView, FileChange, FileChangeView,
};
use crate::numbers;
use crate::numbers::decimal_of;
use crate::process;
use crate::selection;
use crate::selection::{clamp_index, selected_file_change};
use crate::strings::{is_blank, lines_of, same_text};
use crate::text;
use crate::text::Text;

verus! {

/// Which answer the diff waits for. The index comes before the worktree, and of each first the
/// diff that is shown and then the one that is cut into hunks.
#[derive(Debug, Clone, Copy, PartialEq, Eq, Structural)]
pub enum DiffPhase {
    StagedPatch,
    StagedHunks,
    WorktreePatch,
    WorktreeHunks,
}

/// A diff of a file that waits for an answer, with what has been read so far.
#[derive(Debug, PartialEq, Eq)]
pub struct FileDiff {
    pub file: FileChange,
    pub lines: Vec<String>,
    pub hunks: Vec<DiffHunk>,
    pub phase: DiffPhase,
}

/// A [`FileDiff`] as a mathematical value.
#[verifier::ext_equal]
pub struct FileDiffView {
    pub file: FileChangeView,
    pub lines: Seq<Text>,
    pub hunks: Seq<DiffHunkView>,
    pub phase: DiffPhase,
}

impl DeepView for FileDiff {
    type V = FileDiffView;

    open spec fn deep_view(&self) -> FileDiffView {
        FileDiffView {
            file: self.file.deep_view(),
            lines: self.lines.deep_view(),
            hunks: self.hunks.deep_view(),
            phase: self.phase,
        }
    }
}

/// The first line of every diff: the path and the counts of the file.
pub open spec fn title_line(file: FileChangeView) -> Text {
    file.path + " (+"@ + numbers::decimal(file.additions as nat) + " / -"@ + numbers::decimal(
        file.deletions as nat,
    ) + ")"@
}

/// The state in which the overlay shows `lines`, or says that there is nothing to show when
/// they are the title alone.
pub open spec fn diff_shown(
    s: DashboardView,
    lines: Seq<Text>,
    hunks: Seq<DiffHunkView>,
) -> DashboardView {
    DashboardView {
        selected_file_diff: if lines.len() == 1 {
            lines.push("No diff available for this file."@)
        } else {
            lines
        },
        selected_file_hunks: hunks,
        selected_hunk_index: selection::clamp(s.selected_hunk_index as int, hunks.len()),
        show_file_overlay: true,
        show_commit_overlay: false,
        error_msg: None,
        ..s
    }
}

/// How the diff of the selected file begins: nothing is asked when no file is selected or when
/// the file is untracked.
pub open spec fn diff_begun(s: DashboardView) -> (Option<FileDiffView>, DashboardView) {
    match s.selected_file() {
        None => (None, DashboardView { error_msg: Some("No file selected"@), ..s }),
        Some(file) => if file.status == "??"@ {
            (
                None,
                diff_shown(
                    s,
                    seq![
                        title_line(file),
                        "Untracked file. Revert file will remove it from the working tree."@,
                    ],
                    seq![],
                ),
            )
        } else {
            (
                Some(
                    FileDiffView {
                        file,
                        lines: seq![title_line(file)],
                        hunks: seq![],
                        phase: DiffPhase::StagedPatch,
                    },
                ),
                s,
            )
        },
    }
}

/// The arguments for `git` that print the diff of one file as it is shown.
pub open spec fn patch_args(path: Text, cached: bool) -> Seq<Text> {
    if cached {
        seq!["diff"@, "--cached"@, "--stat"@, "--patch"@, "--color=never"@, "--"@, path]
    } else {
        seq!["diff"@, "--stat"@, "--patch"@, "--color=never"@, "--"@, path]
    }
}

/// The arguments for `git` whose answer the diff waits for.
pub open spec fn diff_args(d: FileDiffView) -> Seq<Text> {
    match d.phase {
        DiffPhase::StagedPatch => patch_args(d.file.path, true),
        DiffPhase::StagedHunks => hunks::hunk_args(d.file.path, true),
        DiffPhase::WorktreePatch => patch_args(d.file.path, false),
        DiffPhase::WorktreeHunks => hunks::hunk_args(d.file.path, false),
    }
}

/// The lines with a section of their own for what git printed, unless that is blank or git
/// failed.
pub open spec fn with_section(lines: Seq<Text>, heading: Text, reply: Result<Text, Text>) -> Seq<
    Text,
> {
    match reply {
        Ok(output) => if text::trim(output).len() == 0 {
            lines
        } else {
            lines + seq![Seq::empty(), heading] + text::lines(output)
        },
        Err(_) => lines,
    }
}

/// The hunks with those that git printed, unless git failed.
pub open spec fn with_hunks(
    all: Seq<DiffHunkView>,
    reply: Result<Text, Text>,
    cached: bool,
) -> Seq<DiffHunkView> {
    match reply {
        Ok(output) => all + hunks::diff_hunks(output, cached),
        Err(_) => all,
    }
}

/// How the diff goes on with an answer: it waits for the next one, or the overlay shows what
/// has been read.
pub open spec fn diff_stepped(d: FileDiffView, s: DashboardView, reply: Result<Text, Text>) -> (
    Option<FileDiffView>,
    DashboardView,
) {
    match d.phase {
        DiffPhase::StagedPatch => (
            Some(
                FileDiffView {
                    lines: with_section(d.lines, "===== STAGED ====="@, reply),
                    phase: DiffPhase::StagedHunks,
                    ..d
                },
            ),
            s,
        ),
        DiffPhase::StagedHunks => (
            Some(
                FileDiffView {
                    hunks: with_hunks(d.hunks, reply, true),
                    phase: DiffPhase::WorktreePatch,
                    ..d
                },
            ),
            s,
        ),
        DiffPhase::WorktreePatch => (
            Some(
                FileDiffView {
                    lines: with_section(d.lines, "===== WORKTREE ====="@, reply),
                    phase: DiffPhase::WorktreeHunks,
                    ..d
                },
            ),
            s,
        ),
        DiffPhase::WorktreeHunks => (
            None,
            diff_shown(s, d.lines, with_hunks(d.hunks, reply, false)),
        ),
    }
}

// ---------------------------------------------------------------------------
// Laws
// ---------------------------------------------------------------------------

/// The lines that the overlay shows of a tracked file are its title and the two sections, and
/// its hunks are those of the index and then those of the worktree. Nothing but the overlay, the
/// selected hunk and the error changes.
pub proof fn diff_shows_both_sides(
    s: DashboardView,
    staged_patch: Result<Text, Text>,
    staged_hunks: Result<Text, Text>,
    worktree_patch: Result<Text, Text>,
    worktree_hunks: Result<Text, Text>,
)
    requires
        s.selected_file() is Some,
        s.selected_file()->0.status != "??"@,
    ensures
        ({
            let file = s.selected_file()->0;
            let d0 = diff_begun(s).0->0;
            let d1 = diff_stepped(d0, s, staged_patch).0->0;
            let d2 = diff_stepped(d1, s, staged_hunks).0->0;
            let d3 = diff_stepped(d2, s, worktree_patch).0->0;
            let lines = with_section(
                with_section(seq![title_line(file)], "===== STAGED ====="@, staged_patch),
                "===== WORKTREE ====="@,
                worktree_patch,
            );
            let hunks = with_hunks(with_hunks(seq![], staged_hunks, true), worktree_hunks, false);
            &&& diff_args(d0) == patch_args(file.path, true)
            &&& diff_args(d1) == hunks::hunk_args(file.path, true)
            &&& diff_args(d2) == patch_args(file.path, false)
            &&& diff_args(d3) == hunks::hunk_args(file.path, false)
            &&& diff_stepped(d3, s, worktree_hunks) == (
                None::<FileDiffView>,
                diff_shown(s, lines, hunks),
            )
        }),
{
}

/// In every command that the diff asks for, the path comes last and right after `--`, so that
/// git never takes it for an option.
pub proof fn diff_path_is_never_an_option(d: FileDiffView)
    ensures
        diff_args(d).len() >= 2,
        diff_args(d).last() == d.file.path,
        diff_args(d)[diff_args(d).len() - 2] == "--"@,
{
}

/// The diff of a tracked file is asked for in four commands, the index before the worktree, and
/// nothing changes before the last answer. The overlay then shows the path with the counts; of
/// each side that is not blank an empty line, a heading and the lines that git printed; and where
/// both are blank a note. Its hunks are those of the index and then those of the worktree, and the
/// hunk that is selected stays so as far as it is there.
pub proof fn tracked_file_has_its_diff_shown(
    s: DashboardView,
    staged_patch: Result<Text, Text>,
    staged_hunks: Result<Text, Text>,
    worktree_patch: Result<Text, Text>,
    worktree_hunks: Result<Text, Text>,
)
    requires
        s.selected_file_index < s.working_tree.len(),
        s.working_tree[s.selected_file_index as int].status != "??"@,
    ensures
        ({
            let file = s.working_tree[s.selected_file_index as int];
            let (d0, s0) = diff_begun(s);
            let (d1, s1) = diff_stepped(d0->0, s0, staged_patch);
            let (d2, s2) = diff_stepped(d1->0, s1, staged_hunks);
            let (d3, s3) = diff_stepped(d2->0, s2, worktree_patch);
            let (d4, s4) = diff_stepped(d3->0, s3, worktree_hunks);
            let title = file.path + " (+"@ + numbers::decimal(file.additions as nat) + " / -"@
                + numbers::decimal(file.deletions as nat) + ")"@;
            let staged = match staged_patch {
                Ok(output) => if text::trim(output).len() > 0 {
                    seq![Seq::<char>::empty(), "===== STAGED ====="@] + text::lines(output)
                } else {
                    seq![]
                },
                Err(_) => seq![],
            };
            let worktree = match worktree_patch {
                Ok(output) => if text::trim(output).len() > 0 {
                    seq![Seq::<char>::empty(), "===== WORKTREE ====="@] + text::lines(output)
                } else {
                    seq![]
                },
                Err(_) => seq![],
            };
            let hunks = (match staged_hunks {
                Ok(output) => hunks::diff_hunks(output, true),
                Err(_) => seq![],
            }) + (match worktree_hunks {
                Ok(output) => hunks::diff_hunks(output, false),
                Err(_) => seq![],
            });
            &&& d0 is Some && d1 is Some && d2 is Some && d3 is Some && d4 is None
            &&& s0 == s && s1 == s && s2 == s && s3 == s
            &&& diff_args(d0->0) == seq![
                "diff"@,
                "--cached"@,
                "--stat"@,
                "--patch"@,
                "--color=never"@,
                "--"@,
                file.path,
            ]
            &&& diff_args(d1->0) == seq![
                "diff"@,
                "--cached"@,
                "-U0"@,
                "--color=never"@,
                "--"@,
                file.path,
            ]
            &&& diff_args(d2->0) == seq![
                "diff"@,
                "--stat"@,
                "--patch"@,
                "--color=never"@,
                "--"@,
                file.path,
            ]
            &&& diff_args(d3->0) == seq!["diff"@, "-U0"@, "--color=never"@, "--"@, file.path]
            &&& s4 == (DashboardView {
                selected_file_diff: seq![title] + staged + worktree + (if staged.len() == 0
                    && worktree.len() == 0 {
                    seq!["No diff available for this file."@]
                } else {
                    seq![]
                }),
                selected_file_hunks: hunks,
                selected_hunk_index: selection::clamp(s.selected_hunk_index as int, hunks.len()),
                show_file_overlay: true,
                show_commit_overlay: false,
                error_msg: None,
                ..s
            })
        }),
{
    let file = s.working_tree[s.selected_file_index as int];
    let (d0, s0) = diff_begun(s);
    let (d1, s1) = diff_stepped(d0->0, s0, staged_patch);
    let (d2, s2) = diff_stepped(d1->0, s1, staged_hunks);
    let (d3, s3) = diff_stepped(d2->0, s2, worktree_patch);
    let (d4, s4) = diff_stepped(d3->0, s3, worktree_hunks);
    let title = title_line(file);
    let staged = match staged_patch {
        Ok(output) => if text::trim(output).len() > 0 {
            seq![Seq::<char>::empty(), "===== STAGED ====="@] + text::lines(output)
        } else {
            seq![]
        },
        Err(_) => seq![],
    };
    let worktree = match worktree_patch {
        Ok(output) => if text::trim(output).len() > 0 {
            seq![Seq::<char>::empty(), "===== WORKTREE ====="@] + text::lines(output)
        } else {
            seq![]
        },
        Err(_) => seq![],
    };
    let note = if staged.len() == 0 && worktree.len() == 0 {
        seq!["No diff available for this file."@]
    } else {
        seq![]
    };
    assert((d1->0).lines =~= seq![title] + staged);
    assert((d3->0).lines =~= seq![title] + staged + worktree);
    assert(s4.selected_file_diff =~= seq![title] + staged + worktree + note);
    assert(s4.selected_file_hunks =~= (match staged_hunks {
        Ok(output) => hunks::diff_hunks(output, true),
        Err(_) => seq![],
    }) + (match worktree_hunks {
        Ok(output) => hunks::diff_hunks(output, false),
        Err(_) => seq![],
    }));
}

/// An untracked file has no diff: nothing is asked, and the overlay shows the path with the counts
/// and what a revert will do. Without a file nothing is asked and nothing changes but the error.
pub proof fn other_files_ask_for_nothing(s: DashboardView)
    ensures
        s.selected_file_index >= s.working_tree.len() ==> diff_begun(s) == (
            None::<FileDiffView>,
            DashboardView { error_msg: Some("No file selected"@), ..s },
        ),
        s.selected_file_index < s.working_tree.len()
            && s.working_tree[s.selected_file_index as int].status == "??"@ ==> diff_begun(s) == (
            None::<FileDiffView>,
            DashboardView {
                selected_file_diff: seq![
                    s.working_tree[s.selected_file_index as int].path + " (+"@ + numbers::decimal(
                        s.working_tree[s.selected_file_index as int].additions as nat,
                    ) + " / -"@ + numbers::decimal(
                        s.working_tree[s.selected_file_index as int].deletions as nat,
                    ) + ")"@,
                    "Untracked file. Revert file will remove it from the working tree."@,
                ],
                selected_file_hunks: seq![],
                selected_hunk_index: 0,
                show_file_overlay: true,
                show_commit_overlay: false,
                error_msg: None,
                ..s
            },
        ),
{
}

/// The view of a diff shows all that it holds.
pub proof fn diff_view_shows_every_field(diff: FileDiff, i: int)
    ensures
        diff.deep_view().file == diff.file.deep_view(),
        diff.deep_view().lines.len() == diff.lines.len(),
        0 <= i < diff.lines.len() ==> diff.deep_view().lines[i] == diff.lines[i]@,
        diff.deep_view().hunks.len() == diff.hunks.len(),
        0 <= i < diff.hunks.len() ==> diff.deep_view().hunks[i] == diff.hunks[i].deep_view(),
        diff.deep_view().phase == diff.phase,
{
}

// ---------------------------------------------------------------------------
// The diff at work
// ---------------------------------------------------------------------------

fn title_of(file: &FileChange) -> (r: String)
    ensures
        r@ == title_line(file.deep_view()),
{
    let mut r = file.path.clone();
    r.append(" (+");
    let additions = decimal_of(file.additions as u64);
    r.append(additions.as_str());
    r.append(" / -");
    let deletions = decimal_of(file.deletions as u64);
    r.append(deletions.as_str());
    r.append(")");
    r
}

fn show_diff(state: &mut DashboardState, lines: Vec<String>, hunks: Vec<DiffHunk>)
    ensures
        final(state)@ == diff_shown(old(state)@, lines.deep_view(), hunks.deep_view()),
        old(state)@.wf() ==> final(state)@.wf(),
{
    let mut lines = lines;
    let ghost given = lines.deep_view();
    if lines.len() == 1 {
        let note = "No diff available for this file.".to_string();
        lines.push(note);
        assert(lines.deep_view() =~= given.push("No diff available for this file."@));
    }
    state.selected_file_diff = lines;
    state.selected_file_hunks = hunks;
    state.selected_hunk_index = clamp_index(
        state.selected_hunk_index,
        state.selected_file_hunks.len(),
    );
    state.show_file_overlay = true;
    state.show_commit_overlay = false;
    state.error_msg = None;
}

/// Begins to show the diff of the selected file.
pub fn begin_file_diff(state: &mut DashboardState) -> (r: Option<FileDiff>)
    ensures
        (r.deep_view(), final(state)@) == diff_begun(old(state)@),
        old(state)@.wf() ==> final(state)@.wf(),
{
    let file = match selected_file_change(state) {
        Some(file) => file.clone(),
        None => {
            state.error_msg = Some("No file selected".to_string());
            return None;
        },
    };
    let title = title_of(&file);
    let mut lines: Vec<String> = Vec::new();
    lines.push(title);
    assert(lines.deep_view() =~= seq![title_line(file.deep_view())]);
    let hunks: Vec<DiffHunk> = Vec::new();
    assert(hunks.deep_view() =~= seq![]);
    if same_text(file.status.as_str(), "??") {
        let note = "Untracked file. Revert file will remove it from the working tree.".to_string();
        lines.push(note);
        assert(lines.deep_view() =~= seq![
            title_line(file.deep_view()),
            "Untracked file. Revert file will remove it from the working tree."@,
        ]);
        show_diff(state, lines, hunks);
        None
    } else {
        Some(FileDiff { file, lines, hunks, phase: DiffPhase::StagedPatch })
    }
}

fn build_patch_args(path: &str, cached: bool) -> (r: Vec<String>)
    ensures
        r.deep_view() == patch_args(path@, cached),
{
    let r = if cached {
        vec![
            "diff".to_string(),
            "--cached".to_string(),
            "--stat".to_string(),
            "--patch".to_string(),
            "--color=never".to_string(),
            "--".to_string(),
            path.to_string(),
        ]
    } else {
        vec![
            "diff".to_string(),
            "--stat".to_string(),
            "--patch".to_string(),
            "--color=never".to_string(),
            "--".to_string(),
            path.to_string(),
        ]
    };
    assert(r.deep_view() =~= patch_args(path@, cached));
    r
}

fn add_section(lines: &mut Vec<String>, heading: &str, reply: &Result<String, String>)
    ensures
        final(lines).deep_view() == with_section(
            old(lines).deep_view(),
            heading@,
            process::reply_view(*reply),
        ),
{
    match reply {
        Ok(output) => {
            if !is_blank(output.as_str()) {
                let ghost before = lines.deep_view();
                let empty = String::new();
                lines.push(empty);
                assert(lines.deep_view() =~= before.push(Seq::empty()));
                let heading_line = heading.to_string();
                lines.push(heading_line);
                assert(lines.deep_view() =~= before + seq![Seq::empty(), heading@]);
                let ghost front = lines.deep_view();
                let mut section = lines_of(output.as_str());
                let ghost new_lines = section.deep_view();
                lines.append(&mut section);
                assert(lines.deep_view() =~= front + new_lines);
            }
        },
        Err(_) => {},
    }
}

fn add_hunks(hunks: &mut Vec<DiffHunk>, reply: &Result<String, String>, cached: bool)
    ensures
        final(hunks).deep_view() == with_hunks(
            old(hunks).deep_view(),
            process::reply_view(*reply),
            cached,
        ),
{
    match reply {
        Ok(output) => {
            let ghost before = hunks.deep_view();
            let mut found = parse_diff_hunks(output.as_str(), cached);
            let ghost new_hunks = found.deep_view();
            hunks.append(&mut found);
            assert(hunks.deep_view() =~= before + new_hunks);
        },
        Err(_) => {},
    }
}

impl FileDiff {
    /// The arguments for `git` whose answer the diff waits for.
    pub fn args(&self) -> (r: Vec<String>)
        ensures
            r.deep_view() == diff_args(self.deep_view()),
    {
        match self.phase {
            DiffPhase::StagedPatch => build_patch_args(self.file.path.as_str(), true),
            DiffPhase::StagedHunks => build_hunk_args(self.file.path.as_str(), true),
            DiffPhase::WorktreePatch => build_patch_args(self.file.path.as_str(), false),
            DiffPhase::WorktreeHunks => build_hunk_args(self.file.path.as_str(), false),
        }
    }

    /// Goes on with the answer.
    pub fn step(self, state: &mut DashboardState, reply: Result<String, String>) -> (r: Option<
        FileDiff,
    >)
        ensures
            (r.deep_view(), final(state)@) == diff_stepped(
                self.deep_view(),
                old(state)@,
                process::reply_view(reply),
            ),
            old(state)@.wf() ==> final(state)@.wf(),
    {
        let FileDiff { file, lines, hunks, phase } = self;
        let mut lines = lines;
        let mut hunks = hunks;
        match phase {
            DiffPhase::StagedPatch => {
                add_section(&mut lines, "===== STAGED =====", &reply);
                Some(FileDiff { file, lines, hunks, phase: DiffPhase::StagedHunks })
            },
            DiffPhase::StagedHunks => {
                add_hunks(&mut hunks, &reply, true);
                Some(FileDiff { file, lines, hunks, phase: DiffPhase::WorktreePatch })
            },
            DiffPhase::WorktreePatch => {
                add_section(&mut lines, "===== WORKTREE =====", &reply);
                Some(FileDiff { file, lines, hunks, phase: DiffPhase::WorktreeHunks })
            },
            DiffPhase::WorktreeHunks => {
                add_hunks(&mut hunks, &reply, false);
                show_diff(state, lines, hunks);
                None
            },
        }
    }
}

} // verus!
