//! The texts and tones in which the dashboard shows its data.

use vstd::prelude::*;

use crate::clock::clock_text;
use crate::model::{
    Comment, CommentView, DashboardState, DashboardView, FileChange, FileChangeView, PullRequest,
    PullRequestView, WorkflowRun, WorkflowRunView,
};
use crate::numbers;
use crate::numbers::decimal_of;
use crate::patterns::selected_commit_sha;
use crate::selection::{selected_diff_hunk, selected_file_change};
use crate::strings::{flattened, has_prefix, padded_left, repeat_char, same_text};
use crate::text;
use crate::text::Text;

verus! {

/// What a colour stands for.
#[derive(Debug, Clone, Copy, PartialEq, Eq, Structural)]
pub enum Tone {
    Good,
    Bad,
    Merged,
    Warning,
    Info,
    Plain,
    Graph,
    Reference,
    Neutral,
    Selected,
}

// ---------------------------------------------------------------------------
// Text in a limited width
// ---------------------------------------------------------------------------

/// `s` when it has no more than `width` characters; else its start with an ellipsis at the end,
/// `width` characters in all, or the ellipsis alone when there is room for no more.
pub open spec fn fit(s: Text, width: nat) -> Text {
    if s.len() <= width {
        s
    } else if width <= 1 {
        seq!['…']
    } else {
        s.take(width - 1).push('…')
    }
}

/// To make a text fit a width and then no larger one is to make it fit the second at once.
pub proof fn fit_twice_is_fit_once(s: Text, width: nat, smaller: nat)
    requires
        smaller <= width,
    ensures
        fit(fit(s, width), smaller) == fit(s, smaller),
{
    assert(fit(fit(s, width), smaller) =~= fit(s, smaller));
}

/// A text that was made to fit does so, unless there is no room even for the ellipsis.
pub proof fn fit_fits(s: Text, width: nat)
    ensures
        width > 0 ==> fit(s, width).len() <= width,
        s.len() > width > 0 ==> fit(s, width).len() == width && fit(s, width).last() == '…',
{
}

/// `s` cut to `width` characters, with an ellipsis at the end when something was cut.
pub fn trim_display_width(s: &str, width: usize) -> (r: String)
    ensures
        r@ == fit(s@, width as nat),
{
    if s.unicode_len() <= width {
        return s.to_string();
    }
    let mut r = String::new();
    if width <= 1 {
        r.push('…');
        assert(r@ =~= fit(s@, width as nat));
        return r;
    }
    r.append(s.substring_char(0, width - 1));
    r.push('…');
    assert(r@ =~= fit(s@, width as nat));
    r
}

// ---------------------------------------------------------------------------
// The head of the window
// ---------------------------------------------------------------------------

/// Whether `s` holds ASCII characters alone.
pub open spec fn is_ascii_text(s: Text) -> bool {
    forall|i: int| 0 <= i < s.len() ==> #[trigger] s[i] <= '\u{7f}'
}

/// An ASCII character in upper case.
pub open spec fn ascii_capital(c: char) -> char {
    if 'a' <= c <= 'z' {
        (c as u32 - 32) as char
    } else {
        c
    }
}

/// What `str::to_uppercase` gives for a text.
pub uninterp spec fn upper_case(s: Seq<char>) -> Seq<char>;

/// `str::to_uppercase` gives the text in upper case. Trusted: the result depends on the text
/// alone, and of an ASCII text each small letter becomes its capital and the rest stays. What
/// the upper case of other characters is, is left unsaid.
pub assume_specification[ str::to_uppercase ](s: &str) -> (r: String)
    ensures
        r@ == upper_case(s@),
        is_ascii_text(s@) ==> r@ == s@.map_values(|c: char| ascii_capital(c)),
;

/// The labels at the head of the window.
#[derive(Debug, PartialEq, Eq)]
pub struct HeaderLabels {
    pub repo: String,
    pub branch: String,
    pub base: String,
    pub local: String,
    pub remote: String,
}

/// The labels at the head of the window; nothing when the calendar does not hold the time of one
/// of the two last refreshes.
pub fn header_labels(state: &DashboardState) -> (r: Option<HeaderLabels>)
    ensures
        r is Some <==> state@.last_local_refresh.is_time() && state@.last_remote_refresh.is_time(),
        r matches Some(labels) ==> {
            &&& labels.repo@ == upper_case(state@.repo_name)
            &&& is_ascii_text(state@.repo_name) ==> labels.repo@ == state@.repo_name.map_values(
                |c: char| ascii_capital(c),
            )
            &&& labels.branch@ == "Branch: "@ + state@.current_branch
            &&& labels.base@ == "Base: "@ + state@.default_branch
            &&& labels.local@ == "Local: "@ + state@.last_local_refresh.clock()
            &&& labels.remote@ == "GitHub: "@ + state@.last_remote_refresh.clock()
        },
{
    match (clock_text(state.last_local_refresh), clock_text(state.last_remote_refresh)) {
        (Some(local_clock), Some(remote_clock)) => {
            let repo = state.repo_name.as_str().to_uppercase();
            let branch = branch_label(state);
            let mut base = "Base: ".to_string();
            base.append(state.default_branch.as_str());
            let mut local = "Local: ".to_string();
            local.append(local_clock.as_str());
            let mut remote = "GitHub: ".to_string();
            remote.append(remote_clock.as_str());
            Some(HeaderLabels { repo, branch, base, local, remote })
        },
        _ => None,
    }
}

/// The label that names the current branch.
pub fn branch_label(state: &DashboardState) -> (r: String)
    ensures
        r@ == "Branch: "@ + state@.current_branch,
{
    let mut r = "Branch: ".to_string();
    r.append(state.current_branch.as_str());
    r
}

/// The label above the last commit of the default branch.
pub fn default_branch_label(state: &DashboardState) -> (r: String)
    ensures
        r@ == "Last commit on "@ + upper_case(state@.default_branch),
        is_ascii_text(state@.default_branch) ==> r@ == "Last commit on "@
            + state@.default_branch.map_values(|c: char| ascii_capital(c)),
{
    let mut r = "Last commit on ".to_string();
    let name = state.default_branch.as_str().to_uppercase();
    r.append(name.as_str());
    r
}

// ---------------------------------------------------------------------------
// The side bar
// ---------------------------------------------------------------------------

/// How many files have changed, in words.
pub open spec fn change_words(count: nat) -> Text {
    if count == 0 {
        "No changes"@
    } else if count == 1 {
        "1 changed file"@
    } else {
        numbers::decimal(count) + " changed files"@
    }
}

/// How many files have changed, in words.
pub fn change_summary(state: &DashboardState) -> (r: String)
    ensures
        r@ == change_words(state@.working_tree.len()),
{
    let count = state.working_tree.len();
    if count == 0 {
        "No changes".to_string()
    } else if count == 1 {
        "1 changed file".to_string()
    } else {
        let mut r = decimal_of(count as u64);
        r.append(" changed files");
        r
    }
}

/// The repository and the branch that a commit goes to.
pub fn commit_target_label(state: &DashboardState) -> (r: String)
    ensures
        r@ == state@.repo_name + "/"@ + state@.current_branch,
{
    let mut r = state.repo_name.clone();
    r.append("/");
    r.append(state.current_branch.as_str());
    r
}

/// The tone of a file with this status.
pub open spec fn tone_of_status(status: Text) -> Tone {
    if status == "M"@ || status == "MM"@ || status == "AM"@ || status == " T"@ {
        Tone::Warning
    } else if status == "A"@ || status == "??"@ {
        Tone::Good
    } else if status == "D"@ || status == "AD"@ {
        Tone::Bad
    } else if status == "R"@ {
        Tone::Info
    } else {
        Tone::Neutral
    }
}

/// The tone of a file with this status.
pub fn status_tone(status: &str) -> (r: Tone)
    ensures
        r == tone_of_status(status@),
{
    if same_text(status, "M") || same_text(status, "MM") || same_text(status, "AM") || same_text(
        status,
        " T",
    ) {
        Tone::Warning
    } else if same_text(status, "A") || same_text(status, "??") {
        Tone::Good
    } else if same_text(status, "D") || same_text(status, "AD") {
        Tone::Bad
    } else if same_text(status, "R") {
        Tone::Info
    } else {
        Tone::Neutral
    }
}

/// How many lines of a file were added or deleted.
pub open spec fn total_of(file: FileChangeView) -> nat {
    (file.additions + file.deletions) as nat
}

/// The largest total of the files, but no less than one.
pub open spec fn largest(files: Seq<FileChangeView>) -> nat
    decreases files.len(),
{
    if files.len() == 0 {
        1
    } else {
        let earlier = largest(files.drop_last());
        if total_of(files.last()) > earlier {
            total_of(files.last())
        } else {
            earlier
        }
    }
}

/// No file has a larger total than the largest, and either a file has it or it is one.
pub proof fn largest_is_largest(files: Seq<FileChangeView>)
    ensures
        forall|i: int| 0 <= i < files.len() ==> total_of(#[trigger] files[i]) <= largest(files),
        largest(files) >= 1,
        largest(files) == 1 || exists|i: int|
            0 <= i < files.len() && total_of(#[trigger] files[i]) == largest(files),
    decreases files.len(),
{
    if files.len() > 0 {
        let rest = files.drop_last();
        largest_is_largest(rest);
        assert forall|i: int| 0 <= i < files.len() implies total_of(#[trigger] files[i])
            <= largest(files) by {
            if i < rest.len() {
                assert(files[i] == rest[i]);
            }
        }
        if total_of(files.last()) > largest(rest) {
            assert(total_of(files[files.len() - 1]) == largest(files));
        } else if largest(rest) != 1 {
            let i = choose|i: int| 0 <= i < rest.len() && total_of(#[trigger] rest[i]) == largest(
                rest,
            );
            assert(total_of(files[i]) == largest(files));
        }
    }
}

/// The largest total of the files, but no less than one; nothing when the total of a file does
/// not fit in 32 bits.
pub fn largest_total(files: &Vec<FileChange>) -> (r: Option<u32>)
    ensures
        r is Some <==> forall|i: int|
            0 <= i < files.deep_view().len() ==> total_of(#[trigger] files.deep_view()[i])
                <= u32::MAX,
        r matches Some(n) ==> n == largest(files.deep_view()),
{
    let ghost fs = files.deep_view();
    let mut r: u32 = 1;
    let mut i: usize = 0;
    assert(fs.take(0) =~= seq![]);
    while i < files.len()
        invariant
            fs == files.deep_view(),
            i <= files@.len(),
            r == largest(fs.take(i as int)),
            forall|k: int| 0 <= k < i ==> total_of(#[trigger] fs[k]) <= u32::MAX,
        decreases files@.len() - i,
    {
        proof {
            assert(fs.take(i as int + 1).drop_last() =~= fs.take(i as int));
            assert(fs.take(i as int + 1).last() == fs[i as int]);
            assert(fs[i as int] == files@[i as int].deep_view());
        }
        match files[i].additions.checked_add(files[i].deletions) {
            Some(total) => {
                if total > r {
                    r = total;
                }
            },
            None => {
                assert(total_of(fs[i as int]) > u32::MAX);
                return None;
            },
        }
        i += 1;
    }
    assert(fs.take(i as int) =~= fs);
    Some(r)
}

/// How many blocks the bar of a file has.
pub const BAR_BLOCKS: usize = 18;

/// How the blocks of a bar are dealt out: those for added lines, those for deleted lines and
/// the empty ones, where `filled` are not empty and `added` are to be for added lines.
pub open spec fn blocks(filled: usize, added: usize) -> (nat, nat, nat) {
    let for_added = if added < filled {
        added as nat
    } else {
        filled as nat
    };
    let empty = if filled < BAR_BLOCKS {
        (BAR_BLOCKS - filled) as nat
    } else {
        0
    };
    (for_added, (filled - for_added) as nat, empty)
}

/// The blocks of a bar are all dealt out, and no bar is longer than another.
pub proof fn blocks_fill_the_bar(filled: usize, added: usize)
    requires
        filled <= BAR_BLOCKS,
    ensures
        blocks(filled, added).0 + blocks(filled, added).1 + blocks(filled, added).2 == BAR_BLOCKS,
        blocks(filled, added).0 + blocks(filled, added).1 == filled,
{
}

/// What the row of a changed file shows.
#[derive(Debug, PartialEq, Eq)]
pub struct FileRow {
    pub status: String,
    pub tone: Tone,
    pub path: String,
    pub added_bar: String,
    pub deleted_bar: String,
    pub empty_bar: String,
    pub counts: String,
}

/// The counts of a file as its row shows them.
pub open spec fn counts_text(file: FileChangeView) -> Text {
    "+"@ + numbers::decimal(file.additions as nat) + " -"@ + numbers::decimal(file.deletions as nat)
}

/// What the row of a changed file shows, with `filled` blocks of the bar in use and `added` of
/// them for added lines.
pub fn file_row(change: &FileChange, filled: usize, added: usize) -> (r: FileRow)
    ensures
        r.status@ == text::pad_left(change.status@, 2),
        r.tone == tone_of_status(change.status@),
        r.path@ == fit(change.path@, 28),
        r.added_bar@ == text::repeated('█', blocks(filled, added).0),
        r.deleted_bar@ == text::repeated('█', blocks(filled, added).1),
        r.empty_bar@ == text::repeated('░', blocks(filled, added).2),
        r.counts@ == counts_text(change.deep_view()),
{
    let for_added: usize = if added < filled {
        added
    } else {
        filled
    };
    let for_deleted: usize = filled.saturating_sub(for_added);
    let empty: usize = BAR_BLOCKS.saturating_sub(filled);
    let mut counts = "+".to_string();
    let additions = decimal_of(change.additions as u64);
    counts.append(additions.as_str());
    counts.append(" -");
    let deletions = decimal_of(change.deletions as u64);
    counts.append(deletions.as_str());
    FileRow {
        status: padded_left(change.status.as_str(), 2),
        tone: status_tone(change.status.as_str()),
        path: trim_display_width(change.path.as_str(), 28),
        added_bar: repeat_char('█', for_added),
        deleted_bar: repeat_char('█', for_deleted),
        empty_bar: repeat_char('░', empty),
        counts,
    }
}

// ---------------------------------------------------------------------------
// Pull requests, runs and comments
// ---------------------------------------------------------------------------

/// The line that shows a pull request.
pub open spec fn pull_request_text(pr: PullRequestView) -> Text {
    "#"@ + numbers::decimal(pr.number as nat) + " "@ + fit(pr.title, 36) + " ["@ + pr.head_ref_name
        + "] by @"@ + pr.author
}

/// The line that shows a pull request.
pub fn pull_request_label(pr: &PullRequest) -> (r: String)
    ensures
        r@ == pull_request_text(pr.deep_view()),
{
    let mut r = "#".to_string();
    let number = decimal_of(pr.number);
    r.append(number.as_str());
    r.append(" ");
    let title = trim_display_width(pr.title.as_str(), 36);
    r.append(title.as_str());
    r.append(" [");
    r.append(pr.head_ref_name.as_str());
    r.append("] by @");
    r.append(pr.author.login.as_str());
    r
}

/// The tone of a pull request in this state.
pub open spec fn tone_of_request(state: Text) -> Tone {
    if state == "OPEN"@ {
        Tone::Good
    } else if state == "CLOSED"@ {
        Tone::Bad
    } else if state == "MERGED"@ {
        Tone::Merged
    } else {
        Tone::Warning
    }
}

/// The tone of a pull request.
pub fn pull_request_tone(pr: &PullRequest) -> (r: Tone)
    ensures
        r == tone_of_request(pr.deep_view().state),
{
    let state = pr.state.as_str();
    if same_text(state, "OPEN") {
        Tone::Good
    } else if same_text(state, "CLOSED") {
        Tone::Bad
    } else if same_text(state, "MERGED") {
        Tone::Merged
    } else {
        Tone::Warning
    }
}

/// The line that shows a run of a workflow.
pub open spec fn run_text(run: WorkflowRunView) -> Text {
    fit(run.name, 32) + " - "@ + run.status
}

/// The line that shows a run of a workflow.
pub fn run_label(run: &WorkflowRun) -> (r: String)
    ensures
        r@ == run_text(run.deep_view()),
{
    let mut r = trim_display_width(run.name.as_str(), 32);
    r.append(" - ");
    r.append(run.status.as_str());
    r
}

/// The tone of a run with this conclusion.
pub open spec fn tone_of_conclusion(conclusion: Option<Text>) -> Tone {
    match conclusion {
        Some(word) => if word == "success"@ {
            Tone::Good
        } else if word == "failure"@ {
            Tone::Bad
        } else {
            Tone::Warning
        },
        None => Tone::Warning,
    }
}

/// The tone of a run of a workflow.
pub fn run_tone(run: &WorkflowRun) -> (r: Tone)
    ensures
        r == tone_of_conclusion(run.deep_view().conclusion),
{
    match &run.conclusion {
        Some(word) => {
            if same_text(word.as_str(), "success") {
                Tone::Good
            } else if same_text(word.as_str(), "failure") {
                Tone::Bad
            } else {
                Tone::Warning
            }
        },
        None => Tone::Warning,
    }
}

/// The line that shows a comment.
pub open spec fn comment_text(comment: CommentView) -> Text {
    "@"@ + comment.author + ": "@ + fit(text::flatten_lines(comment.body), 52)
}

/// The line that shows a comment.
pub fn comment_label(comment: &Comment) -> (r: String)
    ensures
        r@ == comment_text(comment.deep_view()),
{
    let mut r = "@".to_string();
    r.append(comment.author.login.as_str());
    r.append(": ");
    let flat = flattened(comment.body.as_str());
    let body = trim_display_width(flat.as_str(), 52);
    r.append(body.as_str());
    r
}

// ---------------------------------------------------------------------------
// The foot of the window and the overlays
// ---------------------------------------------------------------------------

/// The label that names the selected commit, which is the leftmost on its line.
pub fn selected_commit_label(state: &DashboardState) -> (r: String)
    ensures
        state@.selected_is_leftmost(),
        r@ == "Selected commit: "@ + match state@.selected_sha() {
            Some(sha) => sha,
            None => "none"@,
        },
{
    let mut r = "Selected commit: ".to_string();
    match selected_commit_sha(state) {
        Some(sha) => {
            r.append(sha.as_str());
        },
        None => {
            r.append("none");
        },
    }
    r
}

/// The label that names the selected file.
pub fn selected_file_label(state: &DashboardState) -> (r: String)
    ensures
        r@ == "Selected file: "@ + match state@.selected_file() {
            Some(file) => file.path,
            None => "clean"@,
        },
{
    let mut r = "Selected file: ".to_string();
    match selected_file_change(state) {
        Some(file) => {
            r.append(file.path.as_str());
        },
        None => {
            r.append("clean");
        },
    }
    r
}

/// The title of the overlay that shows the diff of a file.
pub open spec fn overlay_title(s: DashboardView) -> Text {
    match s.selected_hunk() {
        Some(hunk) => "File Diff | hunk "@ + numbers::decimal((s.selected_hunk_index + 1) as nat)
            + "/"@ + numbers::decimal(s.selected_file_hunks.len()) + " "@ + hunk.header,
        None => "File Diff"@,
    }
}

/// The title of the overlay that shows the diff of a file.
pub fn file_overlay_title(state: &DashboardState) -> (r: String)
    ensures
        r@ == overlay_title(state@),
{
    match selected_diff_hunk(state) {
        Some(hunk) => {
            let mut r = "File Diff | hunk ".to_string();
            assert(state.selected_hunk_index < state.selected_file_hunks.len());
            let number = decimal_of(state.selected_hunk_index as u64 + 1);
            r.append(number.as_str());
            r.append("/");
            let count = decimal_of(state.selected_file_hunks.len() as u64);
            r.append(count.as_str());
            r.append(" ");
            r.append(hunk.header.as_str());
            r
        },
        None => "File Diff".to_string(),
    }
}

/// The tone of a line of a diff.
pub open spec fn tone_of_diff_line(line: Text) -> Tone {
    if text::starts_with(line, "+"@) && !text::starts_with(line, "+++"@) {
        Tone::Good
    } else if text::starts_with(line, "-"@) && !text::starts_with(line, "---"@) {
        Tone::Bad
    } else if text::starts_with(line, "@@"@) {
        Tone::Warning
    } else if text::starts_with(line, "diff --git"@) || text::starts_with(line, "index "@)
        || text::starts_with(line, "====="@) {
        Tone::Info
    } else {
        Tone::Plain
    }
}

/// The tone of a line of a diff.
pub fn diff_line_tone(line: &str) -> (r: Tone)
    ensures
        r == tone_of_diff_line(line@),
{
    if has_prefix(line, "+") && !has_prefix(line, "+++") {
        Tone::Good
    } else if has_prefix(line, "-") && !has_prefix(line, "---") {
        Tone::Bad
    } else if has_prefix(line, "@@") {
        Tone::Warning
    } else if has_prefix(line, "diff --git") || has_prefix(line, "index ") || has_prefix(
        line,
        "=====",
    ) {
        Tone::Info
    } else {
        Tone::Plain
    }
}

// ---------------------------------------------------------------------------
// Laws
// ---------------------------------------------------------------------------

/// A text that is not too wide stays as it is. One that is keeps its first characters, one fewer
/// than there is room for, and has an ellipsis for the rest; where there is room for one or none,
/// the ellipsis is all.
pub proof fn fitting_keeps_the_front(s: Text, width: nat)
    ensures
        s.len() <= width ==> fit(s, width) == s,
        s.len() > width && width <= 1 ==> fit(s, width) == seq!['…'],
        s.len() > width && width >= 2 ==> fit(s, width) == s.take(width - 1) + seq!['…'],
{
    if s.len() > width && width >= 2 {
        assert(fit(s, width) =~= s.take(width - 1) + seq!['…']);
    }
}

/// The changed files are counted in words, in the singular for one.
pub proof fn change_words_count(count: nat)
    ensures
        change_words(0) == "No changes"@,
        change_words(1) == "1 changed file"@,
        count >= 2 ==> change_words(count) == numbers::decimal(count) + " changed files"@,
{
}

/// Which statuses have which tone: the four of modified files warn, the two of new files are
/// good, the two of deleted files are bad, renames inform, and all others are neutral.
pub proof fn statuses_have_their_tones(status: Text)
    ensures
        tone_of_status(status) == Tone::Warning <==> status == "M"@ || status == "MM"@ || status
            == "AM"@ || status == " T"@,
        tone_of_status(status) == Tone::Good <==> status == "A"@ || status == "??"@,
        tone_of_status(status) == Tone::Bad <==> status == "D"@ || status == "AD"@,
        tone_of_status(status) == Tone::Info <==> status == "R"@,
        tone_of_status(status) == Tone::Neutral <==> !(status == "M"@ || status == "MM"@ || status
            == "AM"@ || status == " T"@ || status == "A"@ || status == "??"@ || status == "D"@
            || status == "AD"@ || status == "R"@),
{
    reveal_strlit("M");
    reveal_strlit("MM");
    reveal_strlit("AM");
    reveal_strlit(" T");
    reveal_strlit("A");
    reveal_strlit("??");
    reveal_strlit("D");
    reveal_strlit("AD");
    reveal_strlit("R");
    assert("M"@[0] == 'M' && "MM"@[0] == 'M' && "AM"@[0] == 'A' && " T"@[0] == ' ');
    assert("A"@[0] == 'A' && "??"@[0] == '?' && "D"@[0] == 'D' && "AD"@[0] == 'A');
    assert("R"@[0] == 'R' && "AM"@[1] == 'M' && "AD"@[1] == 'D');
    assert("A"@.len() == 1 && "M"@.len() == 1 && "D"@.len() == 1 && "R"@.len() == 1);
    assert("MM"@.len() == 2 && "AM"@.len() == 2 && " T"@.len() == 2 && "AD"@.len() == 2);
    assert("A"@ != "M"@ && "A"@ != "MM"@ && "A"@ != "AM"@ && "A"@ != " T"@);
    assert("??"@ != "M"@ && "??"@ != "MM"@ && "??"@ != "AM"@ && "??"@ != " T"@);
    assert("D"@ != "M"@ && "D"@ != "MM"@ && "D"@ != "AM"@ && "D"@ != " T"@ && "D"@ != "A"@);
    assert("AD"@ != "M"@ && "AD"@ != "MM"@ && "AD"@ != "AM"@ && "AD"@ != " T"@ && "AD"@ != "A"@);
    assert("D"@ != "??"@ && "AD"@ != "??"@);
}

/// Which pull requests have which tone.
pub proof fn requests_have_their_tones(state: Text)
    ensures
        tone_of_request(state) == Tone::Good <==> state == "OPEN"@,
        tone_of_request(state) == Tone::Bad <==> state == "CLOSED"@,
        tone_of_request(state) == Tone::Merged <==> state == "MERGED"@,
        tone_of_request(state) == Tone::Warning <==> state != "OPEN"@ && state != "CLOSED"@ && state
            != "MERGED"@,
{
    reveal_strlit("OPEN");
    reveal_strlit("CLOSED");
    reveal_strlit("MERGED");
    assert("OPEN"@[0] == 'O' && "CLOSED"@[0] == 'C' && "MERGED"@[0] == 'M');
}

/// Which runs have which tone: one without a conclusion is neither good nor bad.
pub proof fn runs_have_their_tones(conclusion: Option<Text>)
    ensures
        tone_of_conclusion(conclusion) == Tone::Good <==> conclusion == Some("success"@),
        tone_of_conclusion(conclusion) == Tone::Bad <==> conclusion == Some("failure"@),
        tone_of_conclusion(conclusion) == Tone::Warning <==> conclusion != Some("success"@)
            && conclusion != Some("failure"@),
{
    reveal_strlit("success");
    reveal_strlit("failure");
    assert("success"@[0] == 's' && "failure"@[0] == 'f');
}

/// The lines that show a pull request, a run and a comment put all parts of it together, with the
/// title, the name and the comment cut to their widths and the comment on one line.
pub proof fn lines_show_all_parts(pr: PullRequestView, run: WorkflowRunView, comment: CommentView)
    ensures
        pull_request_text(pr) == "#"@ + numbers::decimal(pr.number as nat) + " "@ + fit(
            pr.title,
            36,
        ) + " ["@ + pr.head_ref_name + "] by @"@ + pr.author,
        run_text(run) == fit(run.name, 32) + " - "@ + run.status,
        comment_text(comment) == "@"@ + comment.author + ": "@ + fit(
            text::flatten_lines(comment.body),
            52,
        ),
{
}

/// The counts of a file are shown with their signs, the added lines first.
pub proof fn counts_are_shown_with_signs(file: FileChangeView)
    ensures
        counts_text(file) == "+"@ + numbers::decimal(file.additions as nat) + " -"@
            + numbers::decimal(file.deletions as nat),
        total_of(file) == file.additions + file.deletions,
{
}

/// Of the blocks of a bar as many are for added lines as asked, but no more than are filled; the
/// rest of the filled ones are for deleted lines; and what is missing to eighteen is empty.
pub proof fn blocks_are_dealt_out(filled: usize, added: usize)
    ensures
        ({
            let (for_added, for_deleted, empty) = blocks(filled, added);
            &&& added <= filled ==> for_added == added
            &&& added > filled ==> for_added == filled
            &&& for_added + for_deleted == filled
            &&& filled <= 18 ==> empty + filled == 18
            &&& filled > 18 ==> empty == 0
        }),
{
}

/// The title of the overlay counts the hunks from one and shows the header of the one that is
/// selected; without a hunk it is bare.
pub proof fn overlay_title_counts_hunks(s: DashboardView)
    ensures
        s.selected_hunk_index >= s.selected_file_hunks.len() ==> overlay_title(s) == "File Diff"@,
        s.selected_hunk_index < s.selected_file_hunks.len() ==> overlay_title(s)
            == "File Diff | hunk "@ + numbers::decimal((s.selected_hunk_index + 1) as nat) + "/"@
            + numbers::decimal(s.selected_file_hunks.len()) + " "@
            + s.selected_file_hunks[s.selected_hunk_index as int].header,
{
}

/// Which lines of a diff have which tone: those that were added or deleted, but not the names of
/// the files before them; the starts of hunks; and the headings.
pub proof fn diff_lines_have_their_tones(rest: Text, c: char, line: Text)
    ensures
        !(text::starts_with(line, "+"@) || text::starts_with(line, "-"@) || text::starts_with(
            line,
            "@@"@,
        ) || text::starts_with(line, "diff --git"@) || text::starts_with(line, "index "@)
            || text::starts_with(line, "====="@)) ==> tone_of_diff_line(line) == Tone::Plain,
        tone_of_diff_line(seq![]) == Tone::Plain,
        tone_of_diff_line("+++"@ + rest) == Tone::Plain,
        tone_of_diff_line("---"@ + rest) == Tone::Plain,
        !text::starts_with(rest, "++"@) ==> tone_of_diff_line("+"@ + rest) == Tone::Good,
        !text::starts_with(rest, "--"@) ==> tone_of_diff_line("-"@ + rest) == Tone::Bad,
        tone_of_diff_line("@@"@ + rest) == Tone::Warning,
        tone_of_diff_line("diff --git"@ + rest) == Tone::Info,
        tone_of_diff_line("index "@ + rest) == Tone::Info,
        tone_of_diff_line("====="@ + rest) == Tone::Info,
        c != '+' && c != '-' && c != '@' && c != 'd' && c != 'i' && c != '=' ==> tone_of_diff_line(
            seq![c] + rest,
        ) == Tone::Plain,
{
    reveal_strlit("+");
    reveal_strlit("++");
    reveal_strlit("+++");
    reveal_strlit("-");
    reveal_strlit("--");
    reveal_strlit("---");
    reveal_strlit("@@");
    reveal_strlit("diff --git");
    reveal_strlit("index ");
    reveal_strlit("=====");
    prefix_by_first(seq![], rest);
    prefix_by_first("+++"@, rest);
    prefix_by_first("---"@, rest);
    prefix_by_first("+"@, rest);
    prefix_by_first("-"@, rest);
    prefix_by_first("@@"@, rest);
    prefix_by_first("diff --git"@, rest);
    prefix_by_first("index "@, rest);
    prefix_by_first("====="@, rest);
    prefix_by_first(seq![c], rest);
    text::prefix_is_front(seq![], "+++"@, rest);
    text::prefix_is_front(seq![], "---"@, rest);
    text::prefix_is_front(seq![], "@@"@, rest);
    text::prefix_is_front(seq![], "diff --git"@, rest);
    text::prefix_is_front(seq![], "index "@, rest);
    text::prefix_is_front(seq![], "====="@, rest);
    text::prefix_is_front(seq![], "+"@, rest);
    text::prefix_is_front(seq![], "-"@, rest);
    text::prefix_is_front(seq![], "+"@, "++"@ + rest);
    text::prefix_is_front(seq![], "-"@, "--"@ + rest);
    assert("+++"@ + rest =~= "+"@ + ("++"@ + rest));
    assert("---"@ + rest =~= "-"@ + ("--"@ + rest));
    if text::starts_with("+"@ + rest, "+++"@) {
        assert(rest.take(2) =~= ("+"@ + rest).take(3).skip(1));
        assert("+++"@.skip(1) =~= "++"@);
    }
    if text::starts_with("-"@ + rest, "---"@) {
        assert(rest.take(2) =~= ("-"@ + rest).take(3).skip(1));
        assert("---"@.skip(1) =~= "--"@);
    }
}

/// A text that starts with another one starts with its first character.
proof fn prefix_by_first(front: Text, rest: Text)
    ensures
        forall|prefix: Text| #[trigger]
            text::starts_with(front + rest, prefix) && prefix.len() > 0 ==> (front + rest).len() > 0
                && (front + rest)[0] == prefix[0],
        front.len() == 0 && rest.len() == 0 ==> forall|prefix: Text|
            prefix.len() > 0 ==> !#[trigger] text::starts_with(front, prefix),
        front.len() == 0 ==> front + rest == rest,
{
    assert forall|prefix: Text| #[trigger]
        text::starts_with(front + rest, prefix) && prefix.len() > 0 implies (front + rest).len() > 0
        && (front + rest)[0] == prefix[0] by {
        assert((front + rest).take(prefix.len() as int)[0] == (front + rest)[0]);
    }
    if front.len() == 0 {
        assert(front + rest =~= rest);
    }
}

} // verus!
