//! What the user can ask for, and the keys and buttons that ask for it.

use vstd::prelude::*;

use crate::model::ActivePanel;

verus! {

/// What the user can ask for.
#[derive(Debug, Clone, Copy, PartialEq, Eq, Structural)]
pub enum Command {
    TogglePanel,
    MoveUp,
    MoveDown,
    SelectCommit(usize),
    SelectFile(usize),
    PreviousHunk,
    NextHunk,
    OpenPrompt,
    CancelPrompt,
    CommitAll,
    Push,
    ShowCommit,
    ShowFileDiff,
    RevertFile,
    RevertHunk,
    OpenOnGithub,
    RefreshLocal,
    RefreshRemote,
    CloseOverlays,
    CloseCommitOverlay,
    CloseFileOverlay,
    DismissError,
}

/// The keys that were pressed.
#[derive(Debug, Clone, Copy, PartialEq, Eq, Structural)]
pub struct Keys {
    pub tab: bool,
    pub left: bool,
    pub right: bool,
    pub up: bool,
    pub down: bool,
    pub c: bool,
    pub p: bool,
    pub s: bool,
    pub d: bool,
    pub f: bool,
    pub h: bool,
    pub o: bool,
    pub r: bool,
    pub open_bracket: bool,
    pub close_bracket: bool,
    pub escape: bool,
}

/// The buttons of the tool bar that were clicked.
#[derive(Debug, Clone, Copy, PartialEq, Eq, Structural)]
pub struct ToolbarClicks {
    pub refresh: bool,
    pub commit: bool,
    pub push: bool,
    pub show_commit: bool,
    pub open_on_github: bool,
    pub show_diff: bool,
    pub revert_file: bool,
    pub revert_hunk: bool,
}

/// The buttons of the diff overlay that were clicked, and whether the overlay was closed.
#[derive(Debug, Clone, Copy, PartialEq, Eq, Structural)]
pub struct OverlayClicks {
    pub close: bool,
    pub revert_file: bool,
    pub revert_hunk: bool,
    pub previous_hunk: bool,
    pub next_hunk: bool,
}

/// A row of a list that was looked at for clicks.
#[derive(Debug, Clone, Copy, PartialEq, Eq, Structural)]
pub struct RowClick {
    pub index: usize,
    pub clicked: bool,
    pub double_clicked: bool,
}

/// One command when it is asked for, else none.
pub open spec fn when(asked: bool, command: Command) -> Seq<Command> {
    if asked {
        seq![command]
    } else {
        seq![]
    }
}

/// The commands that the keys ask for, in the order in which they are carried out. While the
/// commit message is being typed, the keys ask for nothing.
pub open spec fn key_commands(prompt_open: bool, keys: Keys) -> Seq<Command> {
    if prompt_open {
        seq![]
    } else {
        when(keys.tab || keys.left || keys.right, Command::TogglePanel) + when(
            keys.up,
            Command::MoveUp,
        ) + when(keys.down, Command::MoveDown) + when(keys.c, Command::OpenPrompt) + when(
            keys.p,
            Command::Push,
        ) + when(keys.s, Command::ShowCommit) + when(keys.d, Command::ShowFileDiff) + when(
            keys.f,
            Command::RevertFile,
        ) + when(keys.h, Command::RevertHunk) + when(keys.o, Command::OpenOnGithub) + when(
            keys.r,
            Command::RefreshLocal,
        ) + when(keys.r, Command::RefreshRemote) + when(
            keys.open_bracket,
            Command::PreviousHunk,
        ) + when(keys.close_bracket, Command::NextHunk) + when(keys.escape, Command::CloseOverlays)
    }
}

/// The commands that the tool bar asks for, in the order in which they are carried out.
pub open spec fn bar_commands(clicks: ToolbarClicks) -> Seq<Command> {
    when(clicks.refresh, Command::RefreshLocal) + when(clicks.refresh, Command::RefreshRemote)
        + when(clicks.commit, Command::OpenPrompt) + when(clicks.push, Command::Push) + when(
        clicks.show_commit,
        Command::ShowCommit,
    ) + when(clicks.open_on_github, Command::OpenOnGithub) + when(
        clicks.show_diff,
        Command::ShowFileDiff,
    ) + when(clicks.revert_file, Command::RevertFile) + when(
        clicks.revert_hunk,
        Command::RevertHunk,
    )
}

/// The commands that the diff overlay asks for, in the order in which they are carried out.
pub open spec fn overlay_orders(clicks: OverlayClicks) -> Seq<Command> {
    when(clicks.close, Command::CloseFileOverlay) + when(
        clicks.previous_hunk,
        Command::PreviousHunk,
    ) + when(clicks.next_hunk, Command::NextHunk) + when(clicks.revert_file, Command::RevertFile)
        + when(clicks.revert_hunk, Command::RevertHunk)
}

/// The command that selects a row of a panel.
pub open spec fn select_row(panel: ActivePanel, index: usize) -> Command {
    match panel {
        ActivePanel::Commits => Command::SelectCommit(index),
        ActivePanel::Files => Command::SelectFile(index),
    }
}

/// The command that opens the selected row of a panel.
pub open spec fn open_row(panel: ActivePanel) -> Command {
    match panel {
        ActivePanel::Commits => Command::ShowCommit,
        ActivePanel::Files => Command::ShowFileDiff,
    }
}

/// The selections that the clicks on the rows ask for, row by row.
pub open spec fn row_selections(panel: ActivePanel, rows: Seq<RowClick>) -> Seq<Command>
    decreases rows.len(),
{
    if rows.len() == 0 {
        seq![]
    } else {
        let row = rows.last();
        row_selections(panel, rows.drop_last()) + when(row.clicked, select_row(panel, row.index))
            + when(row.double_clicked, select_row(panel, row.index))
    }
}

/// The last row that was double-clicked.
pub open spec fn opened_row(rows: Seq<RowClick>) -> Option<usize>
    decreases rows.len(),
{
    if rows.len() == 0 {
        None
    } else if rows.last().double_clicked {
        Some(rows.last().index)
    } else {
        opened_row(rows.drop_last())
    }
}

/// The commands that the clicks on the rows of a panel ask for: each click selects its row, and
/// the last double click also opens it.
pub open spec fn row_orders(panel: ActivePanel, rows: Seq<RowClick>) -> Seq<Command> {
    row_selections(panel, rows) + match opened_row(rows) {
        Some(index) => seq![select_row(panel, index), open_row(panel)],
        None => seq![],
    }
}

/// The commands that the prompt for the commit message asks for. To close it comes first, so
/// that nothing is committed with the message that was given up.
pub open spec fn prompt_orders(close: bool, escape: bool, commit: bool) -> Seq<Command> {
    when(close || escape, Command::CancelPrompt) + when(commit, Command::CommitAll)
}

/// While the commit message is being typed, no key reaches the dashboard.
pub proof fn prompt_takes_all_keys(keys: Keys)
    ensures
        key_commands(true, keys).len() == 0,
{
}

fn push_when(all: &mut Vec<Command>, asked: bool, command: Command)
    ensures
        final(all)@ == old(all)@ + when(asked, command),
{
    if asked {
        all.push(command);
    }
    assert(all@ =~= old(all)@ + when(asked, command));
}

/// The commands that the keys ask for.
pub fn shortcut_commands(prompt_open: bool, keys: Keys) -> (r: Vec<Command>)
    ensures
        r@ == key_commands(prompt_open, keys),
{
    let mut r: Vec<Command> = Vec::new();
    if prompt_open {
        return r;
    }
    push_when(&mut r, keys.tab || keys.left || keys.right, Command::TogglePanel);
    push_when(&mut r, keys.up, Command::MoveUp);
    push_when(&mut r, keys.down, Command::MoveDown);
    push_when(&mut r, keys.c, Command::OpenPrompt);
    push_when(&mut r, keys.p, Command::Push);
    push_when(&mut r, keys.s, Command::ShowCommit);
    push_when(&mut r, keys.d, Command::ShowFileDiff);
    push_when(&mut r, keys.f, Command::RevertFile);
    push_when(&mut r, keys.h, Command::RevertHunk);
    push_when(&mut r, keys.o, Command::OpenOnGithub);
    push_when(&mut r, keys.r, Command::RefreshLocal);
    push_when(&mut r, keys.r, Command::RefreshRemote);
    push_when(&mut r, keys.open_bracket, Command::PreviousHunk);
    push_when(&mut r, keys.close_bracket, Command::NextHunk);
    push_when(&mut r, keys.escape, Command::CloseOverlays);
    assert(r@ =~= key_commands(prompt_open, keys));
    r
}

/// The commands that the tool bar asks for.
pub fn toolbar_commands(clicks: ToolbarClicks) -> (r: Vec<Command>)
    ensures
        r@ == bar_commands(clicks),
{
    let mut r: Vec<Command> = Vec::new();
    push_when(&mut r, clicks.refresh, Command::RefreshLocal);
    push_when(&mut r, clicks.refresh, Command::RefreshRemote);
    push_when(&mut r, clicks.commit, Command::OpenPrompt);
    push_when(&mut r, clicks.push, Command::Push);
    push_when(&mut r, clicks.show_commit, Command::ShowCommit);
    push_when(&mut r, clicks.open_on_github, Command::OpenOnGithub);
    push_when(&mut r, clicks.show_diff, Command::ShowFileDiff);
    push_when(&mut r, clicks.revert_file, Command::RevertFile);
    push_when(&mut r, clicks.revert_hunk, Command::RevertHunk);
    assert(r@ =~= bar_commands(clicks));
    r
}

/// The commands that the diff overlay asks for.
pub fn overlay_commands(clicks: OverlayClicks) -> (r: Vec<Command>)
    ensures
        r@ == overlay_orders(clicks),
{
    let mut r: Vec<Command> = Vec::new();
    push_when(&mut r, clicks.close, Command::CloseFileOverlay);
    push_when(&mut r, clicks.previous_hunk, Command::PreviousHunk);
    push_when(&mut r, clicks.next_hunk, Command::NextHunk);
    push_when(&mut r, clicks.revert_file, Command::RevertFile);
    push_when(&mut r, clicks.revert_hunk, Command::RevertHunk);
    assert(r@ =~= overlay_orders(clicks));
    r
}

fn selecting(panel: ActivePanel, index: usize) -> (r: Command)
    ensures
        r == select_row(panel, index),
{
    match panel {
        ActivePanel::Commits => Command::SelectCommit(index),
        ActivePanel::Files => Command::SelectFile(index),
    }
}

/// The commands that the clicks on the rows of a panel ask for.
pub fn row_commands(panel: ActivePanel, rows: &Vec<RowClick>) -> (r: Vec<Command>)
    ensures
        r@ == row_orders(panel, rows@),
{
    let mut r: Vec<Command> = Vec::new();
    let mut opened: Option<usize> = None;
    let mut i: usize = 0;
    while i < rows.len()
        invariant
            i <= rows.len(),
            r@ == row_selections(panel, rows@.take(i as int)),
            opened == opened_row(rows@.take(i as int)),
        decreases rows.len() - i,
    {
        let row = rows[i];
        assert(rows@.take(i + 1).drop_last() =~= rows@.take(i as int));
        push_when(&mut r, row.clicked, selecting(panel, row.index));
        push_when(&mut r, row.double_clicked, selecting(panel, row.index));
        if row.double_clicked {
            opened = Some(row.index);
        }
        i = i + 1;
    }
    assert(rows@.take(i as int) =~= rows@);
    if let Some(index) = opened {
        r.push(selecting(panel, index));
        r.push(
            match panel {
                ActivePanel::Commits => Command::ShowCommit,
                ActivePanel::Files => Command::ShowFileDiff,
            },
        );
    }
    assert(r@ =~= row_orders(panel, rows@));
    r
}

/// The commands that the prompt for the commit message asks for.
pub fn prompt_commands(close: bool, escape: bool, commit: bool) -> (r: Vec<Command>)
    ensures
        r@ == prompt_orders(close, escape, commit),
{
    let mut r: Vec<Command> = Vec::new();
    push_when(&mut r, close || escape, Command::CancelPrompt);
    push_when(&mut r, commit, Command::CommitAll);
    assert(r@ =~= prompt_orders(close, escape, commit));
    r
}

/// How many seconds the data of the remote may be old.
pub const REMOTE_REFRESH_SECONDS: u64 = 30;

/// Whether the data of the remote is due for a refresh, so many seconds after the last one.
pub fn remote_refresh_due(seconds_since_last: u64) -> (r: bool)
    ensures
        r == (seconds_since_last >= 30),
{
    seconds_since_last >= REMOTE_REFRESH_SECONDS
}

/// What was noticed of a file of the repository.
#[derive(Debug, Clone, Copy, PartialEq, Eq, Structural)]
pub enum FileEvent {
    Accessed,
    Created,
    Modified,
    Removed,
    Other,
}

/// Whether what was noticed changes the repository, so that its data has to be read again.
pub fn is_change(event: FileEvent) -> (r: bool)
    ensures
        r == (event is Created || event is Modified || event is Removed),
{
    match event {
        FileEvent::Created | FileEvent::Modified | FileEvent::Removed => true,
        FileEvent::Accessed | FileEvent::Other => false,
    }
}

/// What is looked at next in the background: first whether files of the repository have changed,
/// then how old the data of the remote is.
#[derive(Debug, Clone, Copy, PartialEq, Eq, Structural)]
pub enum Poll {
    Local { fs_changed: bool },
    Remote,
}

/// What a look in the background asks for, and what is looked at after that, where the data of
/// the remote was read so many seconds ago.
pub open spec fn poll_stepped(poll: Poll, seconds_since_last: u64) -> (Seq<Command>, Option<Poll>) {
    match poll {
        Poll::Local { fs_changed } => (when(fs_changed, Command::RefreshLocal), Some(Poll::Remote)),
        Poll::Remote => (when(seconds_since_last >= 30, Command::RefreshRemote), None),
    }
}

/// The local data is read again once when files have changed, however often they have; and after
/// that the data of the remote when it is due, by its age at that time.
pub proof fn background_reads_local_first(fs_changed: bool, at_first: u64, after_local: u64)
    ensures
        ({
            let (first, next) = poll_stepped(Poll::Local { fs_changed }, at_first);
            let (second, last) = poll_stepped(next->0, after_local);
            &&& next is Some
            &&& last is None
            &&& first + second == match (fs_changed, after_local >= 30) {
                (true, true) => seq![Command::RefreshLocal, Command::RefreshRemote],
                (true, false) => seq![Command::RefreshLocal],
                (false, true) => seq![Command::RefreshRemote],
                (false, false) => seq![],
            }
        }),
{
    let (first, next) = poll_stepped(Poll::Local { fs_changed }, at_first);
    let (second, last) = poll_stepped(next->0, after_local);
    assert(first + second =~= match (fs_changed, after_local >= 30) {
        (true, true) => seq![Command::RefreshLocal, Command::RefreshRemote],
        (true, false) => seq![Command::RefreshLocal],
        (false, true) => seq![Command::RefreshRemote],
        (false, false) => seq![],
    });
}

impl Poll {
    /// What this look asks for, and what is looked at after that.
    pub fn step(self, seconds_since_last: u64) -> (r: (Vec<Command>, Option<Poll>))
        ensures
            (r.0@, r.1) == poll_stepped(self, seconds_since_last),
    {
        let mut commands: Vec<Command> = Vec::new();
        let next = match self {
            Poll::Local { fs_changed } => {
                push_when(&mut commands, fs_changed, Command::RefreshLocal);
                Some(Poll::Remote)
            },
            Poll::Remote => {
                push_when(
                    &mut commands,
                    remote_refresh_due(seconds_since_last),
                    Command::RefreshRemote,
                );
                None
            },
        };
        assert(commands@ =~= poll_stepped(self, seconds_since_last).0);
        (commands, next)
    }
}

// ---------------------------------------------------------------------------
// Laws
// ---------------------------------------------------------------------------

/// Whether the commands stand in the order of their ranks, each once, and are those that are asked
/// for, as far as their ranks are below the limit.
#[verifier::opaque]
spec fn chosen(
    commands: Seq<Command>,
    asked: spec_fn(Command) -> bool,
    rank: spec_fn(Command) -> int,
    limit: int,
) -> bool {
    &&& forall|i: int, j: int|
        0 <= i < j < commands.len() ==> rank(#[trigger] commands[i]) < rank(#[trigger] commands[j])
    &&& forall|c: Command| #[trigger] commands.contains(c) <==> asked(c) && rank(c) < limit
}

/// One more command, if it is asked for.
proof fn one_more_chosen(
    commands: Seq<Command>,
    command: Command,
    asked: spec_fn(Command) -> bool,
    rank: spec_fn(Command) -> int,
    limit: int,
)
    requires
        chosen(commands, asked, rank, limit),
        rank(command) == limit,
        forall|c: Command| #[trigger] rank(c) == limit ==> c == command,
    ensures
        chosen(commands + when(asked(command), command), asked, rank, limit + 1),
{
    reveal(chosen);
    let all = commands + when(asked(command), command);
    assert forall|i: int, j: int| 0 <= i < j < all.len() implies rank(#[trigger] all[i]) < rank(
        #[trigger] all[j],
    ) by {
        assert(all[i] == commands[i]);
        assert(commands.contains(commands[i]));
        if j < commands.len() {
            assert(all[j] == commands[j]);
        }
    }
    assert forall|c: Command| #[trigger] all.contains(c) <==> asked(c) && rank(c) < limit + 1 by {
        if all.contains(c) {
            let i = choose|i: int| 0 <= i < all.len() && all[i] == c;
            if i < commands.len() {
                assert(commands.contains(commands[i]));
            }
        }
        if asked(c) && rank(c) < limit + 1 {
            if rank(c) == limit {
                assert(all[commands.len() as int] == c);
            } else {
                assert(commands.contains(c));
                let i = choose|i: int| 0 <= i < commands.len() && commands[i] == c;
                assert(all[i] == c);
            }
        }
    }
}

/// No command, and no rank below the limit.
proof fn none_chosen(asked: spec_fn(Command) -> bool, rank: spec_fn(Command) -> int)
    requires
        forall|c: Command| #[trigger] rank(c) >= 0,
    ensures
        chosen(seq![], asked, rank, 0),
{
    reveal(chosen);
}

/// All commands that are asked for, once the limit is above their ranks.
proof fn all_chosen(
    commands: Seq<Command>,
    asked: spec_fn(Command) -> bool,
    rank: spec_fn(Command) -> int,
    limit: int,
)
    requires
        chosen(commands, asked, rank, limit),
        forall|c: Command| #[trigger] asked(c) ==> rank(c) < limit,
    ensures
        forall|i: int, j: int|
            0 <= i < j < commands.len() ==> rank(#[trigger] commands[i]) < rank(
                #[trigger] commands[j],
            ),
        forall|c: Command| #[trigger] commands.contains(c) <==> asked(c),
{
    reveal(chosen);
}

/// The place of a command among those of the keys.
#[verifier::opaque]
pub open spec fn key_rank(command: Command) -> int {
    match command {
        Command::TogglePanel => 0,
        Command::MoveUp => 1,
        Command::MoveDown => 2,
        Command::OpenPrompt => 3,
        Command::Push => 4,
        Command::ShowCommit => 5,
        Command::ShowFileDiff => 6,
        Command::RevertFile => 7,
        Command::RevertHunk => 8,
        Command::OpenOnGithub => 9,
        Command::RefreshLocal => 10,
        Command::RefreshRemote => 11,
        Command::PreviousHunk => 12,
        Command::NextHunk => 13,
        Command::CloseOverlays => 14,
        _ => 15,
    }
}

/// Whether the command is asked for.
#[verifier::opaque]
pub open spec fn key_asks(keys: Keys, command: Command) -> bool {
    match command {
        Command::TogglePanel => keys.tab || keys.left || keys.right,
        Command::MoveUp => keys.up,
        Command::MoveDown => keys.down,
        Command::OpenPrompt => keys.c,
        Command::Push => keys.p,
        Command::ShowCommit => keys.s,
        Command::ShowFileDiff => keys.d,
        Command::RevertFile => keys.f,
        Command::RevertHunk => keys.h,
        Command::OpenOnGithub => keys.o,
        Command::RefreshLocal => keys.r,
        Command::RefreshRemote => keys.r,
        Command::PreviousHunk => keys.open_bracket,
        Command::NextHunk => keys.close_bracket,
        Command::CloseOverlays => keys.escape,
        _ => false,
    }
}

/// Each command of the keys has a place of its own.
proof fn key_ranks_differ()
    ensures
        forall|c: Command| #[trigger] key_rank(c) >= 0,
        forall|c: Command, d: Command|
            #[trigger] key_rank(c) == #[trigger] key_rank(d) && key_rank(c) < 15 ==> c == d,
{
    reveal(key_rank);
}

/// What is asked for at the keys has a place.
proof fn key_commands_have_ranks(keys: Keys)
    ensures
        forall|c: Command| #[trigger] key_asks(keys, c) ==> key_rank(c) < 15,
{
    reveal(key_rank);
    reveal(key_asks);
}

/// The next command of the keys, if it is asked for.
proof fn key_step(commands: Seq<Command>, keys: Keys, command: Command, wanted: bool, limit: int)
    requires
        chosen(commands, |c: Command| key_asks(keys, c), |c: Command| key_rank(c), limit),
        key_rank(command) == limit < 15,
        key_asks(keys, command) == wanted,
    ensures
        chosen(
            commands + when(wanted, command),
            |c: Command| key_asks(keys, c),
            |c: Command| key_rank(c),
            limit + 1,
        ),
{
    key_ranks_differ();
    one_more_chosen(
        commands,
        command,
        |c: Command| key_asks(keys, c),
        |c: Command| key_rank(c),
        limit,
    );
}

/// The first commands of the keys are those that are asked for, in order.
proof fn key_chosen_first(keys: Keys) -> (r: Seq<Command>)
    ensures
        r == when(keys.tab || keys.left || keys.right, Command::TogglePanel)
            + when(keys.up, Command::MoveUp) + when(keys.down, Command::MoveDown)
            + when(keys.c, Command::OpenPrompt) + when(keys.p, Command::Push),
        chosen(r, |c: Command| key_asks(keys, c), |c: Command| key_rank(c), 5),
{
    let asked = |c: Command| key_asks(keys, c);
    let rank = |c: Command| key_rank(c);
    assert(forall|c: Command| #[trigger] rank(c) >= 0) by {
        key_ranks_differ();
    }
    none_chosen(asked, rank);
    let r0 = Seq::<Command>::empty();
    assert(key_rank(Command::TogglePanel) == 0 && key_asks(
        keys,
        Command::TogglePanel,
    ) == (keys.tab || keys.left || keys.right)) by {
        reveal(key_rank);
        reveal(key_asks);
    }
    let r1 = when(keys.tab || keys.left || keys.right, Command::TogglePanel);
    key_step(r0, keys, Command::TogglePanel, keys.tab || keys.left || keys.right, 0);
    assert(r0 + r1 =~= r1);
    assert(key_rank(Command::MoveUp) == 1 && key_asks(keys, Command::MoveUp) == keys.up) by {
        reveal(key_rank);
        reveal(key_asks);
    }
    let r2 = r1 + when(keys.up, Command::MoveUp);
    key_step(r1, keys, Command::MoveUp, keys.up, 1);
    assert(key_rank(Command::MoveDown) == 2 && key_asks(keys, Command::MoveDown) == keys.down) by {
        reveal(key_rank);
        reveal(key_asks);
    }
    let r3 = r2 + when(keys.down, Command::MoveDown);
    key_step(r2, keys, Command::MoveDown, keys.down, 2);
    assert(key_rank(Command::OpenPrompt) == 3 && key_asks(keys, Command::OpenPrompt) == keys.c) by {
        reveal(key_rank);
        reveal(key_asks);
    }
    let r4 = r3 + when(keys.c, Command::OpenPrompt);
    key_step(r3, keys, Command::OpenPrompt, keys.c, 3);
    assert(key_rank(Command::Push) == 4 && key_asks(keys, Command::Push) == keys.p) by {
        reveal(key_rank);
        reveal(key_asks);
    }
    let r5 = r4 + when(keys.p, Command::Push);
    key_step(r4, keys, Command::Push, keys.p, 4);
    r5
}

/// The commands of the keys up to the refreshes are those that are asked for, in order.
proof fn key_chosen_then(keys: Keys) -> (r: Seq<Command>)
    ensures
        r == when(keys.tab || keys.left || keys.right, Command::TogglePanel)
            + when(keys.up, Command::MoveUp) + when(keys.down, Command::MoveDown)
            + when(keys.c, Command::OpenPrompt) + when(keys.p, Command::Push)
            + when(keys.s, Command::ShowCommit) + when(keys.d, Command::ShowFileDiff)
            + when(keys.f, Command::RevertFile) + when(keys.h, Command::RevertHunk)
            + when(keys.o, Command::OpenOnGithub),
        chosen(r, |c: Command| key_asks(keys, c), |c: Command| key_rank(c), 10),
{
    let r5 = key_chosen_first(keys);
    assert(key_rank(Command::ShowCommit) == 5 && key_asks(keys, Command::ShowCommit) == keys.s) by {
        reveal(key_rank);
        reveal(key_asks);
    }
    let r6 = r5 + when(keys.s, Command::ShowCommit);
    key_step(r5, keys, Command::ShowCommit, keys.s, 5);
    assert(key_rank(Command::ShowFileDiff) == 6 && key_asks(
        keys,
        Command::ShowFileDiff,
    ) == keys.d) by {
        reveal(key_rank);
        reveal(key_asks);
    }
    let r7 = r6 + when(keys.d, Command::ShowFileDiff);
    key_step(r6, keys, Command::ShowFileDiff, keys.d, 6);
    assert(key_rank(Command::RevertFile) == 7 && key_asks(keys, Command::RevertFile) == keys.f) by {
        reveal(key_rank);
        reveal(key_asks);
    }
    let r8 = r7 + when(keys.f, Command::RevertFile);
    key_step(r7, keys, Command::RevertFile, keys.f, 7);
    assert(key_rank(Command::RevertHunk) == 8 && key_asks(keys, Command::RevertHunk) == keys.h) by {
        reveal(key_rank);
        reveal(key_asks);
    }
    let r9 = r8 + when(keys.h, Command::RevertHunk);
    key_step(r8, keys, Command::RevertHunk, keys.h, 8);
    assert(key_rank(Command::OpenOnGithub) == 9 && key_asks(
        keys,
        Command::OpenOnGithub,
    ) == keys.o) by {
        reveal(key_rank);
        reveal(key_asks);
    }
    let r10 = r9 + when(keys.o, Command::OpenOnGithub);
    key_step(r9, keys, Command::OpenOnGithub, keys.o, 9);
    r10
}

/// The commands of the keys are those that are asked for, in order.
proof fn key_chosen(keys: Keys)
    ensures
        chosen(
            key_commands(false, keys),
            |c: Command| key_asks(keys, c),
            |c: Command| key_rank(c),
            15,
        ),
{
    let r10 = key_chosen_then(keys);
    assert(key_rank(Command::RefreshLocal) == 10 && key_asks(
        keys,
        Command::RefreshLocal,
    ) == keys.r) by {
        reveal(key_rank);
        reveal(key_asks);
    }
    let r11 = r10 + when(keys.r, Command::RefreshLocal);
    key_step(r10, keys, Command::RefreshLocal, keys.r, 10);
    assert(key_rank(Command::RefreshRemote) == 11 && key_asks(
        keys,
        Command::RefreshRemote,
    ) == keys.r) by {
        reveal(key_rank);
        reveal(key_asks);
    }
    let r12 = r11 + when(keys.r, Command::RefreshRemote);
    key_step(r11, keys, Command::RefreshRemote, keys.r, 11);
    assert(key_rank(Command::PreviousHunk) == 12 && key_asks(
        keys,
        Command::PreviousHunk,
    ) == keys.open_bracket) by {
        reveal(key_rank);
        reveal(key_asks);
    }
    let r13 = r12 + when(keys.open_bracket, Command::PreviousHunk);
    key_step(r12, keys, Command::PreviousHunk, keys.open_bracket, 12);
    assert(key_rank(Command::NextHunk) == 13 && key_asks(
        keys,
        Command::NextHunk,
    ) == keys.close_bracket) by {
        reveal(key_rank);
        reveal(key_asks);
    }
    let r14 = r13 + when(keys.close_bracket, Command::NextHunk);
    key_step(r13, keys, Command::NextHunk, keys.close_bracket, 13);
    assert(key_rank(Command::CloseOverlays) == 14 && key_asks(
        keys,
        Command::CloseOverlays,
    ) == keys.escape) by {
        reveal(key_rank);
        reveal(key_asks);
    }
    let r15 = r14 + when(keys.escape, Command::CloseOverlays);
    key_step(r14, keys, Command::CloseOverlays, keys.escape, 14);
}

/// Each key asks for its own command and no other, whatever else is pressed, and the commands
/// come in a fixed order, each once.
pub proof fn each_key_asks_for_its_command(keys: Keys)
    ensures
        forall|i: int, j: int|
            0 <= i < j < key_commands(false, keys).len() ==> key_rank(
                #[trigger] key_commands(false, keys)[i],
            ) < key_rank(#[trigger] key_commands(false, keys)[j]),
        forall|c: Command| #[trigger]
            key_commands(false, keys).contains(c) <==> key_asks(keys, c),
        key_commands(false, keys).contains(Command::TogglePanel)
            <==> (keys.tab || keys.left || keys.right),
        key_commands(false, keys).contains(Command::MoveUp) <==> keys.up,
        key_commands(false, keys).contains(Command::MoveDown) <==> keys.down,
        key_commands(false, keys).contains(Command::OpenPrompt) <==> keys.c,
        key_commands(false, keys).contains(Command::Push) <==> keys.p,
        key_commands(false, keys).contains(Command::ShowCommit) <==> keys.s,
        key_commands(false, keys).contains(Command::ShowFileDiff) <==> keys.d,
        key_commands(false, keys).contains(Command::RevertFile) <==> keys.f,
        key_commands(false, keys).contains(Command::RevertHunk) <==> keys.h,
        key_commands(false, keys).contains(Command::OpenOnGithub) <==> keys.o,
        key_commands(false, keys).contains(Command::RefreshLocal) <==> keys.r,
        key_commands(false, keys).contains(Command::RefreshRemote) <==> keys.r,
        key_commands(false, keys).contains(Command::PreviousHunk) <==> keys.open_bracket,
        key_commands(false, keys).contains(Command::NextHunk) <==> keys.close_bracket,
        key_commands(false, keys).contains(Command::CloseOverlays) <==> keys.escape,
        key_rank(Command::TogglePanel) < key_rank(Command::MoveUp),
        key_rank(Command::MoveUp) < key_rank(Command::MoveDown),
        key_rank(Command::MoveDown) < key_rank(Command::OpenPrompt),
        key_rank(Command::OpenPrompt) < key_rank(Command::Push),
        key_rank(Command::Push) < key_rank(Command::ShowCommit),
        key_rank(Command::ShowCommit) < key_rank(Command::ShowFileDiff),
        key_rank(Command::ShowFileDiff) < key_rank(Command::RevertFile),
        key_rank(Command::RevertFile) < key_rank(Command::RevertHunk),
        key_rank(Command::RevertHunk) < key_rank(Command::OpenOnGithub),
        key_rank(Command::OpenOnGithub) < key_rank(Command::RefreshLocal),
        key_rank(Command::RefreshLocal) < key_rank(Command::RefreshRemote),
        key_rank(Command::RefreshRemote) < key_rank(Command::PreviousHunk),
        key_rank(Command::PreviousHunk) < key_rank(Command::NextHunk),
        key_rank(Command::NextHunk) < key_rank(Command::CloseOverlays),
{
    key_chosen(keys);
    key_are(key_commands(false, keys), keys);
    reveal(key_asks);
    reveal(key_rank);
}

/// What it means that commands of the keys are those that are asked for, in order.
proof fn key_are(all: Seq<Command>, keys: Keys)
    requires
        chosen(all, |c: Command| key_asks(keys, c), |c: Command| key_rank(c), 15),
    ensures
        forall|i: int, j: int|
            0 <= i < j < all.len() ==> key_rank(#[trigger] all[i]) < key_rank(#[trigger] all[j]),
        forall|c: Command| #[trigger]
            all.contains(c) <==> key_asks(keys, c),
{
    let asked = |c: Command| key_asks(keys, c);
    let rank = |c: Command| key_rank(c);
    key_commands_have_ranks(keys);
    all_chosen(all, asked, rank, 15);
    assert forall|i: int, j: int| 0 <= i < j < all.len() implies key_rank(
        #[trigger] all[i],
    ) < key_rank(
        #[trigger] all[j],
    ) by {
        assert(rank(all[i]) < rank(all[j]));
    }
    assert forall|c: Command| #[trigger] all.contains(c) <==> key_asks(keys, c) by {
        assert(all.contains(c) <==> asked(c));
    }
}

/// The place of a command among those of the tool bar.
#[verifier::opaque]
pub open spec fn bar_rank(command: Command) -> int {
    match command {
        Command::RefreshLocal => 0,
        Command::RefreshRemote => 1,
        Command::OpenPrompt => 2,
        Command::Push => 3,
        Command::ShowCommit => 4,
        Command::OpenOnGithub => 5,
        Command::ShowFileDiff => 6,
        Command::RevertFile => 7,
        Command::RevertHunk => 8,
        _ => 9,
    }
}

/// Whether the command is asked for.
#[verifier::opaque]
pub open spec fn bar_asks(clicks: ToolbarClicks, command: Command) -> bool {
    match command {
        Command::RefreshLocal => clicks.refresh,
        Command::RefreshRemote => clicks.refresh,
        Command::OpenPrompt => clicks.commit,
        Command::Push => clicks.push,
        Command::ShowCommit => clicks.show_commit,
        Command::OpenOnGithub => clicks.open_on_github,
        Command::ShowFileDiff => clicks.show_diff,
        Command::RevertFile => clicks.revert_file,
        Command::RevertHunk => clicks.revert_hunk,
        _ => false,
    }
}

/// Each command of the tool bar has a place of its own.
proof fn bar_ranks_differ()
    ensures
        forall|c: Command| #[trigger] bar_rank(c) >= 0,
        forall|c: Command, d: Command|
            #[trigger] bar_rank(c) == #[trigger] bar_rank(d) && bar_rank(c) < 9 ==> c == d,
{
    reveal(bar_rank);
}

/// What is asked for at the tool bar has a place.
proof fn bar_commands_have_ranks(clicks: ToolbarClicks)
    ensures
        forall|c: Command| #[trigger] bar_asks(clicks, c) ==> bar_rank(c) < 9,
{
    reveal(bar_rank);
    reveal(bar_asks);
}

/// The next command of the tool bar, if it is asked for.
proof fn bar_step(
    commands: Seq<Command>,
    clicks: ToolbarClicks,
    command: Command,
    wanted: bool,
    limit: int,
)
    requires
        chosen(commands, |c: Command| bar_asks(clicks, c), |c: Command| bar_rank(c), limit),
        bar_rank(command) == limit < 9,
        bar_asks(clicks, command) == wanted,
    ensures
        chosen(
            commands + when(wanted, command),
            |c: Command| bar_asks(clicks, c),
            |c: Command| bar_rank(c),
            limit + 1,
        ),
{
    bar_ranks_differ();
    one_more_chosen(
        commands,
        command,
        |c: Command| bar_asks(clicks, c),
        |c: Command| bar_rank(c),
        limit,
    );
}

/// The commands of the tool bar are those that are asked for, in order.
proof fn bar_chosen(clicks: ToolbarClicks)
    ensures
        chosen(
            bar_commands(clicks),
            |c: Command| bar_asks(clicks, c),
            |c: Command| bar_rank(c),
            9,
        ),
{
    let asked = |c: Command| bar_asks(clicks, c);
    let rank = |c: Command| bar_rank(c);
    assert(forall|c: Command| #[trigger] rank(c) >= 0) by {
        bar_ranks_differ();
    }
    none_chosen(asked, rank);
    let r0 = Seq::<Command>::empty();
    assert(bar_rank(Command::RefreshLocal) == 0 && bar_asks(
        clicks,
        Command::RefreshLocal,
    ) == clicks.refresh) by {
        reveal(bar_rank);
        reveal(bar_asks);
    }
    let r1 = when(clicks.refresh, Command::RefreshLocal);
    bar_step(r0, clicks, Command::RefreshLocal, clicks.refresh, 0);
    assert(r0 + r1 =~= r1);
    assert(bar_rank(Command::RefreshRemote) == 1 && bar_asks(
        clicks,
        Command::RefreshRemote,
    ) == clicks.refresh) by {
        reveal(bar_rank);
        reveal(bar_asks);
    }
    let r2 = r1 + when(clicks.refresh, Command::RefreshRemote);
    bar_step(r1, clicks, Command::RefreshRemote, clicks.refresh, 1);
    assert(bar_rank(Command::OpenPrompt) == 2 && bar_asks(
        clicks,
        Command::OpenPrompt,
    ) == clicks.commit) by {
        reveal(bar_rank);
        reveal(bar_asks);
    }
    let r3 = r2 + when(clicks.commit, Command::OpenPrompt);
    bar_step(r2, clicks, Command::OpenPrompt, clicks.commit, 2);
    assert(bar_rank(Command::Push) == 3 && bar_asks(clicks, Command::Push) == clicks.push) by {
        reveal(bar_rank);
        reveal(bar_asks);
    }
    let r4 = r3 + when(clicks.push, Command::Push);
    bar_step(r3, clicks, Command::Push, clicks.push, 3);
    assert(bar_rank(Command::ShowCommit) == 4 && bar_asks(
        clicks,
        Command::ShowCommit,
    ) == clicks.show_commit) by {
        reveal(bar_rank);
        reveal(bar_asks);
    }
    let r5 = r4 + when(clicks.show_commit, Command::ShowCommit);
    bar_step(r4, clicks, Command::ShowCommit, clicks.show_commit, 4);
    assert(bar_rank(Command::OpenOnGithub) == 5 && bar_asks(
        clicks,
        Command::OpenOnGithub,
    ) == clicks.open_on_github) by {
        reveal(bar_rank);
        reveal(bar_asks);
    }
    let r6 = r5 + when(clicks.open_on_github, Command::OpenOnGithub);
    bar_step(r5, clicks, Command::OpenOnGithub, clicks.open_on_github, 5);
    assert(bar_rank(Command::ShowFileDiff) == 6 && bar_asks(
        clicks,
        Command::ShowFileDiff,
    ) == clicks.show_diff) by {
        reveal(bar_rank);
        reveal(bar_asks);
    }
    let r7 = r6 + when(clicks.show_diff, Command::ShowFileDiff);
    bar_step(r6, clicks, Command::ShowFileDiff, clicks.show_diff, 6);
    assert(bar_rank(Command::RevertFile) == 7 && bar_asks(
        clicks,
        Command::RevertFile,
    ) == clicks.revert_file) by {
        reveal(bar_rank);
        reveal(bar_asks);
    }
    let r8 = r7 + when(clicks.revert_file, Command::RevertFile);
    bar_step(r7, clicks, Command::RevertFile, clicks.revert_file, 7);
    assert(bar_rank(Command::RevertHunk) == 8 && bar_asks(
        clicks,
        Command::RevertHunk,
    ) == clicks.revert_hunk) by {
        reveal(bar_rank);
        reveal(bar_asks);
    }
    let r9 = r8 + when(clicks.revert_hunk, Command::RevertHunk);
    bar_step(r8, clicks, Command::RevertHunk, clicks.revert_hunk, 8);
}

/// Each button of the tool bar asks for its own command and no other, whatever else is clicked,
/// and the commands come in a fixed order, each once.
pub proof fn each_button_asks_for_its_command(clicks: ToolbarClicks)
    ensures
        forall|i: int, j: int|
            0 <= i < j < bar_commands(clicks).len() ==> bar_rank(
                #[trigger] bar_commands(clicks)[i],
            ) < bar_rank(#[trigger] bar_commands(clicks)[j]),
        forall|c: Command| #[trigger]
            bar_commands(clicks).contains(c) <==> bar_asks(clicks, c),
        bar_commands(clicks).contains(Command::RefreshLocal) <==> clicks.refresh,
        bar_commands(clicks).contains(Command::RefreshRemote) <==> clicks.refresh,
        bar_commands(clicks).contains(Command::OpenPrompt) <==> clicks.commit,
        bar_commands(clicks).contains(Command::Push) <==> clicks.push,
        bar_commands(clicks).contains(Command::ShowCommit) <==> clicks.show_commit,
        bar_commands(clicks).contains(Command::OpenOnGithub) <==> clicks.open_on_github,
        bar_commands(clicks).contains(Command::ShowFileDiff) <==> clicks.show_diff,
        bar_commands(clicks).contains(Command::RevertFile) <==> clicks.revert_file,
        bar_commands(clicks).contains(Command::RevertHunk) <==> clicks.revert_hunk,
        bar_rank(Command::RefreshLocal) < bar_rank(Command::RefreshRemote),
        bar_rank(Command::RefreshRemote) < bar_rank(Command::OpenPrompt),
        bar_rank(Command::OpenPrompt) < bar_rank(Command::Push),
        bar_rank(Command::Push) < bar_rank(Command::ShowCommit),
        bar_rank(Command::ShowCommit) < bar_rank(Command::OpenOnGithub),
        bar_rank(Command::OpenOnGithub) < bar_rank(Command::ShowFileDiff),
        bar_rank(Command::ShowFileDiff) < bar_rank(Command::RevertFile),
        bar_rank(Command::RevertFile) < bar_rank(Command::RevertHunk),
{
    bar_chosen(clicks);
    bar_are(bar_commands(clicks), clicks);
    reveal(bar_asks);
    reveal(bar_rank);
}

/// What it means that commands of the tool bar are those that are asked for, in order.
proof fn bar_are(all: Seq<Command>, clicks: ToolbarClicks)
    requires
        chosen(all, |c: Command| bar_asks(clicks, c), |c: Command| bar_rank(c), 9),
    ensures
        forall|i: int, j: int|
            0 <= i < j < all.len() ==> bar_rank(#[trigger] all[i]) < bar_rank(#[trigger] all[j]),
        forall|c: Command| #[trigger]
            all.contains(c) <==> bar_asks(clicks, c),
{
    let asked = |c: Command| bar_asks(clicks, c);
    let rank = |c: Command| bar_rank(c);
    bar_commands_have_ranks(clicks);
    all_chosen(all, asked, rank, 9);
    assert forall|i: int, j: int| 0 <= i < j < all.len() implies bar_rank(
        #[trigger] all[i],
    ) < bar_rank(
        #[trigger] all[j],
    ) by {
        assert(rank(all[i]) < rank(all[j]));
    }
    assert forall|c: Command| #[trigger] all.contains(c) <==> bar_asks(clicks, c) by {
        assert(all.contains(c) <==> asked(c));
    }
}

/// The place of a command among those of the diff overlay.
#[verifier::opaque]
pub open spec fn overlay_rank(command: Command) -> int {
    match command {
        Command::CloseFileOverlay => 0,
        Command::PreviousHunk => 1,
        Command::NextHunk => 2,
        Command::RevertFile => 3,
        Command::RevertHunk => 4,
        _ => 5,
    }
}

/// Whether the command is asked for.
#[verifier::opaque]
pub open spec fn overlay_asks(clicks: OverlayClicks, command: Command) -> bool {
    match command {
        Command::CloseFileOverlay => clicks.close,
        Command::PreviousHunk => clicks.previous_hunk,
        Command::NextHunk => clicks.next_hunk,
        Command::RevertFile => clicks.revert_file,
        Command::RevertHunk => clicks.revert_hunk,
        _ => false,
    }
}

/// Each command of the diff overlay has a place of its own.
proof fn overlay_ranks_differ()
    ensures
        forall|c: Command| #[trigger] overlay_rank(c) >= 0,
        forall|c: Command, d: Command|
            #[trigger] overlay_rank(c) == #[trigger] overlay_rank(d) && overlay_rank(c) < 5
                ==> c == d,
{
    reveal(overlay_rank);
}

/// What is asked for at the diff overlay has a place.
proof fn overlay_commands_have_ranks(clicks: OverlayClicks)
    ensures
        forall|c: Command| #[trigger] overlay_asks(clicks, c) ==> overlay_rank(c) < 5,
{
    reveal(overlay_rank);
    reveal(overlay_asks);
}

/// The next command of the diff overlay, if it is asked for.
proof fn overlay_step(
    commands: Seq<Command>,
    clicks: OverlayClicks,
    command: Command,
    wanted: bool,
    limit: int,
)
    requires
        chosen(commands, |c: Command| overlay_asks(clicks, c), |c: Command| overlay_rank(c), limit),
        overlay_rank(command) == limit < 5,
        overlay_asks(clicks, command) == wanted,
    ensures
        chosen(
            commands + when(wanted, command),
            |c: Command| overlay_asks(clicks, c),
            |c: Command| overlay_rank(c),
            limit + 1,
        ),
{
    overlay_ranks_differ();
    one_more_chosen(
        commands,
        command,
        |c: Command| overlay_asks(clicks, c),
        |c: Command| overlay_rank(c),
        limit,
    );
}

/// The commands of the diff overlay are those that are asked for, in order.
proof fn overlay_chosen(clicks: OverlayClicks)
    ensures
        chosen(
            overlay_orders(clicks),
            |c: Command| overlay_asks(clicks, c),
            |c: Command| overlay_rank(c),
            5,
        ),
{
    let asked = |c: Command| overlay_asks(clicks, c);
    let rank = |c: Command| overlay_rank(c);
    assert(forall|c: Command| #[trigger] rank(c) >= 0) by {
        overlay_ranks_differ();
    }
    none_chosen(asked, rank);
    let r0 = Seq::<Command>::empty();
    assert(overlay_rank(Command::CloseFileOverlay) == 0 && overlay_asks(
        clicks,
        Command::CloseFileOverlay,
    ) == clicks.close) by {
        reveal(overlay_rank);
        reveal(overlay_asks);
    }
    let r1 = when(clicks.close, Command::CloseFileOverlay);
    overlay_step(r0, clicks, Command::CloseFileOverlay, clicks.close, 0);
    assert(r0 + r1 =~= r1);
    assert(overlay_rank(Command::PreviousHunk) == 1 && overlay_asks(
        clicks,
        Command::PreviousHunk,
    ) == clicks.previous_hunk) by {
        reveal(overlay_rank);
        reveal(overlay_asks);
    }
    let r2 = r1 + when(clicks.previous_hunk, Command::PreviousHunk);
    overlay_step(r1, clicks, Command::PreviousHunk, clicks.previous_hunk, 1);
    assert(overlay_rank(Command::NextHunk) == 2 && overlay_asks(
        clicks,
        Command::NextHunk,
    ) == clicks.next_hunk) by {
        reveal(overlay_rank);
        reveal(overlay_asks);
    }
    let r3 = r2 + when(clicks.next_hunk, Command::NextHunk);
    overlay_step(r2, clicks, Command::NextHunk, clicks.next_hunk, 2);
    assert(overlay_rank(Command::RevertFile) == 3 && overlay_asks(
        clicks,
        Command::RevertFile,
    ) == clicks.revert_file) by {
        reveal(overlay_rank);
        reveal(overlay_asks);
    }
    let r4 = r3 + when(clicks.revert_file, Command::RevertFile);
    overlay_step(r3, clicks, Command::RevertFile, clicks.revert_file, 3);
    assert(overlay_rank(Command::RevertHunk) == 4 && overlay_asks(
        clicks,
        Command::RevertHunk,
    ) == clicks.revert_hunk) by {
        reveal(overlay_rank);
        reveal(overlay_asks);
    }
    let r5 = r4 + when(clicks.revert_hunk, Command::RevertHunk);
    overlay_step(r4, clicks, Command::RevertHunk, clicks.revert_hunk, 4);
}

/// Each button of the diff overlay asks for its own command and no other, whatever else is
/// clicked, and the commands come in a fixed order, each once.
pub proof fn each_overlay_button_asks_for_its_command(clicks: OverlayClicks)
    ensures
        forall|i: int, j: int|
            0 <= i < j < overlay_orders(clicks).len() ==> overlay_rank(
                #[trigger] overlay_orders(clicks)[i],
            ) < overlay_rank(#[trigger] overlay_orders(clicks)[j]),
        forall|c: Command| #[trigger]
            overlay_orders(clicks).contains(c) <==> overlay_asks(clicks, c),
        overlay_orders(clicks).contains(Command::CloseFileOverlay) <==> clicks.close,
        overlay_orders(clicks).contains(Command::PreviousHunk) <==> clicks.previous_hunk,
        overlay_orders(clicks).contains(Command::NextHunk) <==> clicks.next_hunk,
        overlay_orders(clicks).contains(Command::RevertFile) <==> clicks.revert_file,
        overlay_orders(clicks).contains(Command::RevertHunk) <==> clicks.revert_hunk,
        overlay_rank(Command::CloseFileOverlay) < overlay_rank(Command::PreviousHunk),
        overlay_rank(Command::PreviousHunk) < overlay_rank(Command::NextHunk),
        overlay_rank(Command::NextHunk) < overlay_rank(Command::RevertFile),
        overlay_rank(Command::RevertFile) < overlay_rank(Command::RevertHunk),
{
    overlay_chosen(clicks);
    overlay_are(overlay_orders(clicks), clicks);
    reveal(overlay_asks);
    reveal(overlay_rank);
}

/// What it means that commands of the diff overlay are those that are asked for, in order.
proof fn overlay_are(all: Seq<Command>, clicks: OverlayClicks)
    requires
        chosen(all, |c: Command| overlay_asks(clicks, c), |c: Command| overlay_rank(c), 5),
    ensures
        forall|i: int, j: int|
            0 <= i < j < all.len() ==> overlay_rank(#[trigger] all[i])
                < overlay_rank(#[trigger] all[j]),
        forall|c: Command| #[trigger]
            all.contains(c) <==> overlay_asks(clicks, c),
{
    let asked = |c: Command| overlay_asks(clicks, c);
    let rank = |c: Command| overlay_rank(c);
    overlay_commands_have_ranks(clicks);
    all_chosen(all, asked, rank, 5);
    assert forall|i: int, j: int| 0 <= i < j < all.len() implies overlay_rank(
        #[trigger] all[i],
    ) < overlay_rank(
        #[trigger] all[j],
    ) by {
        assert(rank(all[i]) < rank(all[j]));
    }
    assert forall|c: Command| #[trigger] all.contains(c) <==> overlay_asks(clicks, c) by {
        assert(all.contains(c) <==> asked(c));
    }
}

/// The place of a command among those of the prompt.
#[verifier::opaque]
pub open spec fn prompt_rank(command: Command) -> int {
    match command {
        Command::CancelPrompt => 0,
        Command::CommitAll => 1,
        _ => 2,
    }
}

/// Whether the command is asked for.
#[verifier::opaque]
pub open spec fn prompt_asks(close: bool, escape: bool, commit: bool, command: Command) -> bool {
    match command {
        Command::CancelPrompt => close || escape,
        Command::CommitAll => commit,
        _ => false,
    }
}

/// Each command of the prompt has a place of its own.
proof fn prompt_ranks_differ()
    ensures
        forall|c: Command| #[trigger] prompt_rank(c) >= 0,
        forall|c: Command, d: Command|
            #[trigger] prompt_rank(c) == #[trigger] prompt_rank(d) && prompt_rank(c) < 2 ==> c == d,
{
    reveal(prompt_rank);
}

/// What is asked for at the prompt has a place.
proof fn prompt_commands_have_ranks(close: bool, escape: bool, commit: bool)
    ensures
        forall|c: Command| #[trigger] prompt_asks(close, escape, commit, c) ==> prompt_rank(c) < 2,
{
    reveal(prompt_rank);
    reveal(prompt_asks);
}

/// The next command of the prompt, if it is asked for.
proof fn prompt_step(
    commands: Seq<Command>,
    close: bool,
    escape: bool,
    commit: bool,
    command: Command,
    wanted: bool,
    limit: int,
)
    requires
        chosen(
            commands,
            |c: Command| prompt_asks(close, escape, commit, c),
            |c: Command| prompt_rank(c),
            limit,
        ),
        prompt_rank(command) == limit < 2,
        prompt_asks(close, escape, commit, command) == wanted,
    ensures
        chosen(
            commands + when(wanted, command),
            |c: Command| prompt_asks(close, escape, commit, c),
            |c: Command| prompt_rank(c),
            limit + 1,
        ),
{
    prompt_ranks_differ();
    one_more_chosen(
        commands,
        command,
        |c: Command| prompt_asks(close, escape, commit, c),
        |c: Command| prompt_rank(c),
        limit,
    );
}

/// The commands of the prompt are those that are asked for, in order.
proof fn prompt_chosen(close: bool, escape: bool, commit: bool)
    ensures
        chosen(
            prompt_orders(close, escape, commit),
            |c: Command| prompt_asks(close, escape, commit, c),
            |c: Command| prompt_rank(c),
            2,
        ),
{
    let asked = |c: Command| prompt_asks(close, escape, commit, c);
    let rank = |c: Command| prompt_rank(c);
    assert(forall|c: Command| #[trigger] rank(c) >= 0) by {
        prompt_ranks_differ();
    }
    none_chosen(asked, rank);
    let r0 = Seq::<Command>::empty();
    assert(prompt_rank(Command::CancelPrompt) == 0 && prompt_asks(
        close,
        escape,
        commit,
        Command::CancelPrompt,
    ) == (close || escape)) by {
        reveal(prompt_rank);
        reveal(prompt_asks);
    }
    let r1 = when(close || escape, Command::CancelPrompt);
    prompt_step(r0, close, escape, commit, Command::CancelPrompt, close || escape, 0);
    assert(r0 + r1 =~= r1);
    assert(prompt_rank(Command::CommitAll) == 1 && prompt_asks(
        close,
        escape,
        commit,
        Command::CommitAll,
    ) == commit) by {
        reveal(prompt_rank);
        reveal(prompt_asks);
    }
    let r2 = r1 + when(commit, Command::CommitAll);
    prompt_step(r1, close, escape, commit, Command::CommitAll, commit, 1);
}

/// The prompt is closed where it is given up by a button or a key, and commits where that is
/// asked for; and it is closed first.
pub proof fn prompt_closes_before_it_commits(close: bool, escape: bool, commit: bool)
    ensures
        forall|i: int, j: int|
            0 <= i < j < prompt_orders(close, escape, commit).len() ==> prompt_rank(
                #[trigger] prompt_orders(close, escape, commit)[i],
            ) < prompt_rank(#[trigger] prompt_orders(close, escape, commit)[j]),
        forall|c: Command| #[trigger]
            prompt_orders(close, escape, commit).contains(c) <==> prompt_asks(
                close,
                escape,
                commit,
                c,
            ),
        prompt_orders(close, escape, commit).contains(Command::CancelPrompt) <==> (close || escape),
        prompt_orders(close, escape, commit).contains(Command::CommitAll) <==> commit,
        prompt_rank(Command::CancelPrompt) < prompt_rank(Command::CommitAll),
{
    prompt_chosen(close, escape, commit);
    prompt_are(prompt_orders(close, escape, commit), close, escape, commit);
    reveal(prompt_asks);
    reveal(prompt_rank);
}

/// What it means that commands of the prompt are those that are asked for, in order.
proof fn prompt_are(all: Seq<Command>, close: bool, escape: bool, commit: bool)
    requires
        chosen(
            all,
            |c: Command| prompt_asks(close, escape, commit, c),
            |c: Command| prompt_rank(c),
            2,
        ),
    ensures
        forall|i: int, j: int|
            0 <= i < j < all.len() ==> prompt_rank(#[trigger] all[i])
                < prompt_rank(#[trigger] all[j]),
        forall|c: Command| #[trigger]
            all.contains(c) <==> prompt_asks(close, escape, commit, c),
{
    let asked = |c: Command| prompt_asks(close, escape, commit, c);
    let rank = |c: Command| prompt_rank(c);
    prompt_commands_have_ranks(close, escape, commit);
    all_chosen(all, asked, rank, 2);
    assert forall|i: int, j: int| 0 <= i < j < all.len() implies prompt_rank(
        #[trigger] all[i],
    ) < prompt_rank(
        #[trigger] all[j],
    ) by {
        assert(rank(all[i]) < rank(all[j]));
    }
    assert forall|c: Command| #[trigger] all.contains(c) <==> prompt_asks(
        close,
        escape,
        commit,
        c,
    ) by {
        assert(all.contains(c) <==> asked(c));
    }
}

/// The rows of two lists are looked at one after the other.
pub proof fn rows_are_looked_at_in_turn(
    panel: ActivePanel,
    one: Seq<RowClick>,
    other: Seq<RowClick>,
)
    ensures
        row_selections(panel, one + other) == row_selections(panel, one) + row_selections(
            panel,
            other,
        ),
    decreases other.len(),
{
    if other.len() == 0 {
        assert(one + other =~= one);
        assert(row_selections(panel, one) + row_selections(panel, other) =~= row_selections(
            panel,
            one,
        ));
    } else {
        let front = other.drop_last();
        let row = other.last();
        assert((one + other).drop_last() =~= one + front);
        rows_are_looked_at_in_turn(panel, one, front);
        let a = row_selections(panel, one);
        let b = row_selections(panel, front);
        let c = when(row.clicked, select_row(panel, row.index));
        let d = when(row.double_clicked, select_row(panel, row.index));
        assert(row_selections(panel, other) == b + c + d);
        assert(row_selections(panel, one + other) == a + b + c + d);
        assert(a + b + c + d =~= a + (b + c + d));
    }
}

/// A click or a double click asks for its own row to be selected, each of them.
pub proof fn clicks_select_their_row(panel: ActivePanel, row: RowClick)
    ensures
        row_selections(panel, seq![]) == Seq::<Command>::empty(),
        ({
            let select = match panel {
                ActivePanel::Commits => Command::SelectCommit(row.index),
                ActivePanel::Files => Command::SelectFile(row.index),
            };
            row_selections(panel, seq![row]) == match (row.clicked, row.double_clicked) {
                (true, true) => seq![select, select],
                (true, false) => seq![select],
                (false, true) => seq![select],
                (false, false) => seq![],
            }
        }),
{
    assert(seq![row].drop_last() =~= seq![]);
    assert(row_selections(panel, seq![]) == Seq::<Command>::empty());
    let select = match panel {
        ActivePanel::Commits => Command::SelectCommit(row.index),
        ActivePanel::Files => Command::SelectFile(row.index),
    };
    assert(row_selections(panel, seq![row]) =~= match (row.clicked, row.double_clicked) {
        (true, true) => seq![select, select],
        (true, false) => seq![select],
        (false, true) => seq![select],
        (false, false) => seq![],
    });
}

/// After the selections, the last row that was double-clicked is selected and opened: a commit is
/// shown, a file has its diff shown. Without a double click nothing is opened.
pub proof fn last_double_click_opens(panel: ActivePanel, rows: Seq<RowClick>, i: int)
    ensures
        (forall|k: int| 0 <= k < rows.len() ==> !(#[trigger] rows[k]).double_clicked)
            ==> row_orders(panel, rows) == row_selections(panel, rows),
        0 <= i < rows.len() && rows[i].double_clicked && (forall|k: int|
            i < k < rows.len() ==> !(#[trigger] rows[k]).double_clicked) ==> row_orders(panel, rows)
            == row_selections(panel, rows) + match panel {
            ActivePanel::Commits => seq![
                Command::SelectCommit(rows[i].index),
                Command::ShowCommit,
            ],
            ActivePanel::Files => seq![Command::SelectFile(rows[i].index), Command::ShowFileDiff],
        },
{
    last_double_click(rows, i);
    if forall|k: int| 0 <= k < rows.len() ==> !(#[trigger] rows[k]).double_clicked {
        assert(row_orders(panel, rows) =~= row_selections(panel, rows));
    }
}

/// The row that is opened is the last one that was double-clicked.
proof fn last_double_click(rows: Seq<RowClick>, i: int)
    ensures
        (forall|k: int| 0 <= k < rows.len() ==> !(#[trigger] rows[k]).double_clicked)
            ==> opened_row(rows) is None,
        0 <= i < rows.len() && rows[i].double_clicked && (forall|k: int|
            i < k < rows.len() ==> !(#[trigger] rows[k]).double_clicked) ==> opened_row(rows)
            == Some(rows[i].index),
    decreases rows.len(),
{
    if rows.len() > 0 {
        let front = rows.drop_last();
        last_double_click(front, i);
        assert(rows.last() == rows[rows.len() - 1]);
        if forall|k: int| 0 <= k < rows.len() ==> !(#[trigger] rows[k]).double_clicked {
            assert forall|k: int| 0 <= k < front.len() implies !(
            #[trigger] front[k]).double_clicked by {
                assert(front[k] == rows[k]);
            }
        }
        if 0 <= i < front.len() && rows[i].double_clicked && (forall|k: int|
            i < k < rows.len() ==> !(#[trigger] rows[k]).double_clicked) {
            assert(front[i] == rows[i]);
            assert forall|k: int| i < k < front.len() implies !(
            #[trigger] front[k]).double_clicked by {
                assert(front[k] == rows[k]);
            }
        }
    }
}

} // verus!
