//! The changed files of the working tree, read from what `git status --short` and
//! `git diff --numstat` print.

use vstd::prelude::*;

use crate::byte_positions;
use crate::byte_positions::{chars_within, shorter_than};
use crate::model::{FileChange, FileChangeView};
use crate::numbers;
use crate::numbers::count_in;
use crate::path_map;
use crate::path_map::PathMap;
use crate::strings::{chars_of, lines_of, split_at_char, string_from, tail_after_text, trimmed};
use crate::text;
use crate::text::Text;

verus! {

// ---------------------------------------------------------------------------
// The status of each file
// ---------------------------------------------------------------------------

/// Whether a line of the status is long enough to name a file. Shorter lines are passed over.
pub open spec fn names_a_file(line: Text) -> bool {
    byte_positions::byte_len(line) >= 4
}

/// Whether the status column, which is the first two bytes, and the path, which starts at the
/// fourth, can be cut out of the line without cutting a character in two.
pub open spec fn has_columns(line: Text) -> bool {
    byte_positions::chars_in_bytes(line, 2) is Some && byte_positions::chars_in_bytes(line, 3) is Some
}

/// The status that a line gives: what stands in the status column, or `M` when that is blank.
pub open spec fn line_status(line: Text) -> Text {
    let column = text::trim(line.take(byte_positions::chars_in_bytes(line, 2)->0 as int));
    if column.len() == 0 {
        "M"@
    } else {
        column
    }
}

/// The path that a line gives. A rename gives both paths, and the new one counts.
pub open spec fn line_path(line: Text) -> Text {
    text::after_last_text(text::trim(line.skip(byte_positions::chars_in_bytes(line, 3)->0 as int)), " -> "@)
}

/// The files that the lines name, each with the status of the last line that names it and
/// without counts.
pub open spec fn status_map(lines: Seq<Text>) -> Map<Text, FileChangeView>
    decreases lines.len(),
{
    if lines.len() == 0 {
        Map::empty()
    } else {
        let earlier = status_map(lines.drop_last());
        let line = lines.last();
        if names_a_file(line) {
            earlier.insert(
                line_path(line),
                FileChangeView {
                    path: line_path(line),
                    status: line_status(line),
                    additions: 0,
                    deletions: 0,
                },
            )
        } else {
            earlier
        }
    }
}

/// Whether every line that names a file has its columns.
pub open spec fn status_readable(lines: Seq<Text>) -> bool {
    forall|i: int| 0 <= i < lines.len() && names_a_file(#[trigger] lines[i]) ==> has_columns(lines[i])
}

/// The files that a status names, or nothing when the columns of a line cannot be cut out.
pub fn try_parse_status_entries(output: &str) -> (r: Option<PathMap<FileChange>>)
    ensures
        r is Some <==> status_readable(text::lines(output@)),
        r matches Some(m) ==> m.wf() && m.view() == status_map(text::lines(output@)),
{
    let all = lines_of(output);
    let ghost ls = text::lines(output@);
    let mut changes: PathMap<FileChange> = PathMap::new();
    let mut i: usize = 0;
    assert(ls.take(0) =~= Seq::<Text>::empty());
    while i < all.len()
        invariant
            ls == text::lines(output@),
            all.deep_view() == ls,
            i <= all@.len(),
            changes.wf(),
            changes.view() == status_map(ls.take(i as int)),
            status_readable(ls.take(i as int)),
        decreases all@.len() - i,
    {
        let ghost line = ls[i as int];
        proof {
            assert(line == all@[i as int]@);
            assert(ls.take(i as int + 1).drop_last() =~= ls.take(i as int));
            assert(ls.take(i as int + 1).last() == line);
        }
        let chars = chars_of(all[i].as_str());
        if !shorter_than(&chars, 4) {
            let (column_end, path_start) = match (chars_within(&chars, 2), chars_within(&chars, 3)) {
                (Some(a), Some(b)) => (a, b),
                _ => {
                    assert(names_a_file(ls[i as int]) && !has_columns(ls[i as int]));
                    return None;
                },
            };
            let column = string_from(&chars, 0, column_end);
            assert(column@ =~= line.take(column_end as int));
            let mut status = trimmed(column.as_str());
            if status.as_str().is_empty() {
                status = "M".to_string();
            }
            let rest = string_from(&chars, path_start, chars.len());
            assert(rest@ =~= line.skip(path_start as int));
            let raw_path = trimmed(rest.as_str());
            proof {
                reveal_strlit(" -> ");
            }
            let path = tail_after_text(raw_path.as_str(), " -> ");
            let change = FileChange { path: path.clone(), status, additions: 0, deletions: 0 };
            changes.insert(path, change);
        }
        i += 1;
        assert forall|k: int| 0 <= k < i && names_a_file(#[trigger] ls.take(i as int)[k]) implies has_columns(
            ls.take(i as int)[k],
        ) by {
            if k < i - 1 {
                assert(ls.take(i as int - 1)[k] == ls[k]);
            }
        }
    }
    assert(ls.take(i as int) =~= ls);
    Some(changes)
}

/// The files that a status names.
pub fn parse_status_entries(output: &str) -> (r: PathMap<FileChange>)
    requires
        status_readable(text::lines(output@)),
    ensures
        r.wf(),
        r.view() == status_map(text::lines(output@)),
{
    try_parse_status_entries(output).unwrap()
}

// ---------------------------------------------------------------------------
// The counts of each file
// ---------------------------------------------------------------------------

/// What a line of the counts says: a path, and how many lines were added to it and deleted
/// from it. A line with fewer than three columns says nothing; a column without a number
/// counts as zero.
pub open spec fn line_counts(line: Text) -> Option<(Text, (nat, nat))> {
    let columns = text::split_char(line, '\t');
    if columns.len() < 3 {
        None
    } else {
        Some(
            (
                columns.last(),
                (
                    numbers::count_value(columns[0]) as nat,
                    numbers::count_value(columns[1]) as nat,
                ),
            ),
        )
    }
}

/// The counts of `path` in `counts`, zero when it is not there.
pub open spec fn counts_of(counts: Map<Text, (nat, nat)>, path: Text) -> (nat, nat) {
    if counts.contains_key(path) {
        counts[path]
    } else {
        (0, 0)
    }
}

/// The totals of each path over all lines.
pub open spec fn numstat_map(lines: Seq<Text>) -> Map<Text, (nat, nat)>
    decreases lines.len(),
{
    if lines.len() == 0 {
        Map::empty()
    } else {
        let earlier = numstat_map(lines.drop_last());
        match line_counts(lines.last()) {
            Some((path, (added, deleted))) => earlier.insert(
                path,
                (
                    counts_of(earlier, path).0 + added,
                    counts_of(earlier, path).1 + deleted,
                ),
            ),
            None => earlier,
        }
    }
}

/// Whether all totals fit in 32 bits.
pub open spec fn counts_fit(counts: Map<Text, (nat, nat)>) -> bool {
    forall|p: Text| #[trigger]
        counts.contains_key(p) ==> counts[p].0 <= u32::MAX && counts[p].1 <= u32::MAX
}

/// 32-bit counts as numbers without a bound.
pub open spec fn widen(counts: Map<Text, (u32, u32)>) -> Map<Text, (nat, nat)> {
    Map::new(
        |p: Text| counts.contains_key(p),
        |p: Text| (counts[p].0 as nat, counts[p].1 as nat),
    )
}

/// More lines never make a total smaller.
pub proof fn numstat_grows(lines: Seq<Text>, n: int, path: Text)
    requires
        0 <= n <= lines.len(),
        numstat_map(lines.take(n)).contains_key(path),
    ensures
        numstat_map(lines).contains_key(path),
        numstat_map(lines.take(n))[path].0 <= numstat_map(lines)[path].0,
        numstat_map(lines.take(n))[path].1 <= numstat_map(lines)[path].1,
    decreases lines.len() - n,
{
    if n == lines.len() {
        assert(lines.take(n) =~= lines);
    } else {
        assert(lines.take(n + 1).drop_last() =~= lines.take(n));
        numstat_grows(lines, n + 1, path);
    }
}

/// The totals of each path, or nothing when one of them does not fit in 32 bits.
pub fn try_parse_numstat_entries(output: &str) -> (r: Option<PathMap<(u32, u32)>>)
    ensures
        r is Some <==> counts_fit(numstat_map(text::lines(output@))),
        r matches Some(m) ==> m.wf() && widen(m.view()) == numstat_map(text::lines(output@)),
{
    let all = lines_of(output);
    let ghost ls = text::lines(output@);
    let mut counts: PathMap<(u32, u32)> = PathMap::new();
    let mut i: usize = 0;
    proof {
        assert(ls.take(0) =~= Seq::<Text>::empty());
        assert(widen(counts.view()) =~= Map::empty());
    }
    while i < all.len()
        invariant
            ls == text::lines(output@),
            all.deep_view() == ls,
            i <= all@.len(),
            counts.wf(),
            widen(counts.view()) == numstat_map(ls.take(i as int)),
        decreases all@.len() - i,
    {
        let ghost line = ls[i as int];
        let ghost earlier = numstat_map(ls.take(i as int));
        proof {
            assert(line == all@[i as int]@);
            assert(ls.take(i as int + 1).drop_last() =~= ls.take(i as int));
            assert(ls.take(i as int + 1).last() == line);
        }
        let columns = split_at_char(all[i].as_str(), '\t');
        if columns.len() >= 3 {
            let ghost cols = columns.deep_view();
            let path = columns[columns.len() - 1].clone();
            let added = count_in(columns[0].as_str());
            let deleted = count_in(columns[1].as_str());
            proof {
                assert(cols.last() == path@);
                assert(cols[0] == columns@[0]@);
                assert(cols[1] == columns@[1]@);
                assert(line_counts(line) == Some((path@, (added as nat, deleted as nat))));
            }
            let (old_added, old_deleted): (u32, u32) = match counts.get(path.as_str()) {
                Some(c) => (c.0, c.1),
                None => (0, 0),
            };
            assert(counts_of(earlier, path@) == (old_added as nat, old_deleted as nat)) by {
                assert(widen(counts.view()).contains_key(path@) == counts.view().contains_key(
                    path@,
                ));
            }
            match (old_added.checked_add(added), old_deleted.checked_add(deleted)) {
                (Some(a), Some(d)) => {
                    let ghost before = counts.view();
                    let ghost p = path@;
                    counts.insert(path, (a, d));
                    assert(widen(counts.view()) =~= widen(before).insert(p, (a as nat, d as nat)));
                },
                _ => {
                    proof {
                        let here = numstat_map(ls.take(i as int + 1));
                        assert(here.contains_key(path@));
                        numstat_grows(ls, i as int + 1, path@);
                    }
                    return None;
                },
            }
        }
        i += 1;
    }
    proof {
        assert(ls.take(i as int) =~= ls);
        assert forall|p: Text| #[trigger] numstat_map(ls).contains_key(p) implies numstat_map(
            ls,
        )[p].0 <= u32::MAX && numstat_map(ls)[p].1 <= u32::MAX by {
            assert(widen(counts.view()).contains_key(p));
        }
    }
    Some(counts)
}

/// The totals of each path.
pub fn parse_numstat_entries(output: &str) -> (r: PathMap<(u32, u32)>)
    requires
        counts_fit(numstat_map(text::lines(output@))),
    ensures
        r.wf(),
        widen(r.view()) == numstat_map(text::lines(output@)),
{
    try_parse_numstat_entries(output).unwrap()
}

// ---------------------------------------------------------------------------
// Status and counts together
// ---------------------------------------------------------------------------

/// What is known of a file: its status and its totals.
#[verifier::ext_equal]
pub struct TreeEntry {
    pub status: Text,
    pub additions: nat,
    pub deletions: nat,
}

/// The files with the counts added to their totals. A file that has counts and no status is
/// taken as untracked.
pub open spec fn add_counts(
    files: Map<Text, TreeEntry>,
    counts: Map<Text, (nat, nat)>,
) -> Map<Text, TreeEntry> {
    Map::new(
        |p: Text| files.contains_key(p) || counts.contains_key(p),
        |p: Text|
            if files.contains_key(p) {
                TreeEntry {
                    status: files[p].status,
                    additions: files[p].additions + counts_of(counts, p).0,
                    deletions: files[p].deletions + counts_of(counts, p).1,
                }
            } else {
                TreeEntry {
                    status: "??"@,
                    additions: counts_of(counts, p).0,
                    deletions: counts_of(counts, p).1,
                }
            },
    )
}

/// Changed files as entries, with totals without a bound.
pub open spec fn entries(files: Map<Text, FileChangeView>) -> Map<Text, TreeEntry> {
    Map::new(
        |p: Text| files.contains_key(p),
        |p: Text|
            TreeEntry {
                status: files[p].status,
                additions: files[p].additions as nat,
                deletions: files[p].deletions as nat,
            },
    )
}

/// Whether each file is filed under its own path.
pub open spec fn filed_by_path(files: Map<Text, FileChangeView>) -> bool {
    forall|p: Text| #[trigger] files.contains_key(p) ==> files[p].path == p
}

/// Whether all totals fit in 32 bits.
pub open spec fn totals_fit(files: Map<Text, TreeEntry>) -> bool {
    forall|p: Text| #[trigger]
        files.contains_key(p) ==> files[p].additions <= u32::MAX && files[p].deletions <= u32::MAX
}

/// Entries as changed files.
pub open spec fn as_changes(files: Map<Text, TreeEntry>) -> Map<Text, FileChangeView> {
    Map::new(
        |p: Text| files.contains_key(p),
        |p: Text|
            FileChangeView {
                path: p,
                status: files[p].status,
                additions: files[p].additions as u32,
                deletions: files[p].deletions as u32,
            },
    )
}

/// The files that the status, the counts of the worktree or the counts of the index name.
pub open spec fn tree_entries(status: Text, unstaged: Text, staged: Text) -> Map<Text, TreeEntry> {
    add_counts(
        add_counts(entries(status_map(text::lines(status))), numstat_map(text::lines(unstaged))),
        numstat_map(text::lines(staged)),
    )
}

/// Whether the three outputs can be read: the columns of the status can be cut out, and all
/// totals fit in 32 bits.
pub open spec fn tree_readable(status: Text, unstaged: Text, staged: Text) -> bool {
    status_readable(text::lines(status)) && totals_fit(tree_entries(status, unstaged, staged))
}

/// The paths of the files.
pub open spec fn paths_of(files: Seq<FileChangeView>) -> Seq<Text> {
    files.map_values(|f: FileChangeView| f.path)
}

/// Whether `files` are the changed files of the working tree, each once, in the order of their
/// paths.
pub open spec fn lists_tree(
    files: Seq<FileChangeView>,
    status: Text,
    unstaged: Text,
    staged: Text,
) -> bool {
    path_map::lists(paths_of(files), files, as_changes(tree_entries(status, unstaged, staged)))
}

/// The changed files of the working tree, each once, in the order of their paths.
pub open spec fn working_tree(status: Text, unstaged: Text, staged: Text) -> Seq<FileChangeView> {
    choose|files: Seq<FileChangeView>| lists_tree(files, status, unstaged, staged)
}

/// Every file of the status is filed under its own path.
pub proof fn status_map_filed_by_path(lines: Seq<Text>)
    ensures
        filed_by_path(status_map(lines)),
    decreases lines.len(),
{
    if lines.len() > 0 {
        status_map_filed_by_path(lines.drop_last());
    }
}

/// Adding counts never makes a total smaller.
proof fn add_counts_grows(files: Map<Text, TreeEntry>, counts: Map<Text, (nat, nat)>)
    ensures
        totals_fit(add_counts(files, counts)) ==> totals_fit(files) && counts_fit(counts),
{
    let sum = add_counts(files, counts);
    if totals_fit(sum) {
        assert forall|p: Text| #[trigger] files.contains_key(p) implies files[p].additions
            <= u32::MAX && files[p].deletions <= u32::MAX by {
            assert(sum.contains_key(p));
        }
        assert forall|p: Text| #[trigger] counts.contains_key(p) implies counts[p].0 <= u32::MAX
            && counts[p].1 <= u32::MAX by {
            assert(sum.contains_key(p));
        }
    }
}

/// Adds the counts to the totals of the files, or gives nothing when a total does not fit in
/// 32 bits.
fn merge_counts(files: PathMap<FileChange>, counts: PathMap<(u32, u32)>) -> (r: Option<
    PathMap<FileChange>,
>)
    requires
        files.wf(),
        counts.wf(),
        filed_by_path(files.view()),
    ensures
        r is Some <==> totals_fit(add_counts(entries(files.view()), widen(counts.view()))),
        r matches Some(m) ==> m.wf() && filed_by_path(m.view()) && entries(m.view()) == add_counts(
            entries(files.view()),
            widen(counts.view()),
        ),
{
    let ghost start = entries(files.view());
    let ghost all = widen(counts.view());
    let ghost given = counts.view();
    let (paths, values) = counts.into_entries();
    let ghost keys = paths.deep_view();
    let mut merged = files;
    let mut i: usize = 0;
    let ghost mut done: Map<Text, (nat, nat)> = Map::empty();
    assert(add_counts(start, done) =~= start);
    while i < paths.len()
        invariant
            start == entries(files.view()),
            given == counts.view(),
            keys == paths.deep_view(),
            path_map::lists(keys, values.deep_view(), given),
            all == widen(given),
            i <= paths@.len(),
            paths@.len() == values@.len(),
            merged.wf(),
            filed_by_path(merged.view()),
            entries(merged.view()) == add_counts(start, done),
            forall|p: Text| #[trigger]
                done.contains_key(p) <==> exists|k: int| 0 <= k < i && #[trigger] keys[k] == p,
            forall|p: Text| #[trigger]
                done.contains_key(p) ==> all.contains_key(p) && done[p] == all[p],
        decreases paths@.len() - i,
    {
        let path = paths[i].clone();
        let (added, deleted) = values[i];
        let ghost p = path@;
        proof {
            assert(keys[i as int] == p);
            assert(given.contains_key(keys[i as int]));
            assert(values.deep_view()[i as int] == (added, deleted));
            assert(all.contains_key(p) && all[p] == (added as nat, deleted as nat));
            if done.contains_key(p) {
                let k = choose|k: int| 0 <= k < i && keys[k] == p;
                assert(path_map::before(keys[k], keys[i as int]));
                path_map::before_is_irreflexive(p);
            }
        }
        let change = match merged.get(path.as_str()) {
            Some(f) => f.clone(),
            None => FileChange {
                path: path.clone(),
                status: "??".to_string(),
                additions: 0,
                deletions: 0,
            },
        };
        let ghost had = merged.view().contains_key(p);
        proof {
            assert(entries(merged.view()).contains_key(p) == had);
            assert(add_counts(start, done).contains_key(p) == had);
            assert(start.contains_key(p) == had);
        }
        match (change.additions.checked_add(added), change.deletions.checked_add(deleted)) {
            (Some(a), Some(d)) => {
                let ghost before = merged.view();
                let new_change = FileChange {
                    path: change.path,
                    status: change.status,
                    additions: a,
                    deletions: d,
                };
                merged.insert(path, new_change);
                proof {
                    let next = done.insert(p, (added as nat, deleted as nat));
                    assert(entries(merged.view()) =~= add_counts(start, next)) by {
                        assert forall|q: Text| entries(merged.view()).contains_key(q) <==> add_counts(
                            start,
                            next,
                        ).contains_key(q) by {
                            assert(entries(before).contains_key(q) <==> add_counts(
                                start,
                                done,
                            ).contains_key(q));
                        }
                        assert forall|q: Text| entries(merged.view()).contains_key(
                            q,
                        ) implies entries(merged.view())[q] == add_counts(start, next)[q] by {
                            assert(entries(before).contains_key(q) <==> add_counts(
                                start,
                                done,
                            ).contains_key(q));
                            if q != p {
                                assert(entries(before)[q] == add_counts(start, done)[q]);
                            } else if had {
                                assert(entries(before)[p] == add_counts(start, done)[p]);
                            }
                        }
                    }
                    assert forall|q: Text| #[trigger] next.contains_key(q) <==> exists|k: int|
                        0 <= k < i + 1 && #[trigger] keys[k] == q by {
                        if next.contains_key(q) {
                            if q == p {
                                assert(keys[i as int] == q);
                            } else {
                                assert(done.contains_key(q));
                                let k = choose|k: int| 0 <= k < i && keys[k] == q;
                                assert(keys[k] == q);
                            }
                        }
                    }
                    done = next;
                }
            },
            _ => {
                proof {
                    let end = add_counts(start, all);
                    assert(end.contains_key(p));
                    if had {
                        assert(entries(merged.view())[p] == add_counts(start, done)[p]);
                    }
                    assert(end[p].additions > u32::MAX || end[p].deletions > u32::MAX);
                }
                return None;
            },
        }
        i += 1;
    }
    proof {
        assert forall|p: Text| done.contains_key(p) <==> all.contains_key(p) by {
            if all.contains_key(p) {
                assert(given.contains_key(p));
                assert(keys.contains(p));
                let k = choose|k: int| 0 <= k < keys.len() && keys[k] == p;
                assert(0 <= k < i && keys[k] == p);
            }
        }
        assert(done =~= all);
        assert forall|p: Text| #[trigger] add_counts(start, all).contains_key(p) implies add_counts(
            start,
            all,
        )[p].additions <= u32::MAX && add_counts(start, all)[p].deletions <= u32::MAX by {
            assert(entries(merged.view()).contains_key(p));
        }
    }
    Some(merged)
}

/// The changed files, read from what `git status --short`, `git diff --numstat` and
/// `git diff --cached --numstat` printed; nothing when they cannot be read.
pub fn try_load_working_tree_changes(status: &str, unstaged: &str, staged: &str) -> (r: Option<
    Vec<FileChange>,
>)
    ensures
        r is Some <==> tree_readable(status@, unstaged@, staged@),
        r matches Some(files) ==> lists_tree(files.deep_view(), status@, unstaged@, staged@)
            && files.deep_view() == working_tree(status@, unstaged@, staged@),
{
    let ghost base = entries(status_map(text::lines(status@)));
    let ghost first = numstat_map(text::lines(unstaged@));
    let ghost second = numstat_map(text::lines(staged@));
    let ghost tree = tree_entries(status@, unstaged@, staged@);
    proof {
        status_map_filed_by_path(text::lines(status@));
        add_counts_grows(base, first);
        add_counts_grows(add_counts(base, first), second);
    }
    let changes = match try_parse_status_entries(status) {
        Some(c) => c,
        None => {
            return None;
        },
    };
    let in_worktree = match try_parse_numstat_entries(unstaged) {
        Some(c) => c,
        None => {
            return None;
        },
    };
    let in_index = match try_parse_numstat_entries(staged) {
        Some(c) => c,
        None => {
            return None;
        },
    };
    let merged = match merge_counts(changes, in_worktree) {
        Some(c) => c,
        None => {
            return None;
        },
    };
    let merged = match merge_counts(merged, in_index) {
        Some(c) => c,
        None => {
            return None;
        },
    };
    let ghost result = merged.view();
    let (paths, files) = merged.into_entries();
    proof {
        assert(result =~= as_changes(tree)) by {
            assert forall|p: Text| result.contains_key(p) <==> as_changes(tree).contains_key(p) by {
                assert(entries(result).contains_key(p) <==> tree.contains_key(p));
            }
            assert forall|p: Text| result.contains_key(p) implies result[p] == as_changes(
                tree,
            )[p] by {
                assert(entries(result)[p] == tree[p]);
                assert(result[p].path == p);
            }
        }
        let fs = files.deep_view();
        assert forall|i: int| 0 <= i < fs.len() implies paths_of(fs)[i]
            == paths.deep_view()[i] by {
            assert(result.contains_key(paths.deep_view()[i]));
        }
        assert(paths_of(fs) =~= paths.deep_view());
        assert(lists_tree(fs, status@, unstaged@, staged@));
        working_tree_is(fs, status@, unstaged@, staged@);
    }
    Some(files)
}

/// There is no other listing of the working tree than the one that it has.
pub proof fn working_tree_is(
    files: Seq<FileChangeView>,
    status: Text,
    unstaged: Text,
    staged: Text,
)
    requires
        lists_tree(files, status, unstaged, staged),
    ensures
        files == working_tree(status, unstaged, staged),
{
    let other = working_tree(status, unstaged, staged);
    assert(lists_tree(other, status, unstaged, staged));
    path_map::listing_is_unique(
        paths_of(files),
        files,
        paths_of(other),
        other,
        as_changes(tree_entries(status, unstaged, staged)),
    );
}

/// The changed files, read from what `git status --short`, `git diff --numstat` and
/// `git diff --cached --numstat` printed.
pub fn load_working_tree_changes(status: &str, unstaged: &str, staged: &str) -> (r: Vec<FileChange>)
    requires
        tree_readable(status@, unstaged@, staged@),
    ensures
        lists_tree(r.deep_view(), status@, unstaged@, staged@),
        r.deep_view() == working_tree(status@, unstaged@, staged@),
{
    try_load_working_tree_changes(status, unstaged, staged).unwrap()
}

// ---------------------------------------------------------------------------
// Laws
// ---------------------------------------------------------------------------

/// Whether `c` takes a single byte.
pub open spec fn is_narrow(c: char) -> bool {
    c <= '\u{7f}'
}

/// Whether the path can be read back from a line: it is not empty and has no white space at its
/// ends.
pub open spec fn is_plain_path(path: Text) -> bool {
    path.len() > 0 && !text::is_space(path[0]) && !text::is_space(path.last())
}

/// The line of the status that gives the status `xy` to the path.
pub open spec fn status_line(x: char, y: char, path: Text) -> Text {
    seq![x, y, ' '] + path
}

/// The columns of a line of the status are where they were written.
proof fn status_line_has_columns(x: char, y: char, path: Text)
    requires
        is_narrow(x),
        is_narrow(y),
        path.len() > 0,
    ensures
        ({
            let line = status_line(x, y, path);
            &&& names_a_file(line)
            &&& byte_positions::chars_in_bytes(line, 2) == Some(2nat)
            &&& byte_positions::chars_in_bytes(line, 3) == Some(3nat)
            &&& line.take(2) == seq![x, y]
            &&& line.skip(3) == path
        }),
{
    let line = status_line(x, y, path);
    let l1 = line.drop_first();
    let l2 = l1.drop_first();
    let l3 = l2.drop_first();
    assert(l3 =~= path);
    assert(l1[0] == y);
    assert(l2[0] == ' ');
    assert(byte_positions::chars_in_bytes(l3, 0) == Some(0nat));
    assert(byte_positions::chars_in_bytes(l2, 0) == Some(0nat));
    assert(byte_positions::chars_in_bytes(l2, 1) == Some(1nat));
    assert(byte_positions::chars_in_bytes(l1, 1) == Some(1nat));
    assert(byte_positions::chars_in_bytes(l1, 2) == Some(2nat));
    assert(byte_positions::byte_len(l3) >= 1);
    assert(byte_positions::byte_len(l2) == 1 + byte_positions::byte_len(l3));
    assert(byte_positions::byte_len(l1) == 1 + byte_positions::byte_len(l2));
    assert(line.take(2) =~= seq![x, y]);
    assert(line.skip(3) =~= path);
}

/// A line of the status names its path, with the status that it gives, or `M` where that is
/// blank. Left out are paths that hold ` -> `, which are taken for renames.
pub proof fn status_line_reads_back(x: char, y: char, path: Text)
    requires
        is_narrow(x),
        is_narrow(y),
        is_plain_path(path),
        text::find_text(path, " -> "@) is None,
    ensures
        ({
            let line = status_line(x, y, path);
            let status = text::trim(seq![x, y]);
            &&& names_a_file(line)
            &&& has_columns(line)
            &&& line_path(line) == path
            &&& line_status(line) == if status.len() == 0 {
                "M"@
            } else {
                status
            }
        }),
{
    status_line_has_columns(x, y, path);
    text::trim_keeps_trimmed(path);
}

/// What follows the arrow is the last piece, unless an earlier arrow runs into it.
proof fn arrow_is_last(front: Text, path: Text)
    requires
        text::after_last_text(front + " "@, " -> "@).len() > 0,
        text::find_text(path, " -> "@) is None,
    ensures
        text::after_last_text(front + " -> "@ + path, " -> "@) == path,
    decreases front.len(),
{
    reveal_strlit(" -> ");
    reveal_strlit(" ");
    let arrow = " -> "@;
    let s = front + arrow + path;
    let f = front + " "@;
    let end = front.len() as int;
    text::find_text_is_first(s, arrow);
    assert(s.skip(end).take(4) =~= arrow);
    assert(text::starts_with(s.skip(end), arrow));
    assert(text::find_text(s, arrow) is Some);
    let n = text::find_text(s, arrow)->0 as int;
    assert(n <= end);
    assert(text::after_last_text(path, arrow) == path);
    if n == end {
        assert(s.skip(end + 4) =~= path);
    } else {
        let found = s.subrange(n, n + 4);
        assert(found == arrow);
        assert(found[1] == s[n + 1] && found[2] == s[n + 2]);
        assert(n + 3 <= end);
        assert(f.skip(n).take(4) =~= found);
        assert forall|i: int| 0 <= i < n implies !text::starts_with(
            #[trigger] f.skip(i),
            arrow,
        ) by {
            if text::starts_with(f.skip(i), arrow) {
                assert(s.skip(i).take(4) =~= f.skip(i).take(4));
                assert(text::starts_with(s.skip(i), arrow));
            }
        }
        text::find_text_is(f, arrow, n as nat);
        let rest = f.skip(n + 4);
        assert(text::after_last_text(f, arrow) == text::after_last_text(rest, arrow));
        if n + 4 > end {
            assert(rest =~= seq![]);
            assert(text::find_text(rest, arrow) is None);
        } else {
            let later = front.skip(n + 4);
            assert(rest =~= later + " "@);
            assert(s.skip(n + 4) =~= later + arrow + path);
            arrow_is_last(later, path);
        }
    }
}

/// A line of the status that names two paths gives the status to the second, whatever arrows the
/// first holds. Left out are second paths that hold ` -> ` or end in white space, first paths
/// that start with white space, and pairs in which an arrow of the first path runs into the one
/// between them.
pub proof fn renamed_file_has_its_new_path(x: char, y: char, old_path: Text, path: Text)
    requires
        is_narrow(x),
        is_narrow(y),
        old_path.len() > 0,
        !text::is_space(old_path[0]),
        text::after_last_text(old_path + " "@, " -> "@).len() > 0,
        path.len() > 0,
        !text::is_space(path.last()),
        text::find_text(path, " -> "@) is None,
    ensures
        ({
            let line = status_line(x, y, old_path + " -> "@ + path);
            names_a_file(line) && has_columns(line) && line_path(line) == path
        }),
{
    let both = old_path + " -> "@ + path;
    status_line_has_columns(x, y, both);
    assert(both[0] == old_path[0]);
    assert(both.last() == path.last());
    text::trim_keeps_trimmed(both);
    arrow_is_last(old_path, path);
}

/// The line of the counts that gives the path so many added and deleted lines.
pub open spec fn counts_line(additions: u32, deletions: u32, path: Text) -> Text {
    numbers::decimal(additions as nat) + seq!['\t'] + numbers::decimal(deletions as nat) + seq![
        '\t',
    ] + path
}

/// A column that holds no tab is the first piece of a line.
proof fn first_column(column: Text, rest: Text)
    requires
        !column.contains('\t'),
    ensures
        text::split_char(column + seq!['\t'] + rest, '\t') == seq![column] + text::split_char(
            rest,
            '\t',
        ),
{
    let line = column + seq!['\t'] + rest;
    assert forall|i: int| 0 <= i < column.len() implies #[trigger] line[i] != '\t' by {
        assert(line[i] == column[i]);
        assert(column.contains(column[i]));
    }
    assert(line[column.len() as int] == '\t');
    text::find_char_is(line, '\t', column.len());
    assert(line.take(column.len() as int) =~= column);
    assert(line.skip(column.len() as int + 1) =~= rest);
}

/// A line of the counts is read back as it was written. Left out are paths that hold a tab.
pub proof fn counts_line_reads_back(additions: u32, deletions: u32, path: Text)
    requires
        !path.contains('\t'),
    ensures
        line_counts(counts_line(additions, deletions, path)) == Some(
            (path, (additions as nat, deletions as nat)),
        ),
{
    let a = numbers::decimal(additions as nat);
    let d = numbers::decimal(deletions as nat);
    numbers::decimal_is_digits(additions as nat);
    numbers::decimal_is_digits(deletions as nat);
    numbers::decimal_reads_back(additions);
    numbers::decimal_reads_back(deletions);
    let rest = d + seq!['\t'] + path;
    first_column(a, rest);
    first_column(d, path);
    assert(counts_line(additions, deletions, path) =~= a + seq!['\t'] + rest);
    assert forall|i: int| 0 <= i < path.len() implies #[trigger] path[i] != '\t' by {
        assert(path.contains(path[i]));
    }
    text::find_char_is(path, '\t', path.len());
    assert(text::split_char(path, '\t') == seq![path]);
    let columns = text::split_char(counts_line(additions, deletions, path), '\t');
    assert(columns =~= seq![a, d, path]);
}

/// A status names finitely many files.
proof fn status_map_is_finite(lines: Seq<Text>)
    ensures
        status_map(lines).dom().finite(),
    decreases lines.len(),
{
    if lines.len() > 0 {
        status_map_is_finite(lines.drop_last());
    }
}

/// Counts name finitely many files.
proof fn numstat_map_is_finite(lines: Seq<Text>)
    ensures
        numstat_map(lines).dom().finite(),
    decreases lines.len(),
{
    if lines.len() > 0 {
        numstat_map_is_finite(lines.drop_last());
    }
}

/// The working tree is what it is said to be: the files that the status or the counts name, each
/// once, in the order of their paths.
pub proof fn working_tree_lists(status: Text, unstaged: Text, staged: Text)
    ensures
        lists_tree(working_tree(status, unstaged, staged), status, unstaged, staged),
{
    let named = status_map(text::lines(status));
    let first = numstat_map(text::lines(unstaged));
    let second = numstat_map(text::lines(staged));
    status_map_is_finite(text::lines(status));
    numstat_map_is_finite(text::lines(unstaged));
    numstat_map_is_finite(text::lines(staged));
    let changes = as_changes(tree_entries(status, unstaged, staged));
    assert(changes.dom() =~= named.dom() + first.dom() + second.dom());
    let (paths, files) = path_map::listing_exists(changes);
    assert forall|i: int| 0 <= i < files.len() implies paths_of(files)[i] == paths[i] by {
        assert(changes.contains_key(paths[i]));
    }
    assert(paths_of(files) =~= paths);
    assert(lists_tree(files, status, unstaged, staged));
}

/// Every line of a status that can be read has a column of two bytes, one character of a single
/// byte, and the rest: the status is the column without white space at its ends, or `M` where
/// nothing is left of it, and the path is the last of the rest, which is trimmed and cut at the
/// arrows.
pub proof fn columns_give_status_and_path(column: Text, gap: char, rest: Text)
    requires
        byte_positions::byte_len(column) == 2,
        gap <= '\u{7f}',
    ensures
        ({
            let line = column + seq![gap] + rest;
            &&& has_columns(line)
            &&& names_a_file(line) <==> rest.len() > 0
            &&& line_status(line) == if text::trim(column).len() == 0 {
                "M"@
            } else {
                text::trim(column)
            }
            &&& line_path(line) == text::after_last_text(text::trim(rest), " -> "@)
        }),
{
    let line = column + seq![gap] + rest;
    let k = column.len();
    byte_positions::byte_len_adds_up(column, seq![gap], gap);
    byte_positions::byte_len_adds_up(column + seq![gap], rest, gap);
    assert(line.take(k as int) =~= column);
    assert(line.take(k as int + 1) =~= column + seq![gap]);
    assert(line.skip(k as int + 1) =~= rest);
    byte_positions::whole_characters_are_counted(line, k, 2);
    byte_positions::whole_characters_are_counted(line, k + 1, 3);
}

/// A line of a status can be read if and only if it has these three parts.
pub proof fn readable_lines_have_columns(line: Text)
    ensures
        names_a_file(line) <==> byte_positions::byte_len(line) >= 4,
        has_columns(line) <==> exists|k: int|
            0 <= k < line.len() && byte_positions::byte_len(#[trigger] line.take(k)) == 2
                && byte_positions::byte_len(line.take(k + 1)) == 3,
{
    if has_columns(line) {
        let k = byte_positions::chars_in_bytes(line, 2)->0;
        let m = byte_positions::chars_in_bytes(line, 3)->0;
        byte_positions::chars_in_bytes_bounded(line, 2);
        byte_positions::chars_in_bytes_bounded(line, 3);
        byte_positions::chars_in_bytes_grows(line, 2, 3);
        let between = line.subrange(k as int, m as int);
        assert(line.take(m as int) =~= line.take(k as int) + between);
        byte_positions::byte_len_adds_up(line.take(k as int), between, ' ');
        if between.len() == 0 {
            byte_positions::byte_len_adds_up(between, between, ' ');
            assert(between =~= seq![]);
        } else {
            let one = seq![between[0]];
            let more = between.drop_first();
            assert(between =~= one + more);
            byte_positions::byte_len_adds_up(one, more, between[0]);
            if more.len() > 0 {
                assert(more =~= seq![more[0]] + more.drop_first());
                byte_positions::byte_len_adds_up(seq![more[0]], more.drop_first(), more[0]);
            }
            assert(m == k + 1);
        }
        assert(byte_positions::byte_len(line.take(k as int)) == 2);
    }
    if exists|k: int|
        0 <= k < line.len() && byte_positions::byte_len(#[trigger] line.take(k)) == 2
            && byte_positions::byte_len(line.take(k + 1)) == 3 {
        let k = choose|k: int|
            0 <= k < line.len() && byte_positions::byte_len(#[trigger] line.take(k)) == 2
                && byte_positions::byte_len(line.take(k + 1)) == 3;
        byte_positions::whole_characters_are_counted(line, k as nat, 2);
        byte_positions::whole_characters_are_counted(line, (k + 1) as nat, 3);
    }
}

/// A status names the files that its lines of four bytes or more give, and no others.
pub proof fn status_names_what_its_lines_give(lines: Seq<Text>, path: Text)
    ensures
        status_map(lines).contains_key(path) <==> exists|i: int|
            0 <= i < lines.len() && byte_positions::byte_len(#[trigger] lines[i]) >= 4
                && line_path(lines[i]) == path,
    decreases lines.len(),
{
    if lines.len() > 0 {
        let front = lines.drop_last();
        status_names_what_its_lines_give(front, path);
        if exists|i: int|
            0 <= i < front.len() && byte_positions::byte_len(#[trigger] front[i]) >= 4
                && line_path(front[i]) == path {
            let i = choose|i: int|
                0 <= i < front.len() && byte_positions::byte_len(#[trigger] front[i]) >= 4
                    && line_path(front[i]) == path;
            assert(lines[i] == front[i]);
        }
        if exists|i: int|
            0 <= i < lines.len() && byte_positions::byte_len(#[trigger] lines[i]) >= 4
                && line_path(lines[i]) == path {
            let i = choose|i: int|
                0 <= i < lines.len() && byte_positions::byte_len(#[trigger] lines[i]) >= 4
                    && line_path(lines[i]) == path;
            if i < front.len() {
                assert(front[i] == lines[i]);
            }
        }
        if byte_positions::byte_len(lines.last()) >= 4 && line_path(lines.last()) == path {
            assert(lines[lines.len() - 1] == lines.last());
        }
    }
}

/// A file has the status of the last line that gives its path, and a status counts no lines.
pub proof fn last_line_gives_the_status(lines: Seq<Text>, i: int)
    requires
        0 <= i < lines.len(),
        byte_positions::byte_len(lines[i]) >= 4,
        forall|j: int|
            i < j < lines.len() && byte_positions::byte_len(#[trigger] lines[j]) >= 4 ==> line_path(
                lines[j],
            ) != line_path(lines[i]),
    ensures
        status_map(lines).contains_key(line_path(lines[i])),
        status_map(lines)[line_path(lines[i])] == (FileChangeView {
            path: line_path(lines[i]),
            status: line_status(lines[i]),
            additions: 0,
            deletions: 0,
        }),
    decreases lines.len(),
{
    let front = lines.drop_last();
    if i < front.len() {
        assert(front[i] == lines[i]);
        assert forall|j: int|
            i < j < front.len() && byte_positions::byte_len(
                #[trigger] front[j],
            ) >= 4 implies line_path(front[j]) != line_path(front[i]) by {
            assert(front[j] == lines[j]);
        }
        last_line_gives_the_status(front, i);
        assert(lines[lines.len() - 1] == lines.last());
    }
}

/// A status can be read if and only if each of its lines of four bytes or more has its columns.
pub proof fn readable_status_has_columns(lines: Seq<Text>)
    ensures
        status_readable(lines) <==> forall|i: int|
            0 <= i < lines.len() && byte_positions::byte_len(#[trigger] lines[i]) >= 4
                ==> has_columns(lines[i]),
{
    if status_readable(lines) {
        assert forall|i: int|
            0 <= i < lines.len() && byte_positions::byte_len(
                #[trigger] lines[i],
            ) >= 4 implies has_columns(lines[i]) by {
            assert(names_a_file(lines[i]));
        }
    }
}

/// A line of the counts with two tabs or more gives the counts before the first two tabs to the
/// path after the last, and a line with fewer tabs gives nothing.
pub proof fn tabs_part_the_counts(first: Text, second: Text, rest: Text)
    requires
        !first.contains('\t'),
        !second.contains('\t'),
    ensures
        line_counts(first) is None,
        line_counts(first + seq!['\t'] + second) is None,
        line_counts(first + seq!['\t'] + (second + seq!['\t'] + rest)) == Some(
            (
                text::after_last_char(rest, '\t'),
                (
                    numbers::count_value(first) as nat,
                    numbers::count_value(second) as nat,
                ),
            ),
        ),
{
    first_column(first, second);
    first_column(first, second + seq!['\t'] + rest);
    first_column(second, rest);
    text::split_char_joins_back(rest, '\t');
    assert(text::split_char(second, '\t') =~= seq![second]) by {
        whole_column(second);
    }
    assert(text::split_char(first, '\t') =~= seq![first]) by {
        whole_column(first);
    }
    let columns = text::split_char(first + seq!['\t'] + (second + seq!['\t'] + rest), '\t');
    assert(columns =~= seq![first, second] + text::split_char(rest, '\t'));
    assert(columns.last() == text::split_char(rest, '\t').last());
}

/// A column that holds no tab is a line of its own.
proof fn whole_column(column: Text)
    requires
        !column.contains('\t'),
    ensures
        text::split_char(column, '\t') == seq![column],
{
    assert forall|i: int| 0 <= i < column.len() implies #[trigger] column[i] != '\t' by {
        assert(column.contains(column[i]));
    }
    text::find_char_is(column, '\t', column.len());
}

/// The counts of the lines of two outputs add up, path by path, and the counts of one line are
/// what the line gives.
pub proof fn counts_of_outputs_add_up(one: Seq<Text>, other: Seq<Text>, line: Text, path: Text)
    ensures
        ({
            let all = numstat_map(one + other);
            let a = numstat_map(one);
            let b = numstat_map(other);
            &&& all.contains_key(path) <==> a.contains_key(path) || b.contains_key(path)
            &&& all.contains_key(path) ==> all[path].0 == (if a.contains_key(path) {
                a[path].0
            } else {
                0
            }) + (if b.contains_key(path) {
                b[path].0
            } else {
                0
            })
            &&& all.contains_key(path) ==> all[path].1 == (if a.contains_key(path) {
                a[path].1
            } else {
                0
            }) + (if b.contains_key(path) {
                b[path].1
            } else {
                0
            })
        }),
        numstat_map(seq![]) == Map::<Text, (nat, nat)>::empty(),
        numstat_map(seq![line]) == match line_counts(line) {
            Some((p, counts)) => map![p => counts],
            None => Map::empty(),
        },
    decreases other.len(),
{
    assert(seq![line].drop_last() =~= seq![]);
    assert(numstat_map(seq![]) == Map::<Text, (nat, nat)>::empty());
    assert(seq![line].last() == line);
    match line_counts(line) {
        Some((p, counts)) => {
            assert(numstat_map(seq![line]) =~= map![p => counts]);
        },
        None => {},
    }
    if other.len() == 0 {
        assert(one + other =~= one);
    } else {
        assert((one + other).drop_last() =~= one + other.drop_last());
        counts_of_outputs_add_up(one, other.drop_last(), line, path);
        if let Some((p, counts)) = line_counts(other.last()) {
            counts_of_outputs_add_up(one, other.drop_last(), line, p);
        }
    }
}

/// Each file of the tree has the status that the status gives it, or else that of a file that git
/// does not know, and the sum of what the two sides count; and the files are in order.
pub proof fn tree_shows_status_and_sums(status: Text, unstaged: Text, staged: Text, i: int, j: int)
    requires
        tree_readable(status, unstaged, staged),
        0 <= i < working_tree(status, unstaged, staged).len(),
    ensures
        ({
            let files = working_tree(status, unstaged, staged);
            let file = files[i];
            let named = status_map(text::lines(status));
            let first = numstat_map(text::lines(unstaged));
            let second = numstat_map(text::lines(staged));
            &&& file.status == if named.contains_key(file.path) {
                named[file.path].status
            } else {
                "??"@
            }
            &&& file.additions == (if first.contains_key(file.path) {
                first[file.path].0
            } else {
                0
            }) + (if second.contains_key(file.path) {
                second[file.path].0
            } else {
                0
            })
            &&& file.deletions == (if first.contains_key(file.path) {
                first[file.path].1
            } else {
                0
            }) + (if second.contains_key(file.path) {
                second[file.path].1
            } else {
                0
            })
            &&& i < j < files.len() ==> path_map::before(files[i].path, files[j].path)
        }),
{
    working_tree_lists(status, unstaged, staged);
    let files = working_tree(status, unstaged, staged);
    let tree = tree_entries(status, unstaged, staged);
    let paths = paths_of(files);
    status_counts_nothing(text::lines(status));
    assert(paths[i] == files[i].path);
    assert(as_changes(tree).contains_key(paths[i]));
    assert(as_changes(tree)[paths[i]] == files[i]);
    assert(tree.contains_key(files[i].path));
    if i < j < files.len() {
        assert(paths[j] == files[j].path);
        assert(path_map::before(paths[i], paths[j]));
    }
}

/// A status counts no lines.
proof fn status_counts_nothing(lines: Seq<Text>)
    ensures
        forall|p: Text| #[trigger]
            status_map(lines).contains_key(p) ==> status_map(lines)[p].additions == 0
                && status_map(lines)[p].deletions == 0,
    decreases lines.len(),
{
    if lines.len() > 0 {
        status_counts_nothing(lines.drop_last());
        let front = status_map(lines.drop_last());
        assert forall|p: Text| #[trigger]
            status_map(lines).contains_key(p) implies status_map(lines)[p].additions == 0
            && status_map(lines)[p].deletions == 0 by {
            if front.contains_key(p) {
                assert(front[p].additions == 0 && front[p].deletions == 0);
            }
        }
    }
}

/// The working tree holds the files that the status or one of the counts names, and no others.
pub proof fn tree_holds_what_is_named(status: Text, unstaged: Text, staged: Text, path: Text)
    ensures
        (exists|i: int|
            0 <= i < working_tree(status, unstaged, staged).len() && (#[trigger] working_tree(
                status,
                unstaged,
                staged,
            )[i]).path == path) <==> status_map(text::lines(status)).contains_key(path)
            || numstat_map(text::lines(unstaged)).contains_key(path) || numstat_map(
            text::lines(staged),
        ).contains_key(path),
{
    let files = working_tree(status, unstaged, staged);
    working_tree_lists(status, unstaged, staged);
    tree_lists_what_is_named(files, status, unstaged, staged, path);
    let paths = paths_of(files);
    if paths.contains(path) {
        let i = choose|i: int| 0 <= i < paths.len() && paths[i] == path;
        assert(files[i].path == path);
    }
    if exists|i: int| 0 <= i < files.len() && (#[trigger] files[i]).path == path {
        let i = choose|i: int| 0 <= i < files.len() && (#[trigger] files[i]).path == path;
        assert(paths[i] == path);
    }
}

/// What the counts of the two sides give a path together.
pub open spec fn sums(first: Map<Text, (nat, nat)>, second: Map<Text, (nat, nat)>, path: Text) -> (
    nat,
    nat,
) {
    match (first.contains_key(path), second.contains_key(path)) {
        (true, true) => (first[path].0 + second[path].0, first[path].1 + second[path].1),
        (true, false) => first[path],
        (false, true) => second[path],
        (false, false) => (0, 0),
    }
}

/// The outputs can be read if and only if the status has its columns and no sum of the counts of
/// a file is too large for 32 bits.
pub proof fn readable_trees_have_sums_that_fit(status: Text, unstaged: Text, staged: Text)
    ensures
        tree_readable(status, unstaged, staged) <==> status_readable(text::lines(status))
            && forall|p: Text|
            #![trigger sums(
                numstat_map(text::lines(unstaged)),
                numstat_map(text::lines(staged)),
                p,
            )]
            sums(numstat_map(text::lines(unstaged)), numstat_map(text::lines(staged)), p).0
                < 0x1_0000_0000 && sums(
                numstat_map(text::lines(unstaged)),
                numstat_map(text::lines(staged)),
                p,
            ).1 < 0x1_0000_0000,
{
    let first = numstat_map(text::lines(unstaged));
    let second = numstat_map(text::lines(staged));
    let tree = tree_entries(status, unstaged, staged);
    status_counts_nothing(text::lines(status));
    assert forall|p: Text| tree.contains_key(p) implies tree[p].additions == sums(
        first,
        second,
        p,
    ).0 && tree[p].deletions == sums(first, second, p).1 by {}
    if totals_fit(tree) {
        assert forall|p: Text| #[trigger] sums(first, second, p).0 < 0x1_0000_0000 && sums(
            first,
            second,
            p,
        ).1 < 0x1_0000_0000 by {
            if first.contains_key(p) || second.contains_key(p) {
                assert(tree.contains_key(p));
            }
        }
    } else {
        let p = choose|p: Text| #[trigger]
            tree.contains_key(p) && !(tree[p].additions <= u32::MAX && tree[p].deletions
                <= u32::MAX);
        let total = sums(first, second, p);
        assert(total.0 >= 0x1_0000_0000 || total.1 >= 0x1_0000_0000);
    }
}

/// Counts fit if and only if none of them is too large for 32 bits.
pub proof fn fitting_counts_are_small(counts: Map<Text, (nat, nat)>)
    ensures
        counts_fit(counts) <==> forall|p: Text| #[trigger]
            counts.contains_key(p) ==> counts[p].0 < 0x1_0000_0000 && counts[p].1 < 0x1_0000_0000,
{
}

/// It makes no difference which of the two sides a count comes from.
pub proof fn sides_add_up(status: Text, unstaged: Text, staged: Text)
    ensures
        tree_entries(status, unstaged, staged) == tree_entries(status, staged, unstaged),
{
    let one = tree_entries(status, unstaged, staged);
    let other = tree_entries(status, staged, unstaged);
    assert(one =~= other);
}

/// A file is listed if and only if the status or one of the two counts names it.
pub proof fn tree_lists_what_is_named(
    files: Seq<FileChangeView>,
    status: Text,
    unstaged: Text,
    staged: Text,
    path: Text,
)
    requires
        lists_tree(files, status, unstaged, staged),
    ensures
        paths_of(files).contains(path) <==> status_map(text::lines(status)).contains_key(path)
            || numstat_map(text::lines(unstaged)).contains_key(path) || numstat_map(
            text::lines(staged),
        ).contains_key(path),
{
    let tree = tree_entries(status, unstaged, staged);
    assert(as_changes(tree).contains_key(path) <==> tree.contains_key(path));
}

} // verus!
