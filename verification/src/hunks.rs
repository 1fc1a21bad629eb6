//! The hunks of a diff, each as a patch of its own.

use vstd::prelude::*;

use crate::model::{DiffHunk, DiffHunkView};
use crate::strings::{has_prefix, is_blank, joined, line_range, lines_of};
use crate::text;
use crate::text::Text;

verus! {

/// The arguments for `git` that print the diff of one file without context lines: that of the
/// index when `cached`, else that of the worktree.
pub open spec fn hunk_args(path: Text, cached: bool) -> Seq<Text> {
    if cached {
        seq!["diff"@, "--cached"@, "-U0"@, "--color=never"@, "--"@, path]
    } else {
        seq!["diff"@, "-U0"@, "--color=never"@, "--"@, path]
    }
}

/// Whether a hunk starts at this line.
pub open spec fn is_hunk_start(line: Text) -> bool {
    text::starts_with(line, "@@"@)
}

/// The first line from `from` on at which a hunk starts, or the number of lines.
pub open spec fn next_hunk(lines: Seq<Text>, from: int) -> int
    decreases lines.len() - from,
{
    if from >= lines.len() {
        lines.len() as int
    } else if is_hunk_start(lines[from]) {
        from
    } else {
        next_hunk(lines, from + 1)
    }
}

/// The lines before the first hunk, which say what files the diff is about.
pub open spec fn diff_head(lines: Seq<Text>) -> Seq<Text> {
    lines.take(next_hunk(lines, 0))
}

/// The lines of each hunk from line `from` on, where a hunk starts or the lines end. A hunk
/// goes on until the next one starts.
pub open spec fn hunk_groups(lines: Seq<Text>, from: int) -> Seq<Seq<Text>>
    decreases lines.len() - from,
{
    if from >= lines.len() {
        seq![]
    } else {
        let end = next_hunk(lines, from + 1);
        if from < end <= lines.len() {
            seq![lines.subrange(from, end)] + hunk_groups(lines, end)
        } else {
            seq![]
        }
    }
}

/// The hunk that the lines `group` make under the head `head`: its header is its first line,
/// and its patch is the head and the lines, each ended by a line feed.
pub open spec fn hunk_of(head: Seq<Text>, group: Seq<Text>, cached: bool) -> DiffHunkView {
    DiffHunkView {
        header: group[0],
        patch: text::join(head, "\n"@) + "\n"@ + text::join(group, "\n"@) + "\n"@,
        cached,
    }
}

/// The hunks of a diff.
pub open spec fn diff_hunks(output: Text, cached: bool) -> Seq<DiffHunkView> {
    if text::trim(output).len() == 0 {
        seq![]
    } else {
        let lines = text::lines(output);
        hunk_groups(lines, next_hunk(lines, 0)).map_values(
            |group: Seq<Text>| hunk_of(diff_head(lines), group, cached),
        )
    }
}

/// The search for a hunk stops where one starts, with none before, or at the end.
pub proof fn next_hunk_is_first(lines: Seq<Text>, from: int)
    requires
        0 <= from <= lines.len(),
    ensures
        from <= next_hunk(lines, from) <= lines.len(),
        forall|i: int| from <= i < next_hunk(lines, from) ==> !is_hunk_start(#[trigger] lines[i]),
        next_hunk(lines, from) < lines.len() ==> is_hunk_start(lines[next_hunk(lines, from)]),
    decreases lines.len() - from,
{
    if from < lines.len() && !is_hunk_start(lines[from]) {
        next_hunk_is_first(lines, from + 1);
    }
}

/// The head and the hunks together are all lines of the diff, in order.
pub proof fn hunks_lose_nothing(lines: Seq<Text>)
    ensures
        diff_head(lines) + hunk_groups(lines, next_hunk(lines, 0)).flatten() == lines,
{
    next_hunk_is_first(lines, 0);
    groups_are_the_rest(lines, next_hunk(lines, 0));
}

proof fn groups_are_the_rest(lines: Seq<Text>, from: int)
    requires
        0 <= from <= lines.len(),
    ensures
        hunk_groups(lines, from).flatten() == lines.skip(from),
    decreases lines.len() - from,
{
    if from < lines.len() {
        let end = next_hunk(lines, from + 1);
        next_hunk_is_first(lines, from + 1);
        groups_are_the_rest(lines, end);
        let groups = hunk_groups(lines, from);
        assert(groups.drop_first() =~= hunk_groups(lines, end));
        assert(groups.flatten() =~= lines.subrange(from, end) + lines.skip(end));
    } else {
        assert(lines.skip(from) =~= seq![]);
    }
}

/// In every group a hunk starts at the first line and at no other.
pub proof fn groups_start_with_hunks(lines: Seq<Text>, from: int)
    requires
        0 <= from <= lines.len(),
        from < lines.len() ==> is_hunk_start(lines[from]),
    ensures
        forall|g: int|
            0 <= g < hunk_groups(lines, from).len() ==> {
                let group = #[trigger] hunk_groups(lines, from)[g];
                &&& group.len() > 0
                &&& is_hunk_start(group[0])
                &&& forall|i: int| 0 < i < group.len() ==> !is_hunk_start(#[trigger] group[i])
            },
    decreases lines.len() - from,
{
    if from < lines.len() {
        let end = next_hunk(lines, from + 1);
        next_hunk_is_first(lines, from + 1);
        groups_start_with_hunks(lines, end);
        assert forall|g: int| 0 <= g < hunk_groups(lines, from).len() implies {
            let group = #[trigger] hunk_groups(lines, from)[g];
            &&& group.len() > 0
            &&& is_hunk_start(group[0])
            &&& forall|i: int| 0 < i < group.len() ==> !is_hunk_start(#[trigger] group[i])
        } by {
            if g > 0 {
                assert(hunk_groups(lines, from)[g] == hunk_groups(lines, end)[g - 1]);
            }
        }
    }
}

/// Where no character but white space is printed, no hunk starts.
proof fn blank_has_no_hunks(output: Text)
    requires
        text::trim(output).len() == 0,
    ensures
        next_hunk(text::lines(output), 0) == text::lines(output).len(),
{
    reveal_strlit("@@");
    let all = text::lines(output);
    next_hunk_is_first(all, 0);
    let n = next_hunk(all, 0);
    if n < all.len() {
        let line = all[n];
        assert(line.take(2) == "@@"@);
        assert(line.take(2)[0] == line[0]);
        assert(line.contains(line[0]));
        text::lines_come_from_text(output, n, '@');
        let k = choose|k: int| 0 <= k < output.len() && output[k] == '@';
        text::trim_keeps_ink(output, k);
    }
}

/// A hunk starts at the lines that start with two at signs.
proof fn hunk_start_is(line: Text)
    ensures
        is_hunk_start(line) <==> line.len() >= 2 && line[0] == '@' && line[1] == '@',
{
    reveal_strlit("@@");
    if line.len() >= 2 {
        assert(line.take(2)[0] == line[0] && line.take(2)[1] == line[1]);
        if line[0] == '@' && line[1] == '@' {
            assert(line.take(2) =~= "@@"@);
        }
    }
}

/// The first lines of the groups are the lines at which hunks start.
proof fn group_starts_are_hunk_starts(lines: Seq<Text>, from: int)
    requires
        0 <= from <= lines.len(),
        from < lines.len() ==> is_hunk_start(lines[from]),
    ensures
        hunk_groups(lines, from).map_values(|group: Seq<Text>| group[0]) == lines.skip(from).filter(
            |line: Text| line.len() >= 2 && line[0] == '@' && line[1] == '@',
        ),
    decreases lines.len() - from,
{
    let pred = |line: Text| line.len() >= 2 && line[0] == '@' && line[1] == '@';
    let first = |group: Seq<Text>| group[0];
    if from < lines.len() {
        let end = next_hunk(lines, from + 1);
        next_hunk_is_first(lines, from + 1);
        group_starts_are_hunk_starts(lines, end);
        let group = lines.subrange(from, end);
        let rest = hunk_groups(lines, end);
        assert(hunk_groups(lines, from) == seq![group] + rest);
        assert((seq![group] + rest).map_values(first) =~= seq![group[0]] + rest.map_values(first));
        let tail = lines.subrange(from + 1, end);
        assert(lines.skip(from) =~= seq![lines[from]] + tail + lines.skip(end));
        Seq::filter_distributes_over_add(seq![lines[from]] + tail, lines.skip(end), pred);
        Seq::filter_distributes_over_add(seq![lines[from]], tail, pred);
        hunk_start_is(lines[from]);
        assert(seq![lines[from]].filter(pred) =~= seq![lines[from]]) by {
            reveal(Seq::filter);
            assert(seq![lines[from]].drop_last() =~= seq![]);
            assert(seq![lines[from]].drop_last().filter(pred) =~= seq![]);
        }
        assert forall|i: int| 0 <= i < tail.len() implies !pred(#[trigger] tail[i]) by {
            assert(tail[i] == lines[from + 1 + i]);
            hunk_start_is(lines[from + 1 + i]);
        }
        nothing_is_kept(tail, pred);
        assert(lines.skip(from).filter(pred) =~= seq![lines[from]] + lines.skip(end).filter(pred));
    } else {
        assert(lines.skip(from) =~= seq![]);
        reveal(Seq::filter);
        assert(hunk_groups(lines, from).map_values(first) =~= seq![]);
        assert(lines.skip(from).filter(pred) =~= seq![]);
    }
}

/// A filter that lets nothing through gives nothing.
proof fn nothing_is_kept(lines: Seq<Text>, pred: spec_fn(Text) -> bool)
    requires
        forall|i: int| 0 <= i < lines.len() ==> !pred(#[trigger] lines[i]),
    ensures
        lines.filter(pred) == Seq::<Text>::empty(),
    decreases lines.len(),
{
    reveal(Seq::filter);
    if lines.len() > 0 {
        nothing_is_kept(lines.drop_last(), pred);
        assert(!pred(lines[lines.len() - 1]));
    }
}

/// There is one hunk for each line of the diff that starts with two at signs, in the same order,
/// and that line is its header.
pub proof fn each_hunk_line_is_a_header(output: Text, cached: bool)
    ensures
        diff_hunks(output, cached).map_values(|hunk: DiffHunkView| hunk.header) == text::lines(
            output,
        ).filter(|line: Text| line.len() >= 2 && line[0] == '@' && line[1] == '@'),
{
    let all = text::lines(output);
    let first = next_hunk(all, 0);
    let pred = |line: Text| line.len() >= 2 && line[0] == '@' && line[1] == '@';
    next_hunk_is_first(all, 0);
    group_starts_are_hunk_starts(all, first);
    assert(all =~= all.take(first) + all.skip(first));
    Seq::filter_distributes_over_add(all.take(first), all.skip(first), pred);
    assert forall|i: int| 0 <= i < first implies !pred(#[trigger] all.take(first)[i]) by {
        assert(all.take(first)[i] == all[i]);
        hunk_start_is(all[i]);
    }
    nothing_is_kept(all.take(first), pred);
    let groups = hunk_groups(all, first);
    if text::trim(output).len() == 0 {
        blank_has_no_hunks(output);
    }
    assert(diff_hunks(output, cached).map_values(|hunk: DiffHunkView| hunk.header)
        =~= groups.map_values(|group: Seq<Text>| group[0]));
    assert(all.filter(pred) =~= all.skip(first).filter(pred));
}

/// The hunks share the diff out among them: its lines are a head without hunk lines and then, for
/// each hunk in turn, a run of lines of which the first and no other starts with two at signs.
/// The patch of a hunk is the head and its own run, and nothing else.
pub proof fn hunks_share_the_diff_out(output: Text, cached: bool) -> (r: (
    Seq<Text>,
    Seq<Seq<Text>>,
))
    ensures
        ({
            let (head, runs) = r;
            let all = diff_hunks(output, cached);
            &&& head + runs.flatten() == text::lines(output)
            &&& runs.len() == all.len()
            &&& forall|i: int|
                0 <= i < head.len() ==> !((#[trigger] head[i]).len() >= 2 && head[i][0] == '@'
                    && head[i][1] == '@')
            &&& forall|k: int|
                #![trigger runs[k]]
                #![trigger all[k]]
                0 <= k < runs.len() ==> {
                    &&& runs[k].len() > 0
                    &&& runs[k][0].len() >= 2 && runs[k][0][0] == '@' && runs[k][0][1] == '@'
                    &&& forall|i: int|
                        0 < i < runs[k].len() ==> !((#[trigger] runs[k][i]).len() >= 2
                            && runs[k][i][0] == '@' && runs[k][i][1] == '@')
                    &&& all[k].header == runs[k][0]
                    &&& all[k].cached == cached
                    &&& all[k].patch == text::join(head, seq!['\n']) + seq!['\n'] + text::join(
                        runs[k],
                        seq!['\n'],
                    ) + seq!['\n']
                }
        }),
{
    let lines = text::lines(output);
    let first = next_hunk(lines, 0);
    let head = diff_head(lines);
    let runs = hunk_groups(lines, first);
    let all = diff_hunks(output, cached);
    reveal_strlit("\n");
    assert("\n"@ =~= seq!['\n']);
    hunks_lose_nothing(lines);
    next_hunk_is_first(lines, 0);
    groups_start_with_hunks(lines, first);
    if text::trim(output).len() == 0 {
        blank_has_no_hunks(output);
    }
    assert forall|i: int| 0 <= i < head.len() implies !((#[trigger] head[i]).len() >= 2
        && head[i][0] == '@' && head[i][1] == '@') by {
        hunk_start_is(lines[i]);
    }
    assert forall|k: int|
        #![trigger runs[k]]
        #![trigger all[k]]
        0 <= k < runs.len() implies {
        &&& runs[k].len() > 0
        &&& runs[k][0].len() >= 2 && runs[k][0][0] == '@' && runs[k][0][1] == '@'
        &&& forall|i: int|
            0 < i < runs[k].len() ==> !((#[trigger] runs[k][i]).len() >= 2 && runs[k][i][0] == '@'
                && runs[k][i][1] == '@')
        &&& all[k].header == runs[k][0]
        &&& all[k].cached == cached
        &&& all[k].patch == text::join(head, seq!['\n']) + seq!['\n'] + text::join(
            runs[k],
            seq!['\n'],
        ) + seq!['\n']
    } by {
        hunk_start_is(runs[k][0]);
        assert forall|i: int| 0 < i < runs[k].len() implies !((#[trigger] runs[k][i]).len() >= 2
            && runs[k][i][0] == '@' && runs[k][i][1] == '@') by {
            hunk_start_is(runs[k][i]);
        }
        assert(all[k] == hunk_of(head, runs[k], cached));
    }
    (head, runs)
}

/// Whether each line can be written out and read back.
pub open spec fn all_plain(lines: Seq<Text>) -> bool {
    forall|i: int| 0 <= i < lines.len() ==> text::is_plain_line(#[trigger] lines[i])
}

/// The patch of a hunk is itself a diff, and this hunk is the one that it holds. Left out are
/// hunks with a line that ends in a carriage return, in the hunk or in the head of the diff: a
/// line is read without it.
pub proof fn patch_stands_alone(output: Text, cached: bool, k: int)
    requires
        0 <= k < diff_hunks(output, cached).len(),
        all_plain(diff_head(text::lines(output))),
        all_plain(hunk_groups(text::lines(output), next_hunk(text::lines(output), 0))[k]),
    ensures
        diff_hunks(diff_hunks(output, cached)[k].patch, cached) == seq![
            diff_hunks(output, cached)[k],
        ],
{
    let ls = text::lines(output);
    let first = next_hunk(ls, 0);
    let head = diff_head(ls);
    let group = hunk_groups(ls, first)[k];
    let hunk = diff_hunks(output, cached)[k];
    reveal_strlit("\n");
    reveal_strlit("@@");
    let feed = seq!['\n'];
    assert("\n"@ =~= feed);
    next_hunk_is_first(ls, 0);
    groups_start_with_hunks(ls, first);
    let top: Seq<Text> = if head.len() == 0 {
        seq![Seq::<char>::empty()]
    } else {
        head
    };
    assert(text::join(top, feed) =~= text::join(head, feed));
    let all = top + group;
    assert forall|i: int| 0 <= i < all.len() implies text::is_plain_line(#[trigger] all[i]) by {
        if i >= top.len() {
            assert(all[i] == group[i - top.len()]);
        } else if head.len() > 0 {
            assert(all[i] == head[i]);
        }
    }
    text::join_splits(top, group, feed);
    text::lines_read_back(all);
    assert(hunk.patch =~= text::join(all, feed) + feed);
    assert(group[0].take(2) == "@@"@);
    assert(group[0][0] == '@') by {
        assert(group[0].take(2)[0] == '@');
    }
    assert(text::trim(hunk.patch).len() > 0) by {
        let start = text::join(top, feed).len() as int + 1;
        if group.len() > 1 {
            assert(group =~= seq![group[0]] + group.drop_first());
            text::join_cons(group[0], group.drop_first(), feed);
        }
        assert(text::join(group, feed)[0] == '@');
        assert(hunk.patch[start] == '@');
        text::trim_keeps_ink(hunk.patch, start);
    }
    next_hunk_is(all, 0, top.len() as int);
    next_hunk_is(all, top.len() as int + 1, all.len() as int);
    assert(all.take(top.len() as int) =~= top);
    assert(all.subrange(top.len() as int, all.len() as int) =~= group);
    assert(hunk_groups(all, all.len() as int) =~= seq![]);
    assert(hunk_groups(all, top.len() as int) =~= seq![group]);
    assert(diff_hunks(hunk.patch, cached) =~= seq![hunk]);
}

/// Where no hunk starts before `at` and one does at `at`, or the lines end there, the search
/// stops.
proof fn next_hunk_is(lines: Seq<Text>, from: int, at: int)
    requires
        0 <= from <= at <= lines.len(),
        forall|i: int| from <= i < at ==> !is_hunk_start(#[trigger] lines[i]),
        at < lines.len() ==> is_hunk_start(lines[at]),
    ensures
        next_hunk(lines, from) == at,
    decreases at - from,
{
    if from < at {
        next_hunk_is(lines, from + 1, at);
    }
}

/// The arguments for `git` that print the diff of one file without context lines.
pub fn build_hunk_args(path: &str, cached: bool) -> (r: Vec<String>)
    ensures
        r.deep_view() == hunk_args(path@, cached),
{
    let r = if cached {
        vec![
            "diff".to_string(),
            "--cached".to_string(),
            "-U0".to_string(),
            "--color=never".to_string(),
            "--".to_string(),
            path.to_string(),
        ]
    } else {
        vec![
            "diff".to_string(),
            "-U0".to_string(),
            "--color=never".to_string(),
            "--".to_string(),
            path.to_string(),
        ]
    };
    assert(r.deep_view() =~= hunk_args(path@, cached));
    r
}

/// The first line from `from` on at which a hunk starts, or the number of lines.
fn find_hunk(all: &Vec<String>, from: usize) -> (r: usize)
    requires
        from <= all@.len(),
    ensures
        r == next_hunk(all.deep_view(), from as int),
        from <= r <= all@.len(),
{
    let mut i: usize = from;
    while i < all.len() && !has_prefix(all[i].as_str(), "@@")
        invariant
            from <= i <= all@.len(),
            next_hunk(all.deep_view(), from as int) == next_hunk(all.deep_view(), i as int),
        decreases all@.len() - i,
    {
        assert(all.deep_view()[i as int] == all@[i as int]@);
        i += 1;
    }
    assert(i < all@.len() ==> all.deep_view()[i as int] == all@[i as int]@);
    i
}

/// The hunks of a diff, in order.
pub fn parse_diff_hunks(output: &str, cached: bool) -> (r: Vec<DiffHunk>)
    ensures
        r.deep_view() == diff_hunks(output@, cached),
{
    let mut r: Vec<DiffHunk> = Vec::new();
    if is_blank(output) {
        assert(r.deep_view() =~= seq![]);
        return r;
    }
    let all = lines_of(output);
    let ghost ls = text::lines(output@);
    let ghost make = |group: Seq<Text>| hunk_of(diff_head(ls), group, cached);
    let first = find_hunk(&all, 0);
    let head = line_range(&all, 0, first);
    assert(head.deep_view() =~= diff_head(ls));
    let head_text = joined(&head, "\n");
    let mut from: usize = first;
    let ghost wanted = hunk_groups(ls, first as int).map_values(make);
    assert(r.deep_view() + wanted =~= wanted);
    while from < all.len()
        invariant
            all.deep_view() == ls,
            from <= all@.len(),
            head_text@ == text::join(diff_head(ls), "\n"@),
            make == (|group: Seq<Text>| hunk_of(diff_head(ls), group, cached)),
            r.deep_view() + hunk_groups(ls, from as int).map_values(make) == wanted,
        decreases all@.len() - from,
    {
        let end = find_hunk(&all, from + 1);
        let group = line_range(&all, from, end);
        let ghost g = ls.subrange(from as int, end as int);
        let group_text = joined(&group, "\n");
        let mut patch = head_text.clone();
        patch.append("\n");
        patch.append(group_text.as_str());
        patch.append("\n");
        let hunk = DiffHunk { header: group[0].clone(), patch, cached };
        let ghost before = r.deep_view();
        proof {
            assert(group.deep_view()[0] == group@[0]@);
            assert(hunk.deep_view() == make(g));
        }
        r.push(hunk);
        proof {
            let rest = hunk_groups(ls, end as int);
            assert(hunk_groups(ls, from as int) == seq![g] + rest);
            assert((seq![g] + rest).map_values(make) =~= seq![make(g)] + rest.map_values(make));
            assert(r.deep_view() =~= before.push(make(g)));
            assert(before.push(make(g)) + rest.map_values(make) =~= before + (seq![make(g)]
                + rest.map_values(make)));
        }
        from = end;
    }
    assert(hunk_groups(ls, from as int).map_values(make) =~= seq![]);
    assert(r.deep_view() =~= wanted);
    r
}

} // verus!
