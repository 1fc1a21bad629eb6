//! The lines of the commit graph, cut into pieces that are shown in tones of their own.

use vstd::prelude::*;

use crate::labels::Tone;
use crate::patterns;
use crate::patterns::find_commit;
use crate::strings::{chars_of, contains_text, position_of, string_from};
use crate::text;
use crate::text::Text;

verus! {

/// A piece of a line and the tone it is shown in.
#[derive(Debug, PartialEq, Eq)]
pub struct Segment {
    pub text: String,
    pub tone: Tone,
}

/// A [`Segment`] as a mathematical value.
#[verifier::ext_equal]
pub struct SegmentView {
    pub text: Text,
    pub tone: Tone,
}

impl DeepView for Segment {
    type V = SegmentView;

    open spec fn deep_view(&self) -> SegmentView {
        SegmentView { text: self.text@, tone: self.tone }
    }
}

pub open spec fn segment(text: Text, tone: Tone) -> SegmentView {
    SegmentView { text, tone }
}

/// The tone of what a line has in brackets: the branches and tags of the commit.
pub open spec fn tone_of_refs(refs: Text) -> Tone {
    if text::find_text(refs, "HEAD"@) is Some {
        Tone::Info
    } else {
        Tone::Reference
    }
}

/// The pieces of what follows the commit name: up to the first bracket, the brackets, and the
/// rest; without brackets, all of it.
pub open spec fn rest_segments(rest: Text) -> Seq<SegmentView> {
    let start = text::find_char(rest, '(') as int;
    if start < rest.len() {
        let tail = rest.skip(start);
        let end = text::find_char(tail, ')') as int;
        if end < tail.len() {
            seq![
                segment(rest.take(start), Tone::Graph),
                segment(tail.take(end + 1), tone_of_refs(tail.take(end + 1))),
                segment(tail.skip(end + 1), Tone::Plain),
            ]
        } else {
            seq![segment(rest.take(start), Tone::Graph), segment(tail, Tone::Plain)]
        }
    } else if rest.len() > 0 {
        seq![segment(rest, Tone::Plain)]
    } else {
        seq![]
    }
}

/// The pieces of a line in which the commit name `found` was found, with what stands before and
/// after it.
pub open spec fn segments(line: Text, found: Option<(Text, Text, Text)>) -> Seq<SegmentView> {
    match found {
        Some((before, name, after)) => seq![
            segment(before, Tone::Graph),
            segment(name, Tone::Warning),
        ] + rest_segments(after),
        None => rest_segments(line),
    }
}

/// The pieces as they are shown: all in one tone on the selected line.
pub open spec fn shown(pieces: Seq<SegmentView>, selected: bool) -> Seq<SegmentView> {
    if selected {
        pieces.map_values(|s: SegmentView| segment(s.text, Tone::Selected))
    } else {
        pieces
    }
}

/// The texts of the pieces.
pub open spec fn texts(pieces: Seq<SegmentView>) -> Seq<Text> {
    pieces.map_values(|s: SegmentView| s.text)
}

/// The pieces of a line, put together, are the line, selected or not.
pub proof fn segments_are_the_line(
    line: Text,
    found: Option<(Text, Text, Text)>,
    selected: bool,
)
    requires
        found matches Some(parts) ==> parts.0 + parts.1 + parts.2 == line,
    ensures
        text::concat(texts(shown(segments(line, found), selected))) == line,
{
    let pieces = segments(line, found);
    assert(texts(shown(pieces, selected)) =~= texts(pieces));
    match found {
        Some((before, name, after)) => {
            rest_segments_are_the_rest(after);
            let head = seq![segment(before, Tone::Graph), segment(name, Tone::Warning)];
            assert(texts(pieces) =~= seq![before, name] + texts(rest_segments(after)));
            text::concat_splits(seq![before, name], texts(rest_segments(after)));
            concat_two(before, name);
        },
        None => {
            rest_segments_are_the_rest(line);
        },
    }
}

proof fn concat_two(a: Text, b: Text)
    ensures
        text::concat(seq![a, b]) == a + b,
{
    assert(seq![a, b].drop_last() =~= seq![a]);
    assert(seq![a].drop_last() =~= seq![]);
    assert(text::concat(seq![a]) =~= a) by {
        assert(text::concat(seq![]) + a =~= a);
    }
}

proof fn rest_segments_are_the_rest(rest: Text)
    ensures
        text::concat(texts(rest_segments(rest))) == rest,
{
    text::find_char_is_first(rest, '(');
    let start = text::find_char(rest, '(') as int;
    let all = texts(rest_segments(rest));
    if start < rest.len() {
        let tail = rest.skip(start);
        text::find_char_is_first(tail, ')');
        let end = text::find_char(tail, ')') as int;
        if end < tail.len() {
            assert(all =~= seq![rest.take(start), tail.take(end + 1), tail.skip(end + 1)]);
            assert(all.drop_last() =~= seq![rest.take(start), tail.take(end + 1)]);
            concat_two(rest.take(start), tail.take(end + 1));
            assert(rest =~= rest.take(start) + tail.take(end + 1) + tail.skip(end + 1));
        } else {
            assert(all =~= seq![rest.take(start), tail]);
            concat_two(rest.take(start), tail);
            assert(rest =~= rest.take(start) + tail);
        }
    } else if rest.len() > 0 {
        assert(all =~= seq![rest]);
        assert(all.drop_last() =~= seq![]);
        assert(text::concat(seq![]) + rest =~= rest);
    } else {
        assert(all =~= seq![]);
        assert(rest =~= seq![]);
    }
}

fn piece(text: String, tone: Tone, selected: bool) -> (r: Segment)
    ensures
        r.deep_view() == segment(
            text@,
            if selected {
                Tone::Selected
            } else {
                tone
            },
        ),
{
    Segment {
        text,
        tone: if selected {
            Tone::Selected
        } else {
            tone
        },
    }
}

/// The pieces of a line in which the commit name `found` was found, with what stands before and
/// after it.
pub fn cut_line(line: &str, found: Option<(String, String, String)>, selected: bool) -> (r: Vec<
    Segment,
>)
    ensures
        r.deep_view() == shown(segments(line@, found.deep_view()), selected),
{
    let mut r: Vec<Segment> = Vec::new();
    let rest: Vec<char>;
    match found {
        Some((before, name, after)) => {
            rest = chars_of(after.as_str());
            r.push(piece(before, Tone::Graph, selected));
            r.push(piece(name, Tone::Warning, selected));
        },
        None => {
            rest = chars_of(line);
        },
    }
    let ghost head = r.deep_view();
    assert(rest@.skip(0) =~= rest@);
    let start = position_of(&rest, 0, '(');
    if start < rest.len() {
        let before_refs = string_from(&rest, 0, start);
        assert(before_refs@ =~= rest@.take(start as int));
        r.push(piece(before_refs, Tone::Graph, selected));
        let ghost tail = rest@.skip(start as int);
        let end = position_of(&rest, start, ')');
        if end < rest.len() {
            let refs = string_from(&rest, start, end + 1);
            assert(refs@ =~= tail.take(end - start + 1));
            let tone = if contains_text(refs.as_str(), "HEAD") {
                Tone::Info
            } else {
                Tone::Reference
            };
            r.push(piece(refs, tone, selected));
            let after_refs = string_from(&rest, end + 1, rest.len());
            assert(after_refs@ =~= tail.skip(end - start + 1));
            r.push(piece(after_refs, Tone::Plain, selected));
        } else {
            let tail_text = string_from(&rest, start, rest.len());
            assert(tail_text@ =~= tail);
            r.push(piece(tail_text, Tone::Plain, selected));
        }
    } else if rest.len() > 0 {
        let all = string_from(&rest, 0, rest.len());
        assert(all@ =~= rest@);
        r.push(piece(all, Tone::Plain, selected));
    }
    proof {
        assert(r.deep_view() =~= head + shown(rest_segments(rest@), selected));
        assert(shown(segments(line@, found.deep_view()), selected) =~= head + shown(
            rest_segments(rest@),
            selected,
        ));
    }
    r
}

/// The pieces in which a line of the commit graph is shown. Put together, they are the line, and
/// the commit name among them is the leftmost.
pub fn graph_segments(line: &str, selected: bool) -> (r: Vec<Segment>)
    ensures
        patterns::is_leftmost(line@, patterns::commit_in(line@)),
        r.deep_view() == shown(segments(line@, patterns::commit_in(line@)), selected),
        text::concat(texts(r.deep_view())) == line@,
{
    let found = find_commit(line);
    proof {
        segments_are_the_line(line@, found.deep_view(), selected);
    }
    cut_line(line, found, selected)
}

// ---------------------------------------------------------------------------
// Laws
// ---------------------------------------------------------------------------

/// The line before a commit name is drawn as the graph, the name stands out, and what follows is
/// shown after them; without a name all of the line is what follows.
pub proof fn commit_name_stands_out(line: Text, before: Text, name: Text, after: Text)
    ensures
        segments(line, None) == rest_segments(line),
        segments(line, Some((before, name, after))) == seq![
            SegmentView { text: before, tone: Tone::Graph },
            SegmentView { text: name, tone: Tone::Warning },
        ] + rest_segments(after),
{
}

/// What follows the name is shown in up to three pieces: the drawing up to the first round
/// bracket, the references up to the bracket that closes it, which stand out where the head is
/// among them, and the rest. Where no bracket closes it, all from the bracket on is the rest; and
/// without a bracket all is the rest, if there is any.
pub proof fn references_are_shown_apart(drawing: Text, references: Text, rest: Text)
    requires
        !drawing.contains('('),
        !references.contains(')'),
    ensures
        rest_segments(seq![]) == Seq::<SegmentView>::empty(),
        drawing.len() > 0 ==> rest_segments(drawing) == seq![
            SegmentView { text: drawing, tone: Tone::Plain },
        ],
        rest_segments(drawing + seq!['('] + references) == seq![
            SegmentView { text: drawing, tone: Tone::Graph },
            SegmentView { text: seq!['('] + references, tone: Tone::Plain },
        ],
        rest_segments(drawing + seq!['('] + references + seq![')'] + rest) == seq![
            SegmentView { text: drawing, tone: Tone::Graph },
            SegmentView {
                text: seq!['('] + references + seq![')'],
                tone: if exists|i: int|
                    0 <= i && i + 4 <= (seq!['('] + references + seq![')']).len() && #[trigger] (seq![
                        '(',
                    ] + references + seq![')']).subrange(i, i + 4) == "HEAD"@ {
                    Tone::Info
                } else {
                    Tone::Reference
                },
            },
            SegmentView { text: rest, tone: Tone::Plain },
        ],
{
    assert forall|i: int| 0 <= i < drawing.len() implies #[trigger] drawing[i] != '(' by {
        assert(drawing.contains(drawing[i]));
    }
    assert forall|i: int| 0 <= i < references.len() implies #[trigger] references[i] != ')' by {
        assert(references.contains(references[i]));
    }
    text::find_char_is(drawing, '(', drawing.len());
    text::find_char_is(seq![], '(', 0);
    let n = drawing.len() as int;
    let open = seq!['('] + references;
    let closed = open + seq![')'];
    let s = drawing + seq!['('] + references;
    assert forall|i: int| 0 <= i < n implies #[trigger] s[i] != '(' by {
        assert(s[i] == drawing[i]);
    }
    text::find_char_is(s, '(', drawing.len());
    assert(s.take(n) =~= drawing);
    assert(s.skip(n) =~= open);
    assert forall|i: int| 0 <= i < open.len() implies #[trigger] open[i] != ')' by {
        if i > 0 {
            assert(open[i] == references[i - 1]);
        }
    }
    text::find_char_is(open, ')', open.len());
    let t = drawing + seq!['('] + references + seq![')'] + rest;
    assert forall|i: int| 0 <= i < n implies #[trigger] t[i] != '(' by {
        assert(t[i] == drawing[i]);
    }
    text::find_char_is(t, '(', drawing.len());
    assert(t.take(n) =~= drawing);
    let tail = t.skip(n);
    assert(tail =~= closed + rest);
    assert forall|i: int| 0 <= i < open.len() implies #[trigger] tail[i] != ')' by {
        assert(tail[i] == open[i]);
    }
    text::find_char_is(tail, ')', open.len());
    assert(tail.take(open.len() as int + 1) =~= closed);
    assert(tail.skip(open.len() as int + 1) =~= rest);
    head_is_found(closed);
}

/// The references that hold the head are those in which its name stands somewhere.
proof fn head_is_found(references: Text)
    ensures
        tone_of_refs(references) == if exists|i: int|
            0 <= i && i + 4 <= references.len() && #[trigger] references.subrange(i, i + 4)
                == "HEAD"@ {
            Tone::Info
        } else {
            Tone::Reference
        },
{
    reveal_strlit("HEAD");
    assert("HEAD"@.len() == 4);
    text::find_text_is_first(references, "HEAD"@);
    match text::find_text(references, "HEAD"@) {
        Some(n) => {
            assert(references.subrange(n as int, n as int + 4) == "HEAD"@);
        },
        None => {
            assert forall|i: int| 0 <= i && i + 4 <= references.len() implies
                #[trigger] references.subrange(i, i + 4) != "HEAD"@ by {
                assert(references.skip(i).take(4) =~= references.subrange(i, i + 4));
                assert(!text::starts_with(references.skip(i), "HEAD"@));
            }
        },
    }
}

/// On the selected line all pieces have the same tone and their texts stay; on any other line all
/// stays.
pub proof fn selected_pieces_change_tone_alone(pieces: Seq<SegmentView>, i: int)
    ensures
        shown(pieces, false) == pieces,
        shown(pieces, true).len() == pieces.len(),
        0 <= i < pieces.len() ==> shown(pieces, true)[i] == (SegmentView {
            text: pieces[i].text,
            tone: Tone::Selected,
        }),
{
}

} // verus!
