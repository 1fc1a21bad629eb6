//! Text as a sequence of characters: trimming, splitting, searching and joining.

use vstd::prelude::*;

verus! {

/// A piece of text, as the sequence of its characters.
pub type Text = Seq<char>;

// ---------------------------------------------------------------------------
// What the operations mean
// ---------------------------------------------------------------------------

/// Whether `c` has the Unicode property `White_Space`.
pub open spec fn is_space(c: char) -> bool {
    ||| '\u{9}' <= c <= '\u{d}'
    ||| c == ' '
    ||| c == '\u{85}'
    ||| c == '\u{a0}'
    ||| c == '\u{1680}'
    ||| '\u{2000}' <= c <= '\u{200a}'
    ||| c == '\u{2028}'
    ||| c == '\u{2029}'
    ||| c == '\u{202f}'
    ||| c == '\u{205f}'
    ||| c == '\u{3000}'
}

/// How many white space characters `s` starts with.
pub open spec fn leading_spaces(s: Text) -> nat
    decreases s.len(),
{
    if s.len() > 0 && is_space(s[0]) {
        1 + leading_spaces(s.drop_first())
    } else {
        0
    }
}

/// How many white space characters `s` ends with.
pub open spec fn trailing_spaces(s: Text) -> nat
    decreases s.len(),
{
    if s.len() > 0 && is_space(s.last()) {
        1 + trailing_spaces(s.drop_last())
    } else {
        0
    }
}

/// `s` without the white space at its start.
pub open spec fn trim_start(s: Text) -> Text {
    s.skip(leading_spaces(s) as int)
}

/// `s` without the white space at its end.
pub open spec fn trim_end(s: Text) -> Text {
    s.take(s.len() - trailing_spaces(s))
}

/// `s` without the white space at its start and at its end.
pub open spec fn trim(s: Text) -> Text {
    trim_end(trim_start(s))
}

/// Whether `s` starts with `prefix`.
pub open spec fn starts_with(s: Text, prefix: Text) -> bool {
    prefix.len() <= s.len() && s.take(prefix.len() as int) == prefix
}

/// Whether `s` ends with `suffix`.
pub open spec fn ends_with(s: Text, suffix: Text) -> bool {
    suffix.len() <= s.len() && s.skip(s.len() - suffix.len()) == suffix
}

/// The position of the first `c` in `s`, or the length of `s` when there is none.
pub open spec fn find_char(s: Text, c: char) -> nat
    decreases s.len(),
{
    if s.len() == 0 || s[0] == c {
        0
    } else {
        1 + find_char(s.drop_first(), c)
    }
}

/// The position at which `pattern` first occurs in `s`.
pub open spec fn find_text(s: Text, pattern: Text) -> Option<nat>
    decreases s.len(),
{
    if starts_with(s, pattern) {
        Some(0)
    } else if s.len() == 0 {
        None
    } else {
        match find_text(s.drop_first(), pattern) {
            Some(n) => Some(n + 1),
            None => None,
        }
    }
}

/// `line` without one carriage return at its end.
pub open spec fn strip_cr(line: Text) -> Text {
    if line.len() > 0 && line.last() == '\r' {
        line.drop_last()
    } else {
        line
    }
}

/// The lines of `s`. A line ends at `\n` or `\r\n`, which is not part of it; the last line
/// may do without.
pub open spec fn lines(s: Text) -> Seq<Text>
    decreases s.len(),
{
    if s.len() == 0 {
        seq![]
    } else {
        let n = find_char(s, '\n');
        if n >= s.len() {
            seq![s]
        } else {
            seq![strip_cr(s.take(n as int))] + lines(s.skip(n as int + 1))
        }
    }
}

/// The pieces of `s` between the occurrences of `c`.
pub open spec fn split_char(s: Text, c: char) -> Seq<Text>
    decreases s.len(),
{
    let n = find_char(s, c);
    if n >= s.len() {
        seq![s]
    } else {
        seq![s.take(n as int)] + split_char(s.skip(n as int + 1), c)
    }
}

/// What follows the last `c` in `s`, or all of `s` when there is none.
pub open spec fn after_last_char(s: Text, c: char) -> Text {
    split_char(s, c).last()
}

/// What follows the last occurrence of `separator` in `s`, where the occurrences are taken
/// from left to right without overlap; all of `s` when there is none.
pub open spec fn after_last_text(s: Text, separator: Text) -> Text
    decreases s.len(),
{
    match find_text(s, separator) {
        Some(n) => if 0 < separator.len() && n + separator.len() <= s.len() {
            after_last_text(s.skip((n + separator.len()) as int), separator)
        } else {
            s
        },
        None => s,
    }
}

/// The pieces one after the other, with `separator` between them.
pub open spec fn join(pieces: Seq<Text>, separator: Text) -> Text
    decreases pieces.len(),
{
    if pieces.len() == 0 {
        seq![]
    } else if pieces.len() == 1 {
        pieces[0]
    } else {
        join(pieces.drop_last(), separator) + separator + pieces.last()
    }
}

/// The pieces one after the other.
pub open spec fn concat(pieces: Seq<Text>) -> Text
    decreases pieces.len(),
{
    if pieces.len() == 0 {
        seq![]
    } else {
        concat(pieces.drop_last()) + pieces.last()
    }
}

/// `s` with a space in place of each line feed.
pub open spec fn flatten_lines(s: Text) -> Text {
    s.map_values(|c: char| if c == '\n' { ' ' } else { c })
}

/// The text that holds `c` `n` times.
pub open spec fn repeated(c: char, n: nat) -> Text {
    Seq::new(n, |i: int| c)
}

/// `s` with spaces put before it until it has `width` characters.
pub open spec fn pad_left(s: Text, width: nat) -> Text {
    if s.len() >= width {
        s
    } else {
        repeated(' ', (width - s.len()) as nat) + s
    }
}

// ---------------------------------------------------------------------------
// Laws
// ---------------------------------------------------------------------------

/// No more white space is counted at the start of a text than the text holds, and what is
/// counted is white space.
pub proof fn leading_spaces_are_spaces(s: Text)
    ensures
        leading_spaces(s) <= s.len(),
        forall|i: int| 0 <= i < leading_spaces(s) ==> is_space(#[trigger] s[i]),
        leading_spaces(s) < s.len() ==> !is_space(s[leading_spaces(s) as int]),
    decreases s.len(),
{
    if s.len() > 0 && is_space(s[0]) {
        let rest = s.drop_first();
        leading_spaces_are_spaces(rest);
        assert forall|i: int| 0 <= i < leading_spaces(s) implies is_space(#[trigger] s[i]) by {
            if i > 0 {
                assert(s[i] == rest[i - 1]);
            }
        }
    }
}

/// No more white space is counted at the end of a text than the text holds, and what is
/// counted is white space.
pub proof fn trailing_spaces_are_spaces(s: Text)
    ensures
        trailing_spaces(s) <= s.len(),
        forall|i: int| s.len() - trailing_spaces(s) <= i < s.len() ==> is_space(#[trigger] s[i]),
        trailing_spaces(s) < s.len() ==> !is_space(s[s.len() - trailing_spaces(s) - 1]),
    decreases s.len(),
{
    if s.len() > 0 && is_space(s.last()) {
        let rest = s.drop_last();
        trailing_spaces_are_spaces(rest);
        assert forall|i: int| s.len() - trailing_spaces(s) <= i < s.len() implies is_space(
            #[trigger] s[i],
        ) by {
            if i < s.len() - 1 {
                assert(s[i] == rest[i]);
            }
        }
    }
}

/// Trimming leaves a text that has no white space at either end, and takes away nothing but
/// white space.
pub proof fn trim_cuts_only_spaces(s: Text)
    ensures
        trim(s).len() > 0 ==> !is_space(trim(s)[0]) && !is_space(trim(s).last()),
        trim(s).len() <= s.len(),
        exists|from: int, to: int|
            #![trigger s.subrange(from, to)]
            0 <= from <= to <= s.len() && trim(s) == s.subrange(from, to) && (forall|i: int|
                (0 <= i < from || to <= i < s.len()) ==> is_space(#[trigger] s[i])),
{
    leading_spaces_are_spaces(s);
    let t = trim_start(s);
    trailing_spaces_are_spaces(t);
    let from = leading_spaces(s) as int;
    let to = from + trim(s).len();
    assert(trim(s) =~= s.subrange(from, to));
    assert forall|i: int| (0 <= i < from || to <= i < s.len()) implies is_space(
        #[trigger] s[i],
    ) by {
        if i >= to {
            assert(s[i] == t[i - from]);
        }
    }
}

/// Trimming a text that has no white space at its ends changes nothing.
pub proof fn trim_keeps_trimmed(s: Text)
    requires
        s.len() > 0 ==> !is_space(s[0]) && !is_space(s.last()),
    ensures
        trim(s) == s,
{
    assert(s.skip(0) =~= s);
    assert(s.take(s.len() as int) =~= s);
}

/// Trimming twice is the same as trimming once.
pub proof fn trim_is_idempotent(s: Text)
    ensures
        trim(trim(s)) == trim(s),
{
    trim_cuts_only_spaces(s);
    trim_keeps_trimmed(trim(s));
}

/// Where the search for a character stops: at the character, with none before it, or at the end.
pub proof fn find_char_is_first(s: Text, c: char)
    ensures
        find_char(s, c) <= s.len(),
        forall|i: int| 0 <= i < find_char(s, c) ==> #[trigger] s[i] != c,
        find_char(s, c) < s.len() ==> s[find_char(s, c) as int] == c,
    decreases s.len(),
{
    if s.len() > 0 && s[0] != c {
        let rest = s.drop_first();
        find_char_is_first(rest, c);
        assert forall|i: int| 0 <= i < find_char(s, c) implies #[trigger] s[i] != c by {
            if i > 0 {
                assert(s[i] == rest[i - 1]);
            }
        }
    }
}

/// A position that holds the character, with none before it, is where the search stops.
pub proof fn find_char_is(s: Text, c: char, n: nat)
    requires
        n <= s.len(),
        forall|i: int| 0 <= i < n ==> #[trigger] s[i] != c,
        n < s.len() ==> s[n as int] == c,
    ensures
        find_char(s, c) == n,
{
    find_char_is_first(s, c);
    let m = find_char(s, c);
    if m < n {
        assert(s[m as int] != c);
    } else if n < m {
        assert(s[n as int] != c);
    }
}

/// Where a pattern is found, it stands there and at no earlier position; where it is not found,
/// it stands nowhere.
pub proof fn find_text_is_first(s: Text, pattern: Text)
    ensures
        find_text(s, pattern) matches Some(n) ==> n + pattern.len() <= s.len() && s.subrange(
            n as int,
            (n + pattern.len()) as int,
        ) == pattern && (forall|i: int| 0 <= i < n ==> !starts_with(#[trigger] s.skip(i), pattern)),
        find_text(s, pattern) is None ==> forall|i: int|
            0 <= i <= s.len() ==> !starts_with(#[trigger] s.skip(i), pattern),
    decreases s.len(),
{
    assert(s.skip(0) =~= s);
    if starts_with(s, pattern) {
        assert(s.subrange(0, pattern.len() as int) =~= s.take(pattern.len() as int));
    } else if s.len() > 0 {
        let rest = s.drop_first();
        find_text_is_first(rest, pattern);
        match find_text(rest, pattern) {
            Some(m) => {
                let n = m + 1;
                assert(s.subrange(n as int, (n + pattern.len()) as int) =~= rest.subrange(
                    m as int,
                    (m + pattern.len()) as int,
                ));
                assert forall|i: int| 0 <= i < n implies !starts_with(
                    #[trigger] s.skip(i),
                    pattern,
                ) by {
                    if i > 0 {
                        assert(s.skip(i) =~= rest.skip(i - 1));
                    }
                }
            },
            None => {
                assert forall|i: int| 0 <= i <= s.len() implies !starts_with(
                    #[trigger] s.skip(i),
                    pattern,
                ) by {
                    if i > 0 {
                        assert(s.skip(i) =~= rest.skip(i - 1));
                    }
                }
            },
        }
    }
}

/// A position where a pattern stands, with none before it, is where it is found.
pub proof fn find_text_is(s: Text, pattern: Text, n: nat)
    requires
        n <= s.len(),
        starts_with(s.skip(n as int), pattern),
        forall|i: int| 0 <= i < n ==> !starts_with(#[trigger] s.skip(i), pattern),
    ensures
        find_text(s, pattern) == Some(n),
{
    find_text_is_first(s, pattern);
    match find_text(s, pattern) {
        Some(m) => {
            assert(s.skip(m as int).take(pattern.len() as int) =~= s.subrange(
                m as int,
                (m + pattern.len()) as int,
            ));
            assert(starts_with(s.skip(m as int), pattern));
        },
        None => {},
    }
}

/// No line holds a line feed.
pub proof fn lines_hold_no_line_feed(s: Text)
    ensures
        forall|i: int| 0 <= i < lines(s).len() ==> !(#[trigger] lines(s)[i]).contains('\n'),
    decreases s.len(),
{
    if s.len() > 0 {
        let n = find_char(s, '\n');
        find_char_is_first(s, '\n');
        if n < s.len() {
            lines_hold_no_line_feed(s.skip(n as int + 1));
            assert forall|i: int| 0 <= i < lines(s).len() implies !(#[trigger] lines(
                s,
            )[i]).contains('\n') by {
                if i > 0 {
                    assert(lines(s)[i] == lines(s.skip(n as int + 1))[i - 1]);
                }
            }
        }
    }
}

/// A split gives at least one piece, and joining the pieces gives the text back.
pub proof fn split_char_joins_back(s: Text, c: char)
    ensures
        split_char(s, c).len() > 0,
        join(split_char(s, c), seq![c]) == s,
    decreases s.len(),
{
    find_char_is_first(s, c);
    let n = find_char(s, c) as int;
    if n < s.len() {
        let rest = s.skip(n + 1);
        split_char_joins_back(rest, c);
        join_cons(s.take(n), split_char(rest, c), seq![c]);
        assert(s =~= s.take(n) + seq![c] + rest);
    }
}

/// A join can also be read from its first piece on.
pub proof fn join_cons(first: Text, rest: Seq<Text>, separator: Text)
    requires
        rest.len() > 0,
    ensures
        join(seq![first] + rest, separator) == first + separator + join(rest, separator),
    decreases rest.len(),
{
    let all = seq![first] + rest;
    if rest.len() == 1 {
        assert(all.drop_last() =~= seq![first]);
        assert(join(all.drop_last(), separator) == first);
    } else {
        join_cons(first, rest.drop_last(), separator);
        assert(all.drop_last() =~= seq![first] + rest.drop_last());
        assert(join(all, separator) =~= first + separator + join(rest, separator));
    }
}

/// Text that is put together piece by piece can be cut anywhere between the pieces.
pub proof fn concat_splits(a: Seq<Text>, b: Seq<Text>)
    ensures
        concat(a + b) == concat(a) + concat(b),
    decreases b.len(),
{
    if b.len() == 0 {
        assert(a + b =~= a);
        assert(concat(a) + concat(b) =~= concat(a));
    } else {
        concat_splits(a, b.drop_last());
        assert((a + b).drop_last() =~= a + b.drop_last());
        assert(concat(a + b) =~= concat(a) + concat(b));
    }
}

/// Of no piece the text is empty, and of one piece it is that piece.
pub proof fn concat_of_few(piece: Text)
    ensures
        concat(seq![]) == Seq::<char>::empty(),
        concat(seq![piece]) == piece,
{
    assert(seq![piece].drop_last() =~= seq![]);
    assert(concat(seq![]) + piece =~= piece);
}

/// Joining two runs of pieces is joining all of them at once.
pub proof fn join_splits(a: Seq<Text>, b: Seq<Text>, separator: Text)
    requires
        a.len() > 0,
        b.len() > 0,
    ensures
        join(a + b, separator) == join(a, separator) + separator + join(b, separator),
    decreases b.len(),
{
    assert((a + b).drop_last() =~= a + b.drop_last());
    if b.len() == 1 {
        assert(a + b.drop_last() =~= a);
    } else {
        join_splits(a, b.drop_last(), separator);
        assert(join(a + b, separator) =~= join(a, separator) + separator + join(b, separator));
    }
}

/// Whether the text can stand on a line of its own and be read back from it: it holds no line
/// feed, and no carriage return at its end.
pub open spec fn is_plain_line(s: Text) -> bool {
    !s.contains('\n') && !(s.len() > 0 && s.last() == '\r')
}

/// Lines that are written out one after the other, each ended by a line feed, are read back as
/// they were.
pub proof fn lines_read_back(pieces: Seq<Text>)
    requires
        pieces.len() > 0,
        forall|i: int| 0 <= i < pieces.len() ==> is_plain_line(#[trigger] pieces[i]),
    ensures
        lines(join(pieces, seq!['\n']) + seq!['\n']) == pieces,
    decreases pieces.len(),
{
    let feed = seq!['\n'];
    let first = pieces[0];
    let rest = pieces.drop_first();
    let all = join(pieces, feed) + feed;
    assert(is_plain_line(first));
    assert(pieces =~= seq![first] + rest);
    if rest.len() > 0 {
        join_cons(first, rest, feed);
        assert forall|i: int| 0 <= i < rest.len() implies is_plain_line(#[trigger] rest[i]) by {
            assert(rest[i] == pieces[i + 1]);
        }
        lines_read_back(rest);
        assert(all.skip(first.len() as int + 1) =~= join(rest, feed) + feed);
    } else {
        assert(all.skip(first.len() as int + 1) =~= seq![]);
    }
    assert forall|i: int| 0 <= i < first.len() implies #[trigger] all[i] != '\n' by {
        assert(all[i] == first[i]);
        assert(first.contains(first[i]));
    }
    assert(all[first.len() as int] == '\n');
    find_char_is(all, '\n', first.len());
    assert(all.take(first.len() as int) =~= first);
    assert(strip_cr(first) == first);
    assert(lines(all.skip(first.len() as int + 1)) =~= rest);
    assert(lines(all) == seq![first] + rest);
}

/// A text that holds anything but white space is not blank.
pub proof fn trim_keeps_ink(s: Text, i: int)
    requires
        0 <= i < s.len(),
        !is_space(s[i]),
    ensures
        trim(s).len() > 0,
{
    trim_cuts_only_spaces(s);
}

/// A text starts with what it was put behind, and what it starts with can be taken off and put
/// back.
pub proof fn prefix_is_front(s: Text, prefix: Text, rest: Text)
    ensures
        starts_with(prefix + rest, prefix),
        starts_with(s, prefix) ==> s == prefix + s.skip(prefix.len() as int),
{
    assert((prefix + rest).take(prefix.len() as int) =~= prefix);
    if starts_with(s, prefix) {
        assert(s =~= s.take(prefix.len() as int) + s.skip(prefix.len() as int));
    }
}

/// A text ends with what was put behind it, and what it ends with can be taken off and put back.
pub proof fn suffix_is_back(s: Text, front: Text, suffix: Text)
    ensures
        ends_with(front + suffix, suffix),
        ends_with(s, suffix) ==> s == s.take(s.len() - suffix.len()) + suffix,
{
    let all = front + suffix;
    assert(all.skip(all.len() - suffix.len()) =~= suffix);
    if ends_with(s, suffix) {
        assert(s =~= s.take(s.len() - suffix.len()) + s.skip(s.len() - suffix.len()));
    }
}

/// Lines are read one after the other: an empty text has none; a text without a line feed is one
/// line as it is; and what stands before the first line feed is a line, less one carriage return
/// at its end, before the lines of what follows.
pub proof fn lines_are_read_in_turn(line: Text, rest: Text)
    requires
        !line.contains('\n'),
    ensures
        lines(seq![]) == Seq::<Text>::empty(),
        line.len() > 0 ==> lines(line) == seq![line],
        lines(line + seq!['\n'] + rest) == seq![
            if line.len() > 0 && line.last() == '\r' {
                line.drop_last()
            } else {
                line
            },
        ] + lines(rest),
{
    let all = line + seq!['\n'] + rest;
    assert forall|i: int| 0 <= i < line.len() implies #[trigger] line[i] != '\n' by {
        assert(line.contains(line[i]));
    }
    assert forall|i: int| 0 <= i < line.len() implies #[trigger] all[i] != '\n' by {
        assert(all[i] == line[i]);
    }
    find_char_is(line, '\n', line.len());
    find_char_is(all, '\n', line.len());
    assert(all.take(line.len() as int) =~= line);
    assert(all.skip(line.len() as int + 1) =~= rest);
}

/// A line holds no character that the text does not hold.
pub proof fn lines_come_from_text(s: Text, i: int, c: char)
    requires
        0 <= i < lines(s).len(),
        lines(s)[i].contains(c),
    ensures
        s.contains(c),
    decreases s.len(),
{
    if s.len() > 0 {
        let n = find_char(s, '\n') as int;
        find_char_is_first(s, '\n');
        if n < s.len() {
            if i == 0 {
                let k = choose|k: int| 0 <= k < lines(s)[0].len() && lines(s)[0][k] == c;
                assert(s[k] == c);
            } else {
                let rest = s.skip(n + 1);
                assert(lines(s)[i] == lines(rest)[i - 1]);
                lines_come_from_text(rest, i - 1, c);
                let k = choose|k: int| 0 <= k < rest.len() && rest[k] == c;
                assert(s[k + n + 1] == c);
            }
        }
    }
}

/// No piece of a split holds what it was split at.
pub proof fn pieces_hold_no_separator(s: Text, c: char)
    ensures
        forall|i: int|
            0 <= i < split_char(s, c).len() ==> !(#[trigger] split_char(s, c)[i]).contains(c),
    decreases s.len(),
{
    find_char_is_first(s, c);
    let n = find_char(s, c) as int;
    if n < s.len() {
        let rest = s.skip(n + 1);
        pieces_hold_no_separator(rest, c);
        assert forall|i: int| 0 <= i < split_char(s, c).len() implies !(#[trigger] split_char(
            s,
            c,
        )[i]).contains(c) by {
            if i > 0 {
                assert(split_char(s, c)[i] == split_char(rest, c)[i - 1]);
            }
        }
    }
}

/// What follows the last `c` is what was put behind it, and all where there is none.
pub proof fn tail_follows_last_char(front: Text, c: char, tail: Text)
    requires
        !tail.contains(c),
    ensures
        after_last_char(tail, c) == tail,
        after_last_char(front + seq![c] + tail, c) == tail,
    decreases front.len(),
{
    assert forall|i: int| 0 <= i < tail.len() implies #[trigger] tail[i] != c by {
        assert(tail.contains(tail[i]));
    }
    find_char_is(tail, c, tail.len());
    assert(split_char(tail, c) =~= seq![tail]);
    let s = front + seq![c] + tail;
    find_char_is_first(s, c);
    let n = find_char(s, c) as int;
    assert(s[front.len() as int] == c);
    assert(n <= front.len());
    let rest = s.skip(n + 1);
    split_char_joins_back(rest, c);
    assert(split_char(s, c).last() == split_char(rest, c).last());
    if n == front.len() {
        assert(rest =~= tail);
    } else {
        assert(rest =~= front.skip(n + 1) + seq![c] + tail);
        tail_follows_last_char(front.skip(n + 1), c, tail);
    }
}

/// What follows the last separator is found piece by piece from the left: where none is left, it
/// is what is left.
pub proof fn tail_follows_last_text(piece: Text, separator: Text, rest: Text)
    requires
        separator.len() > 0,
    ensures
        (forall|i: int|
            0 <= i <= piece.len() ==> !starts_with(#[trigger] piece.skip(i), separator))
            ==> after_last_text(piece, separator) == piece,
        (forall|i: int|
            0 <= i < piece.len() ==> !starts_with(
                #[trigger] (piece + separator + rest).skip(i),
                separator,
            )) ==> after_last_text(piece + separator + rest, separator) == after_last_text(
            rest,
            separator,
        ),
{
    find_text_is_first(piece, separator);
    if forall|i: int|
        0 <= i <= piece.len() ==> !starts_with(#[trigger] piece.skip(i), separator) {
        if let Some(n) = find_text(piece, separator) {
            assert(piece.skip(n as int).take(separator.len() as int) =~= separator);
            assert(starts_with(piece.skip(n as int), separator));
        }
    }
    let s = piece + separator + rest;
    if forall|i: int|
        0 <= i < piece.len() ==> !starts_with(#[trigger] s.skip(i), separator) {
        assert(s.skip(piece.len() as int) =~= separator + rest);
        prefix_is_front(s, separator, rest);
        find_text_is(s, separator, piece.len());
        assert(s.skip((piece.len() + separator.len()) as int) =~= rest);
    }
}

/// Of no piece the join is empty, and of one piece it is that piece. With the rule for two runs
/// of pieces this says what every join is.
pub proof fn join_of_few(piece: Text, separator: Text)
    ensures
        join(seq![], separator) == Seq::<char>::empty(),
        join(seq![piece], separator) == piece,
{
}

/// A flattened text is the text with each line feed made a space, character by character.
pub proof fn flattening_keeps_all_else(s: Text)
    ensures
        flatten_lines(s).len() == s.len(),
        forall|i: int|
            0 <= i < s.len() ==> #[trigger] flatten_lines(s)[i] == if s[i] == '\n' {
                ' '
            } else {
                s[i]
            },
{
}

/// A padded text ends with the text, has only spaces before it, and is as wide as asked or as
/// wide as the text.
pub proof fn padding_is_spaces(s: Text, width: nat)
    ensures
        pad_left(s, width).len() == if s.len() < width {
            width
        } else {
            s.len()
        },
        pad_left(s, width).skip(pad_left(s, width).len() - s.len()) == s,
        forall|i: int|
            0 <= i < pad_left(s, width).len() - s.len() ==> #[trigger] pad_left(s, width)[i]
                == ' ',
{
    let p = pad_left(s, width);
    assert(p.skip(p.len() - s.len()) =~= s);
}

/// A repeated character is there as often as asked, and nothing else.
pub proof fn repetition_is_uniform(c: char, n: nat)
    ensures
        repeated(c, n).len() == n,
        forall|i: int| 0 <= i < n ==> #[trigger] repeated(c, n)[i] == c,
{
}

/// White space is made of 25 characters: the tab and the four after it, the space, the next line,
/// the space that does not break, the Ogham space, the eleven spaces of a given width, the two
/// separators of lines and of paragraphs, the two narrow spaces and the wide one.
pub proof fn white_space_is_counted(c: char)
    ensures
        is_space(c) <==> seq![
            9u32, 10, 11, 12, 13, 32, 133, 160, 5760, 8192, 8193, 8194, 8195, 8196, 8197, 8198,
            8199, 8200, 8201, 8202, 8232, 8233, 8239, 8287, 12288,
        ].contains(c as u32),
{
    let all = seq![
        9u32, 10, 11, 12, 13, 32, 133, 160, 5760, 8192, 8193, 8194, 8195, 8196, 8197, 8198, 8199,
        8200, 8201, 8202, 8232, 8233, 8239, 8287, 12288,
    ];
    if is_space(c) {
        let n = c as u32;
        let k: int = if n <= 13 {
            n - 9
        } else if n == 32 {
            5
        } else if n == 133 {
            6
        } else if n == 160 {
            7
        } else if n == 5760 {
            8
        } else if n <= 8202 {
            n - 8183
        } else if n == 8232 {
            20
        } else if n == 8233 {
            21
        } else if n == 8239 {
            22
        } else if n == 8287 {
            23
        } else {
            24
        };
        assert(0 <= k < 25 && all[k] == n);
    }
    if all.contains(c as u32) {
        let k = choose|k: int| 0 <= k < all.len() && all[k] == c as u32;
        assert(0 <= k < 25);
    }
}

} // verus!
