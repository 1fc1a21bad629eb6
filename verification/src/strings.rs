//! The operations on text, carried out on strings.

use vstd::prelude::*;

use crate::text;

verus! {

/// `String::push` appends one character to the end of the string and changes nothing else.
pub assume_specification[ String::push ](s: &mut String, c: char)
    ensures
        final(s)@ == old(s)@.push(c),
;

/// The characters of `s` in order.
pub fn chars_of(s: &str) -> (chars: Vec<char>)
    ensures
        chars@ == s@,
{
    let mut chars: Vec<char> = Vec::new();
    for c in it: s.chars()
        invariant
            it.seq() == s@,
            chars@ == s@.take(it.index() as int),
    {
        chars.push(c);
    }
    chars
}

/// The text made of the characters from `from` up to `to`.
pub fn string_from(chars: &Vec<char>, from: usize, to: usize) -> (s: String)
    requires
        from <= to <= chars@.len(),
    ensures
        s@ == chars@.subrange(from as int, to as int),
{
    let mut s = String::new();
    let mut i: usize = from;
    while i < to
        invariant
            from <= i <= to <= chars@.len(),
            s@ == chars@.subrange(from as int, i as int),
        decreases to - i,
    {
        s.push(chars[i]);
        i += 1;
        assert(chars@.subrange(from as int, i as int) == chars@.subrange(
            from as int,
            i as int - 1,
        ).push(chars@[i as int - 1]));
    }
    s
}

/// Whether the two texts are the same.
pub fn same_text(a: &str, b: &str) -> (r: bool)
    ensures
        r == (a@ == b@),
{
    let x = chars_of(a);
    let y = chars_of(b);
    if x.len() != y.len() {
        return false;
    }
    let mut i: usize = 0;
    while i < x.len()
        invariant
            x@ == a@,
            y@ == b@,
            x@.len() == y@.len(),
            i <= x@.len(),
            forall|k: int| 0 <= k < i ==> x@[k] == y@[k],
        decreases x@.len() - i,
    {
        if x[i] != y[i] {
            return false;
        }
        i += 1;
    }
    assert(x@ =~= y@);
    true
}

/// Whether `c` is white space.
pub fn is_white_space(c: char) -> (r: bool)
    ensures
        r == text::is_space(c),
{
    ('\u{9}' <= c && c <= '\u{d}') || c == ' ' || c == '\u{85}' || c == '\u{a0}' || c == '\u{1680}'
        || ('\u{2000}' <= c && c <= '\u{200a}') || c == '\u{2028}' || c == '\u{2029}' || c
        == '\u{202f}' || c == '\u{205f}' || c == '\u{3000}'
}

/// `s` without the white space at its start and at its end.
pub fn trimmed(s: &str) -> (r: String)
    ensures
        r@ == text::trim(s@),
{
    let chars = chars_of(s);
    let mut from: usize = 0;
    assert(s@.skip(0) =~= s@);
    while from < chars.len() && is_white_space(chars[from])
        invariant
            chars@ == s@,
            from <= chars@.len(),
            text::leading_spaces(s@) == from + text::leading_spaces(s@.skip(from as int)),
        decreases chars@.len() - from,
    {
        assert(s@.skip(from as int).drop_first() =~= s@.skip(from as int + 1));
        from += 1;
    }
    assert(text::leading_spaces(s@.skip(from as int)) == 0);
    let ghost t = text::trim_start(s@);
    let mut to: usize = chars.len();
    assert(t.take(t.len() as int) =~= t);
    while from < to && is_white_space(chars[to - 1])
        invariant
            chars@ == s@,
            from <= to <= chars@.len(),
            t == s@.skip(from as int),
            text::trailing_spaces(t) == chars@.len() - to + text::trailing_spaces(t.take(to - from)),
        decreases to - from,
    {
        assert(t.take(to - from).drop_last() =~= t.take(to - from - 1));
        to -= 1;
    }
    assert(text::trailing_spaces(t.take(to - from)) == 0);
    assert(t.take(to - from) =~= chars@.subrange(from as int, to as int));
    string_from(&chars, from, to)
}

/// Whether `s` holds nothing but white space.
pub fn is_blank(s: &str) -> (r: bool)
    ensures
        r == (text::trim(s@).len() == 0),
{
    let t = trimmed(s);
    t.as_str().is_empty()
}

/// Whether `s` starts with `prefix`.
pub fn has_prefix(s: &str, prefix: &str) -> (r: bool)
    ensures
        r == text::starts_with(s@, prefix@),
{
    let x = chars_of(s);
    let y = chars_of(prefix);
    assert(s@.skip(0) =~= s@);
    has_prefix_at(&x, 0, &y)
}

/// Whether `pattern` stands in `chars` at position `at`.
fn has_prefix_at(chars: &Vec<char>, at: usize, pattern: &Vec<char>) -> (r: bool)
    requires
        at <= chars@.len(),
    ensures
        r == text::starts_with(chars@.skip(at as int), pattern@),
{
    if pattern.len() > chars.len() - at {
        return false;
    }
    let ghost tail = chars@.skip(at as int);
    let mut i: usize = 0;
    while i < pattern.len()
        invariant
            at <= chars@.len(),
            tail == chars@.skip(at as int),
            pattern@.len() <= tail.len(),
            i <= pattern@.len(),
            forall|k: int| 0 <= k < i ==> tail[k] == pattern@[k],
        decreases pattern@.len() - i,
    {
        assert(at + i < chars.len());
        if chars[at + i] != pattern[i] {
            assert(tail[i as int] != pattern@[i as int]);
            assert(tail.take(pattern@.len() as int)[i as int] == tail[i as int]);
            return false;
        }
        i += 1;
    }
    assert(tail.take(pattern@.len() as int) =~= pattern@);
    true
}

/// The position of the first `c` at or after `from`, or the length when there is none.
pub fn position_of(chars: &Vec<char>, from: usize, c: char) -> (r: usize)
    requires
        from <= chars@.len(),
    ensures
        from <= r <= chars@.len(),
        r - from == text::find_char(chars@.skip(from as int), c),
{
    let ghost tail = chars@.skip(from as int);
    let mut i: usize = from;
    while i < chars.len() && chars[i] != c
        invariant
            from <= i <= chars@.len(),
            tail == chars@.skip(from as int),
            forall|k: int| 0 <= k < i - from ==> #[trigger] tail[k] != c,
        decreases chars@.len() - i,
    {
        assert(tail[i - from] == chars@[i as int]);
        i += 1;
    }
    proof {
        text::find_char_is(tail, c, (i - from) as nat);
    }
    i
}

/// The position at which `pattern` first occurs at or after `from`.
fn position_of_text(chars: &Vec<char>, from: usize, pattern: &Vec<char>) -> (r: Option<usize>)
    requires
        from <= chars@.len(),
    ensures
        match (r, text::find_text(chars@.skip(from as int), pattern@)) {
            (Some(at), Some(n)) => at == from + n,
            (None, None) => true,
            _ => false,
        },
{
    let ghost tail = chars@.skip(from as int);
    let mut i: usize = from;
    assert(tail.skip(0) =~= tail);
    loop
        invariant
            from <= i <= chars@.len(),
            tail == chars@.skip(from as int),
            match text::find_text(tail.skip(i - from), pattern@) {
                Some(n) => text::find_text(tail, pattern@) == Some((n + (i - from)) as nat),
                None => text::find_text(tail, pattern@) is None,
            },
        decreases chars@.len() - i,
    {
        assert(tail.skip(i - from) =~= chars@.skip(i as int));
        if has_prefix_at(chars, i, pattern) {
            return Some(i);
        }
        if i == chars.len() {
            return None;
        }
        assert(tail.skip(i - from).drop_first() =~= tail.skip(i + 1 - from));
        i += 1;
    }
}

/// Whether `pattern` occurs in `s`.
pub fn contains_text(s: &str, pattern: &str) -> (r: bool)
    ensures
        r == (text::find_text(s@, pattern@) is Some),
{
    let chars = chars_of(s);
    let wanted = chars_of(pattern);
    assert(s@.skip(0) =~= s@);
    position_of_text(&chars, 0, &wanted).is_some()
}

/// The lines of `s`.
pub fn lines_of(s: &str) -> (r: Vec<String>)
    ensures
        r.deep_view() == text::lines(s@),
{
    let chars = chars_of(s);
    let mut r: Vec<String> = Vec::new();
    let mut from: usize = 0;
    assert(s@.skip(0) =~= s@);
    assert(r.deep_view() + text::lines(s@) =~= text::lines(s@));
    while from < chars.len()
        invariant
            chars@ == s@,
            from <= chars@.len(),
            r.deep_view() + text::lines(s@.skip(from as int)) == text::lines(s@),
        decreases chars@.len() - from,
    {
        let ghost tail = s@.skip(from as int);
        let ghost before = r.deep_view();
        let end = position_of(&chars, from, '\n');
        if end == chars.len() {
            let line = string_from(&chars, from, end);
            r.push(line);
            assert(line@ =~= tail);
            assert(text::lines(tail) =~= seq![tail]);
            assert(r.deep_view() =~= before.push(tail));
            assert(text::lines(s@.skip(end as int)) =~= seq![]);
            assert(r.deep_view() =~= text::lines(s@));
            from = end;
        } else {
            let ghost n = end - from;
            let stop: usize = if end > from && chars[end - 1] == '\r' {
                end - 1
            } else {
                end
            };
            let line = string_from(&chars, from, stop);
            r.push(line);
            assert(line@ =~= text::strip_cr(tail.take(n)));
            assert(tail.skip(n + 1) =~= s@.skip(end + 1));
            assert(r.deep_view() =~= before.push(line@));
            assert(before.push(line@) + text::lines(s@.skip(end + 1)) =~= before + (seq![line@] + text::lines(
                s@.skip(end + 1),
            )));
            from = end + 1;
        }
    }
    assert(text::lines(s@.skip(from as int)) =~= seq![]);
    assert(r.deep_view() =~= text::lines(s@));
    r
}

/// The pieces of `s` between the occurrences of `c`.
pub fn split_at_char(s: &str, c: char) -> (r: Vec<String>)
    ensures
        r.deep_view() == text::split_char(s@, c),
        r@.len() > 0,
{
    let chars = chars_of(s);
    let mut r: Vec<String> = Vec::new();
    let mut from: usize = 0;
    assert(s@.skip(0) =~= s@);
    assert(r.deep_view() + text::split_char(s@, c) =~= text::split_char(s@, c));
    loop
        invariant
            chars@ == s@,
            from <= chars@.len(),
            r.deep_view() + text::split_char(s@.skip(from as int), c) == text::split_char(s@, c),
        decreases chars@.len() - from,
    {
        let ghost tail = s@.skip(from as int);
        let ghost before = r.deep_view();
        let end = position_of(&chars, from, c);
        let piece = string_from(&chars, from, end);
        assert(piece@ =~= tail.take(end - from));
        r.push(piece);
        assert(r.deep_view() =~= before.push(piece@));
        if end == chars.len() {
            assert(piece@ =~= tail);
            assert(r.deep_view() =~= text::split_char(s@, c));
            return r;
        }
        assert(tail.skip(end - from + 1) =~= s@.skip(end + 1));
        assert(before.push(piece@) + text::split_char(s@.skip(end + 1), c) =~= before + (seq![piece@]
            + text::split_char(s@.skip(end + 1), c)));
        from = end + 1;
    }
}

/// What follows the last `c` in `s`, or all of `s` when there is none.
pub fn tail_after_char(s: &str, c: char) -> (r: String)
    ensures
        r@ == text::after_last_char(s@, c),
{
    let pieces = split_at_char(s, c);
    let last = pieces[pieces.len() - 1].clone();
    assert(pieces.deep_view().last() == last@);
    last
}

/// What follows the last occurrence of `separator` in `s`, or all of `s` when there is none.
pub fn tail_after_text(s: &str, separator: &str) -> (r: String)
    requires
        separator@.len() > 0,
    ensures
        r@ == text::after_last_text(s@, separator@),
{
    let chars = chars_of(s);
    let wanted = chars_of(separator);
    let mut from: usize = 0;
    assert(s@.skip(0) =~= s@);
    loop
        invariant
            chars@ == s@,
            wanted@ == separator@,
            separator@.len() > 0,
            from <= chars@.len(),
            text::after_last_text(s@.skip(from as int), separator@) == text::after_last_text(s@, separator@),
        decreases chars@.len() - from,
    {
        proof {
            text::find_text_is_first(s@.skip(from as int), separator@);
        }
        match position_of_text(&chars, from, &wanted) {
            Some(at) => {
                assert(s@.skip(from as int).skip(at - from + wanted@.len()) =~= s@.skip(
                    at + wanted@.len(),
                ));
                assert(at + wanted@.len() <= chars.len());
                from = at + wanted.len();
            },
            None => {
                assert(chars@.subrange(from as int, chars@.len() as int) =~= s@.skip(from as int));
                return string_from(&chars, from, chars.len());
            },
        }
    }
}

/// The pieces one after the other, with `separator` between them.
pub fn joined(pieces: &Vec<String>, separator: &str) -> (r: String)
    ensures
        r@ == text::join(pieces.deep_view(), separator@),
{
    let ghost all = pieces.deep_view();
    let mut r = String::new();
    let mut i: usize = 0;
    assert(r@ =~= text::join(all.take(0), separator@));
    while i < pieces.len()
        invariant
            i <= pieces@.len(),
            all == pieces.deep_view(),
            r@ == text::join(all.take(i as int), separator@),
        decreases pieces@.len() - i,
    {
        assert(all.take(i as int + 1).drop_last() =~= all.take(i as int));
        assert(all.take(i as int + 1).last() == pieces@[i as int]@);
        if i > 0 {
            r.append(separator);
        }
        r.append(pieces[i].as_str());
        assert(r@ =~= text::join(all.take(i as int + 1), separator@));
        i += 1;
    }
    assert(all.take(i as int) =~= all);
    r
}

/// `s` with a space in place of each line feed.
pub fn flattened(s: &str) -> (r: String)
    ensures
        r@ == text::flatten_lines(s@),
{
    let chars = chars_of(s);
    let mut r = String::new();
    let mut i: usize = 0;
    while i < chars.len()
        invariant
            chars@ == s@,
            i <= chars@.len(),
            r@ == text::flatten_lines(s@.take(i as int)),
        decreases chars@.len() - i,
    {
        if chars[i] == '\n' {
            r.push(' ');
        } else {
            r.push(chars[i]);
        }
        i += 1;
        assert(r@ =~= text::flatten_lines(s@.take(i as int)));
    }
    assert(s@.take(i as int) =~= s@);
    r
}

/// The text that holds `c` `n` times.
pub fn repeat_char(c: char, n: usize) -> (r: String)
    ensures
        r@ == text::repeated(c, n as nat),
{
    let mut r = String::new();
    let mut i: usize = 0;
    while i < n
        invariant
            i <= n,
            r@ == text::repeated(c, i as nat),
        decreases n - i,
    {
        r.push(c);
        i += 1;
        assert(r@ =~= text::repeated(c, i as nat));
    }
    r
}

/// `s` with spaces put before it until it has `width` characters.
pub fn padded_left(s: &str, width: usize) -> (r: String)
    ensures
        r@ == text::pad_left(s@, width as nat),
{
    let n = s.unicode_len();
    if n >= width {
        s.to_owned()
    } else {
        let mut r = repeat_char(' ', width - n);
        r.append(s);
        r
    }
}

/// A copy of the lines from `from` up to `to`.
pub fn line_range(all: &Vec<String>, from: usize, to: usize) -> (r: Vec<String>)
    requires
        from <= to <= all@.len(),
    ensures
        r.deep_view() == all.deep_view().subrange(from as int, to as int),
{
    let mut r: Vec<String> = Vec::new();
    let mut i: usize = from;
    while i < to
        invariant
            from <= i <= to <= all@.len(),
            r.deep_view() == all.deep_view().subrange(from as int, i as int),
        decreases to - i,
    {
        let ghost before = r.deep_view();
        let line = all[i].clone();
        r.push(line);
        i += 1;
        assert(r.deep_view() =~= before.push(line@));
        assert(r.deep_view() =~= all.deep_view().subrange(from as int, i as int));
    }
    r
}

} // verus!
