//! Positions in a text that are counted in bytes of UTF-8.

use vstd::prelude::*;

use crate::text::Text;

verus! {

/// How many bytes `c` takes in UTF-8.
pub open spec fn utf8_width(c: char) -> nat {
    if c <= '\u{7f}' {
        1
    } else if c <= '\u{7ff}' {
        2
    } else if c <= '\u{ffff}' {
        3
    } else {
        4
    }
}

/// How many bytes `s` takes in UTF-8.
pub open spec fn byte_len(s: Text) -> nat
    decreases s.len(),
{
    if s.len() == 0 {
        0
    } else {
        utf8_width(s[0]) + byte_len(s.drop_first())
    }
}

/// How many characters the first `n` bytes of `s` hold; nothing when they cut a character in two
/// or when there are fewer.
pub open spec fn chars_in_bytes(s: Text, n: nat) -> Option<nat>
    decreases s.len(),
{
    if n == 0 {
        Some(0)
    } else if s.len() == 0 || utf8_width(s[0]) > n {
        None
    } else {
        match chars_in_bytes(s.drop_first(), (n - utf8_width(s[0])) as nat) {
            Some(k) => Some(k + 1),
            None => None,
        }
    }
}

/// The number of characters that some bytes hold is no more than the number of characters.
pub proof fn chars_in_bytes_bounded(s: Text, n: nat)
    ensures
        chars_in_bytes(s, n) matches Some(k) ==> k <= s.len() && byte_len(s.take(k as int)) == n,
    decreases s.len(),
{
    if n == 0 {
        assert(s.take(0) =~= Seq::<char>::empty());
    } else if s.len() > 0 && utf8_width(s[0]) <= n {
        let rest = s.drop_first();
        let m = (n - utf8_width(s[0])) as nat;
        chars_in_bytes_bounded(rest, m);
        match chars_in_bytes(rest, m) {
            Some(k) => {
                assert(s.take(k as int + 1).drop_first() =~= rest.take(k as int));
            },
            None => {},
        }
    }
}

/// The bytes of two texts put together add up, and one character takes one to four of them.
pub proof fn byte_len_adds_up(a: Text, b: Text, c: char)
    ensures
        byte_len(a + b) == byte_len(a) + byte_len(b),
        byte_len(seq![]) == 0,
        byte_len(seq![c]) == (if (c as u32) < 0x80 {
            1nat
        } else if (c as u32) < 0x800 {
            2
        } else if (c as u32) < 0x1_0000 {
            3
        } else {
            4
        }),
    decreases a.len(),
{
    assert(seq![c].drop_first() =~= seq![]);
    if a.len() == 0 {
        assert(a + b =~= b);
    } else {
        assert((a + b).drop_first() =~= a.drop_first() + b);
        byte_len_adds_up(a.drop_first(), b, c);
    }
}

/// Some bytes hold whole characters if and only if so many characters take so many bytes.
pub proof fn whole_characters_are_counted(s: Text, k: nat, n: nat)
    requires
        k <= s.len(),
    ensures
        chars_in_bytes(s, n) == Some(k) <==> byte_len(s.take(k as int)) == n,
    decreases s.len(),
{
    chars_in_bytes_bounded(s, n);
    if k == 0 {
        assert(s.take(0) =~= Seq::<char>::empty());
    } else {
        assert(s.take(k as int).drop_first() =~= s.drop_first().take(k as int - 1));
        if n >= utf8_width(s[0]) {
            whole_characters_are_counted(
                s.drop_first(),
                (k - 1) as nat,
                (n - utf8_width(s[0])) as nat,
            );
        }
    }
}

/// Bytes that end at a character and more bytes that end at a character hold no fewer of them.
pub proof fn chars_in_bytes_grows(s: Text, m: nat, n: nat)
    requires
        m <= n,
        chars_in_bytes(s, m) is Some,
        chars_in_bytes(s, n) is Some,
    ensures
        chars_in_bytes(s, m)->0 <= chars_in_bytes(s, n)->0,
    decreases s.len(),
{
    if m > 0 {
        let w = utf8_width(s[0]);
        chars_in_bytes_grows(s.drop_first(), (m - w) as nat, (n - w) as nat);
    }
}

fn width_of(c: char) -> (r: usize)
    ensures
        r == utf8_width(c),
{
    if c <= '\u{7f}' {
        1
    } else if c <= '\u{7ff}' {
        2
    } else if c <= '\u{ffff}' {
        3
    } else {
        4
    }
}

/// Whether the text takes fewer than `limit` bytes.
pub fn shorter_than(chars: &Vec<char>, limit: usize) -> (r: bool)
    ensures
        r == (byte_len(chars@) < limit),
{
    let mut left: usize = limit;
    let mut i: usize = 0;
    assert(chars@.skip(0) =~= chars@);
    while i < chars.len()
        invariant
            i <= chars@.len(),
            left <= limit,
            byte_len(chars@) == limit - left + byte_len(chars@.skip(i as int)),
        decreases chars@.len() - i,
    {
        assert(chars@.skip(i as int).drop_first() =~= chars@.skip(i as int + 1));
        let w = width_of(chars[i]);
        if w >= left {
            return false;
        }
        left -= w;
        i += 1;
    }
    assert(byte_len(chars@.skip(i as int)) == 0);
    0 < left
}

/// How many characters the first `n` bytes hold; nothing when they cut a character in two or
/// when there are fewer.
pub fn chars_within(chars: &Vec<char>, n: usize) -> (r: Option<usize>)
    ensures
        match (r, chars_in_bytes(chars@, n as nat)) {
            (Some(k), Some(m)) => k == m && k <= chars@.len(),
            (None, None) => true,
            _ => false,
        },
{
    let mut left: usize = n;
    let mut i: usize = 0;
    assert(chars@.skip(0) =~= chars@);
    while left > 0
        invariant
            i <= chars@.len(),
            match chars_in_bytes(chars@.skip(i as int), left as nat) {
                Some(k) => chars_in_bytes(chars@, n as nat) == Some((k + i) as nat),
                None => chars_in_bytes(chars@, n as nat) is None,
            },
        decreases left,
    {
        if i == chars.len() {
            return None;
        }
        let w = width_of(chars[i]);
        if w > left {
            return None;
        }
        assert(chars@.skip(i as int).drop_first() =~= chars@.skip(i as int + 1));
        left -= w;
        i += 1;
    }
    Some(i)
}

} // verus!
