//! Decimal numbers in text.

use vstd::prelude::*;

use crate::strings::chars_of;
use crate::text::Text;

verus! {

/// The decimal digit for `d`.
pub open spec fn digit_char(d: nat) -> char {
    (48 + d) as char
}

/// `n` in decimal, without leading zeros.
pub open spec fn decimal(n: nat) -> Text
    decreases n,
{
    if n < 10 {
        seq![digit_char(n)]
    } else {
        decimal(n / 10).push(digit_char(n % 10))
    }
}

/// Whether `c` is a decimal digit.
pub open spec fn is_digit(c: char) -> bool {
    '0' <= c <= '9'
}

/// The number that the decimal digits of `s` stand for; nothing when another character is among
/// them.
pub open spec fn digits_value(s: Text) -> Option<nat>
    decreases s.len(),
{
    if s.len() == 0 {
        Some(0)
    } else {
        match digits_value(s.drop_last()) {
            Some(v) => if is_digit(s.last()) {
                Some((v * 10 + (s.last() as int - 48)) as nat)
            } else {
                None
            },
            None => None,
        }
    }
}

/// `s` without one plus sign at its start.
pub open spec fn unsigned_part(s: Text) -> Text {
    if s.len() > 0 && s[0] == '+' {
        s.drop_first()
    } else {
        s
    }
}

/// The number that `s` writes in decimal, with or without a plus sign before it, when it fits in
/// 32 bits.
pub open spec fn parse_u32(s: Text) -> Option<u32> {
    let body = unsigned_part(s);
    if body.len() == 0 {
        None
    } else {
        match digits_value(body) {
            Some(v) => if v <= u32::MAX {
                Some(v as u32)
            } else {
                None
            },
            None => None,
        }
    }
}

/// The number that a count column shows: zero where it holds no number.
pub open spec fn count_value(s: Text) -> u32 {
    match parse_u32(s) {
        Some(v) => v,
        None => 0,
    }
}

/// More digits never make a number smaller, and never make one out of what is none.
proof fn digits_value_grows(s: Text, n: int)
    requires
        0 <= n <= s.len(),
    ensures
        match (digits_value(s.take(n)), digits_value(s)) {
            (Some(v), Some(w)) => v <= w,
            (None, Some(_)) => false,
            (_, None) => true,
        },
    decreases s.len() - n,
{
    if n == s.len() {
        assert(s.take(n) =~= s);
    } else {
        digits_value_grows(s, n + 1);
        assert(s.take(n + 1).drop_last() =~= s.take(n));
    }
}

/// A number written in decimal has only digits, and at least one, and they stand for it.
pub proof fn decimal_is_digits(n: nat)
    ensures
        decimal(n).len() > 0,
        digits_value(decimal(n)) == Some(n),
        forall|i: int| 0 <= i < decimal(n).len() ==> is_digit(#[trigger] decimal(n)[i]),
    decreases n,
{
    if n < 10 {
        assert(decimal(n).drop_last() =~= Seq::<char>::empty());
        assert(decimal(n).last() == digit_char(n));
        assert(digits_value(Seq::<char>::empty()) == Some(0nat));
    } else {
        let front = decimal(n / 10);
        decimal_is_digits(n / 10);
        assert(decimal(n).drop_last() =~= front);
        assert(decimal(n).last() == digit_char(n % 10));
        assert forall|i: int| 0 <= i < decimal(n).len() implies is_digit(
            #[trigger] decimal(n)[i],
        ) by {
            if i < front.len() {
                assert(decimal(n)[i] == front[i]);
            }
        }
    }
}

/// Reading back a number that was written in decimal gives the number.
pub proof fn decimal_reads_back(n: u32)
    ensures
        parse_u32(decimal(n as nat)) == Some(n),
{
    decimal_is_digits(n as nat);
    assert(unsigned_part(decimal(n as nat)) == decimal(n as nat));
}

/// Two numbers that are written the same are the same.
pub proof fn decimal_tells_numbers_apart(a: nat, b: nat)
    requires
        decimal(a) == decimal(b),
    ensures
        a == b,
{
    decimal_is_digits(a);
    decimal_is_digits(b);
}

/// A number above zero is written without a zero at its start.
pub proof fn decimal_has_no_leading_zero(n: nat)
    requires
        n > 0,
    ensures
        decimal(n)[0] != '0',
    decreases n,
{
    if n >= 10 {
        decimal_has_no_leading_zero(n / 10);
        decimal_is_digits(n / 10);
    }
}

/// What digits stand for: nothing is zero, a further digit counts ten times what stands before it
/// and its own value, and another character spoils the number.
pub proof fn digits_count_by_tens(s: Text, c: char)
    ensures
        digits_value(seq![]) == Some(0nat),
        digits_value(s.push(c)) == if digits_value(s) is Some && '0' <= c <= '9' {
            Some((digits_value(s)->0 * 10 + (c as int - '0' as int)) as nat)
        } else {
            None
        },
{
    assert(s.push(c).drop_last() =~= s);
}

/// A number is read if and only if there are digits and nothing else, but for one plus sign
/// before them, and they stand for a number that fits in 32 bits; a count that is no such number
/// is zero.
pub proof fn numbers_are_digits_that_fit(s: Text)
    ensures
        s.len() == 0 ==> parse_u32(s) is None,
        s.len() > 0 && s[0] != '+' ==> parse_u32(s) == (match digits_value(s) {
            Some(v) => if v < 0x1_0000_0000 {
                Some(v as u32)
            } else {
                None
            },
            None => None,
        }),
        parse_u32(seq!['+'] + s) == (if s.len() == 0 {
            None
        } else {
            match digits_value(s) {
                Some(v) => if v < 0x1_0000_0000 {
                    Some(v as u32)
                } else {
                    None
                },
                None => None,
            }
        }),
        count_value(s) == (match parse_u32(s) {
            Some(v) => v,
            None => 0,
        }),
{
    assert((seq!['+'] + s).drop_first() =~= s);
}

/// `n` in decimal.
pub fn decimal_of(n: u64) -> (r: String)
    ensures
        r@ == decimal(n as nat),
    decreases n,
{
    if n < 10 {
        let mut r = String::new();
        r.push((48u8 + n as u8) as char);
        assert(r@ =~= decimal(n as nat));
        r
    } else {
        let mut r = decimal_of(n / 10);
        r.push((48u8 + (n % 10) as u8) as char);
        r
    }
}

/// The number that `s` writes in decimal.
pub fn number_in(s: &str) -> (r: Option<u32>)
    ensures
        r == parse_u32(s@),
{
    let chars = chars_of(s);
    let start: usize = if chars.len() > 0 && chars[0] == '+' {
        1
    } else {
        0
    };
    let ghost body = unsigned_part(s@);
    assert(body =~= s@.skip(start as int));
    if start == chars.len() {
        return None;
    }
    let mut value: u64 = 0;
    let mut i: usize = start;
    assert(body.take(0) =~= Seq::<char>::empty());
    while i < chars.len()
        invariant
            chars@ == s@,
            body == unsigned_part(s@),
            body.len() > 0,
            body == s@.skip(start as int),
            start <= i <= chars@.len(),
            digits_value(body.take(i - start)) == Some(value as nat),
            value <= u32::MAX,
        decreases chars@.len() - i,
    {
        let c = chars[i];
        proof {
            assert(body.take(i - start + 1).drop_last() =~= body.take(i - start));
            assert(body.take(i - start + 1).last() == c);
            digits_value_grows(body, i - start + 1);
        }
        if !('0' <= c && c <= '9') {
            return None;
        }
        value = value * 10 + (c as u64 - 48);
        if value > 0xffff_ffff {
            return None;
        }
        i += 1;
    }
    assert(body.take(i - start) =~= body);
    Some(value as u32)
}

/// The number that a count column shows: zero where it holds no number.
pub fn count_in(s: &str) -> (r: u32)
    ensures
        r == count_value(s@),
{
    match number_in(s) {
        Some(v) => v,
        None => 0,
    }
}

} // verus!
