//! Times, and how the clock shows them.

use vstd::prelude::*;

use crate::numbers;
use crate::text::Text;

verus! {

/// A time: how many milliseconds have passed since the start of 1970 in UTC, and how many
/// seconds the local clock is ahead of UTC.
#[derive(Debug, Clone, Copy, PartialEq, Eq, Structural)]
pub struct Moment {
    pub millis: i64,
    pub offset: i32,
}

/// The first millisecond of the calendar: the start of the year -262143.
pub const FIRST_MILLIS: i64 = -8_334_601_228_800_000;

/// The last millisecond of the calendar: the end of the year 262142.
pub const LAST_MILLIS: i64 = 8_210_266_876_799_999;

/// The hour, the minute and the second, with two digits each and colons between them.
pub const CLOCK_FORMAT: &'static str = "%H:%M:%S";

impl Moment {
    /// Whether the calendar holds the time, and the local clock is less than a day away from UTC.
    pub open spec fn is_time(self) -> bool {
        FIRST_MILLIS <= self.millis <= LAST_MILLIS && -86_400 < self.offset < 86_400
    }

    /// How many seconds of the day have passed on the local clock.
    pub open spec fn second_of_day(self) -> nat {
        ((self.millis as int / 1000 + self.offset) % 86_400) as nat
    }

    /// What the local clock shows.
    pub open spec fn clock(self) -> Text {
        let second = self.second_of_day();
        two_digits(second / 3600) + seq![':'] + two_digits(second / 60 % 60) + seq![':']
            + two_digits(second % 60)
    }
}

/// A number below 100, with a zero before it when it has one digit.
pub open spec fn two_digits(n: nat) -> Text {
    seq![numbers::digit_char(n / 10), numbers::digit_char(n % 10)]
}

/// Takes the time with `chrono::DateTime::from_timestamp_millis` to the zone of
/// `chrono::FixedOffset::east_opt`, and writes it with `chrono::DateTime::format`. Trusted: there
/// is a text if and only if the calendar holds the time and the zone is less than a day away
/// from UTC; and in the format for the clock it is the hour, the minute and the second of the
/// local day, with two digits each. Other formats are left out.
#[verifier::external_body]
fn format_moment(moment: Moment, format: &str) -> (r: Option<String>)
    requires
        format@ == CLOCK_FORMAT@,
    ensures
        r is Some <==> moment.is_time(),
        r matches Some(s) ==> s@ == moment.clock(),
{
    let zone = chrono::FixedOffset::east_opt(moment.offset)?;
    let time = chrono::DateTime::from_timestamp_millis(moment.millis)?;
    Some(time.with_timezone(&zone).format(format).to_string())
}

/// What the local clock shows at a time; nothing when the calendar does not hold it.
pub fn clock_text(moment: Moment) -> (r: Option<String>)
    ensures
        r is Some <==> moment.is_time(),
        r matches Some(s) ==> s@ == moment.clock(),
{
    format_moment(moment, CLOCK_FORMAT)
}

/// The clock shows eight characters, and the same ones a whole number of days later.
pub proof fn clock_turns_daily(moment: Moment, later: Moment, days: int)
    requires
        later.offset == moment.offset,
        later.millis == moment.millis + days * 86_400_000,
    ensures
        moment.clock().len() == 8,
        later.clock() == moment.clock(),
{
    let a = moment.millis as int / 1000;
    let b = later.millis as int / 1000;
    assert(b == a + days * 86_400);
    let x = a + moment.offset;
    assert((x + days * 86_400) % 86_400 == x % 86_400) by {
        vstd::arithmetic::div_mod::lemma_mod_multiples_vanish(days, x, 86_400);
    }
}

/// At an hour, a minute and a second of any day on the local clock, it shows their digits.
pub proof fn clock_shows_time_of_day(
    moment: Moment,
    day: int,
    hour: int,
    minute: int,
    second: int,
    milli: int,
)
    requires
        0 <= hour < 24,
        0 <= minute < 60,
        0 <= second < 60,
        0 <= milli < 1000,
        moment.millis == (day * 86_400 + hour * 3600 + minute * 60 + second - moment.offset) * 1000
            + milli,
    ensures
        moment.clock() == seq![
            ('0' as u32 + hour / 10) as char,
            ('0' as u32 + hour % 10) as char,
            ':',
            ('0' as u32 + minute / 10) as char,
            ('0' as u32 + minute % 10) as char,
            ':',
            ('0' as u32 + second / 10) as char,
            ('0' as u32 + second % 10) as char,
        ],
{
    let n = hour * 3600 + minute * 60 + second;
    let x = day * 86_400 + n - moment.offset;
    assert(moment.millis as int / 1000 == x);
    assert((x + moment.offset) % 86_400 == n) by {
        vstd::arithmetic::div_mod::lemma_mod_multiples_vanish(day, n, 86_400);
    }
    assert(moment.second_of_day() == n);
    assert(n / 3600 == hour);
    assert(n / 60 % 60 == minute);
    assert(n % 60 == second);
    assert(moment.clock() =~= seq![
        ('0' as u32 + hour / 10) as char,
        ('0' as u32 + hour % 10) as char,
        ':',
        ('0' as u32 + minute / 10) as char,
        ('0' as u32 + minute % 10) as char,
        ':',
        ('0' as u32 + second / 10) as char,
        ('0' as u32 + second % 10) as char,
    ]);
}

/// The calendar holds the times of the years -262143 to 262142, and the local clock is less than
/// a day away from UTC.
pub proof fn times_are_within_the_calendar(moment: Moment)
    ensures
        moment.is_time() <==> -8_334_601_228_800_000 <= moment.millis <= 8_210_266_876_799_999
            && -86_400 < moment.offset < 86_400,
{
}

/// A time is formatted as its hour, its minute and its second.
pub proof fn format_is_spelled_out()
    ensures
        CLOCK_FORMAT@ == "%H:%M:%S"@,
{
}

} // verus!
