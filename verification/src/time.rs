//! Points in time, the time left until one of them, and clock faces.

use vstd::prelude::*;
use vstd::string::StringExecFns;

verus! {

/// Nanoseconds in a second.
pub const NANOS_PER_SECOND: i128 = 1_000_000_000;

/// Seconds in a minute.
pub const SECONDS_PER_MINUTE: i128 = 60;

/// Seconds in an hour.
pub const SECONDS_PER_HOUR: i128 = 3_600;

/// Seconds in a day.
pub const SECONDS_PER_DAY: i128 = 86_400;

/// A point in time, with the offset of the clock that it is read on.
///
/// Two timestamps are equal when all three fields are.
#[derive(Clone, Copy, Debug, PartialEq, Eq, Structural)]
pub struct Timestamp {
    /// Whole seconds since 1970-01-01 00:00:00 UTC.
    pub seconds: i64,
    /// Nanoseconds past `seconds`.
    pub nanos: u32,
    /// Seconds by which the local clock is ahead of UTC.
    pub utc_offset: i32,
}

/// A scheduled or predicted departure.
pub type Departure = Timestamp;

impl DeepView for Timestamp {
    type V = Timestamp;

    open spec fn deep_view(&self) -> Timestamp {
        *self
    }
}

/// Time left until a departure: whole minutes, and the whole seconds beyond
/// them. Both are negative or zero once the departure has passed.
#[derive(Clone, Copy, Debug, PartialEq, Eq, Structural)]
pub struct Remaining {
    /// Whole minutes.
    pub minutes: i64,
    /// Whole seconds beyond the whole minutes, between -59 and 59.
    pub seconds: i64,
}

/// `a / unit` rounded towards zero, for a positive `unit`.
pub open spec fn truncate(a: int, unit: int) -> int {
    if a >= 0 {
        a / unit
    } else {
        -((-a) / unit)
    }
}

/// Whole seconds from `now` until `departure`, rounded towards zero.
pub open spec fn seconds_until(departure: Timestamp, now: Timestamp) -> int {
    truncate(departure.instant() - now.instant(), NANOS_PER_SECOND as int)
}

/// Whole minutes from `now` until `departure`, rounded towards zero.
pub open spec fn minutes_until(departure: Timestamp, now: Timestamp) -> int {
    truncate(seconds_until(departure, now), SECONDS_PER_MINUTE as int)
}

/// The time from `now` until `departure`.
pub open spec fn remaining_until(departure: Timestamp, now: Timestamp) -> Remaining {
    Remaining {
        minutes: minutes_until(departure, now) as i64,
        seconds: (seconds_until(departure, now) - 60 * minutes_until(departure, now)) as i64,
    }
}

/// The character of a decimal digit.
pub open spec fn digit_char(digit: int) -> char {
    if digit == 0 {
        '0'
    } else if digit == 1 {
        '1'
    } else if digit == 2 {
        '2'
    } else if digit == 3 {
        '3'
    } else if digit == 4 {
        '4'
    } else if digit == 5 {
        '5'
    } else if digit == 6 {
        '6'
    } else if digit == 7 {
        '7'
    } else if digit == 8 {
        '8'
    } else {
        '9'
    }
}

/// A time of day as `HH:MM`, both numbers with two digits.
pub open spec fn clock_text(hour: int, minute: int) -> Seq<char> {
    seq![
        digit_char(hour / 10),
        digit_char(hour % 10),
        ':',
        digit_char(minute / 10),
        digit_char(minute % 10),
    ]
}

impl Timestamp {
    /// Nanoseconds since 1970-01-01 00:00:00 UTC.
    pub open spec fn instant(self) -> int {
        self.seconds * NANOS_PER_SECOND + self.nanos
    }

    /// Seconds since midnight on the local clock.
    pub open spec fn second_of_day(self) -> int {
        (self.seconds + self.utc_offset) % (SECONDS_PER_DAY as int)
    }

    /// Hour of the day on the local clock, `0..=23`.
    pub open spec fn local_hour(self) -> int {
        self.second_of_day() / (SECONDS_PER_HOUR as int)
    }

    /// Minute of the hour on the local clock, `0..=59`.
    pub open spec fn local_minute(self) -> int {
        (self.second_of_day() % (SECONDS_PER_HOUR as int)) / (SECONDS_PER_MINUTE as int)
    }

    /// A timestamp from its three parts.
    pub fn new(seconds: i64, nanos: u32, utc_offset: i32) -> (t: Timestamp)
        ensures
            t == (Timestamp { seconds, nanos, utc_offset }),
    {
        Timestamp { seconds, nanos, utc_offset }
    }

    /// Whether `self` lies after `other` in time.
    pub fn is_after(&self, other: &Timestamp) -> (later: bool)
        ensures
            later == (self.instant() > other.instant()),
    {
        let mine: i128 = (self.seconds as i128) * NANOS_PER_SECOND + (self.nanos as i128);
        let theirs: i128 = (other.seconds as i128) * NANOS_PER_SECOND + (other.nanos as i128);
        mine > theirs
    }

    /// Seconds since midnight on the local clock.
    fn local_second_of_day(&self) -> (second: u32)
        ensures
            second == self.second_of_day(),
            second < SECONDS_PER_DAY,
    {
        let local: i128 = (self.seconds as i128) + (self.utc_offset as i128);
        let within: i128 = local % SECONDS_PER_DAY;
        let second: i128 = if within < 0 {
            within + SECONDS_PER_DAY
        } else {
            within
        };
        second as u32
    }

    /// Hour of the day on the local clock.
    pub fn hour(&self) -> (hour: u8)
        ensures
            hour == self.local_hour(),
            hour < 24,
    {
        (self.local_second_of_day() / 3_600) as u8
    }

    /// Minute of the hour on the local clock.
    pub fn minute(&self) -> (minute: u8)
        ensures
            minute == self.local_minute(),
            minute < 60,
    {
        ((self.local_second_of_day() % 3_600) / 60) as u8
    }

    /// The time of day on the local clock as `HH:MM`.
    pub fn clock_face(&self) -> (text: String)
        ensures
            text@ == clock_text(self.local_hour(), self.local_minute()),
    {
        let hour: u8 = self.hour();
        let minute: u8 = self.minute();
        let mut text = String::from_str(digit_str(hour / 10));
        text.append(digit_str(hour % 10));
        text.append(colon_str());
        text.append(digit_str(minute / 10));
        text.append(digit_str(minute % 10));
        assert(text@ =~= clock_text(self.local_hour(), self.local_minute()));
        text
    }
}

/// The time from `now` until `departure`.
pub fn time_until(departure: &Timestamp, now: &Timestamp) -> (left: Remaining)
    ensures
        left == remaining_until(*departure, *now),
        left.minutes == minutes_until(*departure, *now),
        left.seconds == seconds_until(*departure, *now) - 60 * minutes_until(*departure, *now),
        -60 < left.seconds < 60,
        left.minutes > 0 ==> left.seconds >= 0,
        left.minutes < 0 ==> left.seconds <= 0,
{
    let whole_between: i128 = (departure.seconds as i128) - (now.seconds as i128);
    let nanos_between: i128 = (departure.nanos as i128) - (now.nanos as i128);
    let total: i128 = whole_between * NANOS_PER_SECOND + nanos_between;
    let whole: i128 = total / NANOS_PER_SECOND;
    let minutes: i128 = whole / SECONDS_PER_MINUTE;
    let seconds: i128 = whole % SECONDS_PER_MINUTE;
    assert(total == departure.instant() - now.instant()) by (nonlinear_arith)
        requires
            total == whole_between * 1_000_000_000 + nanos_between,
            whole_between == departure.seconds - now.seconds,
            nanos_between == departure.nanos - now.nanos,
            departure.instant() == departure.seconds * 1_000_000_000 + departure.nanos,
            now.instant() == now.seconds * 1_000_000_000 + now.nanos,
    ;
    assert(whole == seconds_until(*departure, *now));
    assert(minutes == minutes_until(*departure, *now));
    Remaining { minutes: minutes as i64, seconds: seconds as i64 }
}

/// The parts of a time left: its whole minutes and the seconds beyond them
/// are the numbers that `minutes_until` and `seconds_until` give, the
/// seconds stay below a minute, and they have the sign of the minutes.
pub proof fn lemma_remaining_parts(departure: Timestamp, now: Timestamp)
    ensures
        remaining_until(departure, now).minutes == minutes_until(departure, now),
        remaining_until(departure, now).seconds == seconds_until(departure, now) - 60
            * minutes_until(departure, now),
        -60 < remaining_until(departure, now).seconds < 60,
        remaining_until(departure, now).minutes > 0 ==> remaining_until(departure, now).seconds
            >= 0,
        remaining_until(departure, now).minutes < 0 ==> remaining_until(departure, now).seconds
            <= 0,
{
    let total = departure.instant() - now.instant();
    let whole = seconds_until(departure, now);
    let minutes = minutes_until(departure, now);
    assert(-18_446_744_073_709_551_616 * 1_000_000_000 - 4_294_967_296 <= total
        <= 18_446_744_073_709_551_616 * 1_000_000_000 + 4_294_967_296);
    assert(-18_446_744_073_709_551_621 <= whole <= 18_446_744_073_709_551_621);
    assert(-9_223_372_036_854_775_808 <= minutes <= 9_223_372_036_854_775_807);
    assert(-60 < whole - 60 * minutes < 60);
}

/// The text of one decimal digit.
pub fn digit_str(digit: u8) -> (text: &'static str)
    requires
        digit <= 9,
    ensures
        text@ == seq![digit_char(digit as int)],
{
    proof {
        reveal_strlit("0");
        reveal_strlit("1");
        reveal_strlit("2");
        reveal_strlit("3");
        reveal_strlit("4");
        reveal_strlit("5");
        reveal_strlit("6");
        reveal_strlit("7");
        reveal_strlit("8");
        reveal_strlit("9");
    }
    let text = if digit == 0 {
        "0"
    } else if digit == 1 {
        "1"
    } else if digit == 2 {
        "2"
    } else if digit == 3 {
        "3"
    } else if digit == 4 {
        "4"
    } else if digit == 5 {
        "5"
    } else if digit == 6 {
        "6"
    } else if digit == 7 {
        "7"
    } else if digit == 8 {
        "8"
    } else {
        "9"
    };
    assert(text@ =~= seq![digit_char(digit as int)]);
    text
}

/// The text between hours and minutes.
fn colon_str() -> (text: &'static str)
    ensures
        text@ == seq![':'],
{
    proof {
        reveal_strlit(":");
    }
    let text = ":";
    assert(text@ =~= seq![':']);
    text
}

} // verus!
