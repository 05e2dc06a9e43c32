//! Types and logic for representing and understanding the date and time stored within the RTC.
//!
//! The RTC counts through one century and then starts again. Its date and time is held here as
//! the number of seconds since the start of that century, a number on a circle: differences and
//! sums of such numbers wrap around at the end of the century.

use crate::calendar::{Month, Time};
use vstd::prelude::*;

verus! {

/// A calendar year.
///
/// Specifically, this is the last two digits of the year. It represents a year in the range
/// 2000-2099.
#[derive(Clone, Copy, Debug, PartialEq, Eq, Structural)]
pub struct Year(u8);

impl View for Year {
    type V = nat;

    closed spec fn view(&self) -> nat {
        self.0 as nat
    }
}

impl Year {
    /// The year is within 0 to 99.
    #[verifier::type_invariant]
    pub open spec fn wf(self) -> bool {
        self@ <= 99
    }

    /// The year with the given last two digits: `Some` for 0 to 99.
    pub fn new(value: u8) -> (year: Option<Year>)
        ensures
            year is Some <==> value <= 99,
            year matches Some(y) ==> y@ == value,
    {
        if value <= 99 {
            Some(Year(value))
        } else {
            None
        }
    }

    /// The last two digits of the year.
    pub fn get(&self) -> (value: u8)
        ensures
            value == self@,
            value <= 99,
    {
        proof {
            use_type_invariant(self);
        }
        self.0
    }
}

/// A day within a month.
#[derive(Clone, Copy, Debug, PartialEq, Eq, Structural)]
pub struct Day(u8);

impl View for Day {
    type V = nat;

    closed spec fn view(&self) -> nat {
        self.0 as nat
    }
}

impl Day {
    /// The day is within 1 to 31.
    #[verifier::type_invariant]
    pub open spec fn wf(self) -> bool {
        1 <= self@ <= 31
    }

    /// The given day of a month: `Some` for 1 to 31.
    pub fn new(value: u8) -> (day: Option<Day>)
        ensures
            day is Some <==> 1 <= value <= 31,
            day matches Some(d) ==> d@ == value,
    {
        if 1 <= value && value <= 31 {
            Some(Day(value))
        } else {
            None
        }
    }

    /// The day of the month.
    pub fn get(&self) -> (value: u8)
        ensures
            value == self@,
            1 <= value <= 31,
    {
        proof {
            use_type_invariant(self);
        }
        self.0
    }
}

/// An hour of the day.
#[derive(Clone, Copy, Debug, PartialEq, Eq, Structural)]
pub struct Hour(u8);

impl View for Hour {
    type V = nat;

    closed spec fn view(&self) -> nat {
        self.0 as nat
    }
}

impl Hour {
    /// The hour is within 0 to 23.
    #[verifier::type_invariant]
    pub open spec fn wf(self) -> bool {
        self@ <= 23
    }

    /// The given hour of a day: `Some` for 0 to 23.
    pub fn new(value: u8) -> (hour: Option<Hour>)
        ensures
            hour is Some <==> value <= 23,
            hour matches Some(h) ==> h@ == value,
    {
        if value <= 23 {
            Some(Hour(value))
        } else {
            None
        }
    }

    /// The hour of the day.
    pub fn get(&self) -> (value: u8)
        ensures
            value == self@,
            value <= 23,
    {
        proof {
            use_type_invariant(self);
        }
        self.0
    }
}

/// A minute within an hour.
#[derive(Clone, Copy, Debug, PartialEq, Eq, Structural)]
pub struct Minute(u8);

impl View for Minute {
    type V = nat;

    closed spec fn view(&self) -> nat {
        self.0 as nat
    }
}

impl Minute {
    /// The minute is within 0 to 59.
    #[verifier::type_invariant]
    pub open spec fn wf(self) -> bool {
        self@ <= 59
    }

    /// The given minute of an hour: `Some` for 0 to 59.
    pub fn new(value: u8) -> (minute: Option<Minute>)
        ensures
            minute is Some <==> value <= 59,
            minute matches Some(m) ==> m@ == value,
    {
        if value <= 59 {
            Some(Minute(value))
        } else {
            None
        }
    }

    /// The minute of the hour.
    pub fn get(&self) -> (value: u8)
        ensures
            value == self@,
            value <= 59,
    {
        proof {
            use_type_invariant(self);
        }
        self.0
    }
}

/// A second within a minute.
#[derive(Clone, Copy, Debug, PartialEq, Eq, Structural)]
pub struct Second(u8);

impl View for Second {
    type V = nat;

    closed spec fn view(&self) -> nat {
        self.0 as nat
    }
}

impl Second {
    /// The second is within 0 to 59.
    #[verifier::type_invariant]
    pub open spec fn wf(self) -> bool {
        self@ <= 59
    }

    /// The given second of a minute: `Some` for 0 to 59.
    pub fn new(value: u8) -> (second: Option<Second>)
        ensures
            second is Some <==> value <= 59,
            second matches Some(s) ==> s@ == value,
    {
        if value <= 59 {
            Some(Second(value))
        } else {
            None
        }
    }

    /// The second of the minute.
    pub fn get(&self) -> (value: u8)
        ensures
            value == self@,
            value <= 59,
    {
        proof {
            use_type_invariant(self);
        }
        self.0
    }
}

/// The number of seconds of the RTC's century: 36,525 days.
pub const CYCLE: u32 = 3_155_760_000;

/// The number of seconds of a day.
pub const DAY: u32 = 86_400;

/// Whether the RTC gives a year a 29th of February: to the RTC, every fourth year has one.
pub open spec fn is_leap_year(year: nat) -> bool {
    year % 4 == 0
}

/// The number of leap years, as the RTC counts them, before the given year.
pub open spec fn leap_days_elapsed(year: nat) -> nat {
    if year > 0 {
        ((year - 1) / 4 + 1) as nat
    } else {
        0
    }
}

/// The number of days of a common year before the first of the given month.
pub open spec fn days_before_month(month: Month) -> nat {
    match month {
        Month::January => 0,
        Month::February => 31,
        Month::March => 59,
        Month::April => 90,
        Month::May => 120,
        Month::June => 151,
        Month::July => 181,
        Month::August => 212,
        Month::September => 243,
        Month::October => 273,
        Month::November => 304,
        Month::December => 334,
    }
}

/// The number of days that the RTC gives a month of a year.
pub open spec fn days_in_month(year: nat, month: Month) -> nat {
    match month {
        Month::February => if is_leap_year(year) {
            29
        } else {
            28
        },
        Month::April | Month::June | Month::September | Month::November => 30,
        _ => 31,
    }
}

/// The number of days from the first of January of the year 0 to the given day.
pub open spec fn days_since_origin(year: nat, month: Month, day: nat) -> int {
    365 * year + leap_days_elapsed(year) + days_before_month(month) + (if is_leap_year(year)
        && month.spec_number() > 2 {
        1int
    } else {
        0int
    }) + (day - 1)
}

/// The number of seconds from the start of the year 0 to the given second.
pub open spec fn seconds_since_origin(
    year: nat,
    month: Month,
    day: nat,
    hour: nat,
    minute: nat,
    second: nat,
) -> int {
    second + 60 * minute + 3600 * hour + 86_400 * days_since_origin(year, month, day)
}

/// The difference `a - b` on a circle of `cycle` numbers: how far `a` lies ahead of `b`.
pub open spec fn circular_difference(a: int, b: int, cycle: int) -> int {
    if a >= b {
        a - b
    } else {
        (cycle - 1 - b) + a + 1
    }
}

/// The sum `a + b` on a circle of `cycle` numbers.
pub open spec fn circular_sum(a: int, b: int, cycle: int) -> int {
    if a + b < cycle {
        a + b
    } else {
        a - (cycle - 1 - b) - 1
    }
}

/// Whether the first date and time comes before the second when the two are compared by year,
/// then by month, day, hour, minute and second.
pub open spec fn precedes(
    year: nat,
    month: Month,
    day: nat,
    hour: nat,
    minute: nat,
    second: nat,
    later_year: nat,
    later_month: Month,
    later_day: nat,
    later_hour: nat,
    later_minute: nat,
    later_second: nat,
) -> bool {
    if year != later_year {
        year < later_year
    } else if month != later_month {
        month.spec_number() < later_month.spec_number()
    } else if day != later_day {
        day < later_day
    } else if hour != later_hour {
        hour < later_hour
    } else if minute != later_minute {
        minute < later_minute
    } else {
        second < later_second
    }
}

/// Within the century, a date and time that comes before another has the smaller number of
/// seconds since the origin.
///
/// Both are given by fields within their ranges. Of the earlier one the day must be a day
/// that the RTC gives its month, unless the two lie in the same month of the same year: the
/// days that a month does not have are counted into the month that follows.
pub proof fn lemma_seconds_since_origin_increases(
    year: nat,
    month: Month,
    day: nat,
    hour: nat,
    minute: nat,
    second: nat,
    later_year: nat,
    later_month: Month,
    later_day: nat,
    later_hour: nat,
    later_minute: nat,
    later_second: nat,
)
    requires
        year <= 99 && 1 <= day <= 31 && hour <= 23 && minute <= 59 && second <= 59,
        later_year <= 99 && 1 <= later_day <= 31 && later_hour <= 23 && later_minute <= 59
            && later_second <= 59,
        precedes(
            year,
            month,
            day,
            hour,
            minute,
            second,
            later_year,
            later_month,
            later_day,
            later_hour,
            later_minute,
            later_second,
        ),
        (year == later_year && month == later_month) || day <= days_in_month(year, month),
    ensures
        seconds_since_origin(year, month, day, hour, minute, second) < seconds_since_origin(
            later_year,
            later_month,
            later_day,
            later_hour,
            later_minute,
            later_second,
        ),
{
    let days = days_since_origin(year, month, day);
    let later_days = days_since_origin(later_year, later_month, later_day);
    if year != later_year {
        // The earlier day lies within its year, and the later year starts after that.
        assert(days_before_month(month) + days_in_month(year, month) + (if is_leap_year(year)
            && month.spec_number() > 2 {
            1int
        } else {
            0int
        }) <= 365 + (if is_leap_year(year) {
            1int
        } else {
            0int
        }));
        assert(leap_days_elapsed(year + 1) == leap_days_elapsed(year) + (if is_leap_year(year) {
            1int
        } else {
            0int
        }));
        lemma_leap_days_elapsed_increases((year + 1) as nat, later_year);
        assert(days < 365 * (year + 1) + leap_days_elapsed((year + 1) as nat));
        assert(365 * (year + 1) + leap_days_elapsed((year + 1) as nat) <= 365 * later_year
            + leap_days_elapsed(later_year));
        assert(days < later_days);
    } else if month != later_month {
        assert(days < later_days);
    } else if day != later_day {
        assert(days < later_days);
    } else {
        assert(days == later_days);
    }
}

/// The leap years before a year are among the leap years before a later year.
proof fn lemma_leap_days_elapsed_increases(year: nat, later_year: nat)
    requires
        year <= later_year,
    ensures
        leap_days_elapsed(year) <= leap_days_elapsed(later_year),
{
}

/// The difference on a circle is the way from `b` to `a` around the circle: it lies on the
/// circle, and `b` moved ahead by it is `a`.
pub proof fn lemma_circular_difference(a: int, b: int, cycle: int)
    requires
        0 <= a < cycle,
        0 <= b < cycle,
    ensures
        0 <= circular_difference(a, b, cycle) < cycle,
        (circular_difference(a, b, cycle) + b) % cycle == a,
        a >= b ==> circular_difference(a, b, cycle) == a - b,
        a < b ==> circular_difference(a, b, cycle) == (cycle - 1 - b) + a + 1,
        circular_sum(circular_difference(a, b, cycle), b, cycle) == a,
        circular_sum(b, circular_difference(a, b, cycle), cycle) == a,
{
    let difference = circular_difference(a, b, cycle);
    if a >= b {
        assert(difference + b == a);
        vstd::arithmetic::div_mod::lemma_small_mod(a as nat, cycle as nat);
    } else {
        assert(difference + b == a + cycle);
        vstd::arithmetic::div_mod::lemma_mod_add_multiples_vanish(a, cycle);
        vstd::arithmetic::div_mod::lemma_small_mod(a as nat, cycle as nat);
    }
}

/// The sum on a circle lies on the circle, and `a` is ahead of it by what was added, the other
/// way round.
pub proof fn lemma_circular_sum(a: int, b: int, cycle: int)
    requires
        0 <= a < cycle,
        0 <= b < cycle,
    ensures
        0 <= circular_sum(a, b, cycle) < cycle,
        circular_sum(a, b, cycle) == (a + b) % cycle,
        circular_difference(circular_sum(a, b, cycle), b, cycle) == a,
{
    if a + b < cycle {
        vstd::arithmetic::div_mod::lemma_small_mod((a + b) as nat, cycle as nat);
    } else {
        vstd::arithmetic::div_mod::lemma_mod_add_multiples_vanish(a + b - cycle, cycle);
        vstd::arithmetic::div_mod::lemma_small_mod((a + b - cycle) as nat, cycle as nat);
    }
}

/// Calculates the number of seconds since the RTC's origin date.
pub fn calculate_rtc_offset(
    year: Year,
    month: Month,
    day: Day,
    hour: Hour,
    minute: Minute,
    second: Second,
) -> (offset: u32)
    ensures
        offset == seconds_since_origin(year@, month, day@, hour@, minute@, second@),
        offset < CYCLE,
{
    let y = year.get() as u32;
    let leap_days: u32 = if y > 0 {
        (y - 1) / 4 + 1
    } else {
        0
    };
    let month_days: u32 = match month {
        Month::January => 0,
        Month::February => 31,
        Month::March => 59,
        Month::April => 90,
        Month::May => 120,
        Month::June => 151,
        Month::July => 181,
        Month::August => 212,
        Month::September => 243,
        Month::October => 273,
        Month::November => 304,
        Month::December => 334,
    };
    let leap_day: u32 = if y % 4 == 0 && month.number() > 2 {
        1
    } else {
        0
    };
    let days = y * 365 + leap_days + month_days + leap_day + day.get() as u32 - 1;
    second.get() as u32 + minute.get() as u32 * 60 + hour.get() as u32 * 3600 + days * 86400
}

/// The number of seconds that the RTC's date and time lies after the start of its century.
///
/// This is a number on a circle: after the last second of the year 99 the RTC starts again at
/// the first second of the year 0.
#[derive(Clone, Copy, Debug, PartialEq, Eq, Structural)]
pub struct RtcDateTimeOffset(u32);

impl View for RtcDateTimeOffset {
    type V = nat;

    closed spec fn view(&self) -> nat {
        self.0 as nat
    }
}

impl RtcDateTimeOffset {
    /// The greatest offset: the last second of the year 99.
    pub const MAX: u32 = 3_155_759_999;

    /// The offset lies within the century.
    #[verifier::type_invariant]
    pub open spec fn wf(self) -> bool {
        self@ <= RtcDateTimeOffset::MAX
    }

    /// The offset of the given date and time.
    pub fn new(year: Year, month: Month, day: Day, hour: Hour, minute: Minute, second: Second) -> (offset:
        RtcDateTimeOffset)
        ensures
            offset@ == seconds_since_origin(year@, month, day@, hour@, minute@, second@),
    {
        RtcDateTimeOffset(calculate_rtc_offset(year, month, day, hour, minute, second))
    }

    /// The offset of the given number of seconds: `Some` up to [`RtcDateTimeOffset::MAX`].
    pub fn from_seconds(seconds: u32) -> (offset: Option<RtcDateTimeOffset>)
        ensures
            offset is Some <==> seconds <= RtcDateTimeOffset::MAX,
            offset matches Some(o) ==> o@ == seconds,
    {
        if seconds <= RtcDateTimeOffset::MAX {
            Some(RtcDateTimeOffset(seconds))
        } else {
            None
        }
    }

    /// The offset of a time of day on the first day of the century: its whole seconds since
    /// midnight.
    pub fn from(time: Time) -> (offset: RtcDateTimeOffset)
        ensures
            offset@ == time@.seconds(),
            offset@ < DAY,
    {
        RtcDateTimeOffset(
            time.hour() as u32 * 3600 + time.minute() as u32 * 60 + time.second() as u32,
        )
    }

    /// The offset of a time of day on the first day of the century.
    pub fn from_time_offset(time: RtcTimeOffset) -> (offset: RtcDateTimeOffset)
        ensures
            offset@ == time@,
    {
        RtcDateTimeOffset(time.get())
    }

    /// The number of seconds.
    pub fn get(&self) -> (seconds: u32)
        ensures
            seconds == self@,
            seconds <= RtcDateTimeOffset::MAX,
    {
        proof {
            use_type_invariant(self);
        }
        self.0
    }

    /// How far this offset lies ahead of `other` on the circle of the century.
    pub fn sub(self, other: RtcDateTimeOffset) -> (difference: RtcDateTimeOffset)
        ensures
            difference@ == circular_difference(self@ as int, other@ as int, CYCLE as int),
    {
        proof {
            use_type_invariant(&self);
            use_type_invariant(&other);
        }
        match self.0.checked_sub(other.0) {
            Some(difference) => RtcDateTimeOffset(difference),
            None => RtcDateTimeOffset(RtcDateTimeOffset::MAX - (other.0 - self.0) + 1),
        }
    }

    /// Moves this offset ahead by `other` on the circle of the century.
    pub fn add_assign(&mut self, other: RtcDateTimeOffset)
        ensures
            final(self)@ == circular_sum(old(self)@ as int, other@ as int, CYCLE as int),
    {
        proof {
            use_type_invariant(&*self);
            use_type_invariant(&other);
        }
        let sum = if self.0 <= RtcDateTimeOffset::MAX - other.0 {
            self.0 + other.0
        } else {
            self.0 - (RtcDateTimeOffset::MAX - other.0) - 1
        };
        *self = RtcDateTimeOffset(sum);
    }

    /// Moves this offset back by `other` on the circle of the century.
    pub fn sub_assign(&mut self, other: RtcDateTimeOffset)
        ensures
            final(self)@ == circular_difference(old(self)@ as int, other@ as int, CYCLE as int),
    {
        *self = self.sub(other);
    }
}

/// The current number of seconds stored in the RTC.
///
/// In other words, this is the number of seconds since midnight according to the RTC's clock.
#[derive(Clone, Copy, Debug, PartialEq, Eq, Structural)]
pub struct RtcTimeOffset(u32);

impl View for RtcTimeOffset {
    type V = nat;

    closed spec fn view(&self) -> nat {
        self.0 as nat
    }
}

impl RtcTimeOffset {
    /// The greatest offset: the last second of a day.
    pub const MAX: u32 = 86_399;

    /// The offset lies within the day.
    #[verifier::type_invariant]
    pub open spec fn wf(self) -> bool {
        self@ <= RtcTimeOffset::MAX
    }

    /// Create a new offset using the hour, minute, and second read from the RTC.
    pub fn new(hour: Hour, minute: Minute, second: Second) -> (offset: RtcTimeOffset)
        ensures
            offset@ == 3600 * hour@ + 60 * minute@ + second@,
    {
        RtcTimeOffset(hour.get() as u32 * 3600 + minute.get() as u32 * 60 + second.get() as u32)
    }

    /// The offset of the given number of seconds: `Some` up to [`RtcTimeOffset::MAX`].
    pub fn from_seconds(seconds: u32) -> (offset: Option<RtcTimeOffset>)
        ensures
            offset is Some <==> seconds <= RtcTimeOffset::MAX,
            offset matches Some(o) ==> o@ == seconds,
    {
        if seconds <= RtcTimeOffset::MAX {
            Some(RtcTimeOffset(seconds))
        } else {
            None
        }
    }

    /// The time of day of a date and time: its offset reduced to one day.
    pub fn from(offset: RtcDateTimeOffset) -> (time: RtcTimeOffset)
        ensures
            time@ == offset@ % (DAY as nat),
    {
        RtcTimeOffset(offset.get() % 86400)
    }

    /// The number of seconds.
    pub fn get(&self) -> (seconds: u32)
        ensures
            seconds == self@,
            seconds <= RtcTimeOffset::MAX,
    {
        proof {
            use_type_invariant(self);
        }
        self.0
    }

    /// How far this offset lies ahead of `other` on the circle of the day.
    pub fn sub(self, other: RtcTimeOffset) -> (difference: RtcTimeOffset)
        ensures
            difference@ == circular_difference(self@ as int, other@ as int, DAY as int),
    {
        proof {
            use_type_invariant(&self);
            use_type_invariant(&other);
        }
        match self.0.checked_sub(other.0) {
            Some(difference) => RtcTimeOffset(difference),
            None => RtcTimeOffset(RtcTimeOffset::MAX - other.0 + self.0 + 1),
        }
    }
}

impl Time {
    /// The time of day that lies the given number of seconds after midnight.
    pub fn from(offset: RtcTimeOffset) -> (time: Time)
        ensures
            time@ == crate::calendar::TimeView::of_seconds(offset@ as int),
            time@.seconds() == offset@,
    {
        Time::from_seconds(offset.get()).unwrap()
    }
}

} // verus!
