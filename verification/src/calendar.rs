//! Dates and times of the host calendar.
//!
//! The clock chip only counts; what its count means as a date is the host's affair. The types
//! here hold a date of the proleptic Gregorian calendar and a time of day as plain numbers.
//! Moving a date by a number of days is left to the `time` crate.

use vstd::prelude::*;

verus! {

/// Months of the year.
#[derive(Clone, Copy, Debug, PartialEq, Eq, Hash, Structural)]
pub enum Month {
    January,
    February,
    March,
    April,
    May,
    June,
    July,
    August,
    September,
    October,
    November,
    December,
}

impl Month {
    /// The month's number, from 1 for January to 12 for December.
    pub open spec fn spec_number(self) -> u8 {
        match self {
            Month::January => 1,
            Month::February => 2,
            Month::March => 3,
            Month::April => 4,
            Month::May => 5,
            Month::June => 6,
            Month::July => 7,
            Month::August => 8,
            Month::September => 9,
            Month::October => 10,
            Month::November => 11,
            Month::December => 12,
        }
    }

    /// The month with the given number, if there is one.
    pub open spec fn spec_from_number(number: u8) -> Option<Month> {
        match number {
            1 => Some(Month::January),
            2 => Some(Month::February),
            3 => Some(Month::March),
            4 => Some(Month::April),
            5 => Some(Month::May),
            6 => Some(Month::June),
            7 => Some(Month::July),
            8 => Some(Month::August),
            9 => Some(Month::September),
            10 => Some(Month::October),
            11 => Some(Month::November),
            12 => Some(Month::December),
            _ => None,
        }
    }

    /// The month's number, from 1 for January to 12 for December.
    #[verifier::when_used_as_spec(spec_number)]
    pub fn number(self) -> (number: u8)
        ensures
            number == self.spec_number(),
            1 <= number <= 12,
    {
        match self {
            Month::January => 1,
            Month::February => 2,
            Month::March => 3,
            Month::April => 4,
            Month::May => 5,
            Month::June => 6,
            Month::July => 7,
            Month::August => 8,
            Month::September => 9,
            Month::October => 10,
            Month::November => 11,
            Month::December => 12,
        }
    }

    /// The month with the given number: `Some` for 1 to 12, `None` otherwise.
    pub fn from_number(number: u8) -> (month: Option<Month>)
        ensures
            month == Month::spec_from_number(number),
            month is Some <==> 1 <= number <= 12,
            month matches Some(m) ==> m.spec_number() == number,
    {
        match number {
            1 => Some(Month::January),
            2 => Some(Month::February),
            3 => Some(Month::March),
            4 => Some(Month::April),
            5 => Some(Month::May),
            6 => Some(Month::June),
            7 => Some(Month::July),
            8 => Some(Month::August),
            9 => Some(Month::September),
            10 => Some(Month::October),
            11 => Some(Month::November),
            12 => Some(Month::December),
            _ => None,
        }
    }
}

/// Whether a year of the proleptic Gregorian calendar has a 29th of February.
pub open spec fn is_leap_year(year: int) -> bool {
    year % 4 == 0 && (year % 100 != 0 || year % 400 == 0)
}

/// The number of days of a month, given by its number, in a year.
pub open spec fn days_in_month(year: int, month: int) -> int {
    if month == 2 {
        if is_leap_year(year) {
            29
        } else {
            28
        }
    } else if month == 4 || month == 6 || month == 9 || month == 11 {
        30
    } else {
        31
    }
}

/// Whether the calendar has this day, in the years from -9999 to 9999.
pub open spec fn is_calendar_date(year: int, month: int, day: int) -> bool {
    &&& -9999 <= year <= 9999
    &&& 1 <= month <= 12
    &&& 1 <= day <= days_in_month(year, month)
}

/// A date as three numbers.
pub struct DateView {
    pub year: int,
    pub month: int,
    pub day: int,
}

impl DateView {
    /// Whether the calendar has this day.
    pub open spec fn is_date(self) -> bool {
        is_calendar_date(self.year, self.month, self.day)
    }

    /// The date `days` days after this date, or `None` if that is beyond the year 9999.
    ///
    /// No days after a date is that date. What lies a number of days after it is left to the
    /// `time` crate: see [`date_plus_days`].
    pub open spec fn plus_days(self, days: int) -> Option<DateView> {
        if self.is_date() && days == 0 {
            Some(self)
        } else {
            match date_plus_days(self.year, self.month, self.day, days) {
                Some(date) => Some(DateView { year: date.0, month: date.1, day: date.2 }),
                None => None,
            }
        }
    }
}

/// A day of the proleptic Gregorian calendar, in the years from -9999 to 9999.
#[derive(Clone, Copy, Debug, PartialEq, Eq, Hash, Structural)]
pub struct Date {
    year: i32,
    month: Month,
    day: u8,
}

impl View for Date {
    type V = DateView;

    closed spec fn view(&self) -> DateView {
        DateView { year: self.year as int, month: self.month.spec_number() as int, day: self.day as int }
    }
}

impl Date {
    /// The date is a day that the calendar has.
    #[verifier::type_invariant]
    pub open spec fn wf(self) -> bool {
        self@.is_date()
    }

    /// The date with the given year, month and day, if the calendar has it.
    pub fn from_calendar_date(year: i32, month: Month, day: u8) -> (date: Option<Date>)
        ensures
            date is Some <==> is_calendar_date(year as int, month.spec_number() as int, day as int),
            date matches Some(d) ==> d@ == (DateView {
                year: year as int,
                month: month.spec_number() as int,
                day: day as int,
            }),
    {
        if year < -9999 || year > 9999 || day < 1 {
            return None;
        }
        let leap = year % 4 == 0 && (year % 100 != 0 || year % 400 == 0);
        let length: u8 = match month {
            Month::February => if leap {
                29
            } else {
                28
            },
            Month::April | Month::June | Month::September | Month::November => 30,
            _ => 31,
        };
        if day > length {
            return None;
        }
        Some(Date { year, month, day })
    }

    /// The year.
    pub fn year(&self) -> (year: i32)
        ensures
            year == self@.year,
    {
        self.year
    }

    /// The month.
    pub fn month(&self) -> (month: Month)
        ensures
            month.spec_number() == self@.month,
    {
        self.month
    }

    /// The day of the month.
    pub fn day(&self) -> (day: u8)
        ensures
            day == self@.day,
    {
        self.day
    }

    /// The first instant of the date.
    pub fn midnight(self) -> (datetime: PrimitiveDateTime)
        ensures
            datetime@ == (DateTimeView { date: self@, time: TimeView::of_seconds(0) }),
    {
        PrimitiveDateTime { date: self, time: Time::midnight() }
    }

    /// The date that a result of [`calendar_date_after`] stands for.
    ///
    /// This is `None` for `None`, and for three numbers that are no date of the calendar.
    pub fn from_sum(sum: Option<(i32, u8, u8)>) -> (date: Option<Date>)
        ensures
            date is Some <==> (sum matches Some(s) && is_calendar_date(
                s.0 as int,
                s.1 as int,
                s.2 as int,
            )),
            date matches Some(d) ==> sum matches Some(s) && d@ == (DateView {
                year: s.0 as int,
                month: s.1 as int,
                day: s.2 as int,
            }),
    {
        match sum {
            None => None,
            Some((year, number, day)) => match Month::from_number(number) {
                None => None,
                Some(month) => Date::from_calendar_date(year, month, day),
            },
        }
    }

    /// The date `seconds` after the first instant of this date, or `None` if that is beyond
    /// the year 9999.
    ///
    /// Only whole days count: the result is this date moved by `seconds / 86_400` days.
    pub fn checked_add_seconds(self, seconds: u32) -> (date: Option<Date>)
        ensures
            match date {
                Some(d) => self@.plus_days(seconds as int / 86_400) == Some(d@),
                None => self@.plus_days(seconds as int / 86_400) is None,
            },
    {
        proof {
            use_type_invariant(&self);
        }
        Date::from_sum(calendar_date_after(self.year, self.month.number(), self.day, seconds))
    }
}

/// A time of day as four numbers.
pub struct TimeView {
    pub hour: int,
    pub minute: int,
    pub second: int,
    pub nanosecond: int,
}

impl TimeView {
    /// The whole seconds from midnight to this time.
    pub open spec fn seconds(self) -> int {
        3600 * self.hour + 60 * self.minute + self.second
    }

    /// The time that is `seconds` whole seconds after midnight.
    pub open spec fn of_seconds(seconds: int) -> TimeView {
        TimeView {
            hour: seconds / 3600,
            minute: (seconds / 60) % 60,
            second: seconds % 60,
            nanosecond: 0,
        }
    }

    /// The whole seconds from `earlier` to this time of the same day, rounded towards zero.
    ///
    /// This is negative where `earlier` is in fact the later time.
    pub open spec fn whole_seconds_since(self, earlier: TimeView) -> int {
        let seconds = self.seconds() - earlier.seconds();
        let nanoseconds = self.nanosecond - earlier.nanosecond;
        if seconds > 0 && nanoseconds < 0 {
            seconds - 1
        } else if seconds < 0 && nanoseconds > 0 {
            seconds + 1
        } else {
            seconds
        }
    }
}

/// A time of day, to the nanosecond.
#[derive(Clone, Copy, Debug, PartialEq, Eq, Hash, Structural)]
pub struct Time {
    hour: u8,
    minute: u8,
    second: u8,
    nanosecond: u32,
}

impl View for Time {
    type V = TimeView;

    closed spec fn view(&self) -> TimeView {
        TimeView {
            hour: self.hour as int,
            minute: self.minute as int,
            second: self.second as int,
            nanosecond: self.nanosecond as int,
        }
    }
}

impl Time {
    /// Whether a day has this time.
    pub open spec fn is_time(hour: int, minute: int, second: int, nanosecond: int) -> bool {
        &&& 0 <= hour < 24
        &&& 0 <= minute < 60
        &&& 0 <= second < 60
        &&& 0 <= nanosecond < 1_000_000_000
    }

    /// The time is one that a day has.
    #[verifier::type_invariant]
    pub open spec fn wf(self) -> bool {
        Time::is_time(self@.hour, self@.minute, self@.second, self@.nanosecond)
    }

    /// Midnight, the first instant of a day.
    pub fn midnight() -> (time: Time)
        ensures
            time@ == TimeView::of_seconds(0),
    {
        Time { hour: 0, minute: 0, second: 0, nanosecond: 0 }
    }

    /// The time with the given hour, minute and second, if a day has it.
    pub fn from_hms(hour: u8, minute: u8, second: u8) -> (time: Option<Time>)
        ensures
            time is Some <==> hour < 24 && minute < 60 && second < 60,
            time matches Some(t) ==> t@ == (TimeView {
                hour: hour as int,
                minute: minute as int,
                second: second as int,
                nanosecond: 0,
            }),
    {
        Time::from_hms_nano(hour, minute, second, 0)
    }

    /// The time with the given hour, minute, second and nanosecond, if a day has it.
    pub fn from_hms_nano(hour: u8, minute: u8, second: u8, nanosecond: u32) -> (time: Option<Time>)
        ensures
            time is Some <==> Time::is_time(
                hour as int,
                minute as int,
                second as int,
                nanosecond as int,
            ),
            time matches Some(t) ==> t@ == (TimeView {
                hour: hour as int,
                minute: minute as int,
                second: second as int,
                nanosecond: nanosecond as int,
            }),
    {
        if hour < 24 && minute < 60 && second < 60 && nanosecond < 1_000_000_000 {
            Some(Time { hour, minute, second, nanosecond })
        } else {
            None
        }
    }

    /// The time that is `seconds` whole seconds after midnight: `Some` within a day.
    pub fn from_seconds(seconds: u32) -> (time: Option<Time>)
        ensures
            time is Some <==> seconds < 86_400,
            time matches Some(t) ==> t@ == TimeView::of_seconds(seconds as int) && t@.seconds()
                == seconds,
    {
        if seconds < 86_400 {
            let hour = (seconds / 3600) as u8;
            let minute = ((seconds / 60) % 60) as u8;
            let second = (seconds % 60) as u8;
            Some(Time { hour, minute, second, nanosecond: 0 })
        } else {
            None
        }
    }

    /// The hour, from 0 to 23.
    pub fn hour(&self) -> (hour: u8)
        ensures
            hour == self@.hour,
            hour < 24,
    {
        proof {
            use_type_invariant(self);
        }
        self.hour
    }

    /// The minute, from 0 to 59.
    pub fn minute(&self) -> (minute: u8)
        ensures
            minute == self@.minute,
            minute < 60,
    {
        proof {
            use_type_invariant(self);
        }
        self.minute
    }

    /// The second, from 0 to 59.
    pub fn second(&self) -> (second: u8)
        ensures
            second == self@.second,
            second < 60,
    {
        proof {
            use_type_invariant(self);
        }
        self.second
    }

    /// The nanosecond within the second.
    pub fn nanosecond(&self) -> (nanosecond: u32)
        ensures
            nanosecond == self@.nanosecond,
            nanosecond < 1_000_000_000,
    {
        proof {
            use_type_invariant(self);
        }
        self.nanosecond
    }

    /// The whole seconds from `earlier` to this time of the same day, rounded towards zero.
    pub fn whole_seconds_since(&self, earlier: &Time) -> (seconds: i32)
        ensures
            seconds == self@.whole_seconds_since(earlier@),
            -86_400 < seconds < 86_400,
    {
        proof {
            use_type_invariant(self);
            use_type_invariant(earlier);
        }
        let seconds: i32 = 3600 * (self.hour as i32) + 60 * (self.minute as i32) + (self.second as i32)
            - (3600 * (earlier.hour as i32) + 60 * (earlier.minute as i32) + (earlier.second as i32));
        if seconds > 0 && self.nanosecond < earlier.nanosecond {
            seconds - 1
        } else if seconds < 0 && self.nanosecond > earlier.nanosecond {
            seconds + 1
        } else {
            seconds
        }
    }
}

/// A date with a time of day, as numbers.
pub struct DateTimeView {
    pub date: DateView,
    pub time: TimeView,
}

/// A date with a time of day, in no particular time zone.
#[derive(Clone, Copy, Debug, PartialEq, Eq, Hash, Structural)]
pub struct PrimitiveDateTime {
    date: Date,
    time: Time,
}

impl View for PrimitiveDateTime {
    type V = DateTimeView;

    closed spec fn view(&self) -> DateTimeView {
        DateTimeView { date: self.date@, time: self.time@ }
    }
}

impl PrimitiveDateTime {
    /// The given time of the given date.
    pub fn new(date: Date, time: Time) -> (datetime: PrimitiveDateTime)
        ensures
            datetime@ == (DateTimeView { date: date@, time: time@ }),
    {
        PrimitiveDateTime { date, time }
    }

    /// The date.
    pub fn date(&self) -> (date: Date)
        ensures
            date@ == self@.date,
    {
        self.date
    }

    /// The time of day.
    pub fn time(&self) -> (time: Time)
        ensures
            time@ == self@.time,
    {
        self.time
    }
}

/// The date that lies `days` days after the date with the given year, month and day, as the
/// `time` crate's `Date::checked_add` computes it for a duration of that many whole days.
///
/// It is `None` where the three numbers are no date of the calendar, and where the result would
/// lie beyond the year 9999.
pub uninterp spec fn date_plus_days(year: int, month: int, day: int, days: int) -> Option<
    (int, int, int),
>;

/// The date `seconds` seconds after the first instant of the date with the given year, month
/// and day, by the `time` crate.
///
/// The date is made with `Date::from_calendar_date`, moved with `Date::checked_add` by
/// `Duration::seconds(seconds)` and taken apart again with `year`, `month` and `day`. Of this
/// the contract claims what the crate documents:
/// - `checked_add` only takes whole days into account, so the result is the date moved by
///   `seconds / 86_400` days;
/// - what comes back is a date of the calendar;
/// - a date moved by less than a day is that date.
#[verifier::external_body]
pub(crate) fn calendar_date_after(year: i32, month: u8, day: u8, seconds: u32) -> (sum: Option<
    (i32, u8, u8),
>)
    ensures
        match sum {
            Some(s) => date_plus_days(year as int, month as int, day as int, seconds as int / 86_400)
                == Some((s.0 as int, s.1 as int, s.2 as int)) && is_calendar_date(
                s.0 as int,
                s.1 as int,
                s.2 as int,
            ),
            None => date_plus_days(year as int, month as int, day as int, seconds as int / 86_400)
                is None,
        },
        is_calendar_date(year as int, month as int, day as int) && seconds < 86_400 ==> sum == Some(
            (year, month, day),
        ),
{
    let month = time::Month::try_from(month).ok()?;
    let date = time::Date::from_calendar_date(year, month, day).ok()?;
    let sum = date.checked_add(time::Duration::seconds(seconds as i64))?;
    Some((sum.year(), sum.month() as u8, sum.day()))
}

} // verus!
