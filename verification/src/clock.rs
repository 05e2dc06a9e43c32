//! The clock: a host date and time that follows the RTC.

use crate::calendar::{Date, DateTimeView, DateView, PrimitiveDateTime, Time, TimeView};
use crate::date_time::{RtcDateTimeOffset, RtcTimeOffset};
use crate::error::Error;
use crate::gpio::{
    enable, initialize, resume, try_read_datetime_offset, try_read_time_offset, Access, Command,
    Gpio, Registers,
};
use vstd::prelude::*;

verus! {

/// What a clock holds, as numbers.
pub struct ClockView {
    /// The base date.
    pub base_date: DateView,
    /// The seconds since the start of the RTC's century at which the base date began.
    pub rtc_offset: int,
}

impl ClockView {
    /// The number of seconds of the RTC's century.
    pub open spec fn cycle() -> int {
        crate::date_time::CYCLE as int
    }

    /// The clock that shows `datetime` while the RTC is at `device` seconds.
    pub open spec fn anchored(datetime: DateTimeView, device: int) -> ClockView {
        ClockView {
            base_date: datetime.date,
            rtc_offset: crate::date_time::circular_difference(
                device,
                datetime.time.seconds(),
                ClockView::cycle(),
            ),
        }
    }

    /// The seconds from the start of the base date to the moment at which the RTC is at
    /// `device` seconds.
    pub open spec fn elapsed(self, device: int) -> int {
        crate::date_time::circular_difference(device, self.rtc_offset, ClockView::cycle())
    }

    /// The date that the clock shows while the RTC is at `device` seconds.
    pub open spec fn date_at(self, device: int) -> Result<DateView, Error> {
        match self.base_date.plus_days(self.elapsed(device) / 86_400) {
            Some(date) => Ok(date),
            None => Err(Error::Overflow),
        }
    }

    /// The date and time that the clock shows while the RTC is at `device` seconds.
    pub open spec fn datetime_at(self, device: int) -> Result<DateTimeView, Error> {
        match self.date_at(device) {
            Ok(date) => Ok(
                DateTimeView { date, time: TimeView::of_seconds(self.elapsed(device) % 86_400) },
            ),
            Err(error) => Err(error),
        }
    }

    /// The time of day that the clock shows while the RTC's time of day is `device_time`
    /// seconds after midnight.
    pub open spec fn time_at(self, device_time: int) -> TimeView {
        TimeView::of_seconds(
            crate::date_time::circular_difference(device_time, self.rtc_offset % 86_400, 86_400),
        )
    }

    /// The clock after `date` is written to it while the RTC is at `device` seconds: it
    /// shows the new date and the time of day that it showed.
    pub open spec fn with_date(self, date: DateView, device: int) -> ClockView {
        ClockView {
            base_date: date,
            rtc_offset: crate::date_time::circular_difference(
                device,
                self.elapsed(device) % 86_400,
                ClockView::cycle(),
            ),
        }
    }

    /// The clock after `time` is written to it while the RTC's time of day is `device_time`
    /// seconds after midnight.
    ///
    /// The clock is moved by the whole seconds between the time that it shows and `time`.
    pub open spec fn with_time(self, time: TimeView, device_time: int) -> ClockView {
        let delta = self.time_at(device_time).whole_seconds_since(time);
        ClockView {
            base_date: self.base_date,
            rtc_offset: if delta < 0 {
                crate::date_time::circular_difference(self.rtc_offset, -delta, ClockView::cycle())
            } else {
                crate::date_time::circular_sum(self.rtc_offset, delta, ClockView::cycle())
            },
        }
    }
}

/// A time of day without a fraction of a second is the time of its whole seconds.
pub proof fn lemma_time_of_seconds(time: TimeView)
    requires
        Time::is_time(time.hour, time.minute, time.second, time.nanosecond),
    ensures
        0 <= time.seconds() < 86_400,
        time.nanosecond == 0 ==> TimeView::of_seconds(time.seconds()) == time,
        TimeView::of_seconds(time.seconds()).seconds() == time.seconds(),
{
}

/// A clock that was made to show a date and time shows it for as long as the RTC does not
/// move, but for the fraction of a second, which a clock does not hold.
///
/// This is so for a new clock and for one to which the date and time was written.
pub proof fn lemma_anchored_shows_datetime(datetime: DateTimeView, device: int)
    requires
        datetime.date.is_date(),
        Time::is_time(
            datetime.time.hour,
            datetime.time.minute,
            datetime.time.second,
            datetime.time.nanosecond,
        ),
        0 <= device < ClockView::cycle(),
    ensures
        ClockView::anchored(datetime, device).elapsed(device) == datetime.time.seconds(),
        ClockView::anchored(datetime, device).date_at(device) == Ok::<DateView, Error>(datetime.date),
        ClockView::anchored(datetime, device).datetime_at(device) == Ok::<DateTimeView, Error>(
            DateTimeView { date: datetime.date, time: TimeView::of_seconds(datetime.time.seconds()) },
        ),
        datetime.time.nanosecond == 0 ==> ClockView::anchored(datetime, device).datetime_at(device)
            == Ok::<DateTimeView, Error>(datetime),
{
    lemma_time_of_seconds(datetime.time);
}

/// A clock that was made to show a date and time, at midnight or later, shows that date's
/// midnight moved by the seconds since midnight and the seconds that the RTC has counted
/// since, as long as the RTC has not counted through its century.
pub proof fn lemma_anchored_follows_device(datetime: DateTimeView, device: int, later: int)
    requires
        Time::is_time(
            datetime.time.hour,
            datetime.time.minute,
            datetime.time.second,
            datetime.time.nanosecond,
        ),
        0 <= device < ClockView::cycle(),
        0 <= later < ClockView::cycle(),
        datetime.time.seconds() + crate::date_time::circular_difference(
            later,
            device,
            ClockView::cycle(),
        ) < ClockView::cycle(),
    ensures
        ClockView::anchored(datetime, device).elapsed(later) == datetime.time.seconds()
            + crate::date_time::circular_difference(later, device, ClockView::cycle()),
        ClockView::anchored(datetime, device).datetime_at(later) == (match datetime.date.plus_days(
            (datetime.time.seconds() + crate::date_time::circular_difference(
                later,
                device,
                ClockView::cycle(),
            )) / 86_400,
        ) {
            Some(date) => Ok::<DateTimeView, Error>(
                DateTimeView {
                    date,
                    time: TimeView::of_seconds(
                        (datetime.time.seconds() + crate::date_time::circular_difference(
                            later,
                            device,
                            ClockView::cycle(),
                        )) % 86_400,
                    ),
                },
            ),
            None => Err::<DateTimeView, Error>(Error::Overflow),
        }),
{
}

/// The time of day that the RTC reports is the time of day of its date and time, and so is
/// the time of day that a clock shows for the two.
pub proof fn lemma_time_at(clock: ClockView, device: int)
    requires
        0 <= clock.rtc_offset < ClockView::cycle(),
        0 <= device < ClockView::cycle(),
    ensures
        0 <= clock.elapsed(device) < ClockView::cycle(),
        clock.time_at(device % 86_400) == TimeView::of_seconds(clock.elapsed(device) % 86_400),
{
    let stored = clock.rtc_offset;
    assert(ClockView::cycle() == 36_525 * 86_400);
    if device >= stored {
        assert((device - stored) % 86_400 == crate::date_time::circular_difference(
            device % 86_400,
            stored % 86_400,
            86_400,
        ));
    } else {
        assert((36_525 * 86_400 - 1 - stored + device + 1) % 86_400
            == crate::date_time::circular_difference(device % 86_400, stored % 86_400, 86_400));
    }
}

/// To write a date to a clock preserves the time of day: while the RTC does not move, the
/// clock shows the new date and the time of day that it showed before.
pub proof fn lemma_write_date_preserves_time(clock: ClockView, date: DateView, device: int)
    requires
        0 <= clock.rtc_offset < ClockView::cycle(),
        0 <= device < ClockView::cycle(),
        date.is_date(),
    ensures
        0 <= clock.with_date(date, device).rtc_offset < ClockView::cycle(),
        clock.with_date(date, device).elapsed(device) == clock.elapsed(device) % 86_400,
        clock.with_date(date, device).datetime_at(device) == Ok::<DateTimeView, Error>(
            DateTimeView { date, time: TimeView::of_seconds(clock.elapsed(device) % 86_400) },
        ),
        clock.with_date(date, device).time_at(device % 86_400) == clock.time_at(device % 86_400),
{
    lemma_time_at(clock, device);
    lemma_time_at(clock.with_date(date, device), device);
}

/// To write a time of day to a clock preserves the date: while the RTC does not move, the
/// clock shows the date that it showed before, and the new time of day.
///
/// Of the new time of day the whole seconds are shown. Where it has a fraction of a second and
/// lies before the time that the clock showed, the second after it is shown.
pub proof fn lemma_write_time_preserves_date(clock: ClockView, time: TimeView, device: int)
    requires
        0 <= clock.rtc_offset < ClockView::cycle(),
        0 <= device < ClockView::cycle(),
        Time::is_time(time.hour, time.minute, time.second, time.nanosecond),
    ensures
        0 <= clock.with_time(time, device % 86_400).rtc_offset < ClockView::cycle(),
        clock.with_time(time, device % 86_400).elapsed(device) / 86_400 == clock.elapsed(device)
            / 86_400,
        clock.with_time(time, device % 86_400).date_at(device) == clock.date_at(device),
        clock.with_time(time, device % 86_400).elapsed(device) % 86_400 == (if time.nanosecond > 0
            && time.seconds() < clock.elapsed(device) % 86_400 {
            time.seconds() + 1
        } else {
            time.seconds()
        }),
        time.nanosecond == 0 ==> clock.with_time(time, device % 86_400).time_at(device % 86_400)
            == time,
{
    lemma_time_at(clock, device);
    lemma_time_of_seconds(time);
    let elapsed = clock.elapsed(device);
    let shown = elapsed % 86_400;
    let days = elapsed / 86_400;
    assert(elapsed == 86_400 * days + shown);
    assert(0 <= days < 36_525);
    assert(clock.time_at(device % 86_400).seconds() == shown);
    let delta = clock.time_at(device % 86_400).whole_seconds_since(time);
    assert(-86_400 < delta < 86_400);
    assert(0 <= shown - delta < 86_400);
    let written = clock.with_time(time, device % 86_400);
    assert(written.elapsed(device) == elapsed - delta);
    assert(elapsed - delta == 86_400 * days + (shown - delta));
    lemma_time_at(written, device);
}

/// Whether a result holds the date and time with the given numbers, or the given error.
pub open spec fn is_datetime(
    result: Result<PrimitiveDateTime, Error>,
    expected: Result<DateTimeView, Error>,
) -> bool {
    match result {
        Ok(datetime) => expected == Ok::<DateTimeView, Error>(datetime@),
        Err(error) => expected == Err::<DateTimeView, Error>(error),
    }
}

/// Whether a result holds the date with the given numbers, or the given error.
pub open spec fn is_date(result: Result<Date, Error>, expected: Result<DateView, Error>) -> bool {
    match result {
        Ok(date) => expected == Ok::<DateView, Error>(date@),
        Err(error) => expected == Err::<DateView, Error>(error),
    }
}

/// Access to the Real Time Clock.
///
/// Instantiating a `Clock` initializes the RTC, allowing subsequent reads of the RTC's stored date
/// and time.
///
/// A `Clock` never sets the RTC. It holds a base date, and the value of the RTC at which that
/// date began. The date and time that it shows is the base date's midnight moved by what the
/// RTC has counted since. To write a date or a time to the `Clock` is to replace the two.
#[derive(Clone, Copy, Debug, PartialEq, Eq, Structural)]
pub struct Clock {
    /// The base date from which dates and times are calculated.
    ///
    /// Dates and times are read by calculating the amount of time that has elapsed from midnight
    /// on this date, using the RTC's value and the stored `rtc_offset`.
    base_date: Date,
    /// The amount of time elapsed on the RTC at which point the `base_date` was set.
    ///
    /// This is used to calculate the current date and time by calculating how much time has
    /// elapsed on the RTC past this offset and adding this value to the `base_date`.
    rtc_offset: RtcDateTimeOffset,
}

impl View for Clock {
    type V = ClockView;

    closed spec fn view(&self) -> ClockView {
        ClockView { base_date: self.base_date@, rtc_offset: self.rtc_offset@ as int }
    }
}

impl Clock {
    /// The clock that shows `datetime` while the RTC is at `device`.
    ///
    /// Of `datetime` the whole seconds count.
    pub fn from_reading(datetime: PrimitiveDateTime, device: RtcDateTimeOffset) -> (clock: Clock)
        ensures
            clock@ == ClockView::anchored(datetime@, device@ as int),
    {
        Clock {
            base_date: datetime.date(),
            rtc_offset: device.sub(RtcDateTimeOffset::from(datetime.time())),
        }
    }

    /// The clock with the given base date and RTC value, as they were taken from a clock
    /// before.
    pub fn from_parts(base_date: Date, rtc_offset: RtcDateTimeOffset) -> (clock: Clock)
        ensures
            clock@ == (ClockView { base_date: base_date@, rtc_offset: rtc_offset@ as int }),
    {
        Clock { base_date, rtc_offset }
    }

    /// The base date from which dates and times are calculated.
    pub fn base_date(&self) -> (date: Date)
        ensures
            date@ == self@.base_date,
    {
        self.base_date
    }

    /// The value of the RTC at which the base date began.
    pub fn rtc_offset(&self) -> (offset: RtcDateTimeOffset)
        ensures
            offset@ == self@.rtc_offset,
    {
        self.rtc_offset
    }

    /// The date and time for the sum of the base date and the elapsed days, as
    /// [`Date::checked_add_seconds`] gave it, and the elapsed seconds.
    ///
    /// Where there is no such date, the date and time is beyond what the calendar can
    /// represent.
    pub fn datetime_from_sum(sum: Option<Date>, elapsed: RtcDateTimeOffset) -> (result: Result<
        PrimitiveDateTime,
        Error,
    >)
        ensures
            match result {
                Ok(datetime) => sum matches Some(date) && datetime@ == (DateTimeView {
                    date: date@,
                    time: TimeView::of_seconds(elapsed@ as int % 86_400),
                }),
                Err(error) => sum is None && error == Error::Overflow,
            },
    {
        match sum {
            Some(date) => Ok(PrimitiveDateTime::new(date, Time::from(RtcTimeOffset::from(elapsed)))),
            None => Err(Error::Overflow),
        }
    }

    /// The date and time that the clock shows while the RTC is at `device`.
    ///
    /// This fails with [`Error::Overflow`] where that is beyond what the calendar can
    /// represent.
    pub fn datetime_at(&self, device: RtcDateTimeOffset) -> (result: Result<PrimitiveDateTime, Error>)
        ensures
            is_datetime(result, self@.datetime_at(device@ as int)),
    {
        let elapsed = device.sub(self.rtc_offset);
        Clock::datetime_from_sum(self.base_date.checked_add_seconds(elapsed.get()), elapsed)
    }

    /// The date that the clock shows while the RTC is at `device`.
    ///
    /// This fails with [`Error::Overflow`] where that is beyond what the calendar can
    /// represent.
    pub fn date_at(&self, device: RtcDateTimeOffset) -> (result: Result<Date, Error>)
        ensures
            is_date(result, self@.date_at(device@ as int)),
    {
        let elapsed = device.sub(self.rtc_offset);
        match self.base_date.checked_add_seconds(elapsed.get()) {
            Some(date) => Ok(date),
            None => Err(Error::Overflow),
        }
    }

    /// The time of day that the clock shows while the RTC's time of day is `device_time`.
    pub fn time_at(&self, device_time: RtcTimeOffset) -> (time: Time)
        ensures
            time@ == self@.time_at(device_time@ as int),
    {
        let stored_time_offset = RtcTimeOffset::from(self.rtc_offset);
        Time::from(device_time.sub(stored_time_offset))
    }

    /// Makes the clock show `datetime` while the RTC is at `device`.
    pub fn set_datetime_at(&mut self, datetime: PrimitiveDateTime, device: RtcDateTimeOffset)
        ensures
            final(self)@ == ClockView::anchored(datetime@, device@ as int),
    {
        *self = Clock::from_reading(datetime, device);
    }

    /// Makes the clock show `date` while the RTC is at `device`, and the time of day that it
    /// showed.
    pub fn set_date_at(&mut self, date: Date, device: RtcDateTimeOffset)
        ensures
            final(self)@ == old(self)@.with_date(date@, device@ as int),
    {
        // Calculate the current time offset.
        let current_time_offset = RtcTimeOffset::from(device.sub(self.rtc_offset));
        self.base_date = date;
        self.rtc_offset = device.sub(RtcDateTimeOffset::from_time_offset(current_time_offset));
    }

    /// Makes the clock show the time of day `time` while the RTC's time of day is
    /// `device_time`, on the date that it showed.
    pub fn set_time_at(&mut self, time: Time, device_time: RtcTimeOffset)
        ensures
            final(self)@ == old(self)@.with_time(time@, device_time@ as int),
    {
        let current_time = self.time_at(device_time);
        // This difference lies within a day either way.
        let delta = current_time.whole_seconds_since(&time);
        if delta < 0 {
            let back = RtcDateTimeOffset::from_seconds((-delta) as u32).unwrap();
            self.rtc_offset.sub_assign(back);
        } else {
            let ahead = RtcDateTimeOffset::from_seconds(delta as u32).unwrap();
            self.rtc_offset.add_assign(ahead);
        }
    }

    /// Creates a new `Clock` set at the given `datetime`.
    ///
    /// Note that this does not actually change the stored date and time in the RTC itself. While
    /// RTC values are writable on real hardware, they are often not writable in GBA emulators.
    /// Therefore, the date and time are stored as being offset from the current RTC date and time
    /// to maintain maximum compatibility.
    ///
    /// The port is enabled and the RTC is initialized, as [`initialize`] does it. What the RTC
    /// reports at the end is where the clock shows `datetime`.
    pub fn new<R: Registers>(gpio: &mut Gpio<R>, datetime: PrimitiveDateTime) -> (result: Result<
        Clock,
        Error,
    >)
        ensures
            final(gpio).log() == old(gpio).log().push(Access::WriteEnable(1))
                + crate::gpio::initialization(final(gpio).since(old(gpio).log()).skip(1)).0,
            match crate::gpio::initialization(final(gpio).since(old(gpio).log()).skip(1)).1 {
                Ok(device) => result matches Ok(clock) && clock@ == ClockView::anchored(
                    datetime@,
                    device,
                ),
                Err(error) => result matches Err(e) && e == error,
            },
    {
        let ghost start = gpio.log();
        // Enable operations with the RTC via General Purpose I/O (GPIO).
        enable(gpio);
        let ghost enabled = gpio.log();
        let rtc_offset = initialize(gpio);
        proof {
            let seen = gpio.since(start);
            assert(seen.skip(1) =~= gpio.since(enabled));
        }
        match rtc_offset {
            Ok(rtc_offset) => Ok(Clock::from_reading(datetime, rtc_offset)),
            Err(error) => Err(error),
        }
    }

    /// Takes up a clock again from its base date and RTC value, as [`Clock::base_date`] and
    /// [`Clock::rtc_offset`] gave them.
    ///
    /// The port is enabled and the work with the RTC is resumed, as [`resume`] does it. This
    /// fails where the RTC cannot be trusted to have counted on since the clock was made.
    pub fn restore<R: Registers>(gpio: &mut Gpio<R>, base_date: Date, rtc_offset: RtcDateTimeOffset) -> (result:
        Result<Clock, Error>)
        ensures
            final(gpio).log() == old(gpio).log().push(Access::WriteEnable(1))
                + crate::gpio::resumption(final(gpio).since(old(gpio).log()).skip(1)).0,
            match crate::gpio::resumption(final(gpio).since(old(gpio).log()).skip(1)).1 {
                Ok(()) => result matches Ok(clock) && clock@ == (ClockView {
                    base_date: base_date@,
                    rtc_offset: rtc_offset@ as int,
                }),
                Err(error) => result matches Err(e) && e == error,
            },
    {
        let ghost start = gpio.log();
        // Enable operations with the RTC via General Purpose I/O (GPIO).
        enable(gpio);
        let ghost enabled = gpio.log();
        let resumed = resume(gpio);
        proof {
            let seen = gpio.since(start);
            assert(seen.skip(1) =~= gpio.since(enabled));
        }
        match resumed {
            Ok(()) => Ok(Clock::from_parts(base_date, rtc_offset)),
            Err(error) => Err(error),
        }
    }

    /// Reads the currently stored date and time.
    ///
    /// This is one exchange with the RTC, for its date and time. Where that fails, this fails
    /// with its error. Else the result is what the clock shows at what the RTC reported, as
    /// [`Clock::datetime_at`] gives it.
    pub fn read_datetime<R: Registers>(&self, gpio: &mut Gpio<R>) -> (result: Result<
        PrimitiveDateTime,
        Error,
    >)
        ensures
            final(gpio).log() == old(gpio).log() + crate::gpio::exchange(
                Command::ReadDateTime,
                0,
                final(gpio).since(old(gpio).log()),
            ),
            match crate::gpio::datetime_answer(final(gpio).since(old(gpio).log())) {
                Ok(device) => is_datetime(result, self@.datetime_at(device)),
                Err(error) => result matches Err(e) && e == error,
            },
    {
        match try_read_datetime_offset(gpio) {
            Ok(rtc_offset) => self.datetime_at(rtc_offset),
            Err(error) => Err(error),
        }
    }

    /// Writes a new date and time.
    ///
    /// Note that this does not actually change the stored date and time in the RTC itself. While
    /// RTC values are writable on real hardware, they are often not writable in GBA emulators.
    /// Therefore, the date and time are stored as being offset from the current RTC date and time
    /// to maintain maximum compatibility.
    ///
    /// This is one exchange with the RTC, for its date and time. Where that fails, this fails
    /// with its error and the clock is as it was.
    pub fn write_datetime<R: Registers>(&mut self, gpio: &mut Gpio<R>, datetime: PrimitiveDateTime) -> (result:
        Result<(), Error>)
        ensures
            final(gpio).log() == old(gpio).log() + crate::gpio::exchange(
                Command::ReadDateTime,
                0,
                final(gpio).since(old(gpio).log()),
            ),
            match crate::gpio::datetime_answer(final(gpio).since(old(gpio).log())) {
                Ok(device) => result is Ok && final(self)@ == ClockView::anchored(datetime@, device),
                Err(error) => result == Err::<(), Error>(error) && *final(self) == *old(self),
            },
    {
        match try_read_datetime_offset(gpio) {
            Ok(rtc_offset) => {
                self.set_datetime_at(datetime, rtc_offset);
                Ok(())
            },
            Err(error) => Err(error),
        }
    }

    /// Reads the currently stored date.
    ///
    /// This is one exchange with the RTC, for its date and time. Where that fails, this fails
    /// with its error. Else the result is what the clock shows at what the RTC reported, as
    /// [`Clock::date_at`] gives it.
    pub fn read_date<R: Registers>(&self, gpio: &mut Gpio<R>) -> (result: Result<Date, Error>)
        ensures
            final(gpio).log() == old(gpio).log() + crate::gpio::exchange(
                Command::ReadDateTime,
                0,
                final(gpio).since(old(gpio).log()),
            ),
            match crate::gpio::datetime_answer(final(gpio).since(old(gpio).log())) {
                Ok(device) => is_date(result, self@.date_at(device)),
                Err(error) => result matches Err(e) && e == error,
            },
    {
        match try_read_datetime_offset(gpio) {
            Ok(rtc_offset) => self.date_at(rtc_offset),
            Err(error) => Err(error),
        }
    }

    /// Writes a new date.
    ///
    /// This preserves the stored time.
    ///
    /// Note that this does not actually change the stored date in the RTC itself. While RTC values
    /// are writable on real hardware, they are often not writable in GBA emulators. Therefore, the
    /// date and time are stored as being offset from the current RTC date and time to maintain
    /// maximum compatibility.
    ///
    /// This is one exchange with the RTC, for its date and time. Where that fails, this fails
    /// with its error and the clock is as it was.
    pub fn write_date<R: Registers>(&mut self, gpio: &mut Gpio<R>, date: Date) -> (result: Result<(), Error>)
        ensures
            final(gpio).log() == old(gpio).log() + crate::gpio::exchange(
                Command::ReadDateTime,
                0,
                final(gpio).since(old(gpio).log()),
            ),
            match crate::gpio::datetime_answer(final(gpio).since(old(gpio).log())) {
                Ok(device) => result is Ok && final(self)@ == old(self)@.with_date(date@, device),
                Err(error) => result == Err::<(), Error>(error) && *final(self) == *old(self),
            },
    {
        match try_read_datetime_offset(gpio) {
            Ok(rtc_offset) => {
                self.set_date_at(date, rtc_offset);
                Ok(())
            },
            Err(error) => Err(error),
        }
    }

    /// Reads the currently stored time.
    ///
    /// This is always faster than using [`Clock::read_datetime()`], as it only requires reading
    /// three bytes from the RTC instead of seven.
    ///
    /// This is one exchange with the RTC, for its time. Where that fails, this fails with its
    /// error. Else the result is what the clock shows at what the RTC reported, as
    /// [`Clock::time_at`] gives it.
    pub fn read_time<R: Registers>(&self, gpio: &mut Gpio<R>) -> (result: Result<Time, Error>)
        ensures
            final(gpio).log() == old(gpio).log() + crate::gpio::exchange(
                Command::ReadTime,
                0,
                final(gpio).since(old(gpio).log()),
            ),
            match crate::gpio::time_answer(final(gpio).since(old(gpio).log())) {
                Ok(device_time) => result matches Ok(time) && time@ == self@.time_at(device_time),
                Err(error) => result matches Err(e) && e == error,
            },
    {
        match try_read_time_offset(gpio) {
            Ok(rtc_time_offset) => Ok(self.time_at(rtc_time_offset)),
            Err(error) => Err(error),
        }
    }

    /// Writes a new time.
    ///
    /// This preserves the stored date.
    ///
    /// Note that this does not actually change the stored time in the RTC itself. While RTC values
    /// are writable on real hardware, they are often not writable in GBA emulators. Therefore, the
    /// date and time are stored as being offset from the current RTC date and time to maintain
    /// maximum compatibility.
    ///
    /// This is one exchange with the RTC, for its time. Where that fails, this fails with its
    /// error and the clock is as it was.
    pub fn write_time<R: Registers>(&mut self, gpio: &mut Gpio<R>, time: Time) -> (result: Result<(), Error>)
        ensures
            final(gpio).log() == old(gpio).log() + crate::gpio::exchange(
                Command::ReadTime,
                0,
                final(gpio).since(old(gpio).log()),
            ),
            match crate::gpio::time_answer(final(gpio).since(old(gpio).log())) {
                Ok(device_time) => result is Ok && final(self)@ == old(self)@.with_time(
                    time@,
                    device_time,
                ),
                Err(error) => result == Err::<(), Error>(error) && *final(self) == *old(self),
            },
    {
        match try_read_time_offset(gpio) {
            Ok(rtc_time_offset) => {
                self.set_time_at(time, rtc_time_offset);
                Ok(())
            },
            Err(error) => Err(error),
        }
    }
}

} // verus!
