//! Binary coded decimal.
//!
//! This module contains a wrapper for a byte that is a BCD, as well as logic for converting a BCD
//! to other types.

use crate::calendar::Month;
use crate::date_time::{Day, Hour, Minute, RtcDateTimeOffset, RtcTimeOffset, Second, Year};
use crate::error::Error;
use vstd::prelude::*;

verus! {

/// Whether a byte is a binary coded decimal: neither of its half-bytes exceeds 9.
pub open spec fn is_bcd(value: u8) -> bool {
    value / 16 <= 9 && value % 16 <= 9
}

/// The number that a binary coded decimal stands for: ten times its high half-byte plus its
/// low half-byte.
pub open spec fn bcd_to_binary(value: u8) -> int {
    10 * (value / 16) + value % 16
}

/// The binary coded decimal of a number below 100: its tens in the high half-byte, its ones in
/// the low half-byte. Of a greater number's tens the lowest four bits are kept.
pub open spec fn binary_to_bcd_spec(value: u8) -> u8 {
    (((value / 10) % 16) * 16 + value % 10) as u8
}

/// Whether the highest bit of a byte is set.
pub open spec fn has_top_bit(value: u8) -> bool {
    value >= 128
}

/// Binary coded decimal.
///
/// The S-3511A stores values as BCD, meaning each half-byte represents a digit. For example, the
/// value `12` is not represented as `0x0c`, but is instead represented as `0x12`.
///
/// The contained value must be a valid BCD value, meaning neither half-byte can be greater than
/// `0x9`.
#[derive(Clone, Copy, Debug, PartialEq, Eq, Structural)]
pub struct Bcd(u8);

impl View for Bcd {
    type V = u8;

    closed spec fn view(&self) -> u8 {
        self.0
    }
}

impl Bcd {
    /// Neither half-byte is greater than 9.
    #[verifier::type_invariant]
    pub open spec fn wf(self) -> bool {
        is_bcd(self@)
    }

    /// Directly wraps a byte as a BCD, or returns an error if the byte is not a valid BCD.
    pub fn try_from(value: u8) -> (result: Result<Bcd, Error>)
        ensures
            match result {
                Ok(bcd) => is_bcd(value) && bcd@ == value,
                Err(error) => !is_bcd(value) && error == Error::InvalidBinaryCodedDecimal(value),
            },
    {
        assert(value & 0x0f == value % 16) by (bit_vector);
        if value < 0xa0 && (value & 0x0f < 0x0a) {
            Ok(Bcd(value))
        } else {
            Err(Error::InvalidBinaryCodedDecimal(value))
        }
    }

    /// The wrapped byte.
    pub fn get(&self) -> (value: u8)
        ensures
            value == self@,
            is_bcd(value),
    {
        proof {
            use_type_invariant(self);
        }
        self.0
    }

    /// Converts the binary coded decimal to its equivalent binary form.
    ///
    /// This is guaranteed to result in a value less than `100`.
    pub fn to_binary(self) -> (value: u8)
        ensures
            value == bcd_to_binary(self@),
            value < 100,
    {
        proof {
            use_type_invariant(&self);
        }
        let byte = self.0;
        assert(byte >> 4 & 0x0f == byte / 16) by (bit_vector);
        assert(byte & 0x0f == byte % 16) by (bit_vector);
        10 * (byte >> 4 & 0x0f) + (byte & 0x0f)
    }
}

/// Converts a number to its binary coded decimal.
///
/// This is meant for numbers below 100, for which the result is a valid BCD that
/// [`Bcd::to_binary`] turns back into the number.
pub fn binary_to_bcd(value: u8) -> (byte: u8)
    ensures
        byte == binary_to_bcd_spec(value),
        value < 100 ==> is_bcd(byte) && bcd_to_binary(byte) == value,
{
    let tens = value / 10;
    let ones = value % 10;
    assert((tens << 4 | ones) == (tens % 16) * 16 + ones) by (bit_vector)
        requires
            ones < 10,
    ;
    tens << 4 | ones
}

/// A number below 100 survives the way to a binary coded decimal and back.
pub proof fn lemma_binary_to_bcd_round_trip(value: u8)
    requires
        value <= 99,
    ensures
        is_bcd(binary_to_bcd_spec(value)),
        bcd_to_binary(binary_to_bcd_spec(value)) == value,
{
}

/// A binary coded decimal survives the way to its number and back.
pub proof fn lemma_bcd_to_binary_round_trip(byte: u8)
    requires
        is_bcd(byte),
    ensures
        0 <= bcd_to_binary(byte) < 100,
        binary_to_bcd_spec(bcd_to_binary(byte) as u8) == byte,
{
}

impl Year {
    /// Interprets the BCD as a year.
    pub fn from(bcd: Bcd) -> (year: Year)
        ensures
            year@ == bcd_to_binary(bcd@),
    {
        Year::new(bcd.to_binary()).unwrap()
    }
}

impl Month {
    /// The month that a BCD stands for.
    pub open spec fn spec_try_from(bcd: u8) -> Result<Month, Error> {
        match Month::spec_from_number(bcd_to_binary(bcd) as u8) {
            Some(month) => Ok(month),
            None => Err(Error::InvalidMonth(bcd_to_binary(bcd) as u8)),
        }
    }

    /// Interprets the BCD as a month.
    pub fn try_from(bcd: Bcd) -> (result: Result<Month, Error>)
        ensures
            result == Month::spec_try_from(bcd@),
            result is Ok <==> 1 <= bcd_to_binary(bcd@) <= 12,
            result matches Ok(month) ==> month.spec_number() == bcd_to_binary(bcd@),
    {
        let value = bcd.to_binary();
        match Month::from_number(value) {
            Some(month) => Ok(month),
            None => Err(Error::InvalidMonth(value)),
        }
    }
}

impl Day {
    /// Interprets the BCD as a day.
    pub fn try_from(bcd: Bcd) -> (result: Result<Day, Error>)
        ensures
            match result {
                Ok(day) => day@ == bcd_to_binary(bcd@) && 1 <= bcd_to_binary(bcd@) <= 31,
                Err(error) => !(1 <= bcd_to_binary(bcd@) <= 31) && error == Error::InvalidDay(
                    bcd_to_binary(bcd@) as u8,
                ),
            },
    {
        let value = bcd.to_binary();
        match Day::new(value) {
            Some(day) => Ok(day),
            None => Err(Error::InvalidDay(value)),
        }
    }
}

impl Hour {
    /// Interprets the BCD as an hour.
    ///
    /// The highest bit of the byte tells the afternoon from the morning where the RTC counts
    /// the hours from 0 to 11. A byte that has it set is refused before it is read as a number.
    pub fn try_from(bcd: Bcd) -> (result: Result<Hour, Error>)
        ensures
            match result {
                Ok(hour) => !has_top_bit(bcd@) && hour@ == bcd_to_binary(bcd@) && bcd_to_binary(
                    bcd@,
                ) <= 23,
                Err(error) => if has_top_bit(bcd@) {
                    error == Error::AmPmBitPresent
                } else {
                    bcd_to_binary(bcd@) > 23 && error == Error::InvalidHour(bcd_to_binary(bcd@) as u8)
                },
            },
    {
        let byte = bcd.get();
        assert((byte & 0b1000_0000 != 0) == (byte >= 128)) by (bit_vector);
        // Check for the am/pm bit.
        if byte & 0b1000_0000 != 0 {
            return Err(Error::AmPmBitPresent);
        }
        let value = bcd.to_binary();
        match Hour::new(value) {
            Some(hour) => Ok(hour),
            None => Err(Error::InvalidHour(value)),
        }
    }
}

impl Minute {
    /// Interprets the BCD as a minute.
    pub fn try_from(bcd: Bcd) -> (result: Result<Minute, Error>)
        ensures
            match result {
                Ok(minute) => minute@ == bcd_to_binary(bcd@) && bcd_to_binary(bcd@) <= 59,
                Err(error) => bcd_to_binary(bcd@) > 59 && error == Error::InvalidMinute(
                    bcd_to_binary(bcd@) as u8,
                ),
            },
    {
        let value = bcd.to_binary();
        match Minute::new(value) {
            Some(minute) => Ok(minute),
            None => Err(Error::InvalidMinute(value)),
        }
    }
}

impl Second {
    /// Interprets the BCD as a second.
    ///
    /// The highest bit of the byte is set while the RTC is in its test mode. A byte that has it
    /// set is refused before it is read as a number.
    pub fn try_from(bcd: Bcd) -> (result: Result<Second, Error>)
        ensures
            match result {
                Ok(second) => !has_top_bit(bcd@) && second@ == bcd_to_binary(bcd@)
                    && bcd_to_binary(bcd@) <= 59,
                Err(error) => if has_top_bit(bcd@) {
                    error == Error::TestMode
                } else {
                    bcd_to_binary(bcd@) > 59 && error == Error::InvalidSecond(
                        bcd_to_binary(bcd@) as u8,
                    )
                },
            },
    {
        let byte = bcd.get();
        assert((byte & 0b1000_0000 != 0) == (byte >= 128)) by (bit_vector);
        // Check for test bit.
        if byte & 0b1000_0000 != 0 {
            return Err(Error::TestMode);
        }
        let value = bcd.to_binary();
        match Second::new(value) {
            Some(second) => Ok(second),
            None => Err(Error::InvalidSecond(value)),
        }
    }
}

/// The number of a byte that the RTC sent, if the byte is a binary coded decimal.
pub open spec fn decoded(byte: u8) -> Result<int, Error> {
    if is_bcd(byte) {
        Ok(bcd_to_binary(byte))
    } else {
        Err(Error::InvalidBinaryCodedDecimal(byte))
    }
}

/// The month that a byte from the RTC stands for.
pub open spec fn decoded_month(byte: u8) -> Result<Month, Error> {
    match decoded(byte) {
        Err(error) => Err(error),
        Ok(_) => Month::spec_try_from(byte),
    }
}

/// The day that a byte from the RTC stands for.
pub open spec fn decoded_day(byte: u8) -> Result<int, Error> {
    match decoded(byte) {
        Err(error) => Err(error),
        Ok(value) => if 1 <= value <= 31 {
            Ok(value)
        } else {
            Err(Error::InvalidDay(value as u8))
        },
    }
}

/// The hour that a byte from the RTC stands for.
pub open spec fn decoded_hour(byte: u8) -> Result<int, Error> {
    match decoded(byte) {
        Err(error) => Err(error),
        Ok(value) => if has_top_bit(byte) {
            Err(Error::AmPmBitPresent)
        } else if value <= 23 {
            Ok(value)
        } else {
            Err(Error::InvalidHour(value as u8))
        },
    }
}

/// The minute that a byte from the RTC stands for.
pub open spec fn decoded_minute(byte: u8) -> Result<int, Error> {
    match decoded(byte) {
        Err(error) => Err(error),
        Ok(value) => if value <= 59 {
            Ok(value)
        } else {
            Err(Error::InvalidMinute(value as u8))
        },
    }
}

/// The second that a byte from the RTC stands for.
pub open spec fn decoded_second(byte: u8) -> Result<int, Error> {
    match decoded(byte) {
        Err(error) => Err(error),
        Ok(value) => if has_top_bit(byte) {
            Err(Error::TestMode)
        } else if value <= 59 {
            Ok(value)
        } else {
            Err(Error::InvalidSecond(value as u8))
        },
    }
}

/// The seconds since midnight that the three bytes of the RTC's time stand for, or what is
/// wrong with the first byte that is not as it should be.
pub open spec fn decoded_time(hour: u8, minute: u8, second: u8) -> Result<int, Error> {
    match decoded_hour(hour) {
        Err(error) => Err(error),
        Ok(h) => match decoded_minute(minute) {
            Err(error) => Err(error),
            Ok(m) => match decoded_second(second) {
                Err(error) => Err(error),
                Ok(s) => Ok(3600 * h + 60 * m + s),
            },
        },
    }
}

/// The seconds since the start of the century that the bytes of the RTC's date and time stand
/// for, or what is wrong with the first byte that is not as it should be.
pub open spec fn decoded_datetime(
    year: u8,
    month: u8,
    day: u8,
    hour: u8,
    minute: u8,
    second: u8,
) -> Result<int, Error> {
    match decoded(year) {
        Err(error) => Err(error),
        Ok(y) => match decoded_month(month) {
            Err(error) => Err(error),
            Ok(mo) => match decoded_day(day) {
                Err(error) => Err(error),
                Ok(d) => match decoded_time(hour, minute, second) {
                    Err(error) => Err(error),
                    Ok(seconds) => Ok(
                        seconds + 86_400 * crate::date_time::days_since_origin(
                            y as nat,
                            mo,
                            d as nat,
                        ),
                    ),
                },
            },
        },
    }
}

/// What the bytes of the RTC stand for lies within the day, and within the century.
pub proof fn lemma_decoded_ranges(year: u8, month: u8, day: u8, hour: u8, minute: u8, second: u8)
    ensures
        decoded_time(hour, minute, second) matches Ok(seconds) ==> 0 <= seconds < 86_400,
        decoded_datetime(year, month, day, hour, minute, second) matches Ok(seconds) ==> 0
            <= seconds < 3_155_760_000,
{
}

impl RtcTimeOffset {
    /// Interprets the three bytes of the RTC's time.
    ///
    /// The bytes are taken in the order in which the RTC sends them. The first that is not a
    /// binary coded decimal, or not within its field's range, or has a flag set that must not
    /// be, decides the error.
    pub fn decode(hour: u8, minute: u8, second: u8) -> (result: Result<RtcTimeOffset, Error>)
        ensures
            match result {
                Ok(offset) => decoded_time(hour, minute, second) == Ok::<int, Error>(offset@ as int),
                Err(error) => decoded_time(hour, minute, second) == Err::<int, Error>(error),
            },
    {
        let hour = match Bcd::try_from(hour) {
            Ok(bcd) => match Hour::try_from(bcd) {
                Ok(hour) => hour,
                Err(error) => return Err(error),
            },
            Err(error) => return Err(error),
        };
        let minute = match Bcd::try_from(minute) {
            Ok(bcd) => match Minute::try_from(bcd) {
                Ok(minute) => minute,
                Err(error) => return Err(error),
            },
            Err(error) => return Err(error),
        };
        let second = match Bcd::try_from(second) {
            Ok(bcd) => match Second::try_from(bcd) {
                Ok(second) => second,
                Err(error) => return Err(error),
            },
            Err(error) => return Err(error),
        };
        Ok(RtcTimeOffset::new(hour, minute, second))
    }
}

impl RtcDateTimeOffset {
    /// Interprets the bytes of the RTC's date and time, but for the day of the week.
    ///
    /// The bytes are taken in the order in which the RTC sends them. The first that is not a
    /// binary coded decimal, or not within its field's range, or has a flag set that must not
    /// be, decides the error.
    pub fn decode(year: u8, month: u8, day: u8, hour: u8, minute: u8, second: u8) -> (result: Result<
        RtcDateTimeOffset,
        Error,
    >)
        ensures
            match result {
                Ok(offset) => decoded_datetime(year, month, day, hour, minute, second) == Ok::<
                    int,
                    Error,
                >(offset@ as int),
                Err(error) => decoded_datetime(year, month, day, hour, minute, second) == Err::<
                    int,
                    Error,
                >(error),
            },
    {
        let year = match Bcd::try_from(year) {
            Ok(bcd) => Year::from(bcd),
            Err(error) => return Err(error),
        };
        let month = match Bcd::try_from(month) {
            Ok(bcd) => match Month::try_from(bcd) {
                Ok(month) => month,
                Err(error) => return Err(error),
            },
            Err(error) => return Err(error),
        };
        let day = match Bcd::try_from(day) {
            Ok(bcd) => match Day::try_from(bcd) {
                Ok(day) => day,
                Err(error) => return Err(error),
            },
            Err(error) => return Err(error),
        };
        let hour = match Bcd::try_from(hour) {
            Ok(bcd) => match Hour::try_from(bcd) {
                Ok(hour) => hour,
                Err(error) => return Err(error),
            },
            Err(error) => return Err(error),
        };
        let minute = match Bcd::try_from(minute) {
            Ok(bcd) => match Minute::try_from(bcd) {
                Ok(minute) => minute,
                Err(error) => return Err(error),
            },
            Err(error) => return Err(error),
        };
        let second = match Bcd::try_from(second) {
            Ok(bcd) => match Second::try_from(bcd) {
                Ok(second) => second,
                Err(error) => return Err(error),
            },
            Err(error) => return Err(error),
        };
        Ok(RtcDateTimeOffset::new(year, month, day, hour, minute, second))
    }
}

} // verus!
