//! Errors that may occur when interacting with the RTC.

use vstd::prelude::*;

verus! {

/// Errors that may occur when interacting with the RTC.
#[derive(Clone, Copy, Debug, PartialEq, Eq, Hash, Structural)]
pub enum Error {
    /// The chip lost its backup power; what it holds is undefined.
    PowerFailure,
    /// The chip is in its factory test mode.
    TestMode,
    /// The chip counts hours in 12-hour mode.
    AmPmBitPresent,
    /// The status register holds a bit that is never set on a working chip.
    InvalidStatus(u8),
    /// The month is not within 1 to 12.
    InvalidMonth(u8),
    /// The day is not within 1 to 31.
    InvalidDay(u8),
    /// The hour is not within 0 to 23.
    InvalidHour(u8),
    /// The minute is not within 0 to 59.
    InvalidMinute(u8),
    /// The second is not within 0 to 59.
    InvalidSecond(u8),
    /// The byte is not a binary coded decimal.
    InvalidBinaryCodedDecimal(u8),
    /// The date and time is beyond what the host calendar can represent.
    Overflow,
    /// The general purpose I/O port is not enabled.
    NotEnabled,
}

} // verus!
