//! A real-time clock library for the GBA.
//!
//! Provides access to the RTC for programs running on a Game Boy Advance. The RTC is an S-3511A
//! chip on the cartridge, which is reached over three lines of the cartridge's general purpose
//! I/O port, one bit at a time.
//!
//! Emulators commonly refuse to set the RTC. A [`Clock`] therefore never sets it: it holds a
//! base date and the value of the RTC at which that date began, and shows the base date's
//! midnight moved by what the RTC has counted since. To write a date or a time to a `Clock`
//! replaces the two.
//!
//! - [`gpio`] holds the registers of the port, the sending and receiving of bits, the exchanges
//!   with the RTC and its initialization. The registers themselves are behind the
//!   [`gpio::Registers`] trait, so that the driver runs on a console as well as against a
//!   simulated cartridge. What the driver does to the registers is kept in a history, and the
//!   contracts say what each function adds to it.
//! - [`bcd`] reads the binary coded decimals that the RTC sends.
//! - [`date_time`] holds the fields of the RTC's date and time, and its value as a number of
//!   seconds on the circle of the RTC's century.
//! - [`calendar`] holds the dates and times of the host calendar.
//! - [`clock`] holds the `Clock`.
//! - [`error`] holds the errors.

pub mod bcd;
pub mod calendar;
pub mod clock;
pub mod date_time;
pub mod error;
pub mod gpio;

pub use clock::Clock;
pub use error::Error;
