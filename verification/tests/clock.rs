use gba_clock::bcd::binary_to_bcd;
use gba_clock::calendar::{Date, Month, PrimitiveDateTime, Time};
use gba_clock::date_time::{RtcDateTimeOffset, RtcTimeOffset};
use gba_clock::gpio::{
    disable, enable, initialize, is_test_mode, reset, resume, set_status, try_read_datetime_offset,
    try_read_status, try_read_time_offset, Data, Gpio, Registers, RwMode, Status,
};
use gba_clock::{Clock, Error};

/// The number of seconds of the chip's century.
const CYCLE: u32 = 3_155_760_000;

const SCK: u16 = 0b001;
const SIO: u16 = 0b010;
const CS: u16 = 0b100;

/// What the chip is doing with the bits that are clocked.
enum Phase {
    /// CS is low, or the exchange is over.
    Idle,
    /// The bits of the command are taken, highest first.
    Command { bits: u8, count: u8 },
    /// The bytes of an answer are given, each lowest bit first.
    Sending { bytes: Vec<u8>, position: usize },
    /// The byte of the status register is taken, lowest bit first.
    Receiving { bits: u8, count: u8 },
}

/// A cartridge port with an S-3511A behind it, or with nothing behind it.
struct Cartridge {
    /// Whether the cartridge has an RTC.
    present: bool,
    control: u16,
    ime: bool,
    lines: u16,
    direction: RwMode,
    phase: Phase,
    /// What the chip holds on SIO.
    out: bool,
    status: u8,
    test_mode: bool,
    /// The seconds since the start of the chip's century.
    seconds: u32,
    /// How many more resets leave the power flag set.
    power_survives: u32,
    /// How many more resets leave the chip in test mode.
    test_mode_survives: u32,
    /// A status to report in place of the chip's own.
    reported_status: Option<u8>,
    /// A byte to report for the month in place of the chip's own.
    reported_month: Option<u8>,
    resets: u32,
    commands: Vec<u8>,
    /// The number of writes to the data register that were made while interrupts were enabled.
    interrupted: u32,
}

impl Cartridge {
    fn with_rtc() -> Cartridge {
        Cartridge {
            present: true,
            control: 0,
            ime: true,
            lines: 0,
            direction: RwMode::Write,
            phase: Phase::Idle,
            out: false,
            status: 0,
            test_mode: false,
            seconds: 1_000_000,
            power_survives: 0,
            test_mode_survives: 0,
            reported_status: None,
            reported_month: None,
            resets: 0,
            commands: Vec::new(),
            interrupted: 0,
        }
    }

    fn without_rtc() -> Cartridge {
        Cartridge {
            present: false,
            ..Cartridge::with_rtc()
        }
    }

    /// Lets the chip count the given number of seconds.
    fn advance(&mut self, seconds: u32) {
        self.seconds = ((self.seconds as u64 + seconds as u64) % CYCLE as u64) as u32;
    }

    /// The year, month, day, hour, minute and second that the chip holds.
    fn fields(&self) -> (u8, u8, u8, u8, u8, u8) {
        let mut days = self.seconds / 86_400;
        let time = self.seconds % 86_400;
        let mut year = 0;
        loop {
            let length = if year % 4 == 0 { 366 } else { 365 };
            if days < length {
                break;
            }
            days -= length;
            year += 1;
        }
        let lengths = [
            31,
            if year % 4 == 0 { 29 } else { 28 },
            31,
            30,
            31,
            30,
            31,
            31,
            30,
            31,
            30,
            31,
        ];
        let mut month = 1;
        for length in lengths {
            if days < length {
                break;
            }
            days -= length;
            month += 1;
        }
        (
            year as u8,
            month,
            days as u8 + 1,
            (time / 3600) as u8,
            (time / 60 % 60) as u8,
            (time % 60) as u8,
        )
    }

    fn time_bytes(&self) -> Vec<u8> {
        let (_, _, _, hour, minute, second) = self.fields();
        let hour = if self.status & 0b0100_0000 != 0 {
            binary_to_bcd(hour)
        } else {
            binary_to_bcd(hour % 12) | if hour >= 12 { 0b1000_0000 } else { 0 }
        };
        let second = binary_to_bcd(second) | if self.test_mode { 0b1000_0000 } else { 0 };
        vec![hour, binary_to_bcd(minute), second]
    }

    fn datetime_bytes(&self) -> Vec<u8> {
        let (year, month, day, _, _, _) = self.fields();
        let weekday = (self.seconds / 86_400 % 7) as u8;
        let mut bytes = vec![
            binary_to_bcd(year),
            self.reported_month.unwrap_or(binary_to_bcd(month)),
            binary_to_bcd(day),
            weekday,
        ];
        bytes.extend(self.time_bytes());
        bytes
    }

    fn start(&mut self, command: u8) {
        self.commands.push(command);
        self.phase = match command {
            0x60 => {
                self.resets += 1;
                self.seconds = 0;
                self.status &= 0b1000_0000;
                if self.power_survives > 0 {
                    self.power_survives -= 1;
                } else {
                    self.status = 0;
                }
                if self.test_mode_survives > 0 {
                    self.test_mode_survives -= 1;
                } else {
                    self.test_mode = false;
                }
                Phase::Idle
            }
            0x62 => Phase::Receiving { bits: 0, count: 0 },
            0x63 => Phase::Sending {
                bytes: vec![self.reported_status.unwrap_or(self.status)],
                position: 0,
            },
            0x65 => Phase::Sending {
                bytes: self.datetime_bytes(),
                position: 0,
            },
            0x67 => Phase::Sending {
                bytes: self.time_bytes(),
                position: 0,
            },
            _ => Phase::Idle,
        };
    }

    fn rising_edge(&mut self, sio: bool) {
        match std::mem::replace(&mut self.phase, Phase::Idle) {
            Phase::Idle => {}
            Phase::Command { bits, count } => {
                let bits = bits << 1 | sio as u8;
                if count == 7 {
                    self.start(bits);
                } else {
                    self.phase = Phase::Command {
                        bits,
                        count: count + 1,
                    };
                }
            }
            Phase::Sending { bytes, position } => {
                self.out = match bytes.get(position / 8) {
                    Some(byte) => byte >> (position % 8) & 1 != 0,
                    None => false,
                };
                self.phase = Phase::Sending {
                    bytes,
                    position: position + 1,
                };
            }
            Phase::Receiving { bits, count } => {
                let bits = bits | (sio as u8) << count;
                if count == 7 {
                    self.status = self.status & 0b1000_0000 | bits & 0b0110_1010;
                } else {
                    self.phase = Phase::Receiving {
                        bits,
                        count: count + 1,
                    };
                }
            }
        }
    }
}

impl Registers for Cartridge {
    fn write_data(&mut self, data: Data) {
        if !self.present || self.control != 1 {
            return;
        }
        if self.ime {
            self.interrupted += 1;
        }
        let before = self.lines;
        self.lines = data.0 & 0b111;
        if self.lines & CS == 0 {
            self.phase = Phase::Idle;
        } else if before & CS == 0 {
            self.phase = Phase::Command { bits: 0, count: 0 };
        } else if before & SCK == 0 && self.lines & SCK != 0 {
            self.rising_edge(self.lines & SIO != 0);
        }
    }

    fn read_data(&mut self) -> Data {
        if !self.present || self.control != 1 {
            return Data(0);
        }
        match self.direction {
            RwMode::Read => Data(self.lines & !SIO | if self.out { SIO } else { 0 }),
            RwMode::Write => Data(self.lines),
        }
    }

    fn write_rw_mode(&mut self, mode: RwMode) {
        self.direction = mode;
    }

    fn write_enable(&mut self, value: u16) {
        if self.present {
            self.control = value;
        }
    }

    fn read_enable(&mut self) -> u16 {
        self.control
    }

    fn read_ime(&mut self) -> bool {
        self.ime
    }

    fn write_ime(&mut self, enabled: bool) {
        self.ime = enabled;
    }
}

fn date(year: i32, month: Month, day: u8) -> Date {
    Date::from_calendar_date(year, month, day).unwrap()
}

fn time(hour: u8, minute: u8, second: u8) -> Time {
    Time::from_hms(hour, minute, second).unwrap()
}

fn datetime(year: i32, month: Month, day: u8, hour: u8, minute: u8, second: u8) -> PrimitiveDateTime {
    PrimitiveDateTime::new(date(year, month, day), time(hour, minute, second))
}

fn seconds(value: u32) -> RtcDateTimeOffset {
    RtcDateTimeOffset::from_seconds(value).unwrap()
}

#[test]
fn new_clock_not_enabled() {
    let mut gpio = Gpio::new(Cartridge::without_rtc());
    assert_eq!(
        Clock::new(&mut gpio, datetime(2012, Month::December, 21, 5, 23, 0)),
        Err(Error::NotEnabled)
    );
}

#[test]
fn read_datetime() {
    let mut gpio = Gpio::new(Cartridge::with_rtc());
    let datetime = datetime(2012, Month::December, 21, 5, 23, 0);
    let clock = Clock::new(&mut gpio, datetime).unwrap();

    assert_eq!(clock.read_datetime(&mut gpio), Ok(datetime));
}

#[test]
fn read_datetime_not_enabled() {
    let mut gpio = Gpio::new(Cartridge::without_rtc());
    // Manually enable RTC.
    enable(&mut gpio);
    // Manually construct a `Clock` object, despite RTC being disabled.
    //
    // This is to simulate an RTC failing after `Clock` construction.
    let clock = Clock::from_parts(date(2012, Month::December, 21), seconds(0));

    assert_eq!(clock.read_datetime(&mut gpio), Err(Error::NotEnabled));
}

#[test]
fn read_datetime_after_disabled() {
    let mut gpio = Gpio::new(Cartridge::with_rtc());
    let clock = Clock::new(&mut gpio, datetime(2012, Month::December, 21, 5, 23, 0)).unwrap();

    disable(&mut gpio);

    assert_eq!(clock.read_datetime(&mut gpio), Err(Error::NotEnabled));
}

#[test]
fn write_datetime() {
    let mut gpio = Gpio::new(Cartridge::with_rtc());
    let mut clock = Clock::new(&mut gpio, datetime(2000, Month::January, 1, 0, 0, 0)).unwrap();
    let datetime = datetime(2012, Month::December, 21, 5, 23, 0);

    assert_eq!(clock.write_datetime(&mut gpio, datetime), Ok(()));

    assert_eq!(clock.read_datetime(&mut gpio), Ok(datetime));
}

#[test]
fn write_datetime_not_enabled() {
    let mut gpio = Gpio::new(Cartridge::without_rtc());
    // Manually enable RTC.
    enable(&mut gpio);
    // Manually construct a `Clock` object, despite RTC being disabled.
    //
    // This is to simulate an RTC failing after `Clock` construction.
    let mut clock = Clock::from_parts(date(2012, Month::December, 21), seconds(0));

    assert_eq!(
        clock.write_datetime(&mut gpio, datetime(2012, Month::December, 21, 5, 23, 0)),
        Err(Error::NotEnabled)
    );
}

#[test]
fn write_datetime_after_disabled() {
    let mut gpio = Gpio::new(Cartridge::with_rtc());
    let datetime = datetime(2012, Month::December, 21, 5, 23, 0);
    let mut clock = Clock::new(&mut gpio, datetime).unwrap();

    disable(&mut gpio);

    assert_eq!(
        clock.write_datetime(&mut gpio, datetime),
        Err(Error::NotEnabled)
    );
}

#[test]
fn read_date() {
    let mut gpio = Gpio::new(Cartridge::with_rtc());
    let datetime = datetime(2012, Month::December, 21, 5, 23, 0);
    let clock = Clock::new(&mut gpio, datetime).unwrap();

    assert_eq!(clock.read_date(&mut gpio), Ok(datetime.date()));
}

#[test]
fn read_date_not_enabled() {
    let mut gpio = Gpio::new(Cartridge::without_rtc());
    // Manually enable RTC.
    enable(&mut gpio);
    // Manually construct a `Clock` object, despite RTC being disabled.
    //
    // This is to simulate an RTC failing after `Clock` construction.
    let clock = Clock::from_parts(date(2012, Month::December, 21), seconds(0));

    assert_eq!(clock.read_date(&mut gpio), Err(Error::NotEnabled));
}

#[test]
fn read_date_after_disabled() {
    let mut gpio = Gpio::new(Cartridge::with_rtc());
    let clock = Clock::new(&mut gpio, datetime(2012, Month::December, 21, 5, 23, 0)).unwrap();

    disable(&mut gpio);

    assert_eq!(clock.read_date(&mut gpio), Err(Error::NotEnabled));
}

#[test]
fn write_date() {
    let mut gpio = Gpio::new(Cartridge::with_rtc());
    let mut clock = Clock::new(&mut gpio, datetime(2000, Month::January, 1, 0, 0, 0)).unwrap();

    assert_eq!(
        clock.write_date(&mut gpio, date(2012, Month::December, 21)),
        Ok(())
    );

    assert_eq!(
        clock.read_datetime(&mut gpio),
        Ok(datetime(2012, Month::December, 21, 0, 0, 0))
    );
}

#[test]
fn write_date_not_enabled() {
    let mut gpio = Gpio::new(Cartridge::without_rtc());
    // Manually enable RTC.
    enable(&mut gpio);
    // Manually construct a `Clock` object, despite RTC being disabled.
    //
    // This is to simulate an RTC failing after `Clock` construction.
    let mut clock = Clock::from_parts(date(2012, Month::December, 21), seconds(0));

    assert_eq!(
        clock.write_date(&mut gpio, date(2012, Month::December, 21)),
        Err(Error::NotEnabled)
    );
}

#[test]
fn write_date_after_disabled() {
    let mut gpio = Gpio::new(Cartridge::with_rtc());
    let mut clock = Clock::new(&mut gpio, datetime(2000, Month::January, 1, 0, 0, 0)).unwrap();

    disable(&mut gpio);

    assert_eq!(
        clock.write_date(&mut gpio, date(2012, Month::December, 21)),
        Err(Error::NotEnabled)
    );
}

#[test]
fn read_time() {
    let mut gpio = Gpio::new(Cartridge::with_rtc());
    let datetime = datetime(2012, Month::December, 21, 5, 23, 0);
    let clock = Clock::new(&mut gpio, datetime).unwrap();

    assert_eq!(clock.read_time(&mut gpio), Ok(datetime.time()));
}

#[test]
fn read_time_not_enabled() {
    let mut gpio = Gpio::new(Cartridge::without_rtc());
    // Manually enable RTC.
    enable(&mut gpio);
    // Manually construct a `Clock` object, despite RTC being disabled.
    //
    // This is to simulate an RTC failing after `Clock` construction.
    let clock = Clock::from_parts(date(2012, Month::December, 21), seconds(0));

    assert_eq!(clock.read_time(&mut gpio), Err(Error::NotEnabled));
}

#[test]
fn read_time_after_disabled() {
    let mut gpio = Gpio::new(Cartridge::with_rtc());
    let clock = Clock::new(&mut gpio, datetime(2012, Month::December, 21, 5, 23, 0)).unwrap();

    disable(&mut gpio);

    assert_eq!(clock.read_time(&mut gpio), Err(Error::NotEnabled));
}

#[test]
fn write_time() {
    let mut gpio = Gpio::new(Cartridge::with_rtc());
    let mut clock = Clock::new(&mut gpio, datetime(2012, Month::December, 21, 5, 23, 0)).unwrap();

    assert_eq!(clock.write_time(&mut gpio, time(22, 22, 0)), Ok(()));

    assert_eq!(
        clock.read_datetime(&mut gpio),
        Ok(datetime(2012, Month::December, 21, 22, 22, 0))
    );
}

#[test]
fn write_time_not_enabled() {
    let mut gpio = Gpio::new(Cartridge::without_rtc());
    // Manually enable RTC.
    enable(&mut gpio);
    // Manually construct a `Clock` object, despite RTC being disabled.
    //
    // This is to simulate an RTC failing after `Clock` construction.
    let mut clock = Clock::from_parts(date(2012, Month::December, 21), seconds(0));

    assert_eq!(
        clock.write_time(&mut gpio, time(22, 22, 0)),
        Err(Error::NotEnabled)
    );
}

#[test]
fn write_time_after_disabled() {
    let mut gpio = Gpio::new(Cartridge::with_rtc());
    let mut clock = Clock::new(&mut gpio, datetime(2000, Month::January, 1, 0, 0, 0)).unwrap();

    disable(&mut gpio);

    assert_eq!(
        clock.write_time(&mut gpio, time(22, 22, 0)),
        Err(Error::NotEnabled)
    );
}

#[test]
fn clock_follows_the_rtc() {
    let mut gpio = Gpio::new(Cartridge::with_rtc());
    let initial = datetime(2012, Month::December, 21, 5, 23, 0);
    let clock = Clock::new(&mut gpio, initial).unwrap();
    assert_eq!(clock.read_datetime(&mut gpio), Ok(initial));

    gpio.registers_mut().advance(3600);

    assert_eq!(
        clock.read_datetime(&mut gpio),
        Ok(datetime(2012, Month::December, 21, 6, 23, 0))
    );
    assert_eq!(clock.read_time(&mut gpio), Ok(time(6, 23, 0)));
    assert_eq!(
        clock.read_date(&mut gpio),
        Ok(date(2012, Month::December, 21))
    );
}

#[test]
fn clock_follows_the_rtc_through_the_calendar() {
    let mut gpio = Gpio::new(Cartridge::with_rtc());
    let clock = Clock::new(&mut gpio, datetime(2012, Month::December, 31, 23, 0, 0)).unwrap();

    gpio.registers_mut().advance(2 * 3600);
    assert_eq!(
        clock.read_datetime(&mut gpio),
        Ok(datetime(2013, Month::January, 1, 1, 0, 0))
    );
    assert_eq!(
        clock.read_date(&mut gpio),
        Ok(date(2013, Month::January, 1))
    );

    // 58 days later it is the 28th of February, and the year 2013 has no 29th.
    gpio.registers_mut().advance(59 * 86_400);
    assert_eq!(
        clock.read_datetime(&mut gpio),
        Ok(datetime(2013, Month::March, 1, 1, 0, 0))
    );
}

#[test]
fn clock_follows_the_host_calendar_where_the_rtc_has_another() {
    // To the RTC the year 2100 would have a 29th of February. The calendar has none.
    let mut gpio = Gpio::new(Cartridge::with_rtc());
    let clock = Clock::new(&mut gpio, datetime(2100, Month::February, 28, 12, 0, 0)).unwrap();

    gpio.registers_mut().advance(86_400);

    assert_eq!(
        clock.read_datetime(&mut gpio),
        Ok(datetime(2100, Month::March, 1, 12, 0, 0))
    );

    let mut clock = clock;
    clock
        .write_date(&mut gpio, date(2012, Month::February, 28))
        .unwrap();
    gpio.registers_mut().advance(86_400);
    assert_eq!(
        clock.read_datetime(&mut gpio),
        Ok(datetime(2012, Month::February, 29, 12, 0, 0))
    );
}

#[test]
fn new_resets_the_rtc_and_sets_the_24_hour_mode() {
    let mut gpio = Gpio::new(Cartridge::with_rtc());
    Clock::new(&mut gpio, datetime(2012, Month::December, 21, 5, 23, 0)).unwrap();
    let cartridge = gpio.into_registers();

    assert_eq!(cartridge.control, 1);
    assert_eq!(cartridge.commands, [0x60, 0x63, 0x67, 0x62, 0x65]);
    assert_eq!(cartridge.status, 0b0100_0000);
    assert_eq!(cartridge.seconds, 0);
}

#[test]
fn new_resets_again_after_a_power_failure() {
    let mut cartridge = Cartridge::with_rtc();
    cartridge.status = 0b1000_0000;
    cartridge.power_survives = 1;
    let mut gpio = Gpio::new(cartridge);

    let initial = datetime(2012, Month::December, 21, 5, 23, 0);
    let clock = Clock::new(&mut gpio, initial).unwrap();

    assert_eq!(clock.read_datetime(&mut gpio), Ok(initial));
    let cartridge = gpio.into_registers();
    assert_eq!(
        cartridge.commands,
        [0x60, 0x63, 0x60, 0x67, 0x62, 0x65, 0x65]
    );
    assert_eq!(cartridge.status, 0b0100_0000);
}

#[test]
fn new_resets_again_in_test_mode() {
    let mut cartridge = Cartridge::with_rtc();
    cartridge.test_mode = true;
    cartridge.test_mode_survives = 1;
    let mut gpio = Gpio::new(cartridge);

    let initial = datetime(2012, Month::December, 21, 5, 23, 0);
    let clock = Clock::new(&mut gpio, initial).unwrap();

    assert_eq!(clock.read_datetime(&mut gpio), Ok(initial));
    let cartridge = gpio.into_registers();
    assert_eq!(
        cartridge.commands,
        [0x60, 0x63, 0x67, 0x60, 0x62, 0x65, 0x65]
    );
    assert!(!cartridge.test_mode);
}

#[test]
fn new_resets_twice_after_a_power_failure_in_test_mode() {
    let mut cartridge = Cartridge::with_rtc();
    cartridge.status = 0b1000_0000;
    cartridge.power_survives = 1;
    cartridge.test_mode = true;
    cartridge.test_mode_survives = 2;
    let mut gpio = Gpio::new(cartridge);

    Clock::new(&mut gpio, datetime(2012, Month::December, 21, 5, 23, 0)).unwrap();

    assert_eq!(
        gpio.into_registers().commands,
        [0x60, 0x63, 0x60, 0x67, 0x60, 0x62, 0x65]
    );
}

#[test]
fn new_fails_in_lasting_test_mode() {
    let mut cartridge = Cartridge::with_rtc();
    cartridge.test_mode = true;
    cartridge.test_mode_survives = 5;
    let mut gpio = Gpio::new(cartridge);

    assert_eq!(
        Clock::new(&mut gpio, datetime(2012, Month::December, 21, 5, 23, 0)),
        Err(Error::TestMode)
    );
}

#[test]
fn new_fails_with_an_invalid_status() {
    let mut cartridge = Cartridge::with_rtc();
    cartridge.reported_status = Some(0b0100_0001);
    let mut gpio = Gpio::new(cartridge);

    assert_eq!(
        Clock::new(&mut gpio, datetime(2012, Month::December, 21, 5, 23, 0)),
        Err(Error::InvalidStatus(0b0100_0001))
    );
    assert_eq!(gpio.into_registers().commands, [0x60, 0x63]);
}

#[test]
fn new_fails_with_an_invalid_month() {
    let mut cartridge = Cartridge::with_rtc();
    cartridge.reported_month = Some(0x13);
    let mut gpio = Gpio::new(cartridge);

    assert_eq!(
        Clock::new(&mut gpio, datetime(2012, Month::December, 21, 5, 23, 0)),
        Err(Error::InvalidMonth(13))
    );
}

#[test]
fn read_fails_and_write_keeps_the_clock_where_the_rtc_sends_no_number() {
    let mut gpio = Gpio::new(Cartridge::with_rtc());
    let mut clock = Clock::new(&mut gpio, datetime(2012, Month::December, 21, 5, 23, 0)).unwrap();
    let before = clock;

    gpio.registers_mut().reported_month = Some(0x1b);

    assert_eq!(
        clock.read_datetime(&mut gpio),
        Err(Error::InvalidBinaryCodedDecimal(0x1b))
    );
    assert_eq!(
        clock.read_date(&mut gpio),
        Err(Error::InvalidBinaryCodedDecimal(0x1b))
    );
    assert_eq!(
        clock.write_datetime(&mut gpio, datetime(2001, Month::March, 21, 11, 30, 0)),
        Err(Error::InvalidBinaryCodedDecimal(0x1b))
    );
    assert_eq!(
        clock.write_date(&mut gpio, date(2001, Month::March, 21)),
        Err(Error::InvalidBinaryCodedDecimal(0x1b))
    );
    assert_eq!(clock, before);
}

#[test]
fn read_time_fails_and_write_time_keeps_the_clock_in_12_hour_mode() {
    let mut gpio = Gpio::new(Cartridge::with_rtc());
    let mut clock = Clock::new(&mut gpio, datetime(2012, Month::December, 21, 5, 23, 0)).unwrap();
    let before = clock;

    // The afternoon has the flag set where the hours are counted from 0 to 11.
    gpio.registers_mut().status = 0;
    gpio.registers_mut().advance(13 * 3600);

    assert_eq!(clock.read_time(&mut gpio), Err(Error::AmPmBitPresent));
    assert_eq!(clock.read_datetime(&mut gpio), Err(Error::AmPmBitPresent));
    assert_eq!(
        clock.write_time(&mut gpio, time(1, 2, 3)),
        Err(Error::AmPmBitPresent)
    );
    assert_eq!(clock, before);
}

#[test]
fn read_fails_in_test_mode() {
    let mut gpio = Gpio::new(Cartridge::with_rtc());
    let clock = Clock::new(&mut gpio, datetime(2012, Month::December, 21, 5, 23, 0)).unwrap();

    gpio.registers_mut().test_mode = true;

    assert_eq!(clock.read_datetime(&mut gpio), Err(Error::TestMode));
    assert_eq!(clock.read_time(&mut gpio), Err(Error::TestMode));
}

#[test]
fn read_datetime_overflows_beyond_the_last_year() {
    let mut gpio = Gpio::new(Cartridge::with_rtc());
    let clock = Clock::new(&mut gpio, datetime(9999, Month::December, 31, 23, 59, 59)).unwrap();
    assert_eq!(
        clock.read_datetime(&mut gpio),
        Ok(datetime(9999, Month::December, 31, 23, 59, 59))
    );

    gpio.registers_mut().advance(1);

    assert_eq!(clock.read_datetime(&mut gpio), Err(Error::Overflow));
    assert_eq!(clock.read_date(&mut gpio), Err(Error::Overflow));
    assert_eq!(clock.read_time(&mut gpio), Ok(time(0, 0, 0)));
}

#[test]
fn write_datetime_then_read_gives_it_plus_what_has_elapsed() {
    let mut gpio = Gpio::new(Cartridge::with_rtc());
    let mut clock = Clock::new(&mut gpio, datetime(2000, Month::January, 1, 0, 0, 0)).unwrap();
    gpio.registers_mut().advance(123_456);

    clock
        .write_datetime(&mut gpio, datetime(2012, Month::December, 21, 5, 23, 0))
        .unwrap();
    gpio.registers_mut().advance(86_400 + 3600 + 60 + 1);

    assert_eq!(
        clock.read_datetime(&mut gpio),
        Ok(datetime(2012, Month::December, 22, 6, 24, 1))
    );
}

#[test]
fn write_time_preserves_the_date() {
    let mut gpio = Gpio::new(Cartridge::with_rtc());
    let mut clock = Clock::new(&mut gpio, datetime(2012, Month::December, 21, 5, 23, 0)).unwrap();
    gpio.registers_mut().advance(2 * 86_400 + 100);
    assert_eq!(
        clock.read_date(&mut gpio),
        Ok(date(2012, Month::December, 23))
    );

    // Back in the day.
    clock.write_time(&mut gpio, time(0, 0, 0)).unwrap();
    assert_eq!(
        clock.read_datetime(&mut gpio),
        Ok(datetime(2012, Month::December, 23, 0, 0, 0))
    );

    // Ahead in the day.
    clock.write_time(&mut gpio, time(23, 59, 59)).unwrap();
    assert_eq!(
        clock.read_datetime(&mut gpio),
        Ok(datetime(2012, Month::December, 23, 23, 59, 59))
    );

    // To the time that it shows.
    clock.write_time(&mut gpio, time(23, 59, 59)).unwrap();
    assert_eq!(
        clock.read_datetime(&mut gpio),
        Ok(datetime(2012, Month::December, 23, 23, 59, 59))
    );
}

#[test]
fn write_time_preserves_the_date_where_the_offset_wraps_around() {
    // The RTC is at 0 after the reset, so the clock's value of the RTC lies 19,380 seconds
    // before the end of the century. To move the clock back to midnight moves that value
    // around the end.
    let mut gpio = Gpio::new(Cartridge::with_rtc());
    let mut clock = Clock::new(&mut gpio, datetime(2012, Month::December, 21, 5, 23, 0)).unwrap();
    assert_eq!(clock.rtc_offset(), seconds(CYCLE - 19_380));

    clock.write_time(&mut gpio, time(0, 0, 0)).unwrap();

    assert_eq!(clock.rtc_offset(), seconds(0));
    assert_eq!(clock.base_date(), date(2012, Month::December, 21));
    assert_eq!(
        clock.read_datetime(&mut gpio),
        Ok(datetime(2012, Month::December, 21, 0, 0, 0))
    );
}

#[test]
fn write_date_preserves_the_time() {
    let mut gpio = Gpio::new(Cartridge::with_rtc());
    let mut clock = Clock::new(&mut gpio, datetime(2012, Month::December, 21, 5, 23, 0)).unwrap();
    gpio.registers_mut().advance(3 * 86_400 + 3600 + 7);
    assert_eq!(
        clock.read_datetime(&mut gpio),
        Ok(datetime(2012, Month::December, 24, 6, 23, 7))
    );

    clock
        .write_date(&mut gpio, date(2001, Month::March, 21))
        .unwrap();

    assert_eq!(
        clock.read_datetime(&mut gpio),
        Ok(datetime(2001, Month::March, 21, 6, 23, 7))
    );
    assert_eq!(clock.read_time(&mut gpio), Ok(time(6, 23, 7)));
}

#[test]
fn write_date_preserves_the_time_where_the_rtc_is_behind_it() {
    // After the reset the RTC is at 100 seconds, and the clock shows a later time of day.
    let mut gpio = Gpio::new(Cartridge::with_rtc());
    let mut clock = Clock::new(&mut gpio, datetime(2012, Month::December, 21, 5, 23, 0)).unwrap();
    gpio.registers_mut().advance(100);

    clock
        .write_date(&mut gpio, date(2001, Month::March, 21))
        .unwrap();

    assert_eq!(
        clock.read_datetime(&mut gpio),
        Ok(datetime(2001, Month::March, 21, 5, 24, 40))
    );
}

#[test]
fn clock_follows_the_rtc_around_the_end_of_its_century() {
    let mut gpio = Gpio::new(Cartridge::with_rtc());
    let mut clock = Clock::new(&mut gpio, datetime(2000, Month::January, 1, 0, 0, 0)).unwrap();
    gpio.registers_mut().advance(CYCLE - 10);
    clock
        .write_datetime(&mut gpio, datetime(2012, Month::December, 21, 5, 23, 0))
        .unwrap();

    gpio.registers_mut().advance(30);

    assert_eq!(gpio.registers_mut().seconds, 20);
    assert_eq!(
        clock.read_datetime(&mut gpio),
        Ok(datetime(2012, Month::December, 21, 5, 23, 30))
    );
    assert_eq!(clock.read_time(&mut gpio), Ok(time(5, 23, 30)));
}

#[test]
fn clock_holds_no_fraction_of_a_second() {
    let mut gpio = Gpio::new(Cartridge::with_rtc());
    let initial = PrimitiveDateTime::new(
        date(2012, Month::December, 21),
        Time::from_hms_nano(5, 23, 0, 500_000_000).unwrap(),
    );
    let clock = Clock::new(&mut gpio, initial).unwrap();

    assert_eq!(
        clock.read_datetime(&mut gpio),
        Ok(datetime(2012, Month::December, 21, 5, 23, 0))
    );
}

#[test]
fn write_time_with_a_fraction_of_a_second() {
    let mut gpio = Gpio::new(Cartridge::with_rtc());
    let mut clock = Clock::new(&mut gpio, datetime(2012, Month::December, 21, 5, 23, 0)).unwrap();

    // Ahead of what the clock shows: the whole seconds are shown.
    clock
        .write_time(
            &mut gpio,
            Time::from_hms_nano(10, 0, 0, 500_000_000).unwrap(),
        )
        .unwrap();
    assert_eq!(clock.read_time(&mut gpio), Ok(time(10, 0, 0)));

    // Behind what the clock shows: the second after is shown.
    clock
        .write_time(&mut gpio, Time::from_hms_nano(9, 0, 0, 1).unwrap())
        .unwrap();
    assert_eq!(clock.read_time(&mut gpio), Ok(time(9, 0, 1)));
}

#[test]
fn from_reading_at_and_set() {
    let initial = datetime(2012, Month::December, 21, 5, 23, 0);
    let mut clock = Clock::from_reading(initial, seconds(100));
    assert_eq!(clock.base_date(), date(2012, Month::December, 21));
    assert_eq!(clock.rtc_offset(), seconds(CYCLE - 19_380 + 100));
    assert_eq!(clock.datetime_at(seconds(100)), Ok(initial));
    assert_eq!(
        clock.datetime_at(seconds(3700)),
        Ok(datetime(2012, Month::December, 21, 6, 23, 0))
    );
    assert_eq!(
        clock.date_at(seconds(100 + 19 * 3600)),
        Ok(date(2012, Month::December, 22))
    );
    assert_eq!(
        clock.time_at(RtcTimeOffset::from_seconds(3700).unwrap()),
        time(6, 23, 0)
    );

    clock.set_time_at(time(22, 22, 0), RtcTimeOffset::from_seconds(3700).unwrap());
    assert_eq!(
        clock.datetime_at(seconds(3700)),
        Ok(datetime(2012, Month::December, 21, 22, 22, 0))
    );

    clock.set_date_at(date(2001, Month::March, 21), seconds(3700));
    assert_eq!(
        clock.datetime_at(seconds(3700)),
        Ok(datetime(2001, Month::March, 21, 22, 22, 0))
    );

    clock.set_datetime_at(initial, seconds(5000));
    assert_eq!(clock, Clock::from_reading(initial, seconds(5000)));
}

#[test]
fn datetime_from_sum() {
    assert_eq!(
        Clock::datetime_from_sum(None, seconds(5)),
        Err(Error::Overflow)
    );
    assert_eq!(
        Clock::datetime_from_sum(
            Some(date(2012, Month::December, 22)),
            seconds(86_400 + 19_380)
        ),
        Ok(datetime(2012, Month::December, 22, 5, 23, 0))
    );
}

#[test]
fn restore_takes_up_a_clock() {
    let mut gpio = Gpio::new(Cartridge::with_rtc());
    let initial = datetime(2012, Month::December, 21, 5, 23, 0);
    let clock = Clock::new(&mut gpio, initial).unwrap();
    let (base_date, rtc_offset) = (clock.base_date(), clock.rtc_offset());

    // The console is switched off and on again. The RTC has counted on.
    let mut cartridge = gpio.into_registers();
    cartridge.control = 0;
    cartridge.advance(7200);
    cartridge.commands.clear();
    let mut gpio = Gpio::new(cartridge);

    let restored = Clock::restore(&mut gpio, base_date, rtc_offset).unwrap();

    assert_eq!(restored, clock);
    assert_eq!(
        restored.read_datetime(&mut gpio),
        Ok(datetime(2012, Month::December, 21, 7, 23, 0))
    );
    let cartridge = gpio.into_registers();
    assert_eq!(cartridge.control, 1);
    assert_eq!(cartridge.commands, [0x62, 0x63, 0x67, 0x65]);
    assert_eq!(cartridge.status, 0b0100_0000);
}

#[test]
fn restore_fails_after_a_power_failure() {
    let mut cartridge = Cartridge::with_rtc();
    cartridge.status = 0b1000_0000;
    let mut gpio = Gpio::new(cartridge);

    assert_eq!(
        Clock::restore(&mut gpio, date(2012, Month::December, 21), seconds(0)),
        Err(Error::PowerFailure)
    );
    assert_eq!(gpio.into_registers().commands, [0x62, 0x63]);
}

#[test]
fn restore_fails_in_test_mode() {
    let mut cartridge = Cartridge::with_rtc();
    cartridge.test_mode = true;
    let mut gpio = Gpio::new(cartridge);

    assert_eq!(
        Clock::restore(&mut gpio, date(2012, Month::December, 21), seconds(0)),
        Err(Error::TestMode)
    );
    assert_eq!(gpio.into_registers().commands, [0x62, 0x63, 0x67]);
}

#[test]
fn restore_fails_without_rtc() {
    let mut gpio = Gpio::new(Cartridge::without_rtc());

    assert_eq!(
        Clock::restore(&mut gpio, date(2012, Month::December, 21), seconds(0)),
        Err(Error::NotEnabled)
    );
    assert_eq!(resume(&mut gpio), Err(Error::NotEnabled));
}

#[test]
fn exchanges_are_not_interrupted() {
    let mut gpio = Gpio::new(Cartridge::with_rtc());
    let mut clock = Clock::new(&mut gpio, datetime(2012, Month::December, 21, 5, 23, 0)).unwrap();
    clock.read_datetime(&mut gpio).unwrap();
    clock.read_time(&mut gpio).unwrap();
    clock.write_time(&mut gpio, time(1, 2, 3)).unwrap();

    let cartridge = gpio.into_registers();
    assert_eq!(cartridge.interrupted, 0);
    assert!(cartridge.ime);
}

#[test]
fn exchanges_leave_interrupts_disabled_where_they_were() {
    let mut cartridge = Cartridge::with_rtc();
    cartridge.ime = false;
    let mut gpio = Gpio::new(cartridge);
    let clock = Clock::new(&mut gpio, datetime(2012, Month::December, 21, 5, 23, 0)).unwrap();
    clock.read_datetime(&mut gpio).unwrap();

    assert!(!gpio.into_registers().ime);
}

#[test]
fn exchanges_with_the_rtc() {
    let mut gpio = Gpio::new(Cartridge::with_rtc());
    enable(&mut gpio);

    assert_eq!(reset(&mut gpio), Ok(()));
    assert_eq!(gpio.registers_mut().seconds, 0);
    assert_eq!(try_read_status(&mut gpio).map(|status| status.get()), Ok(0));
    assert_eq!(set_status(&mut gpio, Status::hour_24()), Ok(()));
    assert_eq!(try_read_status(&mut gpio), Ok(Status::hour_24()));
    assert_eq!(is_test_mode(&mut gpio), Ok(false));

    // The 21st of December of the year 12, at 17:23:15.
    let days = 12 * 365 + 3 + 334 + 1 + 20;
    gpio.registers_mut().advance(days * 86_400 + 17 * 3600 + 23 * 60 + 15);
    assert_eq!(
        try_read_datetime_offset(&mut gpio),
        Ok(seconds(days * 86_400 + 17 * 3600 + 23 * 60 + 15))
    );
    assert_eq!(
        try_read_time_offset(&mut gpio),
        Ok(RtcTimeOffset::from_seconds(17 * 3600 + 23 * 60 + 15).unwrap())
    );

    gpio.registers_mut().test_mode = true;
    assert_eq!(is_test_mode(&mut gpio), Ok(true));
    assert_eq!(try_read_time_offset(&mut gpio), Err(Error::TestMode));
    assert_eq!(try_read_datetime_offset(&mut gpio), Err(Error::TestMode));

    // With the test flag, 20 seconds and more are no binary coded decimal.
    gpio.registers_mut().advance(30);
    assert_eq!(is_test_mode(&mut gpio), Ok(true));
    assert_eq!(
        try_read_time_offset(&mut gpio),
        Err(Error::InvalidBinaryCodedDecimal(0xc5))
    );

    gpio.registers_mut().status = 0b1000_0000;
    assert_eq!(try_read_status(&mut gpio), Ok(Status::power()));
}

#[test]
fn exchanges_fail_where_the_port_is_not_enabled() {
    let mut gpio = Gpio::new(Cartridge::with_rtc());

    assert_eq!(reset(&mut gpio), Err(Error::NotEnabled));
    assert_eq!(try_read_status(&mut gpio), Err(Error::NotEnabled));
    assert_eq!(
        set_status(&mut gpio, Status::hour_24()),
        Err(Error::NotEnabled)
    );
    assert_eq!(is_test_mode(&mut gpio), Err(Error::NotEnabled));
    assert_eq!(try_read_time_offset(&mut gpio), Err(Error::NotEnabled));
    assert_eq!(try_read_datetime_offset(&mut gpio), Err(Error::NotEnabled));
    assert_eq!(initialize(&mut gpio), Err(Error::NotEnabled));

    let cartridge = gpio.into_registers();
    assert!(cartridge.commands.is_empty());
    assert_eq!(cartridge.seconds, 1_000_000);
}

#[test]
fn initialize_reads_the_rtc_after_the_reset() {
    let mut gpio = Gpio::new(Cartridge::with_rtc());
    enable(&mut gpio);

    assert_eq!(initialize(&mut gpio), Ok(seconds(0)));
}
