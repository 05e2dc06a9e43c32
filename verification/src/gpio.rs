//! Communications with the RTC over General Purpose I/O.

use crate::bcd::{decoded_datetime, decoded_time, has_top_bit};
use crate::date_time::{RtcDateTimeOffset, RtcTimeOffset};
use crate::error::Error;
use vstd::prelude::*;

verus! {

/// A command used to interact with the RTC.
///
/// These commands are defined in the S-3511A specification.
#[derive(Clone, Copy, Debug, PartialEq, Eq, Structural)]
pub enum Command {
    Reset,
    WriteStatus,
    ReadStatus,
    ReadDateTime,
    ReadTime,
}

impl Command {
    /// The command's code on the wire.
    pub open spec fn spec_code(self) -> u8 {
        match self {
            Command::Reset => 0x60,
            Command::WriteStatus => 0x62,
            Command::ReadStatus => 0x63,
            Command::ReadDateTime => 0x65,
            Command::ReadTime => 0x67,
        }
    }

    /// The command's code on the wire.
    #[verifier::when_used_as_spec(spec_code)]
    pub fn code(self) -> (code: u8)
        ensures
            code == self.spec_code(),
    {
        match self {
            Command::Reset => 0x60,
            Command::WriteStatus => 0x62,
            Command::ReadStatus => 0x63,
            Command::ReadDateTime => 0x65,
            Command::ReadTime => 0x67,
        }
    }
}

/// Configurations for I/O port direction.
///
/// SCK and CS are always driven by the console. SIO is driven by the console to send a bit and
/// left to the RTC to receive one.
#[derive(Clone, Copy, Debug, PartialEq, Eq, Structural)]
pub enum RwMode {
    /// SIO is an input: data can be received from the RTC.
    Read,
    /// SIO is an output: data can be sent to the RTC.
    Write,
}

impl RwMode {
    /// The value of the direction register for this mode.
    pub open spec fn spec_bits(self) -> u16 {
        match self {
            RwMode::Read => 5,
            RwMode::Write => 7,
        }
    }

    /// The value of the direction register for this mode.
    #[verifier::when_used_as_spec(spec_bits)]
    pub fn bits(self) -> (bits: u16)
        ensures
            bits == self.spec_bits(),
    {
        match self {
            RwMode::Read => 5,
            RwMode::Write => 7,
        }
    }
}

/// Data written to or received from the RTC.
///
/// While this is a 16-bit value, only the lowest 3 bits are used: the RTC is wired to 3 of the
/// 4 lines of the port.
#[derive(Clone, Copy, Debug, PartialEq, Eq, Structural)]
pub struct Data(pub u16);

impl Data {
    /// Serial Clock Input.
    pub fn sck() -> (data: Data)
        ensures
            data == Data(0b001),
    {
        Data(0b001)
    }

    /// Serial Data Input/Output.
    pub fn sio() -> (data: Data)
        ensures
            data == Data(0b010),
    {
        Data(0b010)
    }

    /// Chip Select.
    pub fn cs() -> (data: Data)
        ensures
            data == Data(0b100),
    {
        Data(0b100)
    }
}

impl core::ops::BitOr for Data {
    type Output = Data;

    fn bitor(self, other: Data) -> (data: Data) {
        Data(self.0 | other.0)
    }
}

impl vstd::std_specs::ops::BitOrSpecImpl for Data {
    open spec fn obeys_bitor_spec() -> bool {
        true
    }

    open spec fn bitor_req(self, other: Data) -> bool {
        true
    }

    open spec fn bitor_spec(self, other: Data) -> Data {
        Data(self.0 | other.0)
    }
}

impl core::ops::BitOr<u8> for Data {
    type Output = Data;

    fn bitor(self, other: u8) -> (data: Data) {
        Data(self.0 | other as u16)
    }
}

impl vstd::std_specs::ops::BitOrSpecImpl<u8> for Data {
    open spec fn obeys_bitor_spec() -> bool {
        true
    }

    open spec fn bitor_req(self, other: u8) -> bool {
        true
    }

    open spec fn bitor_spec(self, other: u8) -> Data {
        Data(self.0 | other as u16)
    }
}

impl core::ops::BitOr<Data> for u8 {
    type Output = Data;

    fn bitor(self, other: Data) -> (data: Data) {
        Data(self as u16 | other.0)
    }
}

impl vstd::std_specs::ops::BitOrSpecImpl<Data> for u8 {
    open spec fn obeys_bitor_spec() -> bool {
        true
    }

    open spec fn bitor_req(self, other: Data) -> bool {
        true
    }

    open spec fn bitor_spec(self, other: Data) -> Data {
        Data(self as u16 | other.0)
    }
}

impl core::ops::BitAnd for Data {
    type Output = Data;

    fn bitand(self, other: Data) -> (data: Data) {
        Data(self.0 & other.0)
    }
}

impl vstd::std_specs::ops::BitAndSpecImpl for Data {
    open spec fn obeys_bitand_spec() -> bool {
        true
    }

    open spec fn bitand_req(self, other: Data) -> bool {
        true
    }

    open spec fn bitand_spec(self, other: Data) -> Data {
        Data(self.0 & other.0)
    }
}

impl core::convert::From<Data> for u8 {
    fn from(data: Data) -> (byte: u8) {
        data.0 as u8
    }
}

impl vstd::std_specs::convert::FromSpecImpl<Data> for u8 {
    open spec fn obeys_from_spec() -> bool {
        true
    }

    open spec fn from_spec(data: Data) -> u8 {
        data.0 as u8
    }
}

/// One access to a register of the port, or to the interrupt master enable flag.
///
/// A read holds the value that it returned.
#[derive(Clone, Copy, Debug, PartialEq, Eq, Structural)]
pub enum Access {
    /// A value was written to the data register.
    WriteData(Data),
    /// The data register was read.
    ReadData(Data),
    /// A direction was written to the direction register.
    WriteRwMode(RwMode),
    /// A value was written to the control register.
    WriteEnable(u16),
    /// The control register was read.
    ReadEnable(u16),
    /// The interrupt master enable flag was read.
    ReadIme(bool),
    /// The interrupt master enable flag was written.
    WriteIme(bool),
}

/// Access to the registers through which the RTC is reached.
///
/// On a console these are the three registers of the cartridge's general purpose I/O port and
/// the interrupt master enable flag. Every access is volatile: it happens when it is asked for,
/// and in the order asked. Nothing is promised of what a read returns.
pub trait Registers {
    /// Writes to the data register.
    fn write_data(&mut self, data: Data);

    /// Reads the data register.
    fn read_data(&mut self) -> Data;

    /// Writes to the direction register.
    fn write_rw_mode(&mut self, mode: RwMode);

    /// Writes to the control register.
    fn write_enable(&mut self, value: u16);

    /// Reads the control register.
    fn read_enable(&mut self) -> u16;

    /// Reads the interrupt master enable flag.
    fn read_ime(&mut self) -> bool;

    /// Writes the interrupt master enable flag.
    fn write_ime(&mut self, enabled: bool);
}

/// The port through which the RTC is reached, together with the history of its use.
///
/// All of the driver's accesses to the registers go through a `Gpio`, which keeps their
/// history: what was written, what was read and what each read returned, in order. The history
/// is ghost state: contracts speak of it, and it takes no space in a running program.
pub struct Gpio<R: Registers> {
    registers: R,
    log: Ghost<Seq<Access>>,
}

impl<R: Registers> Gpio<R> {
    /// The accesses made so far, oldest first.
    pub closed spec fn log(&self) -> Seq<Access> {
        self.log@
    }

    /// The registers behind the port.
    pub closed spec fn registers(&self) -> R {
        self.registers
    }

    /// The accesses that `self` has made since its history was `before`.
    pub open spec fn since(&self, before: Seq<Access>) -> Seq<Access> {
        self.log().skip(before.len() as int)
    }

    /// The port behind the given registers, with no access made yet.
    pub fn new(registers: R) -> (gpio: Gpio<R>)
        ensures
            gpio.log() == Seq::<Access>::empty(),
            gpio.registers() == registers,
    {
        Gpio { registers, log: Ghost(Seq::empty()) }
    }

    /// Gives the registers back.
    pub fn into_registers(self) -> (registers: R)
        ensures
            registers == self.registers(),
    {
        self.registers
    }

    /// The registers, for what is done with them besides the work with the RTC. The history
    /// does not hold it.
    pub fn registers_mut(&mut self) -> (registers: &mut R)
        ensures
            *registers == old(self).registers(),
            final(self).registers() == *final(registers),
            final(self).log() == old(self).log(),
    {
        &mut self.registers
    }

    /// Writes to the data register.
    pub fn write_data(&mut self, data: Data)
        ensures
            final(self).log() == old(self).log().push(Access::WriteData(data)),
    {
        self.registers.write_data(data);
        proof {
            self.log@ = self.log@.push(Access::WriteData(data));
        }
    }

    /// Reads the data register.
    pub fn read_data(&mut self) -> (data: Data)
        ensures
            final(self).log() == old(self).log().push(Access::ReadData(data)),
    {
        let data = self.registers.read_data();
        proof {
            self.log@ = self.log@.push(Access::ReadData(data));
        }
        data
    }

    /// Writes to the direction register.
    pub fn write_rw_mode(&mut self, mode: RwMode)
        ensures
            final(self).log() == old(self).log().push(Access::WriteRwMode(mode)),
    {
        self.registers.write_rw_mode(mode);
        proof {
            self.log@ = self.log@.push(Access::WriteRwMode(mode));
        }
    }

    /// Writes to the control register.
    pub fn write_enable(&mut self, value: u16)
        ensures
            final(self).log() == old(self).log().push(Access::WriteEnable(value)),
    {
        self.registers.write_enable(value);
        proof {
            self.log@ = self.log@.push(Access::WriteEnable(value));
        }
    }

    /// Reads the control register.
    pub fn read_enable(&mut self) -> (value: u16)
        ensures
            final(self).log() == old(self).log().push(Access::ReadEnable(value)),
    {
        let value = self.registers.read_enable();
        proof {
            self.log@ = self.log@.push(Access::ReadEnable(value));
        }
        value
    }

    /// Reads the interrupt master enable flag.
    pub fn read_ime(&mut self) -> (enabled: bool)
        ensures
            final(self).log() == old(self).log().push(Access::ReadIme(enabled)),
    {
        let enabled = self.registers.read_ime();
        proof {
            self.log@ = self.log@.push(Access::ReadIme(enabled));
        }
        enabled
    }

    /// Writes the interrupt master enable flag.
    pub fn write_ime(&mut self, enabled: bool)
        ensures
            final(self).log() == old(self).log().push(Access::WriteIme(enabled)),
    {
        self.registers.write_ime(enabled);
        proof {
            self.log@ = self.log@.push(Access::WriteIme(enabled));
        }
    }
}

/// Whether bit `index` of a byte is set, where bit 0 is the lowest.
pub open spec fn bit_of(byte: u8, index: u8) -> bool {
    (byte >> index) & 1 == 1
}

/// What the console puts on the lines to send a bit: CS is high, SIO carries the bit and SCK is
/// high where `clock` is.
pub open spec fn driven(bit: bool, clock: bool) -> Data {
    Data(
        if bit {
            if clock {
                0b111
            } else {
                0b110
            }
        } else {
            if clock {
                0b101
            } else {
                0b100
            }
        },
    )
}

/// Whether the RTC holds SIO high in what was read from the data register.
pub open spec fn is_high(level: Data) -> bool {
    (level.0 / 2) % 2 == 1
}

/// The writes that send a command: its code, highest bit first.
///
/// Each bit takes four writes: three with the bit on SIO while SCK is low, and one more with
/// SCK high, on which the RTC takes the bit.
#[verifier::opaque]
pub open spec fn command_writes(command: Command) -> Seq<Access> {
    Seq::new(
        32,
        |k: int| Access::WriteData(driven(bit_of(command.spec_code(), (7 - k / 4) as u8), k % 4 == 3)),
    )
}

/// The writes that send a byte of data, lowest bit first, four writes to the bit as for a
/// command.
#[verifier::opaque]
pub open spec fn byte_writes(byte: u8) -> Seq<Access> {
    Seq::new(32, |k: int| Access::WriteData(driven(bit_of(byte, (k / 4) as u8), k % 4 == 3)))
}

/// The accesses that receive one bit for each of `levels`.
///
/// Each bit takes seven accesses: five writes with SCK low, one with SCK high, on which the RTC
/// puts the bit on SIO, and the read that finds the lines at that level.
#[verifier::opaque]
pub open spec fn bit_reads(levels: Seq<Data>) -> Seq<Access> {
    Seq::new(
        7 * levels.len(),
        |k: int|
            if k % 7 == 6 {
                Access::ReadData(levels[k / 7])
            } else {
                Access::WriteData(driven(false, k % 7 == 5))
            },
    )
}

/// What the data register held at the `count` reads of the bits that are received from
/// access `start` of `accesses` on.
#[verifier::opaque]
pub open spec fn read_levels(accesses: Seq<Access>, start: int, count: nat) -> Seq<Data> {
    Seq::new(
        count,
        |j: int|
            match accesses[start + 7 * j + 6] {
                Access::ReadData(level) => level,
                _ => Data(0),
            },
    )
}

/// The byte that eight levels hold on SIO, lowest bit first.
pub open spec fn received_byte(levels: Seq<Data>) -> u8 {
    ((if is_high(levels[0]) { 1int } else { 0int })
        + (if is_high(levels[1]) { 2int } else { 0int })
        + (if is_high(levels[2]) { 4int } else { 0int })
        + (if is_high(levels[3]) { 8int } else { 0int })
        + (if is_high(levels[4]) { 16int } else { 0int })
        + (if is_high(levels[5]) { 32int } else { 0int })
        + (if is_high(levels[6]) { 64int } else { 0int })
        + (if is_high(levels[7]) { 128int } else { 0int })) as u8
}

/// Levels that hold the bits of a byte on SIO, lowest bit first, are received as that byte:
/// what [`write_byte`] sends is what [`read_byte`] receives.
pub proof fn lemma_received_byte_of_bits(byte: u8, levels: Seq<Data>)
    requires
        levels.len() == 8,
        forall|index: u8| 0 <= index < 8 ==> is_high(#[trigger] levels[index as int]) == bit_of(byte, index),
    ensures
        received_byte(levels) == byte,
{
    assert(is_high(levels[0u8 as int]) == bit_of(byte, 0));
    assert(is_high(levels[1u8 as int]) == bit_of(byte, 1));
    assert(is_high(levels[2u8 as int]) == bit_of(byte, 2));
    assert(is_high(levels[3u8 as int]) == bit_of(byte, 3));
    assert(is_high(levels[4u8 as int]) == bit_of(byte, 4));
    assert(is_high(levels[5u8 as int]) == bit_of(byte, 5));
    assert(is_high(levels[6u8 as int]) == bit_of(byte, 6));
    assert(is_high(levels[7u8 as int]) == bit_of(byte, 7));
    assert(byte == (if (byte >> 0u8) & 1 == 1 { 1int } else { 0int })
        + (if (byte >> 1u8) & 1 == 1 { 2int } else { 0int })
        + (if (byte >> 2u8) & 1 == 1 { 4int } else { 0int })
        + (if (byte >> 3u8) & 1 == 1 { 8int } else { 0int })
        + (if (byte >> 4u8) & 1 == 1 { 16int } else { 0int })
        + (if (byte >> 5u8) & 1 == 1 { 32int } else { 0int })
        + (if (byte >> 6u8) & 1 == 1 { 64int } else { 0int })
        + (if (byte >> 7u8) & 1 == 1 { 128int } else { 0int })) by (bit_vector);
}

/// The byte into which the bits of `levels` were shifted from the top, one after another.
spec fn shifted_in(levels: Seq<Data>) -> int
    decreases levels.len(),
{
    if levels.len() == 0 {
        0
    } else {
        shifted_in(levels.drop_last()) / 2 + (if is_high(levels.last()) {
            128int
        } else {
            0int
        })
    }
}

/// Eight bits shifted in from the top arrive lowest bit first.
proof fn lemma_shifted_in_byte(levels: Seq<Data>)
    requires
        levels.len() == 8,
    ensures
        shifted_in(levels) == received_byte(levels),
{
    let l7 = levels.drop_last();
    let l6 = l7.drop_last();
    let l5 = l6.drop_last();
    let l4 = l5.drop_last();
    let l3 = l4.drop_last();
    let l2 = l3.drop_last();
    let l1 = l2.drop_last();
    let l0 = l1.drop_last();
    assert(shifted_in(l0) == 0);
    assert(shifted_in(l1) == (if is_high(levels[0]) { 128int } else { 0int }));
    assert(shifted_in(l2) == shifted_in(l1) / 2 + (if is_high(levels[1]) { 128int } else { 0int }));
    assert(shifted_in(l3) == shifted_in(l2) / 2 + (if is_high(levels[2]) { 128int } else { 0int }));
    assert(shifted_in(l4) == shifted_in(l3) / 2 + (if is_high(levels[3]) { 128int } else { 0int }));
    assert(shifted_in(l5) == shifted_in(l4) / 2 + (if is_high(levels[4]) { 128int } else { 0int }));
    assert(shifted_in(l6) == shifted_in(l5) / 2 + (if is_high(levels[5]) { 128int } else { 0int }));
    assert(shifted_in(l7) == shifted_in(l6) / 2 + (if is_high(levels[6]) { 128int } else { 0int }));
    assert(shifted_in(levels) == shifted_in(l7) / 2 + (if is_high(levels[7]) { 128int } else { 0int }));
}

/// How many accesses it takes to send and to receive, and how many levels are read.
proof fn lemma_lengths()
    ensures
        forall|command: Command| #[trigger] command_writes(command).len() == 32,
        forall|byte: u8| #[trigger] byte_writes(byte).len() == 32,
        forall|levels: Seq<Data>| #[trigger] bit_reads(levels).len() == 7 * levels.len(),
        forall|accesses: Seq<Access>, start: int, count: nat| #[trigger]
            read_levels(accesses, start, count).len() == count,
{
    reveal(command_writes);
    reveal(byte_writes);
    reveal(bit_reads);
    reveal(read_levels);
}

/// The levels read depend on the accesses that read them alone.
proof fn lemma_read_levels_agree(a: Seq<Access>, b: Seq<Access>, start: int, count: nat)
    requires
        0 <= start,
        forall|i: int| start <= i < start + 7 * count ==> a[i] == b[i],
    ensures
        read_levels(a, start, count) == read_levels(b, start, count),
{
    reveal(read_levels);
    assert(read_levels(a, start, count) =~= read_levels(b, start, count)) by {
        assert forall|j: int| 0 <= j < count implies #[trigger] read_levels(a, start, count)[j]
            == read_levels(b, start, count)[j] by {
            assert(a[start + 7 * j + 6] == b[start + 7 * j + 6]);
        }
    }
}

/// The levels that are received are the levels that are read.
proof fn lemma_read_levels_of_bit_reads(accesses: Seq<Access>, start: int, levels: Seq<Data>)
    requires
        0 <= start,
        start + 7 * levels.len() <= accesses.len(),
        accesses.subrange(start, start + 7 * levels.len()) == bit_reads(levels),
    ensures
        read_levels(accesses, start, levels.len()) == levels,
{
    reveal(read_levels);
    reveal(bit_reads);
    assert(read_levels(accesses, start, levels.len()) =~= levels) by {
        assert forall|j: int| 0 <= j < levels.len() implies #[trigger] read_levels(
            accesses,
            start,
            levels.len(),
        )[j] == levels[j] by {
            assert(accesses[start + 7 * j + 6] == accesses.subrange(
                start,
                start + 7 * levels.len(),
            )[7 * j + 6]);
        }
    }
}

/// Receiving bits and then more bits is receiving all of them.
proof fn lemma_bit_reads_add(earlier: Seq<Data>, later: Seq<Data>)
    ensures
        bit_reads(earlier) + bit_reads(later) == bit_reads(earlier + later),
{
    reveal(bit_reads);
    let both = bit_reads(earlier + later);
    let sum = bit_reads(earlier) + bit_reads(later);
    assert forall|k: int| 0 <= k < both.len() implies both[k] == sum[k] by {
        if k >= 7 * earlier.len() {
            let q = k - 7 * earlier.len();
            assert(k / 7 == q / 7 + earlier.len());
            assert(k % 7 == q % 7);
        }
    }
    assert(both =~= sum);
}

/// The console's levels are the bits that it sets in the data register.
proof fn lemma_driven_levels()
    by (bit_vector)
    ensures
        0b100u16 | 0u8 as u16 == 0b100u16,
        0b100u16 | 2u8 as u16 == 0b110u16,
        (0b100u16 | 0b001u16) | 0u8 as u16 == 0b101u16,
        (0b100u16 | 0b001u16) | 2u8 as u16 == 0b111u16,
        0u8 as u16 | 0b100u16 == 0b100u16,
        2u8 as u16 | 0b100u16 == 0b110u16,
        (0u8 as u16 | 0b100u16) | 0b001u16 == 0b101u16,
        (2u8 as u16 | 0b100u16) | 0b001u16 == 0b111u16,
        0b100u16 | 0b001u16 == 0b101u16,
{
}

/// Send a command to the RTC.
///
/// This must be called before every interaction with the RTC. See the `Command` variants for more
/// information.
pub fn send_command<R: Registers>(gpio: &mut Gpio<R>, command: Command)
    ensures
        final(gpio).log() == old(gpio).log() + command_writes(command),
{
    let code = command.code();
    let bits = code << 1;
    let ghost before = gpio.log();
    let ghost writes = command_writes(command);
    proof {
        reveal(command_writes);
    }
    // Bits must be sent from highest to lowest.
    let mut i: u8 = 8;
    while i > 0
        invariant
            i <= 8,
            code == command.spec_code(),
            code < 0x80,
            bits == code << 1,
            writes == command_writes(command),
            gpio.log() == before + writes.take(4 * (8 - i)),
        decreases i,
    {
        i -= 1;
        let bit = (bits >> i) & 2;
        assert(bit == (if bit_of(code, i) { 2u8 } else { 0u8 })) by (bit_vector)
            requires
                i < 8,
                code < 0x80,
                bits == code << 1,
                bit == (bits >> i) & 2,
        ;
        proof {
            lemma_driven_levels();
        }
        gpio.write_data(Data::cs() | bit);
        gpio.write_data(Data::cs() | bit);
        gpio.write_data(Data::cs() | bit);
        gpio.write_data(Data::cs() | Data::sck() | bit);
        proof {
            reveal(command_writes);
            let first = 4 * (7 - i);
            assert(writes[first] == Access::WriteData(driven(bit_of(code, i), false)));
            assert(writes[first + 1] == Access::WriteData(driven(bit_of(code, i), false)));
            assert(writes[first + 2] == Access::WriteData(driven(bit_of(code, i), false)));
            assert(writes[first + 3] == Access::WriteData(driven(bit_of(code, i), true)));
            assert(gpio.log() =~= before + writes.take(first + 4));
        }
    }
    assert(writes.take(32) =~= writes);
}

/// Read a single byte.
///
/// The byte comes lowest bit first, one bit to each rising edge of SCK.
pub fn read_byte<R: Registers>(gpio: &mut Gpio<R>) -> (byte: u8)
    ensures
        final(gpio).log() == old(gpio).log() + bit_reads(
            read_levels(final(gpio).since(old(gpio).log()), 0, 8),
        ),
        byte == received_byte(read_levels(final(gpio).since(old(gpio).log()), 0, 8)),
{
    let mut byte: u8 = 0;
    let ghost before = gpio.log();
    let ghost mut levels = Seq::<Data>::empty();
    let mut i: u8 = 0;
    proof {
        reveal(bit_reads);
        assert(gpio.log() =~= before + bit_reads(levels));
    }
    while i < 8
        invariant
            i <= 8,
            levels.len() == i,
            gpio.log() == before + bit_reads(levels),
            byte == shifted_in(levels),
        decreases 8 - i,
    {
        proof {
            lemma_driven_levels();
        }
        gpio.write_data(Data::cs());
        gpio.write_data(Data::cs());
        gpio.write_data(Data::cs());
        gpio.write_data(Data::cs());
        gpio.write_data(Data::cs());
        gpio.write_data(Data::cs() | Data::sck());
        let level = gpio.read_data();
        let bit = u8::from(level & Data::sio());
        let ghost shifted = byte;
        let ghost lines = level.0;
        byte = (byte >> 1) | ((bit >> 1) << 7);
        assert(byte == shifted / 2 + (if (lines / 2) % 2 == 1 { 128int } else { 0int })) by (bit_vector)
            requires
                bit == (lines & 0b010u16) as u8,
                byte == (shifted >> 1) | ((bit >> 1) << 7),
        ;
        proof {
            reveal(bit_reads);
            let longer = levels.push(level);
            assert(longer.drop_last() =~= levels);
            assert(gpio.log() =~= before + bit_reads(longer));
            levels = longer;
        }
        i += 1;
    }
    proof {
        let seen = gpio.log().skip(before.len() as int);
        lemma_lengths();
        assert(seen =~= bit_reads(levels));
        assert(seen.subrange(0, 56) =~= bit_reads(levels));
        lemma_read_levels_of_bit_reads(seen, 0, levels);
        lemma_shifted_in_byte(levels);
    }
    byte
}

/// Write a single byte.
///
/// The byte goes lowest bit first, four writes to the bit.
pub fn write_byte<R: Registers>(gpio: &mut Gpio<R>, byte: u8)
    ensures
        final(gpio).log() == old(gpio).log() + byte_writes(byte),
{
    let ghost before = gpio.log();
    let ghost writes = byte_writes(byte);
    proof {
        reveal(byte_writes);
    }
    let mut i: u8 = 0;
    assert(gpio.log() =~= before + writes.take(0));
    while i < 8
        invariant
            i <= 8,
            writes == byte_writes(byte),
            gpio.log() == before + writes.take(4 * i),
        decreases 8 - i,
    {
        let bit = (byte >> i << 1) & 2;
        assert(bit == (if bit_of(byte, i) { 2u8 } else { 0u8 })) by (bit_vector)
            requires
                i < 8,
                bit == (byte >> i << 1) & 2,
        ;
        proof {
            lemma_driven_levels();
        }
        gpio.write_data(bit | Data::cs());
        gpio.write_data(bit | Data::cs());
        gpio.write_data(bit | Data::cs());
        gpio.write_data(bit | Data::cs() | Data::sck());
        proof {
            reveal(byte_writes);
            let first = 4 * i;
            assert(writes[first] == Access::WriteData(driven(bit_of(byte, i), false)));
            assert(writes[first + 1] == Access::WriteData(driven(bit_of(byte, i), false)));
            assert(writes[first + 2] == Access::WriteData(driven(bit_of(byte, i), false)));
            assert(writes[first + 3] == Access::WriteData(driven(bit_of(byte, i), true)));
            assert(gpio.log() =~= before + writes.take(first + 4));
        }
        i += 1;
    }
    assert(writes.take(32) =~= writes);
}

/// Enable operations with the RTC via General Purpose I/O (GPIO).
pub fn enable<R: Registers>(gpio: &mut Gpio<R>)
    ensures
        final(gpio).log() == old(gpio).log().push(Access::WriteEnable(1)),
{
    gpio.write_enable(1);
}

/// Disable operations with the RTC via General Purpose I/O (GPIO).
pub fn disable<R: Registers>(gpio: &mut Gpio<R>)
    ensures
        final(gpio).log() == old(gpio).log().push(Access::WriteEnable(0)),
{
    gpio.write_enable(0);
}

/// The RTC's status register.
///
/// This is an 8-bit representation of the various modes and states stored in the RTC itself. All
/// bits except the power flag are writable. Bits 0, 2, and 4 are unused and are never set.
#[derive(Clone, Copy, Debug, PartialEq, Eq, Structural)]
pub struct Status(u8);

impl View for Status {
    type V = u8;

    closed spec fn view(&self) -> u8 {
        self.0
    }
}

impl Status {
    /// The bits that a status register never has set.
    pub open spec fn unused_bits() -> u8 {
        0b0001_0101
    }

    /// No unused bit is set.
    #[verifier::type_invariant]
    pub open spec fn wf(self) -> bool {
        self@ & Status::unused_bits() == 0
    }

    /// The content of a status register that a byte stands for, if none of its unused bits is
    /// set.
    pub open spec fn spec_try_from(value: u8) -> Result<u8, Error> {
        if value & Status::unused_bits() != 0 {
            Err(Error::InvalidStatus(value))
        } else {
            Ok(value)
        }
    }

    /// The backup power was lost. This bit cannot be written.
    pub fn power() -> (status: Status)
        ensures
            status@ == 0b1000_0000,
    {
        assert(0b1000_0000u8 & 0b0001_0101 == 0) by (bit_vector);
        Status(0b1000_0000)
    }

    /// The hours are counted from 0 to 23.
    pub fn hour_24() -> (status: Status)
        ensures
            status@ == 0b0100_0000,
    {
        assert(0b0100_0000u8 & 0b0001_0101 == 0) by (bit_vector);
        Status(0b0100_0000)
    }

    /// Interprets a byte read from the status register.
    pub fn try_from(value: u8) -> (result: Result<Status, Error>)
        ensures
            match result {
                Ok(status) => Status::spec_try_from(value) == Ok::<u8, Error>(status@),
                Err(error) => Status::spec_try_from(value) == Err::<u8, Error>(error),
            },
    {
        // Check for unused bits.
        if value & 0b0001_0101 != 0 {
            Err(Error::InvalidStatus(value))
        } else {
            Ok(Status(value))
        }
    }

    /// The register content.
    pub fn get(&self) -> (value: u8)
        ensures
            value == self@,
            value & Status::unused_bits() == 0,
    {
        proof {
            use_type_invariant(self);
        }
        self.0
    }

    /// Whether a bit of `other` is set in this status.
    pub fn contains(&self, other: &Status) -> (found: bool)
        ensures
            found == (self@ & other@ != 0),
    {
        self.0 & other.0 != 0
    }
}

/// What the control register held when an exchange that starts `accesses` read it.
pub open spec fn enable_read(accesses: Seq<Access>) -> u16 {
    match accesses[0] {
        Access::ReadEnable(value) => value,
        _ => 0,
    }
}

/// Whether interrupts were enabled when an exchange that starts `accesses` read the flag.
pub open spec fn ime_read(accesses: Seq<Access>) -> bool {
    accesses[1] == Access::ReadIme(true)
}

/// The number of bytes that the RTC sends in answer to a command.
pub open spec fn answer_len(command: Command) -> nat {
    match command {
        Command::ReadStatus => 1,
        Command::ReadDateTime => 7,
        Command::ReadTime => 3,
        _ => 0,
    }
}

/// The number of accesses of an exchange before the first access that receives a bit.
pub open spec fn answer_start() -> int {
    39
}

/// Byte `index` of the RTC's answer in an exchange that starts `accesses`.
pub open spec fn answer_byte(accesses: Seq<Access>, index: int) -> u8 {
    received_byte(read_levels(accesses, answer_start() + 56 * index, 8))
}

/// The accesses that open an exchange: interrupts are disabled, CS is raised while SCK is
/// high, and SIO is made an output.
pub open spec fn opening(ime: bool) -> Seq<Access> {
    seq![
        Access::ReadIme(ime),
        Access::WriteIme(false),
        Access::WriteData(Data(0b001)),
        Access::WriteData(Data(0b101)),
        Access::WriteRwMode(RwMode::Write),
    ]
}

/// The accesses that close an exchange: CS is lowered while SCK stays high, and the interrupt
/// master enable flag gets back what it held.
pub open spec fn closing(ime: bool) -> Seq<Access> {
    seq![Access::WriteData(Data(0b001)), Access::WriteData(Data(0b001)), Access::WriteIme(ime)]
}

/// The accesses between the command and the end of an exchange.
///
/// After a command that writes, the console sends the byte `sent`. After a command that reads,
/// it makes SIO an input and receives the answer, whose bits are what the reads in `accesses`
/// returned.
pub open spec fn payload(command: Command, sent: u8, accesses: Seq<Access>) -> Seq<Access> {
    match command {
        Command::Reset => Seq::empty(),
        Command::WriteStatus => byte_writes(sent),
        _ => seq![Access::WriteRwMode(RwMode::Read)] + bit_reads(
            read_levels(accesses, answer_start(), 8 * answer_len(command)),
        ),
    }
}

/// The accesses of one exchange with the RTC, in which the reads returned what they return in
/// `accesses`.
///
/// The exchange starts with a read of the control register. Where that does not hold 1, the
/// port is not enabled and nothing more is done. Else the exchange is opened, the command is
/// sent, data is sent or received, and the exchange is closed.
#[verifier::opaque]
pub open spec fn exchange(command: Command, sent: u8, accesses: Seq<Access>) -> Seq<Access> {
    if enable_read(accesses) == 1 {
        seq![Access::ReadEnable(1)] + opening(ime_read(accesses)) + command_writes(command)
            + payload(command, sent, accesses) + closing(ime_read(accesses))
    } else {
        seq![Access::ReadEnable(enable_read(accesses))]
    }
}

/// What follows the first exchange in `accesses`.
pub open spec fn after(command: Command, accesses: Seq<Access>) -> Seq<Access> {
    accesses.skip(exchange(command, 0, accesses).len() as int)
}

/// The status that the RTC reported in an exchange that starts `accesses`.
#[verifier::opaque]
pub open spec fn status_answer(accesses: Seq<Access>) -> Result<u8, Error> {
    if enable_read(accesses) != 1 {
        Err(Error::NotEnabled)
    } else {
        Status::spec_try_from(answer_byte(accesses, 0))
    }
}

/// Whether the RTC reported, in an exchange for its time that starts `accesses`, that it is in
/// test mode.
#[verifier::opaque]
pub open spec fn test_mode_answer(accesses: Seq<Access>) -> Result<bool, Error> {
    if enable_read(accesses) != 1 {
        Err(Error::NotEnabled)
    } else {
        Ok(has_top_bit(answer_byte(accesses, 2)))
    }
}

/// The seconds since midnight that the RTC reported in an exchange that starts `accesses`.
#[verifier::opaque]
pub open spec fn time_answer(accesses: Seq<Access>) -> Result<int, Error> {
    if enable_read(accesses) != 1 {
        Err(Error::NotEnabled)
    } else {
        decoded_time(answer_byte(accesses, 0), answer_byte(accesses, 1), answer_byte(accesses, 2))
    }
}

/// The seconds since the start of the century that the RTC reported in an exchange that
/// starts `accesses`. The fourth byte of the answer, the day of the week, is not looked at.
#[verifier::opaque]
pub open spec fn datetime_answer(accesses: Seq<Access>) -> Result<int, Error> {
    if enable_read(accesses) != 1 {
        Err(Error::NotEnabled)
    } else {
        decoded_datetime(
            answer_byte(accesses, 0),
            answer_byte(accesses, 1),
            answer_byte(accesses, 2),
            answer_byte(accesses, 4),
            answer_byte(accesses, 5),
            answer_byte(accesses, 6),
        )
    }
}

/// What the RTC reports lies within the day, and within the century.
pub proof fn lemma_answer_ranges(accesses: Seq<Access>)
    ensures
        time_answer(accesses) matches Ok(seconds) ==> 0 <= seconds < 86_400,
        datetime_answer(accesses) matches Ok(seconds) ==> 0 <= seconds < 3_155_760_000,
{
    reveal(time_answer);
    reveal(datetime_answer);
    crate::bcd::lemma_decoded_ranges(
        answer_byte(accesses, 0),
        answer_byte(accesses, 1),
        answer_byte(accesses, 2),
        answer_byte(accesses, 4),
        answer_byte(accesses, 5),
        answer_byte(accesses, 6),
    );
    crate::bcd::lemma_decoded_ranges(
        0,
        0,
        0,
        answer_byte(accesses, 0),
        answer_byte(accesses, 1),
        answer_byte(accesses, 2),
    );
}

/// Starts an exchange, unless the port is not enabled, and sends the command.
///
/// Interrupts are disabled first, and what the interrupt master enable flag held is returned:
/// the RTC takes its data one bit at a time and must not be interrupted in between.
fn open_exchange<R: Registers>(gpio: &mut Gpio<R>, command: Command) -> (opened: Result<bool, Error>)
    ensures
        match opened {
            Ok(ime) => final(gpio).log() == old(gpio).log() + (seq![Access::ReadEnable(1)]
                + opening(ime) + command_writes(command)),
            Err(error) => error == Error::NotEnabled && enable_read(
                final(gpio).since(old(gpio).log()),
            ) != 1 && final(gpio).log() == old(gpio).log() + exchange(
                command,
                0,
                final(gpio).since(old(gpio).log()),
            ),
        },
{
    let ghost before = gpio.log();
    let enabled = gpio.read_enable();
    if enabled != 1 {
        proof {
            reveal(exchange);
            let seen = gpio.since(before);
            assert(seen =~= seq![Access::ReadEnable(enabled)]);
            assert(gpio.log() =~= before + exchange(command, 0, seen));
        }
        return Err(Error::NotEnabled);
    }
    let previous_ime = gpio.read_ime();
    gpio.write_ime(false);
    gpio.write_data(Data::sck());
    proof {
        lemma_driven_levels();
    }
    gpio.write_data(Data::cs() | Data::sck());
    gpio.write_rw_mode(RwMode::Write);
    let ghost opened = gpio.log();
    send_command(gpio, command);
    proof {
        assert(opened =~= before + (seq![Access::ReadEnable(1)] + opening(previous_ime)));
        assert(gpio.log() =~= before + (seq![Access::ReadEnable(1)] + opening(previous_ime)
            + command_writes(command)));
    }
    Ok(previous_ime)
}

/// Ends an exchange and gives the interrupt master enable flag back what it held.
fn close_exchange<R: Registers>(gpio: &mut Gpio<R>, previous_ime: bool)
    ensures
        final(gpio).log() == old(gpio).log() + closing(previous_ime),
{
    let ghost before = gpio.log();
    gpio.write_data(Data::sck());
    gpio.write_data(Data::sck());
    gpio.write_ime(previous_ime);
    assert(gpio.log() =~= before + closing(previous_ime));
}

/// Receives the next byte of an answer of which the bits `levels` were received since the
/// history of the port was `prefix`. Returns the byte, and all of the bits received since.
fn receive<R: Registers>(gpio: &mut Gpio<R>, Ghost(prefix): Ghost<Seq<Access>>, Ghost(levels): Ghost<
    Seq<Data>,
>) -> (received: (u8, Ghost<Seq<Data>>))
    requires
        old(gpio).log() == prefix + bit_reads(levels),
    ensures
        final(gpio).log() == prefix + bit_reads(received.1@),
        received.1@.len() == levels.len() + 8,
        received.1@.take(levels.len() as int) == levels,
        received.0 == received_byte(received.1@.skip(levels.len() as int)),
{
    let ghost before = gpio.log();
    let byte = read_byte(gpio);
    let ghost fresh = read_levels(gpio.since(before), 0, 8);
    let ghost longer = levels + fresh;
    proof {
        lemma_lengths();
        lemma_bit_reads_add(levels, fresh);
        assert(gpio.log() =~= prefix + bit_reads(longer));
        assert(longer.take(levels.len() as int) =~= levels);
        assert(longer.skip(levels.len() as int) =~= fresh);
    }
    (byte, Ghost(longer))
}

/// What was accessed in an exchange in which an answer was received are the accesses of an
/// exchange, and the bytes of the answer are the bytes that the bits received make.
proof fn lemma_answered(
    log: Seq<Access>,
    start: Seq<Access>,
    command: Command,
    ime: bool,
    levels: Seq<Data>,
)
    requires
        answer_len(command) > 0,
        levels.len() == 8 * answer_len(command),
        log == (start + (seq![Access::ReadEnable(1)] + opening(ime) + command_writes(command))).push(
            Access::WriteRwMode(RwMode::Read),
        ) + bit_reads(levels) + closing(ime),
    ensures
        start.len() <= log.len(),
        log == start + exchange(command, 0, log.skip(start.len() as int)),
        enable_read(log.skip(start.len() as int)) == 1,
        forall|index: int|
            0 <= index < answer_len(command) ==> #[trigger] answer_byte(
                log.skip(start.len() as int),
                index,
            ) == received_byte(levels.subrange(8 * index, 8 * index + 8)),
{
    lemma_lengths();
    reveal(exchange);
    let seen = log.skip(start.len() as int);
    let head = seq![Access::ReadEnable(1)] + opening(ime) + command_writes(command);
    assert(head.len() == 38);
    assert(seen =~= head.push(Access::WriteRwMode(RwMode::Read)) + bit_reads(levels) + closing(ime));
    assert(seen[0] == Access::ReadEnable(1));
    assert(seen[1] == Access::ReadIme(ime));
    assert(seen.subrange(answer_start(), answer_start() + 7 * levels.len()) =~= bit_reads(levels));
    lemma_read_levels_of_bit_reads(seen, answer_start(), levels);
    assert(seen =~= exchange(command, 0, seen));
    assert(log =~= start + exchange(command, 0, seen));
    assert forall|index: int| 0 <= index < answer_len(command) implies #[trigger] answer_byte(
        seen,
        index,
    ) == received_byte(levels.subrange(8 * index, 8 * index + 8)) by {
        let part = levels.subrange(8 * index, 8 * index + 8);
        let from = answer_start() + 56 * index;
        lemma_bit_reads_add(levels.take(8 * index), part);
        lemma_bit_reads_add(levels.take(8 * index) + part, levels.skip(8 * index + 8));
        assert(levels =~= levels.take(8 * index) + part + levels.skip(8 * index + 8));
        assert(seen.subrange(from, from + 56) =~= bit_reads(part));
        lemma_read_levels_of_bit_reads(seen, from, part);
    }
}

/// Sends the command for the time, and receives the three bytes of the answer.
fn read_time_bytes<R: Registers>(gpio: &mut Gpio<R>) -> (result: Result<(u8, u8, u8), Error>)
    ensures
        final(gpio).log() == old(gpio).log() + exchange(
            Command::ReadTime,
            0,
            final(gpio).since(old(gpio).log()),
        ),
        match result {
            Ok(bytes) => {
                &&& enable_read(final(gpio).since(old(gpio).log())) == 1
                &&& bytes.0 == answer_byte(final(gpio).since(old(gpio).log()), 0)
                &&& bytes.1 == answer_byte(final(gpio).since(old(gpio).log()), 1)
                &&& bytes.2 == answer_byte(final(gpio).since(old(gpio).log()), 2)
            },
            Err(error) => error == Error::NotEnabled && enable_read(
                final(gpio).since(old(gpio).log()),
            ) != 1,
        },
{
    let ghost start = gpio.log();
    let previous_ime = match open_exchange(gpio, Command::ReadTime) {
        Ok(previous_ime) => previous_ime,
        Err(error) => {
            return Err(error);
        },
    };
    gpio.write_rw_mode(RwMode::Read);
    let ghost prefix = gpio.log();
    proof {
        lemma_lengths();
        assert(gpio.log() =~= prefix + bit_reads(Seq::<Data>::empty()));
    }
    let (first, Ghost(l1)) = receive(gpio, Ghost(prefix), Ghost(Seq::empty()));
    let (second, Ghost(l2)) = receive(gpio, Ghost(prefix), Ghost(l1));
    let (third, Ghost(l3)) = receive(gpio, Ghost(prefix), Ghost(l2));
    close_exchange(gpio, previous_ime);
    proof {
        lemma_answered(gpio.log(), start, Command::ReadTime, previous_ime, l3);
        assert(l3.subrange(0, 8) =~= l1.skip(0));
        assert(l3.subrange(8, 16) =~= l2.skip(8));
        assert(l3.subrange(16, 24) =~= l3.skip(16));
        assert(answer_byte(gpio.since(start), 0) == first);
        assert(answer_byte(gpio.since(start), 1) == second);
        assert(answer_byte(gpio.since(start), 2) == third);
    }
    Ok((first, second, third))
}

/// Attempt to obtain the `Status` register from the RTC.
///
/// This is one exchange with the RTC. It fails with [`Error::NotEnabled`] where the port is
/// not enabled, and with [`Error::InvalidStatus`] where the RTC's answer has an unused bit set.
pub fn try_read_status<R: Registers>(gpio: &mut Gpio<R>) -> (result: Result<Status, Error>)
    ensures
        final(gpio).log() == old(gpio).log() + exchange(
            Command::ReadStatus,
            0,
            final(gpio).since(old(gpio).log()),
        ),
        match result {
            Ok(status) => status_answer(final(gpio).since(old(gpio).log())) == Ok::<u8, Error>(
                status@,
            ),
            Err(error) => status_answer(final(gpio).since(old(gpio).log())) == Err::<u8, Error>(
                error,
            ),
        },
{
    let ghost start = gpio.log();
    // Request status.
    proof {
        reveal(status_answer);
    }
    let previous_ime = match open_exchange(gpio, Command::ReadStatus) {
        Ok(previous_ime) => previous_ime,
        Err(error) => {
            return Err(error);
        },
    };
    // Receive status.
    gpio.write_rw_mode(RwMode::Read);
    let ghost prefix = gpio.log();
    proof {
        lemma_lengths();
        assert(gpio.log() =~= prefix + bit_reads(Seq::<Data>::empty()));
    }
    let (status, Ghost(levels)) = receive(gpio, Ghost(prefix), Ghost(Seq::empty()));
    close_exchange(gpio, previous_ime);
    proof {
        lemma_answered(gpio.log(), start, Command::ReadStatus, previous_ime, levels);
        assert(levels.subrange(0, 8) =~= levels.skip(0));
        assert(answer_byte(gpio.since(start), 0) == status);
    }
    Status::try_from(status)
}

/// Resets the RTC: its date and time become the first second of its century, and its status
/// register is cleared.
///
/// This is one exchange with the RTC. It fails with [`Error::NotEnabled`] where the port is
/// not enabled.
pub fn reset<R: Registers>(gpio: &mut Gpio<R>) -> (result: Result<(), Error>)
    ensures
        final(gpio).log() == old(gpio).log() + exchange(
            Command::Reset,
            0,
            final(gpio).since(old(gpio).log()),
        ),
        result == (if enable_read(final(gpio).since(old(gpio).log())) == 1 {
            Ok::<(), Error>(())
        } else {
            Err::<(), Error>(Error::NotEnabled)
        }),
{
    let ghost start = gpio.log();
    // Request reset.
    let previous_ime = match open_exchange(gpio, Command::Reset) {
        Ok(previous_ime) => previous_ime,
        Err(error) => {
            return Err(error);
        },
    };
    close_exchange(gpio, previous_ime);
    proof {
        reveal(exchange);
        let seen = gpio.since(start);
        assert(seen =~= seq![Access::ReadEnable(1)] + opening(previous_ime) + command_writes(
            Command::Reset,
        ) + closing(previous_ime));
        assert(seen[0] == Access::ReadEnable(1));
        assert(seen[1] == Access::ReadIme(previous_ime));
        assert(seen =~= exchange(Command::Reset, 0, seen));
        assert(gpio.log() =~= start + exchange(Command::Reset, 0, seen));
    }
    Ok(())
}

/// Writes the RTC's status register.
///
/// This is one exchange with the RTC. It fails with [`Error::NotEnabled`] where the port is
/// not enabled.
pub fn set_status<R: Registers>(gpio: &mut Gpio<R>, status: Status) -> (result: Result<(), Error>)
    ensures
        final(gpio).log() == old(gpio).log() + exchange(
            Command::WriteStatus,
            status@,
            final(gpio).since(old(gpio).log()),
        ),
        result == (if enable_read(final(gpio).since(old(gpio).log())) == 1 {
            Ok::<(), Error>(())
        } else {
            Err::<(), Error>(Error::NotEnabled)
        }),
{
    let ghost start = gpio.log();
    // Request status write.
    let previous_ime = match open_exchange(gpio, Command::WriteStatus) {
        Ok(previous_ime) => previous_ime,
        Err(error) => {
            proof {
                reveal(exchange);
                let seen = gpio.since(start);
                assert(exchange(Command::WriteStatus, 0, seen) == exchange(
                    Command::WriteStatus,
                    status@,
                    seen,
                ));
            }
            return Err(error);
        },
    };
    // Write the status.
    write_byte(gpio, status.get());
    close_exchange(gpio, previous_ime);
    proof {
        reveal(exchange);
        let seen = gpio.since(start);
        assert(seen =~= seq![Access::ReadEnable(1)] + opening(previous_ime) + command_writes(
            Command::WriteStatus,
        ) + byte_writes(status@) + closing(previous_ime));
        assert(seen[0] == Access::ReadEnable(1));
        assert(seen[1] == Access::ReadIme(previous_ime));
        assert(seen =~= exchange(Command::WriteStatus, status@, seen));
        assert(gpio.log() =~= start + exchange(Command::WriteStatus, status@, seen));
    }
    Ok(())
}

/// Asks the RTC for its time and tells whether it is in test mode.
///
/// This is one exchange with the RTC. It fails with [`Error::NotEnabled`] where the port is
/// not enabled. Of the RTC's answer only the test flag is looked at: the highest bit of the
/// byte that holds the seconds.
pub fn is_test_mode<R: Registers>(gpio: &mut Gpio<R>) -> (result: Result<bool, Error>)
    ensures
        final(gpio).log() == old(gpio).log() + exchange(
            Command::ReadTime,
            0,
            final(gpio).since(old(gpio).log()),
        ),
        result == test_mode_answer(final(gpio).since(old(gpio).log())),
{
    proof {
        reveal(test_mode_answer);
    }
    // Request and receive time.
    let (_hour, _minute, second) = match read_time_bytes(gpio) {
        Ok(bytes) => bytes,
        Err(error) => {
            return Err(error);
        },
    };
    // Check whether the test flag is set.
    assert((second & 0b1000_0000 != 0) == (second >= 128)) by (bit_vector);
    Ok(second & 0b1000_0000 != 0)
}

/// Attempt to read the current RTC time as an `RtcTimeOffset`.
///
/// This is one exchange with the RTC, in which it sends three bytes: hour, minute and second.
/// It fails with [`Error::NotEnabled`] where the port is not enabled, and else with what
/// [`RtcTimeOffset::decode`] finds wrong with the bytes.
pub fn try_read_time_offset<R: Registers>(gpio: &mut Gpio<R>) -> (result: Result<RtcTimeOffset, Error>)
    ensures
        final(gpio).log() == old(gpio).log() + exchange(
            Command::ReadTime,
            0,
            final(gpio).since(old(gpio).log()),
        ),
        match result {
            Ok(offset) => time_answer(final(gpio).since(old(gpio).log())) == Ok::<int, Error>(
                offset@ as int,
            ),
            Err(error) => time_answer(final(gpio).since(old(gpio).log())) == Err::<int, Error>(
                error,
            ),
        },
{
    proof {
        reveal(time_answer);
    }
    // Request and receive time.
    let (hour, minute, second) = match read_time_bytes(gpio) {
        Ok(bytes) => bytes,
        Err(error) => {
            return Err(error);
        },
    };
    RtcTimeOffset::decode(hour, minute, second)
}

/// Sends the command for the date and time, and receives the seven bytes of the answer.
fn read_datetime_bytes<R: Registers>(gpio: &mut Gpio<R>) -> (result: Result<(u8, u8, u8, u8, u8, u8, u8), Error>)
    ensures
        final(gpio).log() == old(gpio).log() + exchange(
            Command::ReadDateTime,
            0,
            final(gpio).since(old(gpio).log()),
        ),
        match result {
            Ok(bytes) => {
                &&& enable_read(final(gpio).since(old(gpio).log())) == 1
                &&& bytes.0 == answer_byte(final(gpio).since(old(gpio).log()), 0)
                &&& bytes.1 == answer_byte(final(gpio).since(old(gpio).log()), 1)
                &&& bytes.2 == answer_byte(final(gpio).since(old(gpio).log()), 2)
                &&& bytes.3 == answer_byte(final(gpio).since(old(gpio).log()), 3)
                &&& bytes.4 == answer_byte(final(gpio).since(old(gpio).log()), 4)
                &&& bytes.5 == answer_byte(final(gpio).since(old(gpio).log()), 5)
                &&& bytes.6 == answer_byte(final(gpio).since(old(gpio).log()), 6)
            },
            Err(error) => error == Error::NotEnabled && enable_read(
                final(gpio).since(old(gpio).log()),
            ) != 1,
        },
{
    let ghost start = gpio.log();
    let previous_ime = match open_exchange(gpio, Command::ReadDateTime) {
        Ok(previous_ime) => previous_ime,
        Err(error) => {
            return Err(error);
        },
    };
    gpio.write_rw_mode(RwMode::Read);
    let ghost prefix = gpio.log();
    proof {
        lemma_lengths();
        assert(gpio.log() =~= prefix + bit_reads(Seq::<Data>::empty()));
    }
    let (year, Ghost(l1)) = receive(gpio, Ghost(prefix), Ghost(Seq::empty()));
    let (month, Ghost(l2)) = receive(gpio, Ghost(prefix), Ghost(l1));
    let (day, Ghost(l3)) = receive(gpio, Ghost(prefix), Ghost(l2));
    let (weekday, Ghost(l4)) = receive(gpio, Ghost(prefix), Ghost(l3));
    let (hour, Ghost(l5)) = receive(gpio, Ghost(prefix), Ghost(l4));
    let (minute, Ghost(l6)) = receive(gpio, Ghost(prefix), Ghost(l5));
    let (second, Ghost(l7)) = receive(gpio, Ghost(prefix), Ghost(l6));
    close_exchange(gpio, previous_ime);
    proof {
        lemma_answered(gpio.log(), start, Command::ReadDateTime, previous_ime, l7);
        assert(l7.subrange(0, 8) =~= l1.skip(0));
        assert(l7.subrange(8, 16) =~= l2.skip(8));
        assert(l7.subrange(16, 24) =~= l3.skip(16));
        assert(l7.subrange(24, 32) =~= l4.skip(24));
        assert(l7.subrange(32, 40) =~= l5.skip(32));
        assert(l7.subrange(40, 48) =~= l6.skip(40));
        assert(l7.subrange(48, 56) =~= l7.skip(48));
        assert(answer_byte(gpio.since(start), 0) == year);
        assert(answer_byte(gpio.since(start), 1) == month);
        assert(answer_byte(gpio.since(start), 2) == day);
        assert(answer_byte(gpio.since(start), 3) == weekday);
        assert(answer_byte(gpio.since(start), 4) == hour);
        assert(answer_byte(gpio.since(start), 5) == minute);
        assert(answer_byte(gpio.since(start), 6) == second);
    }
    Ok((year, month, day, weekday, hour, minute, second))
}

/// Attempt to read the current RTC date and time value as an `RtcOffset`.
///
/// This is one exchange with the RTC, in which it sends seven bytes: year, month, day, day of
/// the week, hour, minute and second. It fails with [`Error::NotEnabled`] where the port is
/// not enabled, and else with what [`RtcDateTimeOffset::decode`] finds wrong with the bytes.
pub fn try_read_datetime_offset<R: Registers>(gpio: &mut Gpio<R>) -> (result: Result<
    RtcDateTimeOffset,
    Error,
>)
    ensures
        final(gpio).log() == old(gpio).log() + exchange(
            Command::ReadDateTime,
            0,
            final(gpio).since(old(gpio).log()),
        ),
        match result {
            Ok(offset) => datetime_answer(final(gpio).since(old(gpio).log())) == Ok::<int, Error>(
                offset@ as int,
            ),
            Err(error) => datetime_answer(final(gpio).since(old(gpio).log())) == Err::<int, Error>(
                error,
            ),
        },
{
    proof {
        reveal(datetime_answer);
    }
    // Request and receive datetime.
    let (year, month, day, _weekday, hour, minute, second) = match read_datetime_bytes(gpio) {
        Ok(bytes) => bytes,
        Err(error) => {
            return Err(error);
        },
    };
    RtcDateTimeOffset::decode(year, month, day, hour, minute, second)
}

/// The accesses of the first part of a course of exchanges followed by those of the rest,
/// with the result of the rest.
pub open spec fn and_then<T>(first: Seq<Access>, rest: (Seq<Access>, Result<T, Error>)) -> (
    Seq<Access>,
    Result<T, Error>,
) {
    (first + rest.0, rest.1)
}

/// The last part of an initialization that starts `accesses`: what is accessed, and the
/// seconds since the start of the century that the RTC reported at the end.
///
/// The RTC is told to count the hours from 0 to 23, and asked for its date and time.
pub open spec fn setting_mode(accesses: Seq<Access>) -> (Seq<Access>, Result<int, Error>) {
    let set = exchange(Command::WriteStatus, 0b0100_0000, accesses);
    let rest = after(Command::WriteStatus, accesses);
    if enable_read(accesses) != 1 {
        (set, Err(Error::NotEnabled))
    } else {
        and_then(set, (exchange(Command::ReadDateTime, 0, rest), datetime_answer(rest)))
    }
}

/// The part of an initialization that starts `accesses` in which the RTC is taken out of test
/// mode: what is accessed from there on, and the seconds that the RTC reported at the end.
///
/// The RTC is asked for its time. Where the answer has the test flag set, the RTC is reset.
pub open spec fn leaving_test_mode(accesses: Seq<Access>) -> (Seq<Access>, Result<int, Error>) {
    let asked = exchange(Command::ReadTime, 0, accesses);
    let rest = after(Command::ReadTime, accesses);
    match test_mode_answer(accesses) {
        Err(error) => (asked, Err(error)),
        Ok(false) => and_then(asked, setting_mode(rest)),
        Ok(true) => if enable_read(rest) != 1 {
            (asked + exchange(Command::Reset, 0, rest), Err(Error::NotEnabled))
        } else {
            and_then(
                asked + exchange(Command::Reset, 0, rest),
                setting_mode(after(Command::Reset, rest)),
            )
        },
    }
}

/// The part of an initialization that starts `accesses` in which the RTC recovers from a loss
/// of power: what is accessed from there on, and the seconds that the RTC reported at the end.
///
/// The RTC is asked for its status. Where the answer has the power flag set, the RTC is
/// reset.
pub open spec fn recovering_power(accesses: Seq<Access>) -> (Seq<Access>, Result<int, Error>) {
    let asked = exchange(Command::ReadStatus, 0, accesses);
    let rest = after(Command::ReadStatus, accesses);
    match status_answer(accesses) {
        Err(error) => (asked, Err(error)),
        Ok(status) => if status & 0b1000_0000 == 0 {
            and_then(asked, leaving_test_mode(rest))
        } else if enable_read(rest) != 1 {
            (asked + exchange(Command::Reset, 0, rest), Err(Error::NotEnabled))
        } else {
            and_then(
                asked + exchange(Command::Reset, 0, rest),
                leaving_test_mode(after(Command::Reset, rest)),
            )
        },
    }
}

/// An initialization of the RTC that starts `accesses`: what is accessed, and the seconds
/// since the start of the century that the RTC reported at the end.
///
/// The RTC is reset. Then it is made to recover from a loss of power, taken out of test mode,
/// told to count the hours from 0 to 23, and asked for its date and time. Every step is one
/// exchange, and the first exchange that fails ends the initialization.
pub open spec fn initialization(accesses: Seq<Access>) -> (Seq<Access>, Result<int, Error>) {
    let reset = exchange(Command::Reset, 0, accesses);
    if enable_read(accesses) != 1 {
        (reset, Err(Error::NotEnabled))
    } else {
        and_then(reset, recovering_power(after(Command::Reset, accesses)))
    }
}

/// Whether a result holds the offset of the given number of seconds, or the given error.
pub open spec fn is_offset(result: Result<RtcDateTimeOffset, Error>, answer: Result<int, Error>) -> bool {
    match result {
        Ok(offset) => answer == Ok::<int, Error>(offset@ as int),
        Err(error) => answer == Err::<int, Error>(error),
    }
}

/// What an exchange was and what the RTC answered in it does not depend on what was accessed
/// after it.
proof fn lemma_first_exchange(command: Command, sent: u8, first: Seq<Access>, rest: Seq<Access>)
    requires
        first == exchange(command, sent, first),
    ensures
        exchange(command, sent, first + rest) == first,
        after(command, first + rest) == rest,
        enable_read(first + rest) == enable_read(first),
        command == Command::ReadStatus ==> status_answer(first + rest) == status_answer(first),
        command == Command::ReadTime ==> test_mode_answer(first + rest) == test_mode_answer(first),
        command == Command::ReadTime ==> time_answer(first + rest) == time_answer(first),
        command == Command::ReadDateTime ==> datetime_answer(first + rest) == datetime_answer(
            first,
        ),
{
    lemma_lengths();
    reveal(exchange);
    reveal(status_answer);
    reveal(test_mode_answer);
    reveal(time_answer);
    reveal(datetime_answer);
    let all = first + rest;
    assert(first.len() > 0);
    assert(all[0] == first[0]);
    if enable_read(first) == 1 {
        assert(first.len() >= 41);
        assert(all[1] == first[1]);
        let count = 8 * answer_len(command);
        if count > 0 {
            assert(first.len() == 42 + 7 * count);
        }
        lemma_read_levels_agree(all, first, answer_start(), count);
        assert forall|index: int| 0 <= index < answer_len(command) implies #[trigger] answer_byte(
            all,
            index,
        ) == answer_byte(first, index) by {
            lemma_read_levels_agree(all, first, answer_start() + 56 * index, 8);
        }
        if command == Command::ReadStatus {
            assert(answer_byte(all, 0) == answer_byte(first, 0));
        }
        if command == Command::ReadTime {
            assert(answer_byte(all, 0) == answer_byte(first, 0));
            assert(answer_byte(all, 1) == answer_byte(first, 1));
            assert(answer_byte(all, 2) == answer_byte(first, 2));
        }
        if command == Command::ReadDateTime {
            assert(answer_byte(all, 0) == answer_byte(first, 0));
            assert(answer_byte(all, 1) == answer_byte(first, 1));
            assert(answer_byte(all, 2) == answer_byte(first, 2));
            assert(answer_byte(all, 4) == answer_byte(first, 4));
            assert(answer_byte(all, 5) == answer_byte(first, 5));
            assert(answer_byte(all, 6) == answer_byte(first, 6));
        }
    }
    assert(exchange(command, sent, all) == first);
    assert(exchange(command, 0, all).len() == first.len());
    assert(all.skip(first.len() as int) =~= rest);
}

/// What was added to a history is what was accessed since.
proof fn lemma_appended(log: Seq<Access>, start: Seq<Access>, added: Seq<Access>)
    requires
        log == start + added,
    ensures
        log.skip(start.len() as int) == added,
{
    assert(log.skip(start.len() as int) =~= added);
}

/// Two parts of a course of exchanges, one after the other.
proof fn lemma_appended_twice(log: Seq<Access>, start: Seq<Access>, first: Seq<Access>, rest: Seq<Access>)
    requires
        log == start + first + rest,
    ensures
        log == start + (first + rest),
        log.skip(start.len() as int) == first + rest,
{
    assert(log =~= start + (first + rest));
    assert(log.skip(start.len() as int) =~= first + rest);
}

/// Tells the RTC to count the hours from 0 to 23, and asks it for its date and time.
fn use_24_hours<R: Registers>(gpio: &mut Gpio<R>) -> (result: Result<RtcDateTimeOffset, Error>)
    ensures
        final(gpio).log() == old(gpio).log() + setting_mode(final(gpio).since(old(gpio).log())).0,
        is_offset(result, setting_mode(final(gpio).since(old(gpio).log())).1),
{
    let ghost start = gpio.log();
    // Set to 24-hour time.
    match set_status(gpio, Status::hour_24()) {
        Ok(()) => {},
        Err(error) => {
            return Err(error);
        },
    }
    let ghost set = gpio.since(start);
    let ghost middle = gpio.log();
    let result = try_read_datetime_offset(gpio);
    proof {
        let rest = gpio.since(middle);
        lemma_appended(middle, start, exchange(Command::WriteStatus, 0b0100_0000, set));
        lemma_appended(gpio.log(), middle, exchange(Command::ReadDateTime, 0, rest));
        lemma_appended_twice(gpio.log(), start, set, rest);
        lemma_first_exchange(Command::WriteStatus, 0b0100_0000, set, rest);
    }
    result
}

/// Asks the RTC for its time, resets it where it is in test mode, and goes on with the last
/// part of the initialization.
fn check_test_mode<R: Registers>(gpio: &mut Gpio<R>) -> (result: Result<RtcDateTimeOffset, Error>)
    ensures
        final(gpio).log() == old(gpio).log() + leaving_test_mode(
            final(gpio).since(old(gpio).log()),
        ).0,
        is_offset(result, leaving_test_mode(final(gpio).since(old(gpio).log())).1),
{
    let ghost start = gpio.log();
    // If we are in test mode, we need to reset.
    let test_mode = match is_test_mode(gpio) {
        Ok(test_mode) => test_mode,
        Err(error) => {
            return Err(error);
        },
    };
    let ghost asked = gpio.since(start);
    let ghost middle = gpio.log();
    proof {
        lemma_appended(middle, start, exchange(Command::ReadTime, 0, asked));
    }
    if test_mode {
        let reset = reset(gpio);
        let ghost again = gpio.since(middle);
        let ghost later = gpio.log();
        proof {
            lemma_appended(later, middle, exchange(Command::Reset, 0, again));
        }
        match reset {
            Ok(()) => {},
            Err(error) => {
                proof {
                    lemma_appended_twice(later, start, asked, again);
                    lemma_first_exchange(Command::ReadTime, 0, asked, again);
                    lemma_first_exchange(Command::Reset, 0, again, Seq::empty());
                    assert(again + Seq::<Access>::empty() =~= again);
                }
                return Err(error);
            },
        }
        let result = use_24_hours(gpio);
        proof {
            let last = gpio.since(later);
            lemma_appended(gpio.log(), later, setting_mode(last).0);
            lemma_appended_twice(gpio.log(), middle, again, last);
            lemma_appended_twice(gpio.log(), start, asked, again + last);
            lemma_first_exchange(Command::ReadTime, 0, asked, again + last);
            lemma_first_exchange(Command::Reset, 0, again, last);
            assert(asked + (again + setting_mode(last).0) =~= asked + again + setting_mode(last).0);
        }
        result
    } else {
        let result = use_24_hours(gpio);
        proof {
            let rest = gpio.since(middle);
            lemma_appended(gpio.log(), middle, setting_mode(rest).0);
            lemma_appended_twice(gpio.log(), start, asked, rest);
            lemma_first_exchange(Command::ReadTime, 0, asked, rest);
        }
        result
    }
}

/// Asks the RTC for its status, resets it where it has lost its power, and goes on with the
/// rest of the initialization.
fn check_power<R: Registers>(gpio: &mut Gpio<R>) -> (result: Result<RtcDateTimeOffset, Error>)
    ensures
        final(gpio).log() == old(gpio).log() + recovering_power(
            final(gpio).since(old(gpio).log()),
        ).0,
        is_offset(result, recovering_power(final(gpio).since(old(gpio).log())).1),
{
    let ghost start = gpio.log();
    let status = match try_read_status(gpio) {
        Ok(status) => status,
        Err(error) => {
            return Err(error);
        },
    };
    let ghost asked = gpio.since(start);
    let ghost middle = gpio.log();
    proof {
        lemma_appended(middle, start, exchange(Command::ReadStatus, 0, asked));
    }
    // If the power bit is active, we need to reset.
    if status.contains(&Status::power()) {
        let reset = reset(gpio);
        let ghost again = gpio.since(middle);
        let ghost later = gpio.log();
        proof {
            lemma_appended(later, middle, exchange(Command::Reset, 0, again));
        }
        match reset {
            Ok(()) => {},
            Err(error) => {
                proof {
                    lemma_appended_twice(later, start, asked, again);
                    lemma_first_exchange(Command::ReadStatus, 0, asked, again);
                    lemma_first_exchange(Command::Reset, 0, again, Seq::empty());
                    assert(again + Seq::<Access>::empty() =~= again);
                }
                return Err(error);
            },
        }
        let result = check_test_mode(gpio);
        proof {
            let last = gpio.since(later);
            lemma_appended(gpio.log(), later, leaving_test_mode(last).0);
            lemma_appended_twice(gpio.log(), middle, again, last);
            lemma_appended_twice(gpio.log(), start, asked, again + last);
            lemma_first_exchange(Command::ReadStatus, 0, asked, again + last);
            lemma_first_exchange(Command::Reset, 0, again, last);
            assert(asked + (again + leaving_test_mode(last).0) =~= asked + again
                + leaving_test_mode(last).0);
        }
        result
    } else {
        let result = check_test_mode(gpio);
        proof {
            let rest = gpio.since(middle);
            lemma_appended(gpio.log(), middle, leaving_test_mode(rest).0);
            lemma_appended_twice(gpio.log(), start, asked, rest);
            lemma_first_exchange(Command::ReadStatus, 0, asked, rest);
        }
        result
    }
}

/// Initializes the RTC and reads its date and time.
///
/// The RTC is reset. After that it is reset again where it reports that it has lost its
/// backup power, and once more where it reports to be in test mode. Then it is told to count
/// the hours from 0 to 23, without which no hour could be read, and is asked for its date and
/// time. The first exchange that fails ends the initialization with its error.
pub fn initialize<R: Registers>(gpio: &mut Gpio<R>) -> (result: Result<RtcDateTimeOffset, Error>)
    ensures
        final(gpio).log() == old(gpio).log() + initialization(final(gpio).since(old(gpio).log())).0,
        is_offset(result, initialization(final(gpio).since(old(gpio).log())).1),
{
    let ghost start = gpio.log();
    // Initialize the RTC itself.
    match reset(gpio) {
        Ok(()) => {},
        Err(error) => {
            return Err(error);
        },
    }
    let ghost first = gpio.since(start);
    let ghost middle = gpio.log();
    let result = check_power(gpio);
    proof {
        let rest = gpio.since(middle);
        lemma_appended(middle, start, exchange(Command::Reset, 0, first));
        lemma_appended(gpio.log(), middle, recovering_power(rest).0);
        lemma_appended_twice(gpio.log(), start, first, rest);
        lemma_first_exchange(Command::Reset, 0, first, rest);
    }
    result
}

/// The last part of a resumption that starts `accesses`: what is accessed, and whether the RTC
/// can be trusted.
///
/// The RTC is asked for its status. Where it has not lost its power, it is asked for its
/// time, to see that it is not in test mode. A lost power or a test mode ends the resumption
/// with an error of its own: the RTC would have to be reset.
pub open spec fn checking_state(accesses: Seq<Access>) -> (Seq<Access>, Result<(), Error>) {
    let asked = exchange(Command::ReadStatus, 0, accesses);
    let rest = after(Command::ReadStatus, accesses);
    match status_answer(accesses) {
        Err(error) => (asked, Err(error)),
        Ok(status) => if status & 0b1000_0000 != 0 {
            (asked, Err(Error::PowerFailure))
        } else {
            and_then(
                asked,
                (
                    exchange(Command::ReadTime, 0, rest),
                    match test_mode_answer(rest) {
                        Err(error) => Err(error),
                        Ok(true) => Err(Error::TestMode),
                        Ok(false) => Ok(()),
                    },
                ),
            )
        },
    }
}

/// A resumption of the work with an RTC that starts `accesses`: what is accessed, and whether
/// the RTC can be trusted.
///
/// The RTC is told to count the hours from 0 to 23, and then its state is checked.
pub open spec fn resumption(accesses: Seq<Access>) -> (Seq<Access>, Result<(), Error>) {
    let set = exchange(Command::WriteStatus, 0b0100_0000, accesses);
    if enable_read(accesses) != 1 {
        (set, Err(Error::NotEnabled))
    } else {
        and_then(set, checking_state(after(Command::WriteStatus, accesses)))
    }
}

/// Asks the RTC for its status and its time, and fails where it has lost its power or is in
/// test mode.
fn check_state<R: Registers>(gpio: &mut Gpio<R>) -> (result: Result<(), Error>)
    ensures
        final(gpio).log() == old(gpio).log() + checking_state(final(gpio).since(old(gpio).log())).0,
        result == checking_state(final(gpio).since(old(gpio).log())).1,
{
    let ghost start = gpio.log();
    // If the power bit is active, the clock is unreadable.
    let status = match try_read_status(gpio) {
        Ok(status) => status,
        Err(error) => {
            return Err(error);
        },
    };
    if status.contains(&Status::power()) {
        return Err(Error::PowerFailure);
    }
    let ghost asked = gpio.since(start);
    let ghost middle = gpio.log();
    // If we are in test mode, the clock is unreadable.
    let test_mode = is_test_mode(gpio);
    proof {
        let rest = gpio.since(middle);
        lemma_appended(middle, start, exchange(Command::ReadStatus, 0, asked));
        lemma_appended(gpio.log(), middle, exchange(Command::ReadTime, 0, rest));
        lemma_appended_twice(gpio.log(), start, asked, rest);
        lemma_first_exchange(Command::ReadStatus, 0, asked, rest);
    }
    match test_mode {
        Err(error) => Err(error),
        Ok(true) => Err(Error::TestMode),
        Ok(false) => Ok(()),
    }
}

/// Resumes the work with an RTC that was initialized before.
///
/// The RTC is told to count the hours from 0 to 23, and is asked for its status and its time.
/// This fails with [`Error::PowerFailure`] where the RTC has lost its backup power since, and
/// with [`Error::TestMode`] where it is in test mode: what it counts is then not what it was
/// left with. The first exchange that fails ends the resumption with its error.
pub fn resume<R: Registers>(gpio: &mut Gpio<R>) -> (result: Result<(), Error>)
    ensures
        final(gpio).log() == old(gpio).log() + resumption(final(gpio).since(old(gpio).log())).0,
        result == resumption(final(gpio).since(old(gpio).log())).1,
{
    let ghost start = gpio.log();
    match set_status(gpio, Status::hour_24()) {
        Ok(()) => {},
        Err(error) => {
            return Err(error);
        },
    }
    let ghost set = gpio.since(start);
    let ghost middle = gpio.log();
    let result = check_state(gpio);
    proof {
        let rest = gpio.since(middle);
        lemma_appended(middle, start, exchange(Command::WriteStatus, 0b0100_0000, set));
        lemma_appended(gpio.log(), middle, checking_state(rest).0);
        lemma_appended_twice(gpio.log(), start, set, rest);
        lemma_first_exchange(Command::WriteStatus, 0b0100_0000, set, rest);
    }
    result
}

} // verus!
