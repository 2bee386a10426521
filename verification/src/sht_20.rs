//! Driver for the SHT20 humidity and temperature sensor.
//!
//! The driver never touches the bus. An operation is a [`Transaction`]:
//! it names the one transfer it is waiting for, and, given the bus's
//! answer, either names the next transfer or finishes with a result.

use vstd::prelude::*;
use crate::crc::{crc_passes, remainder_of};
use crate::error::Error;
use crate::reading::{Reading, SCALE};

verus! {

/// The sensor's fixed bus address.
pub const SLAVE_ADDRESS: u8 = 0x40;

/// Starts a temperature measurement without holding the bus.
pub const TRIGGER_TEMP_MEASURE_NOHOLD: u8 = 0xF3;

/// Starts a humidity measurement without holding the bus.
pub const TRIGGER_HUMD_MEASURE_NOHOLD: u8 = 0xF5;

/// Writes the user register.
pub const WRITE_USER_REG: u8 = 0xE6;

/// Reads the user register.
pub const READ_USER_REG: u8 = 0xE7;

/// The bits of the user register that hold the resolution code.
pub const USER_REGISTER_RESOLUTION_MASK: u8 = 0x81;

/// Resolution codes: bits of relative humidity and of temperature.
pub const USER_REGISTER_RESOLUTION_RH12_TEMP14: u8 = 0x00;

pub const USER_REGISTER_RESOLUTION_RH8_TEMP12: u8 = 0x01;

pub const USER_REGISTER_RESOLUTION_RH10_TEMP13: u8 = 0x80;

pub const USER_REGISTER_RESOLUTION_RH11_TEMP11: u8 = 0x81;

/// User register flag: the supply voltage is low.
pub const USER_REGISTER_END_OF_BATTERY: u8 = 0x40;

/// User register flag: the on-chip heater is on.
pub const USER_REGISTER_HEATER_ENABLED: u8 = 0x04;

/// User register flag: the OTP reload is disabled.
pub const USER_REGISTER_DISABLE_OTP_RELOAD: u8 = 0x02;

/// Longest time to wait for a measurement, in milliseconds.
pub const MAX_WAIT: u64 = 100;

/// Time between two reads while waiting, in milliseconds.
pub const DELAY_INTERVAL: u64 = 10;

/// Number of reads after which a measurement has timed out.
pub const MAX_COUNTER: u64 = MAX_WAIT / DELAY_INTERVAL;

/// A transfer that the driver asks the caller to perform on the bus.
#[derive(Clone, Copy, Debug, PartialEq, Eq, Structural)]
pub enum Request {
    /// Write the single byte `command` to the device.
    Write { address: u8, command: u8 },
    /// Write `command` followed by `value` to the device.
    WriteValue { address: u8, command: u8, value: u8 },
    /// Wait `delay_ms` milliseconds, then read a three-byte frame.
    WaitThenRead { address: u8, delay_ms: u32 },
    /// Write `command` and read one byte back in the same transfer.
    WriteRead { address: u8, command: u8 },
}

/// What the bus answered.
#[derive(Clone, Copy, Debug, PartialEq, Eq, Structural)]
pub enum Reply {
    /// The write went through.
    Written,
    /// The three bytes that were read.
    Frame { msb: u8, lsb: u8, checksum: u8 },
    /// The byte that was read.
    Byte(u8),
    /// The transfer failed.
    Failed,
}

/// What a measurement's magnitude is turned into.
#[derive(Clone, Copy, Debug, PartialEq, Eq, Structural)]
pub enum Quantity {
    /// The magnitude itself.
    Raw,
    /// Percent relative humidity.
    Humidity,
    /// Degrees Celsius.
    Temperature,
}

/// What is done with the user register once it has been read.
#[derive(Clone, Copy, Debug, PartialEq, Eq, Structural)]
pub enum RegisterUse {
    /// Hand it to the caller.
    Read,
    /// Report its flags.
    Status,
    /// Merge a resolution code into it and write it back.
    SetResolution(u8),
}

/// The flags of the user register.
#[derive(Clone, Copy, Debug, PartialEq, Eq, Structural)]
pub struct Status {
    pub end_of_battery: bool,
    pub heater_enabled: bool,
    pub otp_reload_disabled: bool,
}

/// What a finished operation produced.
#[derive(Clone, Copy, Debug, PartialEq, Eq, Structural)]
pub enum Outcome {
    /// A magnitude, status bits cleared.
    Value(u16),
    /// A relative humidity.
    Humidity(Reading),
    /// A temperature.
    Temperature(Reading),
    /// The user register.
    Register(u8),
    /// The flags of the user register.
    Status(Status),
    /// The user register was written.
    Written,
}

/// Where an operation stands: which transfer is outstanding.
#[derive(Clone, Copy, Debug, PartialEq, Eq, Structural)]
pub enum Stage {
    /// The measurement command is being written.
    Commanding { command: u8, quantity: Quantity },
    /// The result is being polled for; `attempts` reads came back so far.
    Polling { attempts: u64, quantity: Quantity },
    /// The user register is being read.
    ReadingRegister { then: RegisterUse },
    /// The user register is being written.
    WritingRegister { value: u8 },
}

/// An operation in progress on the sensor at `address`.
#[derive(Clone, Copy, Debug, PartialEq, Eq, Structural)]
pub struct Transaction {
    pub address: u8,
    pub stage: Stage,
}

/// The result of handing a bus answer to a transaction.
#[derive(Clone, Copy, Debug, PartialEq, Eq)]
pub enum Step {
    /// The operation goes on with another transfer.
    Next(Transaction),
    /// The operation is over.
    Done(Result<Outcome, Error>),
}

/// The magnitude that a frame carries in its first two bytes.
pub open spec fn magnitude_of(msb: u8, lsb: u8) -> u16 {
    ((msb as u16) << 8) | (lsb as u16)
}

/// A magnitude with its two status bits cleared.
pub open spec fn without_status_bits(raw_value: u16) -> u16 {
    raw_value & 0xFFFC
}

/// What a frame decodes to: its magnitude without the status bits if the
/// checksum passes.
pub open spec fn decoded(msb: u8, lsb: u8, checksum: u8) -> Result<u16, Error> {
    if crc_passes(magnitude_of(msb, lsb), checksum) {
        Ok(without_status_bits(magnitude_of(msb, lsb)))
    } else {
        Err(Error::ChecksumMismatch)
    }
}

/// Relative humidity for a magnitude `M`: `M * 125 / 65536 - 6` percent,
/// in scaled units.
pub open spec fn humidity_of(raw_value: int) -> int {
    (raw_value * 125 * SCALE) / 65536 - 6 * SCALE
}

/// Temperature for a magnitude `M`: `M * 175.72 / 65536 - 46.85` degrees
/// Celsius, in scaled units.
pub open spec fn temperature_of(raw_value: int) -> int {
    (raw_value * 17572 * SCALE) / 6_553_600 - (4685 * SCALE) / 100
}

/// What a magnitude is reported as.
pub open spec fn outcome_of(quantity: Quantity, value: u16) -> Outcome {
    match quantity {
        Quantity::Raw => Outcome::Value(value),
        Quantity::Humidity => Outcome::Humidity(Reading { scaled: humidity_of(value as int) as i64 }),
        Quantity::Temperature => Outcome::Temperature(
            Reading { scaled: temperature_of(value as int) as i64 },
        ),
    }
}

/// The user register with the resolution code `resolution` merged in: the
/// resolution bits come from the code, all other bits stay.
pub open spec fn merged_register(register: u8, resolution: u8) -> u8 {
    (register & !USER_REGISTER_RESOLUTION_MASK) | (resolution & USER_REGISTER_RESOLUTION_MASK)
}

/// The flags that a user register value holds.
pub open spec fn status_of(register: u8) -> Status {
    Status {
        end_of_battery: register & USER_REGISTER_END_OF_BATTERY != 0,
        heater_enabled: register & USER_REGISTER_HEATER_ENABLED != 0,
        otp_reload_disabled: register & USER_REGISTER_DISABLE_OTP_RELOAD != 0,
    }
}

/// Splits a frame into magnitude and checksum, validates it, and clears
/// the status bits.
pub fn decode_frame(msb: u8, lsb: u8, checksum: u8) -> (res: Result<u16, Error>)
    ensures
        res == decoded(msb, lsb, checksum),
        res matches Ok(value) ==> value & 3 == 0,
{
    let raw_value: u16 = ((msb as u16) << 8) | (lsb as u16);
    match SHT20::check_crc(raw_value, checksum) {
        Ok(()) => {
            let value: u16 = raw_value & 0xFFFC;
            assert(value & 3 == 0) by (bit_vector)
                requires
                    value == raw_value & 0xFFFC,
            ;
            Ok(value)
        },
        Err(e) => Err(e),
    }
}

/// Converts a magnitude to percent relative humidity.
pub fn relative_humidity(raw_value: u16) -> (reading: Reading)
    ensures
        reading.scaled == humidity_of(raw_value as int),
{
    Reading { scaled: (raw_value as i64) * 12_500 - 39_321_600 }
}

/// Converts a magnitude to degrees Celsius.
pub fn celsius(raw_value: u16) -> (reading: Reading)
    ensures
        reading.scaled == temperature_of(raw_value as int),
{
    Reading { scaled: (raw_value as i64) * 17_572 - 307_036_160 }
}

/// Merges a resolution code into a user register value.
pub fn merge_resolution(register: u8, resolution: u8) -> (merged: u8)
    ensures
        merged == merged_register(register, resolution),
        merged & !USER_REGISTER_RESOLUTION_MASK == register & !USER_REGISTER_RESOLUTION_MASK,
        merged & USER_REGISTER_RESOLUTION_MASK == resolution & USER_REGISTER_RESOLUTION_MASK,
{
    let kept: u8 = register & 0b0111_1110;
    let code: u8 = resolution & 0b1000_0001;
    let merged: u8 = kept | code;
    assert(merged == (register & !0x81u8) | (resolution & 0x81u8) && merged & !0x81u8 == register
        & !0x81u8 && merged & 0x81u8 == resolution & 0x81u8) by (bit_vector)
        requires
            merged == (register & 0b0111_1110u8) | (resolution & 0b1000_0001u8),
    ;
    merged
}

/// Reads the flags out of a user register value.
pub fn read_status(register: u8) -> (status: Status)
    ensures
        status == status_of(register),
{
    Status {
        end_of_battery: (register & USER_REGISTER_END_OF_BATTERY) != 0,
        heater_enabled: (register & USER_REGISTER_HEATER_ENABLED) != 0,
        otp_reload_disabled: (register & USER_REGISTER_DISABLE_OTP_RELOAD) != 0,
    }
}

impl Quantity {
    /// Reports a magnitude as this quantity.
    pub fn outcome(self, value: u16) -> (outcome: Outcome)
        ensures
            outcome == outcome_of(self, value),
    {
        match self {
            Quantity::Raw => Outcome::Value(value),
            Quantity::Humidity => Outcome::Humidity(relative_humidity(value)),
            Quantity::Temperature => Outcome::Temperature(celsius(value)),
        }
    }
}

/// A handle on the sensor: the bus address that its transfers go to.
#[derive(Clone, Copy, Debug, PartialEq, Eq, Structural)]
pub struct SHT20 {
    pub address: u8,
}

impl SHT20 {
    /// The sensor at its fixed address.
    pub fn new() -> (sensor: SHT20)
        ensures
            sensor.address == SLAVE_ADDRESS,
    {
        SHT20 { address: SLAVE_ADDRESS }
    }

    /// Validates a received magnitude against its checksum byte.
    pub fn check_crc(raw_value: u16, checksum: u8) -> (res: Result<(), Error>)
        ensures
            res is Ok <==> crc_passes(raw_value, checksum),
            res is Err ==> res == Err::<(), Error>(Error::ChecksumMismatch),
    {
        if remainder_of(raw_value, checksum) == 0 {
            Ok(())
        } else {
            Err(Error::ChecksumMismatch)
        }
    }

    /// A measurement that is about to write its command byte.
    pub open spec fn measurement(self, command: u8, quantity: Quantity) -> Transaction {
        Transaction { address: self.address, stage: Stage::Commanding { command, quantity } }
    }

    /// A register operation that is about to read the user register.
    pub open spec fn register_read(self, then: RegisterUse) -> Transaction {
        Transaction { address: self.address, stage: Stage::ReadingRegister { then } }
    }

    /// A register operation that is about to write the user register.
    pub open spec fn register_write(self, value: u8) -> Transaction {
        Transaction { address: self.address, stage: Stage::WritingRegister { value } }
    }

    /// Begins a measurement with the command byte `cmd`; it finishes with
    /// the magnitude, status bits cleared.
    pub fn read_value(&self, cmd: u8) -> (started: Transaction)
        ensures
            started == self.measurement(cmd, Quantity::Raw),
    {
        Transaction {
            address: self.address,
            stage: Stage::Commanding { command: cmd, quantity: Quantity::Raw },
        }
    }

    /// Begins a humidity measurement; it finishes with the relative
    /// humidity.
    pub fn humidity(&self) -> (started: Transaction)
        ensures
            started == self.measurement(TRIGGER_HUMD_MEASURE_NOHOLD, Quantity::Humidity),
    {
        Transaction {
            address: self.address,
            stage: Stage::Commanding {
                command: TRIGGER_HUMD_MEASURE_NOHOLD,
                quantity: Quantity::Humidity,
            },
        }
    }

    /// Begins a temperature measurement; it finishes with the temperature.
    pub fn temperature(&self) -> (started: Transaction)
        ensures
            started == self.measurement(TRIGGER_TEMP_MEASURE_NOHOLD, Quantity::Temperature),
    {
        Transaction {
            address: self.address,
            stage: Stage::Commanding {
                command: TRIGGER_TEMP_MEASURE_NOHOLD,
                quantity: Quantity::Temperature,
            },
        }
    }

    /// Begins setting the measurement resolution: the user register is
    /// read, the code merged in, and the result written back.
    pub fn set_resolution(&self, resolution: u8) -> (started: Transaction)
        ensures
            started == self.register_read(RegisterUse::SetResolution(resolution)),
    {
        Transaction {
            address: self.address,
            stage: Stage::ReadingRegister { then: RegisterUse::SetResolution(resolution) },
        }
    }

    /// Begins reading the user register.
    pub fn read_user_register(&self) -> (started: Transaction)
        ensures
            started == self.register_read(RegisterUse::Read),
    {
        Transaction { address: self.address, stage: Stage::ReadingRegister { then: RegisterUse::Read } }
    }

    /// Begins writing `val` to the user register.
    pub fn write_user_register(&self, val: u8) -> (started: Transaction)
        ensures
            started == self.register_write(val),
    {
        Transaction { address: self.address, stage: Stage::WritingRegister { value: val } }
    }

    /// Begins a status check: the user register is read and its three
    /// flags reported.
    pub fn check_sht20(&self) -> (started: Transaction)
        ensures
            started == self.register_read(RegisterUse::Status),
    {
        Transaction {
            address: self.address,
            stage: Stage::ReadingRegister { then: RegisterUse::Status },
        }
    }
}

impl Transaction {
    /// The transfer that the transaction is waiting for.
    pub open spec fn pending(self) -> Request {
        match self.stage {
            Stage::Commanding { command, .. } => Request::Write { address: self.address, command },
            Stage::Polling { .. } => Request::WaitThenRead {
                address: self.address,
                delay_ms: DELAY_INTERVAL as u32,
            },
            Stage::ReadingRegister { .. } => Request::WriteRead {
                address: self.address,
                command: READ_USER_REG,
            },
            Stage::WritingRegister { value } => Request::WriteValue {
                address: self.address,
                command: WRITE_USER_REG,
                value,
            },
        }
    }

    /// Where the transaction stands once the bus has answered `reply`.
    ///
    /// Any answer other than the one the outstanding transfer produces
    /// counts as a failed transfer and ends the operation. While a
    /// measurement polls, a frame that is not all-zero is decoded, on
    /// whichever read it arrives. An all-zero frame means "not ready": the
    /// measurement polls again, unless this was the last of the
    /// `MAX_COUNTER` permitted reads, in which case it has timed out.
    pub open spec fn after(self, reply: Reply) -> Step {
        match (self.stage, reply) {
            (Stage::Commanding { quantity, .. }, Reply::Written) => Step::Next(
                Transaction { stage: Stage::Polling { attempts: 0, quantity }, ..self },
            ),
            (Stage::Polling { attempts, quantity }, Reply::Frame { msb, lsb, checksum }) => {
                if !(msb == 0 && lsb == 0 && checksum == 0) {
                    match decoded(msb, lsb, checksum) {
                        Ok(value) => Step::Done(Ok(outcome_of(quantity, value))),
                        Err(e) => Step::Done(Err(e)),
                    }
                } else if attempts + 1 >= MAX_COUNTER {
                    Step::Done(Err(Error::Timeout))
                } else {
                    Step::Next(
                        Transaction {
                            stage: Stage::Polling { attempts: (attempts + 1) as u64, quantity },
                            ..self
                        },
                    )
                }
            },
            (Stage::ReadingRegister { then }, Reply::Byte(register)) => match then {
                RegisterUse::Read => Step::Done(Ok(Outcome::Register(register))),
                RegisterUse::Status => Step::Done(Ok(Outcome::Status(status_of(register)))),
                RegisterUse::SetResolution(resolution) => Step::Next(
                    Transaction {
                        stage: Stage::WritingRegister {
                            value: merged_register(register, resolution),
                        },
                        ..self
                    },
                ),
            },
            (Stage::WritingRegister { .. }, Reply::Written) => Step::Done(Ok(Outcome::Written)),
            _ => Step::Done(Err(Error::Transport)),
        }
    }

    /// The transfer to perform next.
    pub fn request(&self) -> (request: Request)
        ensures
            request == self.pending(),
    {
        match self.stage {
            Stage::Commanding { command, .. } => Request::Write { address: self.address, command },
            Stage::Polling { .. } => Request::WaitThenRead {
                address: self.address,
                delay_ms: DELAY_INTERVAL as u32,
            },
            Stage::ReadingRegister { .. } => Request::WriteRead {
                address: self.address,
                command: READ_USER_REG,
            },
            Stage::WritingRegister { value } => Request::WriteValue {
                address: self.address,
                command: WRITE_USER_REG,
                value,
            },
        }
    }

    /// Takes the bus's answer to the outstanding transfer and moves on.
    pub fn advance(self, reply: Reply) -> (step: Step)
        ensures
            step == self.after(reply),
            step matches Step::Done(Ok(Outcome::Value(value))) ==> value & 3 == 0,
    {
        match (self.stage, reply) {
            (Stage::Commanding { quantity, .. }, Reply::Written) => Step::Next(
                Transaction { address: self.address, stage: Stage::Polling { attempts: 0, quantity } },
            ),
            (Stage::Polling { attempts, quantity }, Reply::Frame { msb, lsb, checksum }) => {
                if !(msb == 0 && lsb == 0 && checksum == 0) {
                    match decode_frame(msb, lsb, checksum) {
                        Ok(value) => Step::Done(Ok(quantity.outcome(value))),
                        Err(e) => Step::Done(Err(e)),
                    }
                } else if attempts >= MAX_COUNTER - 1 {
                    Step::Done(Err(Error::Timeout))
                } else {
                    Step::Next(
                        Transaction {
                            address: self.address,
                            stage: Stage::Polling { attempts: attempts + 1, quantity },
                        },
                    )
                }
            },
            (Stage::ReadingRegister { then }, Reply::Byte(register)) => match then {
                RegisterUse::Read => Step::Done(Ok(Outcome::Register(register))),
                RegisterUse::Status => Step::Done(Ok(Outcome::Status(read_status(register)))),
                RegisterUse::SetResolution(resolution) => Step::Next(
                    Transaction {
                        address: self.address,
                        stage: Stage::WritingRegister {
                            value: merge_resolution(register, resolution),
                        },
                    },
                ),
            },
            (Stage::WritingRegister { .. }, Reply::Written) => Step::Done(Ok(Outcome::Written)),
            _ => Step::Done(Err(Error::Transport)),
        }
    }
}

impl Transaction {
    /// Where the transaction stands after the bus has answered with
    /// `replies`, one after the other. Answers that come after the
    /// operation is over are not looked at.
    pub open spec fn run(self, replies: Seq<Reply>) -> Step
        decreases replies.len(),
    {
        if replies.len() == 0 {
            Step::Next(self)
        } else {
            match self.after(replies.first()) {
                Step::Next(next) => next.run(replies.drop_first()),
                Step::Done(result) => Step::Done(result),
            }
        }
    }
}

/// The humidity formula in closed form: 12500 units per count, starting at
/// minus six percent.
pub proof fn lemma_humidity_closed_form(raw_value: int)
    ensures
        humidity_of(raw_value) == 12_500 * raw_value - 6 * SCALE,
        humidity_of(0) == -6 * SCALE,
{
    assert(raw_value * 125 * SCALE == 65536 * (12_500 * raw_value));
}

/// The temperature formula in closed form: 17572 units per count, starting
/// at minus 46.85 degrees.
pub proof fn lemma_temperature_closed_form(raw_value: int)
    ensures
        temperature_of(raw_value) == 17_572 * raw_value - 307_036_160,
        100 * temperature_of(0) == -4685 * SCALE,
{
    assert(raw_value * 17572 * SCALE == 6_553_600 * (17_572 * raw_value));
}

/// A larger magnitude is a strictly larger relative humidity.
pub proof fn lemma_humidity_strictly_increasing(smaller: int, larger: int)
    requires
        smaller < larger,
    ensures
        humidity_of(smaller) < humidity_of(larger),
{
    lemma_humidity_closed_form(smaller);
    lemma_humidity_closed_form(larger);
}

/// A larger magnitude is a strictly larger temperature.
pub proof fn lemma_temperature_strictly_increasing(smaller: int, larger: int)
    requires
        smaller < larger,
    ensures
        temperature_of(smaller) < temperature_of(larger),
{
    lemma_temperature_closed_form(smaller);
    lemma_temperature_closed_form(larger);
}

/// Whatever frame arrives, a magnitude that a measurement hands out has
/// its two low bits clear.
pub proof fn lemma_value_has_no_status_bits(transaction: Transaction, reply: Reply)
    ensures
        transaction.after(reply) matches Step::Done(Ok(Outcome::Value(value))) ==> value & 3 == 0,
        forall|msb: u8, lsb: u8, checksum: u8|
            #[trigger] decoded(msb, lsb, checksum) matches Ok(value) ==> value & 3 == 0,
{
    assert forall|raw_value: u16| #[trigger] without_status_bits(raw_value) & 3 == 0 by {
        assert((raw_value & 0xFFFC) & 3 == 0) by (bit_vector);
    }
}

/// The merge keeps every bit outside the resolution mask and takes the
/// resolution bits from the code.
pub proof fn lemma_merge_keeps_other_bits(register: u8, resolution: u8)
    ensures
        merged_register(register, resolution) & !USER_REGISTER_RESOLUTION_MASK == register
            & !USER_REGISTER_RESOLUTION_MASK,
        merged_register(register, resolution) & USER_REGISTER_RESOLUTION_MASK == resolution
            & USER_REGISTER_RESOLUTION_MASK,
{
    assert(((register & !0x81u8) | (resolution & 0x81u8)) & !0x81u8 == register & !0x81u8) by (bit_vector);
    assert(((register & !0x81u8) | (resolution & 0x81u8)) & 0x81u8 == resolution & 0x81u8) by (bit_vector);
}

/// Setting the resolution reads the register, then writes the merged
/// value back, and is over once that write went through.
pub proof fn lemma_set_resolution_writes_merge(sensor: SHT20, resolution: u8, register: u8)
    ensures
        ({
            let started = sensor.register_read(RegisterUse::SetResolution(resolution));
            let writing = sensor.register_write(merged_register(register, resolution));
            &&& started.pending() == (Request::WriteRead {
                address: sensor.address,
                command: READ_USER_REG,
            })
            &&& started.after(Reply::Byte(register)) == Step::Next(writing)
            &&& writing.pending() == (Request::WriteValue {
                address: sensor.address,
                command: WRITE_USER_REG,
                value: merged_register(register, resolution),
            })
            &&& writing.after(Reply::Written) == Step::Done(Ok(Outcome::Written))
        }),
{
}

/// While a measurement is polling, every answer either ends it or counts
/// one more read; `MAX_COUNTER - attempts` answers always end it.
pub proof fn lemma_polling_is_bounded(transaction: Transaction, replies: Seq<Reply>)
    requires
        transaction.stage matches Stage::Polling { attempts, .. } && attempts + replies.len()
            >= MAX_COUNTER,
        replies.len() > 0,
    ensures
        transaction.run(replies) is Done,
    decreases replies.len(),
{
    match transaction.after(replies.first()) {
        Step::Next(next) => {
            lemma_polling_is_bounded(next, replies.drop_first());
        },
        Step::Done(_) => {},
    }
}

/// A measurement is over after at most one write and `MAX_COUNTER` reads.
pub proof fn lemma_measurement_is_bounded(transaction: Transaction, replies: Seq<Reply>)
    requires
        transaction.stage is Commanding,
        replies.len() >= 1 + MAX_COUNTER,
    ensures
        transaction.run(replies) is Done,
{
    match transaction.after(replies.first()) {
        Step::Next(next) => {
            lemma_polling_is_bounded(next, replies.drop_first());
        },
        Step::Done(_) => {},
    }
}

/// `count` answers "not ready", one after the other.
pub open spec fn not_ready(count: nat) -> Seq<Reply> {
    Seq::new(count, |i: int| Reply::Frame { msb: 0, lsb: 0, checksum: 0 })
}

/// What a frame with data ends a measurement of `quantity` with.
pub open spec fn answer_of(quantity: Quantity, msb: u8, lsb: u8, checksum: u8) -> Step {
    match decoded(msb, lsb, checksum) {
        Ok(value) => Step::Done(Ok(outcome_of(quantity, value))),
        Err(e) => Step::Done(Err(e)),
    }
}

/// A polling measurement that is answered "not ready" `waits` times and
/// then receives a frame with data decodes that frame, as long as the
/// frame comes with one of the permitted reads, the last one included.
pub proof fn lemma_first_data_frame_decides(
    transaction: Transaction,
    waits: nat,
    msb: u8,
    lsb: u8,
    checksum: u8,
)
    requires
        transaction.stage matches Stage::Polling { attempts, .. } && attempts + waits + 1
            <= MAX_COUNTER,
        !(msb == 0 && lsb == 0 && checksum == 0),
    ensures
        transaction.run(not_ready(waits).push(Reply::Frame { msb, lsb, checksum })) == answer_of(
            transaction.stage->Polling_quantity,
            msb,
            lsb,
            checksum,
        ),
    decreases waits,
{
    let empty = Reply::Frame { msb: 0, lsb: 0, checksum: 0 };
    let last = Reply::Frame { msb, lsb, checksum };
    let replies = not_ready(waits).push(last);
    if waits == 0 {
        assert(replies.first() == last);
        assert(transaction.after(last) is Done);
    } else {
        let next = transaction.after(empty)->Next_0;
        assert(replies.first() == empty);
        assert(replies.drop_first() =~= not_ready((waits - 1) as nat).push(last));
        lemma_first_data_frame_decides(next, (waits - 1) as nat, msb, lsb, checksum);
    }
}

/// A polling measurement that is answered "not ready" on every read that
/// is left to it has timed out.
pub proof fn lemma_sensor_never_ready_times_out(transaction: Transaction, waits: nat)
    requires
        waits > 0,
        transaction.stage matches Stage::Polling { attempts, .. } && attempts + waits
            == MAX_COUNTER,
    ensures
        transaction.run(not_ready(waits)) == Step::Done(Err(Error::Timeout)),
    decreases waits,
{
    let empty = Reply::Frame { msb: 0, lsb: 0, checksum: 0 };
    let replies = not_ready(waits);
    assert(replies.first() == empty);
    if waits > 1 {
        let next = transaction.after(empty)->Next_0;
        assert(replies.drop_first() =~= not_ready((waits - 1) as nat));
        lemma_sensor_never_ready_times_out(next, (waits - 1) as nat);
    }
}

/// A measurement from its start: once the command is written, the first
/// frame with data that arrives within the `MAX_COUNTER` permitted reads
/// is decoded. If its checksum passes, the measurement ends with the
/// magnitude, status bits cleared, as the quantity asked for.
pub proof fn lemma_measurement_answers_within_bound(
    transaction: Transaction,
    waits: nat,
    msb: u8,
    lsb: u8,
    checksum: u8,
)
    requires
        transaction.stage is Commanding,
        waits + 1 <= MAX_COUNTER,
        !(msb == 0 && lsb == 0 && checksum == 0),
    ensures
        transaction.run(
            seq![Reply::Written] + not_ready(waits).push(Reply::Frame { msb, lsb, checksum }),
        ) == answer_of(transaction.stage->Commanding_quantity, msb, lsb, checksum),
        crc_passes(magnitude_of(msb, lsb), checksum) ==> transaction.run(
            seq![Reply::Written] + not_ready(waits).push(Reply::Frame { msb, lsb, checksum }),
        ) == Step::Done(
            Ok(
                outcome_of(
                    transaction.stage->Commanding_quantity,
                    without_status_bits(magnitude_of(msb, lsb)),
                ),
            ),
        ),
{
    let polled = not_ready(waits).push(Reply::Frame { msb, lsb, checksum });
    let replies = seq![Reply::Written] + polled;
    let polling = transaction.after(Reply::Written)->Next_0;
    assert(replies.first() == Reply::Written);
    assert(replies.drop_first() =~= polled);
    lemma_first_data_frame_decides(polling, waits, msb, lsb, checksum);
}

/// A measurement from its start: once the command is written, a sensor
/// that answers "not ready" to all `MAX_COUNTER` permitted reads gives a
/// timeout.
pub proof fn lemma_measurement_times_out(transaction: Transaction)
    requires
        transaction.stage is Commanding,
    ensures
        transaction.run(seq![Reply::Written] + not_ready(MAX_COUNTER as nat)) == Step::Done(
            Err(Error::Timeout),
        ),
{
    let replies = seq![Reply::Written] + not_ready(MAX_COUNTER as nat);
    let polling = transaction.after(Reply::Written)->Next_0;
    assert(replies.first() == Reply::Written);
    assert(replies.drop_first() =~= not_ready(MAX_COUNTER as nat));
    lemma_sensor_never_ready_times_out(polling, MAX_COUNTER as nat);
}

} // verus!
