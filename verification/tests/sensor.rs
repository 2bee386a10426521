use envstation::crc::checksum;
use envstation::error::Error;
use envstation::reading::{Reading, SCALE};
use envstation::sht_20::{
    celsius, merge_resolution, read_status, relative_humidity, Outcome, Quantity, RegisterUse,
    Reply, Request, Stage, Status, Step, Transaction, DELAY_INTERVAL, MAX_COUNTER, MAX_WAIT,
    READ_USER_REG, SHT20, SLAVE_ADDRESS, TRIGGER_HUMD_MEASURE_NOHOLD, TRIGGER_TEMP_MEASURE_NOHOLD,
    USER_REGISTER_DISABLE_OTP_RELOAD, USER_REGISTER_END_OF_BATTERY, USER_REGISTER_HEATER_ENABLED,
    USER_REGISTER_RESOLUTION_MASK, USER_REGISTER_RESOLUTION_RH10_TEMP13,
    USER_REGISTER_RESOLUTION_RH11_TEMP11, USER_REGISTER_RESOLUTION_RH12_TEMP14,
    USER_REGISTER_RESOLUTION_RH8_TEMP12, WRITE_USER_REG,
};

const NOT_READY: Reply = Reply::Frame { msb: 0, lsb: 0, checksum: 0 };

fn frame(raw: u16) -> Reply {
    Reply::Frame { msb: (raw >> 8) as u8, lsb: (raw & 0xFF) as u8, checksum: checksum(raw) }
}

fn units(reading: Reading) -> f64 {
    reading.scaled as f64 / SCALE as f64
}

/// Answers the transaction's requests with `replies`, one after the other,
/// and returns the requests it made and how it ended.
fn perform(started: Transaction, replies: &[Reply]) -> (Vec<Request>, Option<Result<Outcome, Error>>) {
    let mut requests = vec![started.request()];
    let mut current = started;
    for reply in replies {
        match current.advance(*reply) {
            Step::Next(next) => {
                current = next;
                requests.push(current.request());
            }
            Step::Done(result) => return (requests, Some(result)),
        }
    }
    (requests, None)
}

#[test]
fn constants() {
    assert_eq!(SLAVE_ADDRESS, 0x40);
    assert_eq!(TRIGGER_TEMP_MEASURE_NOHOLD, 0xF3);
    assert_eq!(TRIGGER_HUMD_MEASURE_NOHOLD, 0xF5);
    assert_eq!(WRITE_USER_REG, 0xE6);
    assert_eq!(READ_USER_REG, 0xE7);
    assert_eq!(USER_REGISTER_RESOLUTION_MASK, 0x81);
    assert_eq!(MAX_WAIT, 100);
    assert_eq!(DELAY_INTERVAL, 10);
    assert_eq!(MAX_COUNTER, 10);
    assert_eq!(SHT20::new().address, 0x40);
}

#[test]
fn humidity_of_zero() {
    assert_eq!(units(relative_humidity(0)), -6.0);
    assert_eq!(relative_humidity(0).scaled, -6 * SCALE);
}

#[test]
fn humidity_of_full_scale() {
    let top = units(relative_humidity(65535));
    assert!((top - 118.998).abs() < 0.0005);
    assert_eq!(relative_humidity(65535).scaled, 779_865_900);
    assert_eq!(top, 65535.0 * 125.0 / 65536.0 - 6.0);
}

#[test]
fn humidity_is_strictly_increasing() {
    for raw in 0..u16::MAX {
        assert!(relative_humidity(raw).scaled < relative_humidity(raw + 1).scaled);
    }
}

#[test]
fn temperature_of_zero() {
    assert_eq!(units(celsius(0)), -46.85);
    assert_eq!(celsius(0).scaled, -307_036_160);
}

#[test]
fn temperature_of_full_scale() {
    let top = units(celsius(65535));
    assert!((top - 128.87).abs() < 0.005);
    assert_eq!(celsius(65535).scaled, 844_544_860);
}

#[test]
fn temperature_is_strictly_increasing() {
    for raw in 0..u16::MAX {
        assert!(celsius(raw).scaled < celsius(raw + 1).scaled);
    }
}

#[test]
fn conversions_agree_with_the_formulas() {
    for raw in [0u16, 4, 0x6838, 0x7C80, 0x8000, 0xFFFC, 0xFFFF] {
        let m = raw as f64;
        assert!((units(relative_humidity(raw)) - (m * 125.0 / 65536.0 - 6.0)).abs() < 1e-9);
        assert!((units(celsius(raw)) - (m * 175.72 / 65536.0 - 46.85)).abs() < 1e-9);
    }
}

#[test]
fn read_value_starts_with_the_command() {
    let started = SHT20::new().read_value(0xF5);
    assert_eq!(
        started,
        Transaction {
            address: 0x40,
            stage: Stage::Commanding { command: 0xF5, quantity: Quantity::Raw }
        }
    );
    assert_eq!(started.request(), Request::Write { address: 0x40, command: 0xF5 });
}

#[test]
fn read_value_returns_the_masked_magnitude() {
    let (requests, result) =
        perform(SHT20::new().read_value(0xF3), &[Reply::Written, NOT_READY, frame(0x683B)]);
    assert_eq!(
        requests,
        vec![
            Request::Write { address: 0x40, command: 0xF3 },
            Request::WaitThenRead { address: 0x40, delay_ms: 10 },
            Request::WaitThenRead { address: 0x40, delay_ms: 10 },
        ]
    );
    assert_eq!(result, Some(Ok(Outcome::Value(0x6838))));
}

#[test]
fn read_value_decodes_the_first_read() {
    let (requests, result) = perform(SHT20::new().read_value(0xF5), &[Reply::Written, frame(0x4E85)]);
    assert_eq!(requests.len(), 2);
    assert_eq!(result, Some(Ok(Outcome::Value(0x4E84))));
}

#[test]
fn read_value_is_pending_until_answered() {
    let (requests, result) = perform(SHT20::new().read_value(0xF5), &[Reply::Written, NOT_READY]);
    assert_eq!(requests.len(), 3);
    assert_eq!(result, None);
}

#[test]
fn failed_command_write_is_a_transport_error() {
    let (requests, result) = perform(SHT20::new().read_value(0xF5), &[Reply::Failed]);
    assert_eq!(requests.len(), 1);
    assert_eq!(result, Some(Err(Error::Transport)));
}

#[test]
fn failed_read_is_a_transport_error() {
    let (_, result) =
        perform(SHT20::new().read_value(0xF5), &[Reply::Written, NOT_READY, Reply::Failed]);
    assert_eq!(result, Some(Err(Error::Transport)));
}

#[test]
fn answer_of_the_wrong_kind_is_a_transport_error() {
    let (_, result) = perform(SHT20::new().read_value(0xF5), &[Reply::Byte(0)]);
    assert_eq!(result, Some(Err(Error::Transport)));
    let (_, result) = perform(SHT20::new().read_value(0xF5), &[Reply::Written, Reply::Written]);
    assert_eq!(result, Some(Err(Error::Transport)));
    let (_, result) = perform(SHT20::new().read_user_register(), &[frame(0x683A)]);
    assert_eq!(result, Some(Err(Error::Transport)));
    let (_, result) = perform(SHT20::new().write_user_register(1), &[Reply::Byte(1)]);
    assert_eq!(result, Some(Err(Error::Transport)));
}

#[test]
fn bad_checksum_is_a_mismatch() {
    let bad = Reply::Frame { msb: 0x68, lsb: 0x3A, checksum: 0x7D };
    let (_, result) = perform(SHT20::new().read_value(0xF5), &[Reply::Written, bad]);
    assert_eq!(result, Some(Err(Error::ChecksumMismatch)));
}

#[test]
fn frame_with_only_a_checksum_byte_is_data() {
    let odd = Reply::Frame { msb: 0, lsb: 0, checksum: 1 };
    let (_, result) = perform(SHT20::new().read_value(0xF5), &[Reply::Written, odd]);
    assert_eq!(result, Some(Err(Error::ChecksumMismatch)));
}

#[test]
fn sensor_that_is_never_ready_times_out() {
    let mut replies = vec![Reply::Written];
    replies.extend([NOT_READY; 10]);
    let (requests, result) = perform(SHT20::new().read_value(0xF5), &replies);
    assert_eq!(requests.len(), 11);
    assert_eq!(result, Some(Err(Error::Timeout)));
}

#[test]
fn data_on_the_ninth_read_is_decoded() {
    let mut replies = vec![Reply::Written];
    replies.extend([NOT_READY; 8]);
    replies.push(frame(0x683A));
    let (requests, result) = perform(SHT20::new().read_value(0xF5), &replies);
    assert_eq!(requests.len(), 10);
    assert_eq!(result, Some(Ok(Outcome::Value(0x6838))));
}

#[test]
fn data_on_the_tenth_read_is_decoded() {
    let mut replies = vec![Reply::Written];
    replies.extend([NOT_READY; 9]);
    replies.push(Reply::Frame { msb: 0x68, lsb: 0x3A, checksum: 0x7C });
    let (requests, result) = perform(SHT20::new().read_value(0xF5), &replies);
    assert_eq!(requests.len(), 11);
    assert_eq!(result, Some(Ok(Outcome::Value(0x6838))));
}

#[test]
fn bad_checksum_on_the_tenth_read_is_a_mismatch() {
    let mut replies = vec![Reply::Written];
    replies.extend([NOT_READY; 9]);
    replies.push(Reply::Frame { msb: 0x68, lsb: 0x3A, checksum: 0x7D });
    let (_, result) = perform(SHT20::new().read_value(0xF5), &replies);
    assert_eq!(result, Some(Err(Error::ChecksumMismatch)));
}

#[test]
fn nothing_is_read_after_the_tenth_read() {
    let mut replies = vec![Reply::Written];
    replies.extend([NOT_READY; 10]);
    replies.push(frame(0x683A));
    let (requests, result) = perform(SHT20::new().read_value(0xF5), &replies);
    assert_eq!(requests.len(), 11);
    assert_eq!(result, Some(Err(Error::Timeout)));
}

#[test]
fn humidity_on_the_tenth_read() {
    let mut replies = vec![Reply::Written];
    replies.extend([NOT_READY; 9]);
    replies.push(frame(0x7C80));
    let (_, result) = perform(SHT20::new().humidity(), &replies);
    assert_eq!(result, Some(Ok(Outcome::Humidity(relative_humidity(0x7C80)))));
}

#[test]
fn failure_of_the_tenth_read_is_a_transport_error() {
    let mut replies = vec![Reply::Written];
    replies.extend([NOT_READY; 9]);
    replies.push(Reply::Failed);
    let (_, result) = perform(SHT20::new().read_value(0xF5), &replies);
    assert_eq!(result, Some(Err(Error::Transport)));
}

#[test]
fn humidity_measurement() {
    let started = SHT20::new().humidity();
    assert_eq!(started.request(), Request::Write { address: 0x40, command: 0xF5 });
    let (_, result) = perform(started, &[Reply::Written, NOT_READY, NOT_READY, frame(0x7C82)]);
    assert_eq!(result, Some(Ok(Outcome::Humidity(relative_humidity(0x7C80)))));
    assert_eq!(relative_humidity(0x7C80).scaled, 31872 * 12_500 - 39_321_600);
}

#[test]
fn temperature_measurement() {
    let started = SHT20::new().temperature();
    assert_eq!(started.request(), Request::Write { address: 0x40, command: 0xF3 });
    let (_, result) = perform(started, &[Reply::Written, frame(0x6391)]);
    assert_eq!(result, Some(Ok(Outcome::Temperature(celsius(0x6390)))));
    assert_eq!(celsius(0x6390).scaled, 25488 * 17_572 - 307_036_160);
}

#[test]
fn measurement_errors_carry_over() {
    let (_, result) = perform(SHT20::new().humidity(), &[Reply::Failed]);
    assert_eq!(result, Some(Err(Error::Transport)));
    let bad = Reply::Frame { msb: 1, lsb: 2, checksum: 3 };
    let (_, result) = perform(SHT20::new().temperature(), &[Reply::Written, bad]);
    assert_eq!(result, Some(Err(Error::ChecksumMismatch)));
}

#[test]
fn read_user_register_hands_the_byte_out() {
    let started = SHT20::new().read_user_register();
    assert_eq!(started.stage, Stage::ReadingRegister { then: RegisterUse::Read });
    let (requests, result) = perform(started, &[Reply::Byte(0x3A)]);
    assert_eq!(requests, vec![Request::WriteRead { address: 0x40, command: 0xE7 }]);
    assert_eq!(result, Some(Ok(Outcome::Register(0x3A))));
}

#[test]
fn read_user_register_fails_with_the_bus() {
    let (_, result) = perform(SHT20::new().read_user_register(), &[Reply::Failed]);
    assert_eq!(result, Some(Err(Error::Transport)));
}

#[test]
fn write_user_register_writes_command_and_value() {
    let (requests, result) = perform(SHT20::new().write_user_register(0x83), &[Reply::Written]);
    assert_eq!(requests, vec![Request::WriteValue { address: 0x40, command: 0xE6, value: 0x83 }]);
    assert_eq!(result, Some(Ok(Outcome::Written)));
    let (_, result) = perform(SHT20::new().write_user_register(0x83), &[Reply::Failed]);
    assert_eq!(result, Some(Err(Error::Transport)));
}

#[test]
fn set_resolution_merges_and_writes_back() {
    let started = SHT20::new().set_resolution(USER_REGISTER_RESOLUTION_RH11_TEMP11);
    let (requests, result) = perform(started, &[Reply::Byte(0x3A), Reply::Written]);
    assert_eq!(
        requests,
        vec![
            Request::WriteRead { address: 0x40, command: 0xE7 },
            Request::WriteValue { address: 0x40, command: 0xE6, value: 0xBB },
        ]
    );
    assert_eq!(result, Some(Ok(Outcome::Written)));
}

#[test]
fn set_resolution_stops_at_a_failed_read() {
    let (requests, result) = perform(SHT20::new().set_resolution(0x81), &[Reply::Failed]);
    assert_eq!(requests.len(), 1);
    assert_eq!(result, Some(Err(Error::Transport)));
}

#[test]
fn set_resolution_reports_a_failed_write() {
    let (requests, result) =
        perform(SHT20::new().set_resolution(0x81), &[Reply::Byte(0), Reply::Failed]);
    assert_eq!(requests.len(), 2);
    assert_eq!(result, Some(Err(Error::Transport)));
}

#[test]
fn merge_keeps_the_other_bits() {
    assert_eq!(merge_resolution(0xFF, USER_REGISTER_RESOLUTION_RH12_TEMP14), 0x7E);
    assert_eq!(merge_resolution(0x00, USER_REGISTER_RESOLUTION_RH11_TEMP11), 0x81);
    assert_eq!(merge_resolution(0x3A, USER_REGISTER_RESOLUTION_RH8_TEMP12), 0x3B);
    assert_eq!(merge_resolution(0x3B, USER_REGISTER_RESOLUTION_RH10_TEMP13), 0xBA);
    assert_eq!(merge_resolution(0x00, 0xFF), 0x81);
    for register in 0..=u8::MAX {
        for resolution in [0x00u8, 0x01, 0x80, 0x81, 0x7E, 0xFF] {
            let merged = merge_resolution(register, resolution);
            assert_eq!(merged & 0x7E, register & 0x7E);
            assert_eq!(merged & 0x81, resolution & 0x81);
        }
    }
}

#[test]
fn check_sht20_reports_the_flags() {
    let started = SHT20::new().check_sht20();
    let (requests, result) = perform(started, &[Reply::Byte(0x44)]);
    assert_eq!(requests, vec![Request::WriteRead { address: 0x40, command: 0xE7 }]);
    assert_eq!(
        result,
        Some(Ok(Outcome::Status(Status {
            end_of_battery: true,
            heater_enabled: true,
            otp_reload_disabled: false
        })))
    );
}

#[test]
fn check_sht20_reports_a_bus_failure() {
    let (_, result) = perform(SHT20::new().check_sht20(), &[Reply::Failed]);
    assert_eq!(result, Some(Err(Error::Transport)));
}

#[test]
fn status_flags() {
    assert_eq!(
        read_status(0x00),
        Status { end_of_battery: false, heater_enabled: false, otp_reload_disabled: false }
    );
    assert_eq!(
        read_status(USER_REGISTER_END_OF_BATTERY),
        Status { end_of_battery: true, heater_enabled: false, otp_reload_disabled: false }
    );
    assert_eq!(
        read_status(USER_REGISTER_HEATER_ENABLED),
        Status { end_of_battery: false, heater_enabled: true, otp_reload_disabled: false }
    );
    assert_eq!(
        read_status(USER_REGISTER_DISABLE_OTP_RELOAD),
        Status { end_of_battery: false, heater_enabled: false, otp_reload_disabled: true }
    );
    assert_eq!(
        read_status(0xB9),
        Status { end_of_battery: false, heater_enabled: false, otp_reload_disabled: false }
    );
    assert_eq!(
        read_status(0xFF),
        Status { end_of_battery: true, heater_enabled: true, otp_reload_disabled: true }
    );
}

#[test]
fn quantity_outcomes() {
    assert_eq!(Quantity::Raw.outcome(0x1234), Outcome::Value(0x1234));
    assert_eq!(Quantity::Humidity.outcome(0x8000), Outcome::Humidity(relative_humidity(0x8000)));
    assert_eq!(Quantity::Temperature.outcome(0x8000), Outcome::Temperature(celsius(0x8000)));
    assert_eq!(units(relative_humidity(0x8000)), 56.5);
}
