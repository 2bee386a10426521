use envstation::crc::checksum;
use envstation::metric::{Emission, Source, TsMetric};
use envstation::probes::{accept_device, conversion_delay, Probe, CONVERSION_TIME_MS, PROBE_FAMILY_CODE};
use envstation::reading::{Reading, SCALE};
use envstation::readings::Readings;
use envstation::sht_20::{celsius, relative_humidity, Reply, Request};
use envstation::station::{Action, Event, Phase, Station, CYCLE_PAUSE_MS};

const PROBE_A: u64 = 0x1200_0000_0000_0128;
const PROBE_B: u64 = 0x3400_0000_0000_0228;
const THERMOSTAT: u64 = 0x5600_0000_0000_0322;
const SWAPPED: u64 = 0x2800_0000_0000_0001;

fn tenths(value: i64) -> Reading {
    Reading { scaled: value * (SCALE / 10) }
}

/// Everything around a station, scripted.
struct World {
    devices: Vec<u64>,
    searched: usize,
    broadcast_works: bool,
    temperatures: Vec<(u64, Option<Reading>)>,
    humidity_raw: Option<u16>,
    temperature_raw: Option<u16>,
    not_ready: usize,
    command: u8,
    polls: usize,
    deliveries_until_failure: Option<usize>,
    log: Vec<Action>,
    delivered: Vec<Emission>,
}

fn world(devices: &[u64]) -> World {
    World {
        devices: devices.to_vec(),
        searched: 0,
        broadcast_works: true,
        temperatures: Vec::new(),
        humidity_raw: Some(0x7C80),
        temperature_raw: Some(0x6390),
        not_ready: 1,
        command: 0,
        polls: 0,
        deliveries_until_failure: None,
        log: Vec::new(),
        delivered: Vec::new(),
    }
}

fn transfer(world: &mut World, request: Request) -> Reply {
    match request {
        Request::Write { address: 0x40, command } => {
            world.command = command;
            world.polls = 0;
            Reply::Written
        }
        Request::WaitThenRead { address: 0x40, delay_ms: 10 } => {
            world.polls += 1;
            let raw = if world.command == 0xF5 { world.humidity_raw } else { world.temperature_raw };
            match raw {
                None => Reply::Failed,
                Some(_) if world.polls <= world.not_ready => {
                    Reply::Frame { msb: 0, lsb: 0, checksum: 0 }
                }
                Some(raw) => Reply::Frame {
                    msb: (raw >> 8) as u8,
                    lsb: (raw & 0xFF) as u8,
                    checksum: checksum(raw),
                },
            }
        }
        _ => Reply::Failed,
    }
}

fn carry_out(world: &mut World, action: Action) -> Event {
    world.log.push(action);
    match action {
        Action::SearchNext => {
            world.searched += 1;
            match world.devices.get(world.searched - 1) {
                Some(address) => Event::DeviceFound { address: *address },
                None => Event::SearchEnded,
            }
        }
        Action::StartConversion => {
            if world.broadcast_works {
                Event::ConversionStarted
            } else {
                Event::ConversionFailed
            }
        }
        Action::Wait { .. } => Event::Waited,
        Action::ReadProbe { probe } => {
            let found = world.temperatures.iter().find(|(address, _)| *address == probe.address);
            match found {
                Some((_, Some(reading))) => Event::ProbeRead(*reading),
                _ => Event::ProbeFailed,
            }
        }
        Action::Transfer(request) => Event::Transferred(transfer(world, request)),
        Action::Emit(emission) => match world.deliveries_until_failure {
            Some(0) => Event::DeliveryFailed,
            Some(left) => {
                world.deliveries_until_failure = Some(left - 1);
                world.delivered.push(emission);
                Event::Delivered
            }
            None => {
                world.delivered.push(emission);
                Event::Delivered
            }
        },
        Action::Halt => unreachable!(),
    }
}

/// Runs the station until it pauses between cycles or halts.
fn run_until_pause(mut station: Station, world: &mut World) -> Station {
    for _ in 0..1000 {
        let action = station.action();
        if action == Action::Halt || action == (Action::Wait { millis: CYCLE_PAUSE_MS }) {
            return station;
        }
        let event = carry_out(world, action);
        station = station.step(event);
    }
    panic!("the station did not come to rest");
}

#[test]
fn wrappers_agree_with_the_probe_driver() {
    assert_eq!(PROBE_FAMILY_CODE, 0x28);
    assert_eq!(CONVERSION_TIME_MS, 750);
    assert_eq!(conversion_delay(), 750);
    assert_eq!(accept_device(PROBE_A), Some(Probe { address: PROBE_A }));
    assert_eq!(accept_device(0x28), Some(Probe { address: 0x28 }));
    assert_eq!(accept_device(0x2800), None);
}

#[test]
fn other_family_is_never_bound() {
    assert_eq!(accept_device(THERMOSTAT), None);
    assert_eq!(accept_device(SWAPPED), None);
    assert_eq!(accept_device(0), None);
    assert_eq!(accept_device(u64::MAX), None);
    for low in 0..=u8::MAX {
        let address = 0x2828_2828_2828_2800 | low as u64;
        assert_eq!(accept_device(address).is_some(), low == 0x28);
    }
}

#[test]
fn new_station_searches() {
    let station = Station::new();
    assert_eq!(station.phase(), Phase::Discovering);
    assert_eq!(station.action(), Action::SearchNext);
    assert_eq!(station.probes().len(), 0);
    assert_eq!(station.readings(), Readings::new());
}

#[test]
fn discovery_binds_the_supported_family_in_order() {
    let mut station = Station::new();
    for address in [PROBE_B, THERMOSTAT, PROBE_A, SWAPPED] {
        station = station.step(Event::DeviceFound { address });
        assert_eq!(station.action(), Action::SearchNext);
    }
    assert_eq!(station.probes(), &vec![Probe { address: PROBE_B }, Probe { address: PROBE_A }]);
    station = station.step(Event::SearchEnded);
    assert_eq!(station.phase(), Phase::StartingConversion);
    assert_eq!(station.action(), Action::StartConversion);
}

#[test]
fn discovery_happens_once() {
    let mut station = Station::new();
    station = station.step(Event::DeviceFound { address: PROBE_A });
    station = station.step(Event::SearchEnded);
    station = station.step(Event::DeviceFound { address: PROBE_B });
    assert_eq!(station.probes(), &vec![Probe { address: PROBE_A }]);
    assert_eq!(station.phase(), Phase::StartingConversion);
    let mut around = world(&[]);
    around.temperatures = vec![(PROBE_A, Some(tenths(213)))];
    for _ in 0..3 {
        station = run_until_pause(station, &mut around);
        station = station.step(Event::Waited);
        assert_eq!(station.probes(), &vec![Probe { address: PROBE_A }]);
    }
    assert!(!around.log.contains(&Action::SearchNext));
}

#[test]
fn a_full_cycle() {
    let mut around = world(&[PROBE_A, THERMOSTAT, PROBE_B]);
    around.temperatures = vec![(PROBE_A, Some(tenths(213))), (PROBE_B, Some(tenths(197)))];
    let station = run_until_pause(Station::new(), &mut around);
    let humidity = relative_humidity(0x7C80);
    let paired = celsius(0x6390);
    let dew = Reading { scaled: paired.scaled - (100 * SCALE - humidity.scaled) / 5 };
    assert_eq!(
        around.delivered,
        vec![
            Emission { metric: TsMetric::temperature(tenths(197)), source: Source::ColdEnd },
            Emission { metric: TsMetric::temperature(tenths(213)), source: Source::HotEnd },
            Emission { metric: TsMetric::humidity(humidity), source: Source::Hygrometer },
            Emission { metric: TsMetric::dew_point(dew), source: Source::Hygrometer },
        ]
    );
    assert_eq!(station.phase(), Phase::Sleeping);
    assert_eq!(station.action(), Action::Wait { millis: 1000 });
    assert_eq!(
        around.log,
        vec![
            Action::SearchNext,
            Action::SearchNext,
            Action::SearchNext,
            Action::SearchNext,
            Action::StartConversion,
            Action::Wait { millis: 750 },
            Action::ReadProbe { probe: Probe { address: PROBE_A } },
            Action::ReadProbe { probe: Probe { address: PROBE_B } },
            Action::Transfer(Request::Write { address: 0x40, command: 0xF5 }),
            Action::Transfer(Request::WaitThenRead { address: 0x40, delay_ms: 10 }),
            Action::Transfer(Request::WaitThenRead { address: 0x40, delay_ms: 10 }),
            Action::Transfer(Request::Write { address: 0x40, command: 0xF3 }),
            Action::Transfer(Request::WaitThenRead { address: 0x40, delay_ms: 10 }),
            Action::Transfer(Request::WaitThenRead { address: 0x40, delay_ms: 10 }),
            Action::Emit(around.delivered[0]),
            Action::Emit(around.delivered[1]),
            Action::Emit(around.delivered[2]),
            Action::Emit(around.delivered[3]),
        ]
    );
}

#[test]
fn every_cycle_starts_afresh() {
    let mut around = world(&[PROBE_A, PROBE_B]);
    around.temperatures = vec![(PROBE_A, Some(tenths(213))), (PROBE_B, Some(tenths(197)))];
    let mut station = run_until_pause(Station::new(), &mut around);
    assert_eq!(station.readings().low_temperature, Some(tenths(197)));
    around.temperatures = vec![(PROBE_A, Some(tenths(100))), (PROBE_B, None)];
    around.humidity_raw = Some(0x8000);
    around.delivered.clear();
    station = station.step(Event::Waited);
    assert_eq!(station.readings(), Readings::new());
    station = run_until_pause(station, &mut around);
    assert_eq!(station.readings().low_temperature, Some(tenths(100)));
    assert_eq!(station.readings().high_temperature, None);
    assert_eq!(station.readings().humidity, Some(relative_humidity(0x8000)));
    assert_eq!(around.delivered.len(), 3);
    assert_eq!(around.delivered[0].source, Source::ColdEnd);
    assert_eq!(around.delivered[1].metric, TsMetric::humidity(relative_humidity(0x8000)));
}

#[test]
fn only_the_first_two_probes_count() {
    let third = 0x7800_0000_0000_0428;
    let mut around = world(&[PROBE_A, PROBE_B, third]);
    around.temperatures = vec![
        (PROBE_A, Some(tenths(10))),
        (PROBE_B, Some(tenths(20))),
        (third, Some(tenths(990))),
    ];
    let station = run_until_pause(Station::new(), &mut around);
    assert_eq!(station.readings().low_temperature, Some(tenths(10)));
    assert_eq!(station.readings().high_temperature, Some(tenths(20)));
    assert!(around.log.contains(&Action::ReadProbe { probe: Probe { address: third } }));
}

#[test]
fn a_failed_probe_is_skipped() {
    let third = 0x7800_0000_0000_0428;
    let mut around = world(&[PROBE_A, PROBE_B, third]);
    around.temperatures =
        vec![(PROBE_A, None), (PROBE_B, Some(tenths(300))), (third, Some(tenths(250)))];
    let station = run_until_pause(Station::new(), &mut around);
    assert_eq!(station.readings().low_temperature, Some(tenths(250)));
    assert_eq!(station.readings().high_temperature, Some(tenths(300)));
    assert_eq!(around.delivered.len(), 4);
}

#[test]
fn without_probes_no_conversion_is_started() {
    let mut around = world(&[THERMOSTAT]);
    let station = run_until_pause(Station::new(), &mut around);
    assert!(!around.log.contains(&Action::StartConversion));
    assert!(!around.log.contains(&Action::Wait { millis: 750 }));
    assert_eq!(station.probes().len(), 0);
    assert_eq!(around.delivered.len(), 2);
    assert_eq!(around.delivered[0].metric, TsMetric::humidity(relative_humidity(0x7C80)));
}

#[test]
fn a_failed_broadcast_leaves_the_hygrometer() {
    let mut around = world(&[PROBE_A, PROBE_B]);
    around.temperatures = vec![(PROBE_A, Some(tenths(213))), (PROBE_B, Some(tenths(197)))];
    around.broadcast_works = false;
    let station = run_until_pause(Station::new(), &mut around);
    assert_eq!(station.readings().low_temperature, None);
    assert_eq!(station.readings().high_temperature, None);
    assert!(!around.log.contains(&Action::Wait { millis: 750 }));
    assert!(!around.log.contains(&Action::ReadProbe { probe: Probe { address: PROBE_A } }));
    assert_eq!(around.delivered.len(), 2);
    assert_eq!(around.delivered[0].metric, TsMetric::humidity(relative_humidity(0x7C80)));
    assert_eq!(station.phase(), Phase::Sleeping);
}

#[test]
fn a_failed_humidity_read_leaves_the_temperatures() {
    let mut around = world(&[PROBE_A]);
    around.temperatures = vec![(PROBE_A, Some(tenths(213)))];
    around.humidity_raw = None;
    let station = run_until_pause(Station::new(), &mut around);
    assert_eq!(station.readings().humidity, None);
    assert_eq!(station.readings().hum_temperature, Some(celsius(0x6390)));
    assert_eq!(
        around.delivered,
        vec![Emission { metric: TsMetric::temperature(tenths(213)), source: Source::ColdEnd }]
    );
}

#[test]
fn a_failed_paired_temperature_leaves_the_humidity() {
    let mut around = world(&[]);
    around.temperature_raw = None;
    let station = run_until_pause(Station::new(), &mut around);
    assert_eq!(station.readings().hum_temperature, None);
    assert_eq!(
        around.delivered,
        vec![Emission {
            metric: TsMetric::humidity(relative_humidity(0x7C80)),
            source: Source::Hygrometer
        }]
    );
}

#[test]
fn a_sensor_that_is_never_ready_is_skipped() {
    let mut around = world(&[]);
    around.not_ready = 100;
    let station = run_until_pause(Station::new(), &mut around);
    assert_eq!(station.readings(), Readings::new());
    assert_eq!(around.delivered.len(), 0);
    assert_eq!(station.phase(), Phase::Sleeping);
    let polls = around
        .log
        .iter()
        .filter(|action| {
            **action == Action::Transfer(Request::WaitThenRead { address: 0x40, delay_ms: 10 })
        })
        .count();
    assert_eq!(polls, 20);
}

#[test]
fn a_sensor_that_is_ready_on_its_last_read_is_sampled() {
    let mut around = world(&[]);
    around.not_ready = 9;
    let station = run_until_pause(Station::new(), &mut around);
    assert_eq!(station.readings().humidity, Some(relative_humidity(0x7C80)));
    assert_eq!(station.readings().hum_temperature, Some(celsius(0x6390)));
    assert_eq!(around.delivered.len(), 2);
    let polls = around
        .log
        .iter()
        .filter(|action| {
            **action == Action::Transfer(Request::WaitThenRead { address: 0x40, delay_ms: 10 })
        })
        .count();
    assert_eq!(polls, 20);
}

#[test]
fn a_failed_delivery_halts_the_station() {
    let mut around = world(&[PROBE_A, PROBE_B]);
    around.temperatures = vec![(PROBE_A, Some(tenths(213))), (PROBE_B, Some(tenths(197)))];
    around.deliveries_until_failure = Some(1);
    let mut station = run_until_pause(Station::new(), &mut around);
    assert_eq!(station.phase(), Phase::Halted);
    assert_eq!(station.action(), Action::Halt);
    assert_eq!(around.delivered.len(), 1);
    for event in [
        Event::Waited,
        Event::Delivered,
        Event::SearchEnded,
        Event::DeviceFound { address: PROBE_A },
        Event::Transferred(Reply::Written),
    ] {
        station = station.step(event);
        assert_eq!(station.phase(), Phase::Halted);
        assert_eq!(station.action(), Action::Halt);
    }
}

#[test]
fn an_event_that_answers_nothing_is_ignored() {
    let mut station = Station::new();
    for event in [
        Event::Waited,
        Event::ConversionStarted,
        Event::ConversionFailed,
        Event::ProbeRead(tenths(1)),
        Event::ProbeFailed,
        Event::Transferred(Reply::Written),
        Event::Delivered,
        Event::DeliveryFailed,
    ] {
        station = station.step(event);
        assert_eq!(station.phase(), Phase::Discovering);
        assert_eq!(station.probes().len(), 0);
    }
    station = station.step(Event::DeviceFound { address: PROBE_A });
    station = station.step(Event::SearchEnded);
    station = station.step(Event::Waited);
    station = station.step(Event::ProbeRead(tenths(1)));
    station = station.step(Event::DeliveryFailed);
    assert_eq!(station.phase(), Phase::StartingConversion);
    assert_eq!(station.readings(), Readings::new());
    station = station.step(Event::ConversionStarted);
    assert_eq!(station.phase(), Phase::Converting);
    station = station.step(Event::ConversionFailed);
    assert_eq!(station.phase(), Phase::Converting);
    station = station.step(Event::Waited);
    assert_eq!(station.phase(), Phase::ReadingProbe { index: 0 });
    station = station.step(Event::Waited);
    assert_eq!(station.phase(), Phase::ReadingProbe { index: 0 });
}
