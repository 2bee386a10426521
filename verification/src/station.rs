//! The decisions of the polling loop.
//!
//! A [`Station`] discovers the temperature probes once and then cycles
//! forever: sample the probes, sample the humidity sensor, report the
//! metrics, pause. It performs none of this itself. At every moment it
//! names one [`Action`] for the caller to carry out, and the caller
//! reports the result as an [`Event`]. An event that does not answer the
//! outstanding action is ignored.

use vstd::prelude::*;
use crate::metric::{derive_metrics, metrics_of, Emission};
use crate::probes::{
    accept_device, accepted, bound_probes, conversion_delay, family_code_of, Probe,
    CONVERSION_TIME_MS, PROBE_FAMILY_CODE,
};
use crate::reading::Reading;
use crate::readings::Readings;
use crate::sht_20::{
    Outcome, Quantity, Reply, Request, Step, Transaction, SHT20, SLAVE_ADDRESS,
    TRIGGER_HUMD_MEASURE_NOHOLD, TRIGGER_TEMP_MEASURE_NOHOLD,
};

verus! {

/// Pause between two cycles, in milliseconds.
pub const CYCLE_PAUSE_MS: u32 = 1000;

/// What the station is waiting for.
#[derive(Clone, Copy, Debug, PartialEq, Eq, Structural)]
pub enum Phase {
    /// The next device on the probe bus.
    Discovering,
    /// The answer to the broadcast "start conversion".
    StartingConversion,
    /// The end of the conversion delay.
    Converting,
    /// The latched result of probe number `index`.
    ReadingProbe { index: usize },
    /// A transfer of the humidity measurement.
    MeasuringHumidity { transaction: Transaction },
    /// A transfer of the measurement of the temperature that goes with the
    /// humidity.
    MeasuringTemperature { transaction: Transaction },
    /// The delivery of metric number `index` of this cycle.
    Emitting { index: usize },
    /// The end of the pause between cycles.
    Sleeping,
    /// Nothing: a delivery failed and the station has stopped.
    Halted,
}

/// What the caller is to do next.
#[derive(Clone, Copy, Debug, PartialEq, Eq, Structural)]
pub enum Action {
    /// Search the probe bus for the next device, continuing the search
    /// where the last one ended.
    SearchNext,
    /// Broadcast "start conversion" to all probes.
    StartConversion,
    /// Wait `millis` milliseconds.
    Wait { millis: u32 },
    /// Read the latched result of `probe`.
    ReadProbe { probe: Probe },
    /// Perform `0` on the humidity sensor's bus.
    Transfer(Request),
    /// Hand `0` to the metrics transport.
    Emit(Emission),
    /// Stop: the station has halted.
    Halt,
}

/// What happened when the caller carried out the action.
#[derive(Clone, Copy, Debug, PartialEq, Eq, Structural)]
pub enum Event {
    /// The search found a device.
    DeviceFound { address: u64 },
    /// The search found no further device, or failed.
    SearchEnded,
    /// The broadcast went out.
    ConversionStarted,
    /// The broadcast failed.
    ConversionFailed,
    /// The wait is over.
    Waited,
    /// The probe reported a temperature.
    ProbeRead(Reading),
    /// The probe could not be read.
    ProbeFailed,
    /// The humidity sensor's bus answered.
    Transferred(Reply),
    /// The transport took the metric.
    Delivered,
    /// The transport failed.
    DeliveryFailed,
}

/// The state of a station as contracts see it.
pub struct StationState {
    /// The bound probes, in discovery order.
    pub probes: Seq<Probe>,
    /// The humidity sensor.
    pub sensor: SHT20,
    /// The aggregate of the cycle in progress.
    pub readings: Readings,
    /// What the station is waiting for.
    pub phase: Phase,
}

impl StationState {
    /// A station that has not yet searched for probes.
    pub open spec fn initial() -> StationState {
        StationState {
            probes: seq![],
            sensor: SHT20 { address: SLAVE_ADDRESS },
            readings: Readings::empty(),
            phase: Phase::Discovering,
        }
    }

    /// Every probe is of the supported family, and the phase refers to a
    /// probe or a metric that exists.
    pub open spec fn wf(self) -> bool {
        &&& forall|i: int|
            0 <= i < self.probes.len() ==> family_code_of(#[trigger] self.probes[i].address)
                == PROBE_FAMILY_CODE
        &&& match self.phase {
            Phase::StartingConversion | Phase::Converting => self.probes.len() > 0,
            Phase::ReadingProbe { index } => index < self.probes.len(),
            Phase::Emitting { index } => index < metrics_of(self.readings).len(),
            _ => true,
        }
    }

    /// The action that is outstanding.
    pub open spec fn action(self) -> Action {
        match self.phase {
            Phase::Discovering => Action::SearchNext,
            Phase::StartingConversion => Action::StartConversion,
            Phase::Converting => Action::Wait { millis: CONVERSION_TIME_MS as u32 },
            Phase::ReadingProbe { index } => Action::ReadProbe { probe: self.probes[index as int] },
            Phase::MeasuringHumidity { transaction } => Action::Transfer(transaction.pending()),
            Phase::MeasuringTemperature { transaction } => Action::Transfer(transaction.pending()),
            Phase::Emitting { index } => Action::Emit(metrics_of(self.readings)[index as int]),
            Phase::Sleeping => Action::Wait { millis: CYCLE_PAUSE_MS },
            Phase::Halted => Action::Halt,
        }
    }

    /// The humidity measurement begins.
    pub open spec fn measuring_humidity(self) -> StationState {
        StationState {
            phase: Phase::MeasuringHumidity {
                transaction: self.sensor.measurement(
                    TRIGGER_HUMD_MEASURE_NOHOLD,
                    Quantity::Humidity,
                ),
            },
            ..self
        }
    }

    /// The measurement of the temperature that goes with the humidity
    /// begins.
    pub open spec fn measuring_temperature(self) -> StationState {
        StationState {
            phase: Phase::MeasuringTemperature {
                transaction: self.sensor.measurement(
                    TRIGGER_TEMP_MEASURE_NOHOLD,
                    Quantity::Temperature,
                ),
            },
            ..self
        }
    }

    /// A cycle begins: the aggregate is fresh, and the probes are sampled
    /// first if there are any.
    pub open spec fn starting_cycle(self) -> StationState {
        let fresh = StationState { readings: Readings::empty(), ..self };
        if self.probes.len() > 0 {
            StationState { phase: Phase::StartingConversion, ..fresh }
        } else {
            fresh.measuring_humidity()
        }
    }

    /// Probe number `index` is dealt with: the next probe is read, or,
    /// after the last one, the humidity measured.
    pub open spec fn past_probe(self, index: usize) -> StationState {
        if index + 1 < self.probes.len() {
            StationState { phase: Phase::ReadingProbe { index: (index + 1) as usize }, ..self }
        } else {
            self.measuring_humidity()
        }
    }

    /// Sampling is over: the first metric is delivered, or, if the cycle
    /// has none, the pause begins.
    pub open spec fn reporting(self) -> StationState {
        if metrics_of(self.readings).len() > 0 {
            StationState { phase: Phase::Emitting { index: 0 }, ..self }
        } else {
            StationState { phase: Phase::Sleeping, ..self }
        }
    }

    /// The policy for a failed delivery: the station halts, for good.
    pub open spec fn delivery_failed(self) -> StationState {
        StationState { phase: Phase::Halted, ..self }
    }

    /// The state after `event`.
    pub open spec fn next(self, event: Event) -> StationState {
        match (self.phase, event) {
            (Phase::Discovering, Event::DeviceFound { address }) => match accepted(address) {
                Some(probe) => StationState { probes: self.probes.push(probe), ..self },
                None => self,
            },
            (Phase::Discovering, Event::SearchEnded) => self.starting_cycle(),
            (Phase::StartingConversion, Event::ConversionStarted) => StationState {
                phase: Phase::Converting,
                ..self
            },
            (Phase::StartingConversion, Event::ConversionFailed) => self.measuring_humidity(),
            (Phase::Converting, Event::Waited) => StationState {
                phase: Phase::ReadingProbe { index: 0 },
                ..self
            },
            (Phase::ReadingProbe { index }, Event::ProbeRead(reading)) => (StationState {
                readings: self.readings.with_temperature(reading),
                ..self
            }).past_probe(index),
            (Phase::ReadingProbe { index }, Event::ProbeFailed) => self.past_probe(index),
            (Phase::MeasuringHumidity { transaction }, Event::Transferred(reply)) => {
                match transaction.after(reply) {
                    Step::Next(transaction) => StationState {
                        phase: Phase::MeasuringHumidity { transaction },
                        ..self
                    },
                    Step::Done(Ok(Outcome::Humidity(humidity))) => (StationState {
                        readings: self.readings.with_humidity(humidity),
                        ..self
                    }).measuring_temperature(),
                    Step::Done(_) => self.measuring_temperature(),
                }
            },
            (Phase::MeasuringTemperature { transaction }, Event::Transferred(reply)) => {
                match transaction.after(reply) {
                    Step::Next(transaction) => StationState {
                        phase: Phase::MeasuringTemperature { transaction },
                        ..self
                    },
                    Step::Done(Ok(Outcome::Temperature(temperature))) => (StationState {
                        readings: self.readings.with_hum_temperature(temperature),
                        ..self
                    }).reporting(),
                    Step::Done(_) => self.reporting(),
                }
            },
            (Phase::Emitting { index }, Event::Delivered) => {
                if index + 1 < metrics_of(self.readings).len() {
                    StationState { phase: Phase::Emitting { index: (index + 1) as usize }, ..self }
                } else {
                    StationState { phase: Phase::Sleeping, ..self }
                }
            },
            (Phase::Emitting { .. }, Event::DeliveryFailed) => self.delivery_failed(),
            (Phase::Sleeping, Event::Waited) => self.starting_cycle(),
            _ => self,
        }
    }

    /// The state after a run of events, oldest first.
    pub open spec fn after_all(self, events: Seq<Event>) -> StationState
        decreases events.len(),
    {
        if events.len() == 0 {
            self
        } else {
            self.after_all(events.drop_last()).next(events.last())
        }
    }
}

/// A well-formed state stays well-formed.
pub proof fn lemma_next_keeps_wf(state: StationState, event: Event)
    requires
        state.wf(),
    ensures
        state.next(event).wf(),
{
}

/// The polling loop's state: the bound probes, the humidity sensor, the
/// aggregate of the cycle in progress, and what the loop is waiting for.
#[derive(Debug)]
pub struct Station {
    probes: Vec<Probe>,
    sensor: SHT20,
    readings: Readings,
    phase: Phase,
}

impl View for Station {
    type V = StationState;

    closed spec fn view(&self) -> StationState {
        StationState {
            probes: self.probes@,
            sensor: self.sensor,
            readings: self.readings,
            phase: self.phase,
        }
    }
}

impl Station {
    #[verifier::type_invariant]
    spec fn well_formed(self) -> bool {
        self@.wf()
    }

    /// A station that is about to search for probes.
    pub fn new() -> (station: Station)
        ensures
            station@ == StationState::initial(),
            station@.wf(),
    {
        Station {
            probes: Vec::new(),
            sensor: SHT20::new(),
            readings: Readings::new(),
            phase: Phase::Discovering,
        }
    }

    /// The bound probes, in discovery order.
    pub fn probes(&self) -> (probes: &Vec<Probe>)
        ensures
            probes@ == self@.probes,
    {
        &self.probes
    }

    /// The aggregate of the cycle in progress.
    pub fn readings(&self) -> (readings: Readings)
        ensures
            readings == self@.readings,
    {
        self.readings
    }

    /// What the station is waiting for.
    pub fn phase(&self) -> (phase: Phase)
        ensures
            phase == self@.phase,
    {
        self.phase
    }

    /// The action that the caller is to carry out.
    pub fn action(&self) -> (action: Action)
        ensures
            self@.wf(),
            action == self@.action(),
    {
        proof {
            use_type_invariant(self);
        }
        match self.phase {
            Phase::Discovering => Action::SearchNext,
            Phase::StartingConversion => Action::StartConversion,
            Phase::Converting => Action::Wait { millis: conversion_delay() },
            Phase::ReadingProbe { index } => Action::ReadProbe { probe: self.probes[index] },
            Phase::MeasuringHumidity { transaction } => Action::Transfer(transaction.request()),
            Phase::MeasuringTemperature { transaction } => Action::Transfer(transaction.request()),
            Phase::Emitting { index } => {
                let metrics = derive_metrics(&self.readings);
                Action::Emit(metrics[index])
            },
            Phase::Sleeping => Action::Wait { millis: CYCLE_PAUSE_MS },
            Phase::Halted => Action::Halt,
        }
    }

    /// Takes the outcome of the outstanding action and moves on.
    pub fn step(self, event: Event) -> (next: Station)
        ensures
            self@.wf(),
            next@ == self@.next(event),
            next@.wf(),
    {
        proof {
            use_type_invariant(&self);
            lemma_next_keeps_wf(self@, event);
        }
        let Station { probes, sensor, readings, phase } = self;
        let mut probes = probes;
        let mut readings = readings;
        let count: usize = probes.len();
        let phase = match (phase, event) {
            (Phase::Discovering, Event::DeviceFound { address }) => {
                if let Some(probe) = accept_device(address) {
                    probes.push(probe);
                }
                Phase::Discovering
            },
            (Phase::Discovering, Event::SearchEnded) | (Phase::Sleeping, Event::Waited) => {
                readings = Readings::new();
                if count > 0 {
                    Phase::StartingConversion
                } else {
                    Phase::MeasuringHumidity { transaction: sensor.humidity() }
                }
            },
            (Phase::StartingConversion, Event::ConversionStarted) => Phase::Converting,
            (Phase::StartingConversion, Event::ConversionFailed) => Phase::MeasuringHumidity {
                transaction: sensor.humidity(),
            },
            (Phase::Converting, Event::Waited) => Phase::ReadingProbe { index: 0 },
            (Phase::ReadingProbe { index }, Event::ProbeRead(reading)) => {
                readings.temperature(reading);
                Self::past_probe(&sensor, count, index)
            },
            (Phase::ReadingProbe { index }, Event::ProbeFailed) => Self::past_probe(
                &sensor,
                count,
                index,
            ),
            (Phase::MeasuringHumidity { transaction }, Event::Transferred(reply)) => {
                match transaction.advance(reply) {
                    Step::Next(transaction) => Phase::MeasuringHumidity { transaction },
                    Step::Done(Ok(Outcome::Humidity(humidity))) => {
                        readings.humidity(humidity);
                        Phase::MeasuringTemperature { transaction: sensor.temperature() }
                    },
                    Step::Done(_) => Phase::MeasuringTemperature {
                        transaction: sensor.temperature(),
                    },
                }
            },
            (Phase::MeasuringTemperature { transaction }, Event::Transferred(reply)) => {
                match transaction.advance(reply) {
                    Step::Next(transaction) => Phase::MeasuringTemperature { transaction },
                    Step::Done(Ok(Outcome::Temperature(temperature))) => {
                        readings.hum_temperature(temperature);
                        Self::reporting(&readings)
                    },
                    Step::Done(_) => Self::reporting(&readings),
                }
            },
            (Phase::Emitting { index }, Event::Delivered) => {
                let metrics = derive_metrics(&readings);
                if index + 1 < metrics.len() {
                    Phase::Emitting { index: index + 1 }
                } else {
                    Phase::Sleeping
                }
            },
            (Phase::Emitting { .. }, Event::DeliveryFailed) => Self::delivery_failed(),
            (phase, _) => phase,
        };
        Station { probes, sensor, readings, phase }
    }

    /// The phase once probe number `index` of `count` is dealt with.
    fn past_probe(sensor: &SHT20, count: usize, index: usize) -> (phase: Phase)
        requires
            index < count,
        ensures
            phase == if index + 1 < count {
                Phase::ReadingProbe { index: (index + 1) as usize }
            } else {
                Phase::MeasuringHumidity {
                    transaction: sensor.measurement(TRIGGER_HUMD_MEASURE_NOHOLD, Quantity::Humidity),
                }
            },
    {
        if index + 1 < count {
            Phase::ReadingProbe { index: index + 1 }
        } else {
            Phase::MeasuringHumidity { transaction: sensor.humidity() }
        }
    }

    /// The phase after a failed delivery.
    fn delivery_failed() -> (phase: Phase)
        ensures
            phase == Phase::Halted,
    {
        Phase::Halted
    }

    /// The phase once sampling is over.
    fn reporting(readings: &Readings) -> (phase: Phase)
        ensures
            phase == if metrics_of(*readings).len() > 0 {
                Phase::Emitting { index: 0 }
            } else {
                Phase::Sleeping
            },
    {
        if derive_metrics(readings).len() > 0 {
            Phase::Emitting { index: 0 }
        } else {
            Phase::Sleeping
        }
    }
}

/// The events of a search that finds `addresses`, one after the other.
pub open spec fn found(addresses: Seq<u64>) -> Seq<Event> {
    Seq::new(addresses.len(), |i: int| Event::DeviceFound { address: addresses[i] })
}

/// The temperatures among the outcomes of probe reads, oldest first: a
/// failed read contributes none.
pub open spec fn samples_of(outcomes: Seq<Event>) -> Seq<Reading>
    decreases outcomes.len(),
{
    if outcomes.len() == 0 {
        seq![]
    } else {
        match outcomes.first() {
            Event::ProbeRead(reading) => seq![reading] + samples_of(outcomes.drop_first()),
            _ => samples_of(outcomes.drop_first()),
        }
    }
}

/// Every state that a station can reach is well-formed. In particular a
/// station never holds a probe of another family than the supported one.
pub proof fn lemma_reachable_states_are_wf(events: Seq<Event>)
    ensures
        StationState::initial().after_all(events).wf(),
        forall|i: int|
            0 <= i < StationState::initial().after_all(events).probes.len() ==> family_code_of(
                #[trigger] StationState::initial().after_all(events).probes[i].address,
            ) == PROBE_FAMILY_CODE,
    decreases events.len(),
{
    if events.len() > 0 {
        lemma_reachable_states_are_wf(events.drop_last());
        lemma_next_keeps_wf(StationState::initial().after_all(events.drop_last()), events.last());
    }
}

/// While the search runs, the station binds the devices of the supported
/// family in the order in which they are found, and passes over the rest.
pub proof fn lemma_discovery_binds_in_order(addresses: Seq<u64>)
    ensures
        StationState::initial().after_all(found(addresses)) == (StationState {
            probes: bound_probes(addresses),
            ..StationState::initial()
        }),
    decreases addresses.len(),
{
    let start = StationState::initial();
    if addresses.len() == 0 {
        assert(start.probes =~= bound_probes(addresses));
    } else {
        let front = addresses.drop_last();
        lemma_discovery_binds_in_order(front);
        assert(found(addresses).drop_last() =~= found(front));
        assert(found(addresses).last() == Event::DeviceFound { address: addresses.last() });
    }
}

/// Discovery happens once: after the search has ended the station never
/// searches again, and its probes stay as they are.
pub proof fn lemma_discovery_runs_once(state: StationState, event: Event)
    requires
        !(state.phase is Discovering),
    ensures
        !(state.next(event).phase is Discovering),
        state.next(event).probes == state.probes,
        state.next(event).sensor == state.sensor,
{
}

/// Every cycle starts from an empty aggregate: nothing is carried over
/// from the cycle before. With probes the cycle starts with the
/// broadcast, without any it goes straight to the humidity measurement.
pub proof fn lemma_cycle_starts_afresh(state: StationState)
    requires
        state.phase is Sleeping,
    ensures
        state.next(Event::Waited).readings == Readings::empty(),
        state.next(Event::Waited).probes == state.probes,
        state.probes.len() > 0 ==> state.next(Event::Waited).action() == Action::StartConversion,
        state.probes.len() == 0 ==> state.next(Event::Waited).action() == Action::Transfer(
            Request::Write { address: state.sensor.address, command: TRIGGER_HUMD_MEASURE_NOHOLD },
        ),
{
}

/// A failed broadcast costs the cycle its temperature samples and nothing
/// else: the humidity measurement begins at once.
pub proof fn lemma_failed_broadcast_skips_probes(state: StationState)
    requires
        state.phase is StartingConversion,
    ensures
        state.next(Event::ConversionFailed) == state.measuring_humidity(),
        state.next(Event::ConversionFailed).readings == state.readings,
{
}

/// A failed delivery halts the station, and a halted station stays halted
/// whatever happens.
pub proof fn lemma_failed_delivery_halts(state: StationState, later: Seq<Event>)
    requires
        state.phase is Emitting,
    ensures
        state.next(Event::DeliveryFailed).after_all(later) == (StationState {
            phase: Phase::Halted,
            ..state
        }),
        state.next(Event::DeliveryFailed).after_all(later).action() == Action::Halt,
    decreases later.len(),
{
    if later.len() > 0 {
        lemma_failed_delivery_halts(state, later.drop_last());
    }
}

/// A run of events can be split anywhere.
pub proof fn lemma_after_all_splits(state: StationState, first: Seq<Event>, then: Seq<Event>)
    ensures
        state.after_all(first + then) == state.after_all(first).after_all(then),
    decreases then.len(),
{
    if then.len() == 0 {
        assert(first + then =~= first);
    } else {
        lemma_after_all_splits(state, first, then.drop_last());
        assert((first + then).drop_last() =~= first + then.drop_last());
        assert((first + then).last() == then.last());
    }
}

/// Taking samples one by one is taking them all.
proof fn lemma_with_temperatures_push(held: Readings, samples: Seq<Reading>, last: Reading)
    ensures
        held.with_temperatures(samples.push(last)) == held.with_temperatures(samples).with_temperature(
            last,
        ),
    decreases samples.len(),
{
    let all = samples.push(last);
    if samples.len() == 0 {
        assert(all.first() == last);
        assert(all.drop_first() =~= samples);
        assert(held.with_temperature(last).with_temperatures(all.drop_first()) == held.with_temperature(
            last,
        ));
    } else {
        assert(all.first() == samples.first());
        assert(all.drop_first() =~= samples.drop_first().push(last));
        lemma_with_temperatures_push(
            held.with_temperature(samples.first()),
            samples.drop_first(),
            last,
        );
    }
}

/// The samples of a run of probe outcomes, taken from the end.
proof fn lemma_samples_of_push(outcomes: Seq<Event>, last: Event)
    ensures
        samples_of(outcomes.push(last)) == match last {
            Event::ProbeRead(reading) => samples_of(outcomes).push(reading),
            _ => samples_of(outcomes),
        },
    decreases outcomes.len(),
{
    let all = outcomes.push(last);
    if outcomes.len() == 0 {
        assert(all.first() == last);
        assert(all.drop_first() =~= outcomes);
        assert(samples_of(all.drop_first()) =~= seq![]);
        match last {
            Event::ProbeRead(reading) => {
                assert(samples_of(all) =~= samples_of(outcomes).push(reading));
            },
            _ => {},
        }
    } else {
        assert(all.first() == outcomes.first());
        assert(all.drop_first() =~= outcomes.drop_first().push(last));
        lemma_samples_of_push(outcomes.drop_first(), last);
        match (outcomes.first(), last) {
            (Event::ProbeRead(head), Event::ProbeRead(reading)) => {
                assert(samples_of(all) =~= samples_of(outcomes).push(reading));
            },
            _ => {},
        }
    }
}

/// Sampling the probes: once the conversion delay is over, the station
/// reads the probes in discovery order. Each reported temperature is fed
/// into the aggregate, each failed read is skipped, and after the last
/// probe the humidity measurement begins.
pub proof fn lemma_probes_are_sampled_in_order(state: StationState, outcomes: Seq<Event>)
    requires
        state.wf(),
        state.phase == (Phase::ReadingProbe { index: 0 }),
        outcomes.len() <= state.probes.len() <= usize::MAX,
        forall|i: int|
            0 <= i < outcomes.len() ==> (#[trigger] outcomes[i] is ProbeRead
                || outcomes[i] is ProbeFailed),
    ensures
        state.after_all(outcomes).readings == state.readings.with_temperatures(samples_of(outcomes)),
        state.after_all(outcomes).probes == state.probes,
        state.after_all(outcomes).sensor == state.sensor,
        outcomes.len() < state.probes.len() ==> state.after_all(outcomes).phase
            == (Phase::ReadingProbe { index: outcomes.len() as usize })
            && state.after_all(outcomes).action() == (Action::ReadProbe {
            probe: state.probes[outcomes.len() as int],
        }),
        outcomes.len() == state.probes.len() ==> state.after_all(outcomes).phase
            == state.measuring_humidity().phase,
    decreases outcomes.len(),
{
    if outcomes.len() == 0 {
        assert(samples_of(outcomes) =~= seq![]);
    } else {
        let front = outcomes.drop_last();
        lemma_probes_are_sampled_in_order(state, front);
        assert(front.push(outcomes.last()) =~= outcomes);
        lemma_samples_of_push(front, outcomes.last());
        match outcomes.last() {
            Event::ProbeRead(reading) => {
                lemma_with_temperatures_push(state.readings, samples_of(front), reading);
            },
            _ => {},
        }
    }
}

/// Reporting: the station hands the metrics of the cycle's aggregate to
/// the transport one by one, in their order, and pauses after the last.
pub proof fn lemma_metrics_are_emitted_in_order(state: StationState, delivered: nat)
    requires
        state.wf(),
        state.phase == (Phase::Emitting { index: 0 }),
        delivered <= metrics_of(state.readings).len(),
    ensures
        ({
            let now = state.after_all(Seq::new(delivered, |i: int| Event::Delivered));
            &&& now.readings == state.readings
            &&& delivered < metrics_of(state.readings).len() ==> now.phase == (Phase::Emitting {
                index: delivered as usize,
            }) && now.action() == Action::Emit(metrics_of(state.readings)[delivered as int])
            &&& delivered == metrics_of(state.readings).len() ==> now.phase == Phase::Sleeping
                && now.action() == (Action::Wait { millis: CYCLE_PAUSE_MS })
        }),
    decreases delivered,
{
    let events = Seq::new(delivered, |i: int| Event::Delivered);
    if delivered > 0 {
        lemma_metrics_are_emitted_in_order(state, (delivered - 1) as nat);
        assert(events.drop_last() =~= Seq::new((delivered - 1) as nat, |i: int| Event::Delivered));
        assert(events.last() == Event::Delivered);
    }
}

/// A measurement that is over with the last of `replies`, and not before.
pub open spec fn ends_with(transaction: Transaction, replies: Seq<Reply>) -> bool {
    &&& replies.len() > 0
    &&& transaction.run(replies.drop_last()) is Next
    &&& transaction.run(replies) is Done
}

/// The events in which the humidity sensor's bus answers with `replies`,
/// one after the other.
pub open spec fn transferred(replies: Seq<Reply>) -> Seq<Event> {
    Seq::new(replies.len(), |i: int| Event::Transferred(replies[i]))
}

/// A run of events that begins with `first` and goes on with `then`.
proof fn lemma_after_first(state: StationState, first: Event, then: Seq<Event>)
    ensures
        state.after_all(seq![first] + then) == state.next(first).after_all(then),
{
    lemma_after_all_splits(state, seq![first], then);
    assert(seq![first].drop_last() =~= Seq::<Event>::empty());
    assert(state.after_all(seq![first]) == state.after_all(seq![first].drop_last()).next(first));
}

/// The measurement on the humidity sensor that is in progress, if one is.
spec fn measuring(state: StationState) -> Option<Transaction> {
    match state.phase {
        Phase::MeasuringHumidity { transaction } => Some(transaction),
        Phase::MeasuringTemperature { transaction } => Some(transaction),
        _ => None,
    }
}

/// The state once the measurement in progress has ended as `result` says.
spec fn measured(state: StationState, result: Step) -> StationState {
    match (state.phase, result) {
        (Phase::MeasuringHumidity { .. }, Step::Done(Ok(Outcome::Humidity(humidity)))) => (StationState {
            readings: state.readings.with_humidity(humidity),
            ..state
        }).measuring_temperature(),
        (Phase::MeasuringHumidity { .. }, _) => state.measuring_temperature(),
        (
            Phase::MeasuringTemperature { .. },
            Step::Done(Ok(Outcome::Temperature(temperature))),
        ) => (StationState {
            readings: state.readings.with_hum_temperature(temperature),
            ..state
        }).reporting(),
        (Phase::MeasuringTemperature { .. }, _) => state.reporting(),
        _ => state,
    }
}

/// The station passes the bus's answers to the measurement in progress
/// until it is over, and then goes on as the result says.
proof fn lemma_measurement_is_carried_out(state: StationState, replies: Seq<Reply>)
    requires
        measuring(state) matches Some(transaction) && ends_with(transaction, replies),
    ensures
        state.after_all(transferred(replies)) == measured(state, measuring(state)->0.run(replies)),
    decreases replies.len(),
{
    let transaction = measuring(state)->0;
    let first = replies.first();
    let rest = replies.drop_first();
    let step = transaction.after(first);
    let moved = state.next(Event::Transferred(first));
    assert(transferred(replies) =~= seq![Event::Transferred(first)] + transferred(rest));
    lemma_after_first(state, Event::Transferred(first), transferred(rest));
    if rest.len() == 0 {
        assert(transferred(rest) =~= Seq::<Event>::empty());
        assert(moved.after_all(transferred(rest)) == moved);
        assert(step is Done && transaction.run(replies) == step);
    } else {
        let front = replies.drop_last();
        assert(front.first() == first);
        assert(front.drop_first() =~= rest.drop_last());
        assert(step is Next) by {
            if step is Done {
                assert(transaction.run(front) is Done);
            }
        }
        assert(transaction.run(replies) == step->Next_0.run(rest));
        assert(transaction.run(front) == step->Next_0.run(rest.drop_last()));
        assert(measuring(moved) == Some(step->Next_0));
        assert(forall|result: Step| measured(moved, result) == measured(state, result));
        lemma_measurement_is_carried_out(moved, rest);
    }
}

/// Measuring the humidity: the station passes the bus's answers to the
/// measurement until it is over. A humidity is fed into the aggregate, a
/// failure is skipped, and either way the temperature measurement begins.
pub proof fn lemma_humidity_is_measured(state: StationState, replies: Seq<Reply>)
    requires
        state.phase matches Phase::MeasuringHumidity { transaction } && ends_with(
            transaction,
            replies,
        ),
    ensures
        state.after_all(transferred(replies)) == (match state.phase->MeasuringHumidity_transaction.run(
            replies,
        ) {
            Step::Done(Ok(Outcome::Humidity(humidity))) => StationState {
                readings: state.readings.with_humidity(humidity),
                ..state
            },
            _ => state,
        }).measuring_temperature(),
{
    lemma_measurement_is_carried_out(state, replies);
}

/// Measuring the temperature that goes with the humidity: as for the
/// humidity, and then the metrics are reported.
pub proof fn lemma_temperature_is_measured(state: StationState, replies: Seq<Reply>)
    requires
        state.phase matches Phase::MeasuringTemperature { transaction } && ends_with(
            transaction,
            replies,
        ),
    ensures
        state.after_all(transferred(replies)) == (match state.phase->MeasuringTemperature_transaction.run(
            replies,
        ) {
            Step::Done(Ok(Outcome::Temperature(temperature))) => StationState {
                readings: state.readings.with_hum_temperature(temperature),
                ..state
            },
            _ => state,
        }).reporting(),
{
    lemma_measurement_is_carried_out(state, replies);
}

/// The aggregate of a cycle in which the probe reads end as `outcomes` say
/// and the two measurements of the humidity sensor end as `humidity` and
/// `temperature` say.
pub open spec fn cycle_readings(outcomes: Seq<Event>, humidity: Step, temperature: Step) -> Readings {
    let sampled = Readings::empty().with_temperatures(samples_of(outcomes));
    let with_humidity = match humidity {
        Step::Done(Ok(Outcome::Humidity(reading))) => sampled.with_humidity(reading),
        _ => sampled,
    };
    match temperature {
        Step::Done(Ok(Outcome::Temperature(reading))) => with_humidity.with_hum_temperature(reading),
        _ => with_humidity,
    }
}

/// One whole cycle of a station with probes. After the pause the station
/// broadcasts "start conversion", waits, reads every probe in discovery
/// order, measures humidity and then temperature on the humidity sensor,
/// and turns to reporting the metrics of exactly the aggregate that these
/// samples make: the first metric is on its way, or, if there is none, the
/// next pause begins.
pub proof fn lemma_cycle_with_probes(
    state: StationState,
    outcomes: Seq<Event>,
    humidity: Seq<Reply>,
    temperature: Seq<Reply>,
)
    requires
        state.wf(),
        state.phase is Sleeping,
        0 < state.probes.len() <= usize::MAX,
        outcomes.len() == state.probes.len(),
        forall|i: int|
            0 <= i < outcomes.len() ==> (#[trigger] outcomes[i] is ProbeRead
                || outcomes[i] is ProbeFailed),
        ends_with(
            state.sensor.measurement(TRIGGER_HUMD_MEASURE_NOHOLD, Quantity::Humidity),
            humidity,
        ),
        ends_with(
            state.sensor.measurement(TRIGGER_TEMP_MEASURE_NOHOLD, Quantity::Temperature),
            temperature,
        ),
    ensures
        state.after_all(
            seq![Event::Waited, Event::ConversionStarted, Event::Waited] + outcomes + transferred(
                humidity,
            ) + transferred(temperature),
        ) == (StationState {
            readings: cycle_readings(
                outcomes,
                state.sensor.measurement(TRIGGER_HUMD_MEASURE_NOHOLD, Quantity::Humidity).run(
                    humidity,
                ),
                state.sensor.measurement(TRIGGER_TEMP_MEASURE_NOHOLD, Quantity::Temperature).run(
                    temperature,
                ),
            ),
            ..state
        }).reporting(),
{
    let sensing = transferred(humidity) + transferred(temperature);
    let all = seq![Event::Waited, Event::ConversionStarted, Event::Waited] + outcomes
        + transferred(humidity) + transferred(temperature);
    let started = state.next(Event::Waited);
    let converting = started.next(Event::ConversionStarted);
    let reading = converting.next(Event::Waited);
    assert(all =~= seq![Event::Waited] + (seq![Event::ConversionStarted] + (seq![Event::Waited] + (
    outcomes + sensing))));
    lemma_after_first(
        state,
        Event::Waited,
        seq![Event::ConversionStarted] + (seq![Event::Waited] + (outcomes + sensing)),
    );
    lemma_after_first(
        started,
        Event::ConversionStarted,
        seq![Event::Waited] + (outcomes + sensing),
    );
    lemma_after_first(converting, Event::Waited, outcomes + sensing);
    assert(reading == (StationState {
        readings: Readings::empty(),
        phase: Phase::ReadingProbe { index: 0 },
        ..state
    }));
    lemma_after_all_splits(reading, outcomes, sensing);
    lemma_probes_are_sampled_in_order(reading, outcomes);
    let sampled = reading.after_all(outcomes);
    assert(sampled == (StationState {
        readings: Readings::empty().with_temperatures(samples_of(outcomes)),
        ..state
    }).measuring_humidity());
    lemma_after_all_splits(sampled, transferred(humidity), transferred(temperature));
    lemma_humidity_is_measured(sampled, humidity);
    let humid = sampled.after_all(transferred(humidity));
    lemma_temperature_is_measured(humid, temperature);
}

} // verus!
