//! The aggregate of one sampling cycle.
//!
//! Temperatures are captured two at a time: the first two samples of a
//! cycle become the low and the high temperature, and every later sample
//! is dropped. Humidity and the temperature measured with it each keep
//! their first sample.

use vstd::prelude::*;
use crate::reading::Reading;

verus! {

/// What one cycle has captured so far.
#[derive(Clone, Copy, Debug, PartialEq, Eq)]
pub struct Readings {
    pub low_temperature: Option<Reading>,
    pub high_temperature: Option<Reading>,
    pub humidity: Option<Reading>,
    pub hum_temperature: Option<Reading>,
}

/// The first value written to a slot stays.
pub open spec fn first_wins(slot: Option<Reading>, reading: Reading) -> Option<Reading> {
    if slot is None {
        Some(reading)
    } else {
        slot
    }
}

impl Readings {
    /// The aggregate at the start of a cycle.
    pub open spec fn empty() -> Readings {
        Readings {
            low_temperature: None,
            high_temperature: None,
            humidity: None,
            hum_temperature: None,
        }
    }

    /// The aggregate after one more temperature sample.
    pub open spec fn with_temperature(self, reading: Reading) -> Readings {
        match (self.low_temperature, self.high_temperature) {
            (Some(_), Some(_)) => self,
            (Some(t), None) => if t.scaled >= reading.scaled {
                Readings { low_temperature: Some(reading), high_temperature: Some(t), ..self }
            } else {
                Readings { high_temperature: Some(reading), ..self }
            },
            (None, Some(u)) => if u.scaled <= reading.scaled {
                Readings { low_temperature: Some(u), high_temperature: Some(reading), ..self }
            } else {
                Readings { low_temperature: Some(reading), ..self }
            },
            (None, None) => Readings { low_temperature: Some(reading), ..self },
        }
    }

    /// The aggregate after a run of temperature samples, oldest first.
    pub open spec fn with_temperatures(self, samples: Seq<Reading>) -> Readings
        decreases samples.len(),
    {
        if samples.len() == 0 {
            self
        } else {
            self.with_temperature(samples.first()).with_temperatures(samples.drop_first())
        }
    }

    /// The aggregate after one more humidity sample.
    pub open spec fn with_humidity(self, reading: Reading) -> Readings {
        Readings { humidity: first_wins(self.humidity, reading), ..self }
    }

    /// The aggregate after one more sample of the temperature measured
    /// alongside the humidity.
    pub open spec fn with_hum_temperature(self, reading: Reading) -> Readings {
        Readings { hum_temperature: first_wins(self.hum_temperature, reading), ..self }
    }

    /// A fresh aggregate.
    pub fn new() -> (fresh: Readings)
        ensures
            fresh == Readings::empty(),
    {
        Readings {
            low_temperature: None,
            high_temperature: None,
            humidity: None,
            hum_temperature: None,
        }
    }

    /// Feeds one temperature sample.
    pub fn temperature(&mut self, reading: Reading)
        ensures
            *final(self) == old(self).with_temperature(reading),
    {
        match (self.low_temperature, self.high_temperature) {
            (Some(_), Some(_)) => {},
            (Some(t), None) => {
                if t.scaled >= reading.scaled {
                    self.high_temperature = Some(t);
                    self.low_temperature = Some(reading);
                } else {
                    self.high_temperature = Some(reading);
                }
            },
            (None, Some(u)) => {
                if u.scaled <= reading.scaled {
                    self.low_temperature = Some(u);
                    self.high_temperature = Some(reading);
                } else {
                    self.low_temperature = Some(reading);
                }
            },
            (None, None) => {
                self.low_temperature = Some(reading);
            },
        }
    }

    /// Feeds one humidity sample.
    pub fn humidity(&mut self, reading: Reading)
        ensures
            *final(self) == old(self).with_humidity(reading),
    {
        if self.humidity.is_none() {
            self.humidity = Some(reading);
        }
    }

    /// Feeds one sample of the temperature measured alongside the humidity.
    pub fn hum_temperature(&mut self, reading: Reading)
        ensures
            *final(self) == old(self).with_hum_temperature(reading),
    {
        if self.hum_temperature.is_none() {
            self.hum_temperature = Some(reading);
        }
    }
}

impl Default for Readings {
    fn default() -> (fresh: Readings)
        ensures
            fresh == Readings::empty(),
    {
        Readings::new()
    }
}

/// The smaller of two readings.
pub open spec fn lower(a: Reading, b: Reading) -> Reading {
    if a.scaled <= b.scaled {
        a
    } else {
        b
    }
}

/// The larger of two readings.
pub open spec fn higher(a: Reading, b: Reading) -> Reading {
    if a.scaled <= b.scaled {
        b
    } else {
        a
    }
}

/// The first sample of a cycle is held as the low temperature until a
/// second one arrives.
pub proof fn lemma_first_temperature(first: Reading)
    ensures
        Readings::empty().with_temperature(first) == (Readings {
            low_temperature: Some(first),
            ..Readings::empty()
        }),
{
}

/// The first two samples of a cycle resolve to their minimum and maximum,
/// in whichever order they arrive.
pub proof fn lemma_first_two_temperatures(first: Reading, second: Reading)
    ensures
        Readings::empty().with_temperature(first).with_temperature(second) == (Readings {
            low_temperature: Some(lower(first, second)),
            high_temperature: Some(higher(first, second)),
            ..Readings::empty()
        }),
        Readings::empty().with_temperature(first).with_temperature(second)
            == Readings::empty().with_temperature(second).with_temperature(first),
{
}

/// Once both temperatures are held, a further sample changes nothing.
pub proof fn lemma_full_pair_ignores(held: Readings, reading: Reading)
    requires
        held.low_temperature is Some,
        held.high_temperature is Some,
    ensures
        held.with_temperature(reading) == held,
{
}

/// Once both temperatures are held, any run of further samples changes
/// nothing.
pub proof fn lemma_full_pair_ignores_all(held: Readings, samples: Seq<Reading>)
    requires
        held.low_temperature is Some,
        held.high_temperature is Some,
    ensures
        held.with_temperatures(samples) == held,
    decreases samples.len(),
{
    if samples.len() > 0 {
        lemma_full_pair_ignores_all(held, samples.drop_first());
    }
}

/// The temperatures of a cycle are determined by its first two samples:
/// whatever follows them is dropped.
pub proof fn lemma_first_two_decide(samples: Seq<Reading>)
    requires
        samples.len() >= 2,
    ensures
        Readings::empty().with_temperatures(samples) == (Readings {
            low_temperature: Some(lower(samples[0], samples[1])),
            high_temperature: Some(higher(samples[0], samples[1])),
            ..Readings::empty()
        }),
{
    let rest = samples.drop_first();
    let one = Readings::empty().with_temperature(samples[0]);
    let two = one.with_temperature(samples[1]);
    assert(rest.first() == samples[1]);
    assert(Readings::empty().with_temperatures(samples) == one.with_temperatures(rest));
    assert(one.with_temperatures(rest) == two.with_temperatures(rest.drop_first()));
    lemma_first_two_temperatures(samples[0], samples[1]);
    lemma_full_pair_ignores_all(two, rest.drop_first());
}

/// Only the first two samples of a cycle count: a run of samples leaves
/// the aggregate that its first two (or fewer) samples leave.
pub proof fn lemma_only_first_two_count(samples: Seq<Reading>)
    ensures
        Readings::empty().with_temperatures(samples) == Readings::empty().with_temperatures(
            samples.take(if samples.len() < 2 { samples.len() as int } else { 2 }),
        ),
{
    if samples.len() < 2 {
        assert(samples.take(samples.len() as int) =~= samples);
    } else {
        let firsts = samples.take(2);
        assert(firsts[0] == samples[0] && firsts[1] == samples[1]);
        lemma_first_two_decide(samples);
        lemma_first_two_decide(firsts);
    }
}

/// Feeding temperatures never touches the humidity slots, and the other
/// way round.
pub proof fn lemma_slots_are_independent(held: Readings, reading: Reading)
    ensures
        held.with_temperature(reading).humidity == held.humidity,
        held.with_temperature(reading).hum_temperature == held.hum_temperature,
        held.with_humidity(reading).low_temperature == held.low_temperature,
        held.with_humidity(reading).high_temperature == held.high_temperature,
        held.with_humidity(reading).hum_temperature == held.hum_temperature,
        held.with_hum_temperature(reading).low_temperature == held.low_temperature,
        held.with_hum_temperature(reading).high_temperature == held.high_temperature,
        held.with_hum_temperature(reading).humidity == held.humidity,
{
}

/// The humidity of a cycle is its first humidity sample; so is the
/// temperature measured with it.
pub proof fn lemma_first_humidity_stays(held: Readings, first: Reading, later: Reading)
    ensures
        held.with_humidity(first).with_humidity(later) == held.with_humidity(first),
        held.with_hum_temperature(first).with_hum_temperature(later) == held.with_hum_temperature(
            first,
        ),
        Readings::empty().with_humidity(first).humidity == Some(first),
        Readings::empty().with_hum_temperature(first).hum_temperature == Some(first),
{
}

} // verus!
