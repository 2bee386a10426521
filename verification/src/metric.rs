//! The metrics that a cycle's aggregate gives rise to.

use vstd::prelude::*;
use crate::reading::{dew_point, dew_point_of, Reading};
use crate::readings::Readings;

verus! {

/// What a metric measures.
#[derive(Clone, Copy, Debug, PartialEq, Eq, Structural)]
pub enum MetricName {
    Temperature,
    Humidity,
    DewPoint,
}

impl MetricName {
    /// The name under which the metric is reported.
    pub fn label(&self) -> (text: &'static str)
        ensures
            text@ == match *self {
                MetricName::Temperature => "temperature"@,
                MetricName::Humidity => "humidity"@,
                MetricName::DewPoint => "dew_point"@,
            },
    {
        match self {
            MetricName::Temperature => "temperature",
            MetricName::Humidity => "humidity",
            MetricName::DewPoint => "dew_point",
        }
    }
}

/// Where a metric was measured.
#[derive(Clone, Copy, Debug, PartialEq, Eq, Structural)]
pub enum Source {
    ColdEnd,
    HotEnd,
    Hygrometer,
}

impl Source {
    /// The label under which the source is reported.
    pub fn label(&self) -> (text: &'static str)
        ensures
            text@ == match *self {
                Source::ColdEnd => "cold_end"@,
                Source::HotEnd => "hot_end"@,
                Source::Hygrometer => "hygrometer"@,
            },
    {
        match self {
            Source::ColdEnd => "cold_end",
            Source::HotEnd => "hot_end",
            Source::Hygrometer => "hygrometer",
        }
    }
}

/// One named value.
#[derive(Clone, Copy, Debug, PartialEq, Eq, Structural)]
pub struct TsMetric {
    pub metric: MetricName,
    pub value: Reading,
}

impl TsMetric {
    pub fn temperature(value: Reading) -> (m: TsMetric)
        ensures
            m == (TsMetric { metric: MetricName::Temperature, value }),
    {
        TsMetric { metric: MetricName::Temperature, value }
    }

    pub fn humidity(value: Reading) -> (m: TsMetric)
        ensures
            m == (TsMetric { metric: MetricName::Humidity, value }),
    {
        TsMetric { metric: MetricName::Humidity, value }
    }

    pub fn dew_point(value: Reading) -> (m: TsMetric)
        ensures
            m == (TsMetric { metric: MetricName::DewPoint, value }),
    {
        TsMetric { metric: MetricName::DewPoint, value }
    }
}

/// A metric together with the source it is reported for.
#[derive(Clone, Copy, Debug, PartialEq, Eq, Structural)]
pub struct Emission {
    pub metric: TsMetric,
    pub source: Source,
}

/// The temperature metric of one slot, if the slot is filled.
pub open spec fn temperature_metrics(slot: Option<Reading>, source: Source) -> Seq<Emission> {
    match slot {
        Some(t) => seq![
            Emission { metric: TsMetric { metric: MetricName::Temperature, value: t }, source },
        ],
        None => seq![],
    }
}

/// The dew point metric: present when humidity and the temperature
/// measured with it are both held (and the result is representable).
pub open spec fn dew_point_metrics(readings: Readings) -> Seq<Emission> {
    match (readings.humidity, readings.hum_temperature) {
        (Some(h), Some(t)) => {
            let dew = dew_point_of(t.scaled as int, h.scaled as int);
            if i64::MIN <= dew <= i64::MAX {
                seq![
                    Emission {
                        metric: TsMetric {
                            metric: MetricName::DewPoint,
                            value: Reading { scaled: dew as i64 },
                        },
                        source: Source::Hygrometer,
                    },
                ]
            } else {
                seq![]
            }
        },
        _ => seq![],
    }
}

/// The humidity metric, if humidity is held.
pub open spec fn humidity_metrics(readings: Readings) -> Seq<Emission> {
    match readings.humidity {
        Some(h) => seq![
            Emission {
                metric: TsMetric { metric: MetricName::Humidity, value: h },
                source: Source::Hygrometer,
            },
        ],
        None => seq![],
    }
}

/// The metrics of a cycle, in the order in which they are reported: low
/// temperature, high temperature, humidity, dew point; each one present
/// or absent on its own.
pub open spec fn metrics_of(readings: Readings) -> Seq<Emission> {
    temperature_metrics(readings.low_temperature, Source::ColdEnd) + temperature_metrics(
        readings.high_temperature,
        Source::HotEnd,
    ) + humidity_metrics(readings) + dew_point_metrics(readings)
}

/// Derives the metrics of a cycle from its aggregate.
pub fn derive_metrics(readings: &Readings) -> (out: Vec<Emission>)
    ensures
        out@ == metrics_of(*readings),
{
    let mut out: Vec<Emission> = Vec::new();
    if let Some(t) = readings.low_temperature {
        out.push(Emission { metric: TsMetric::temperature(t), source: Source::ColdEnd });
    }
    if let Some(t) = readings.high_temperature {
        out.push(Emission { metric: TsMetric::temperature(t), source: Source::HotEnd });
    }
    if let Some(h) = readings.humidity {
        out.push(Emission { metric: TsMetric::humidity(h), source: Source::Hygrometer });
        if let Some(ht) = readings.hum_temperature {
            if let Some(dew) = dew_point(ht, h) {
                out.push(Emission { metric: TsMetric::dew_point(dew), source: Source::Hygrometer });
            }
        }
    }
    out
}

/// A cycle reports at most four metrics, and none from an empty aggregate.
pub proof fn lemma_metrics_count(readings: Readings)
    ensures
        metrics_of(readings).len() <= 4,
        metrics_of(Readings::empty()).len() == 0,
{
}

} // verus!
