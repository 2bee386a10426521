//! Exact fixed-point quantities.
//!
//! Every temperature (degrees Celsius) and relative humidity (percent) in
//! this crate is an integer count of `1 / SCALE` units. `SCALE` is
//! 65536 * 100, the common denominator of the humidity sensor's two
//! conversion formulas, so both are represented without rounding.

use vstd::prelude::*;

verus! {

/// Number of fixed-point units in one degree or one percent.
pub const SCALE: i64 = 6_553_600;

/// A temperature or a relative humidity: `scaled / SCALE` degrees or percent.
#[derive(Clone, Copy, Debug, PartialEq, Eq, Structural)]
pub struct Reading {
    pub scaled: i64,
}

/// The dew point estimate `temperature - (100 - humidity) / 5`, on scaled
/// values. The quotient is rounded down.
pub open spec fn dew_point_of(temperature: int, humidity: int) -> int {
    temperature - (100 * SCALE - humidity) / 5
}

/// `dividend / 5`, rounded down.
fn floor_fifth(dividend: i128) -> (quotient: i128)
    requires
        -0x4000_0000_0000_0000_0000 <= dividend <= 0x4000_0000_0000_0000_0000,
    ensures
        quotient == dividend as int / 5,
{
    if dividend >= 0 {
        dividend / 5
    } else {
        let up: i128 = (4 - dividend) / 5;
        -up
    }
}

/// The dew point for a temperature and the relative humidity measured with
/// it, or `None` when the result does not fit in a `Reading`.
pub fn dew_point(temperature: Reading, humidity: Reading) -> (dew: Option<Reading>)
    ensures
        dew == if i64::MIN <= dew_point_of(temperature.scaled as int, humidity.scaled as int)
            <= i64::MAX {
            Some(Reading { scaled: dew_point_of(temperature.scaled as int, humidity.scaled as int) as i64 })
        } else {
            None
        },
{
    let gap: i128 = 100 * (SCALE as i128) - (humidity.scaled as i128);
    let dew: i128 = (temperature.scaled as i128) - floor_fifth(gap);
    if dew < (i64::MIN as i128) || dew > (i64::MAX as i128) {
        None
    } else {
        Some(Reading { scaled: dew as i64 })
    }
}

/// The dew point always exists for readings of a physical magnitude: both
/// within a million units of zero.
pub proof fn lemma_dew_point_exists(temperature: int, humidity: int)
    requires
        -1_000_000 * SCALE <= temperature <= 1_000_000 * SCALE,
        -1_000_000 * SCALE <= humidity <= 1_000_000 * SCALE,
    ensures
        i64::MIN <= dew_point_of(temperature, humidity) <= i64::MAX,
{
}

/// Where the humidity is a multiple of five units the dew point is exact:
/// five times the distance to the temperature is the distance of the
/// humidity to one hundred percent.
pub proof fn lemma_dew_point_exact(temperature: int, humidity: int)
    requires
        humidity % 5 == 0,
    ensures
        5 * (temperature - dew_point_of(temperature, humidity)) == 100 * SCALE - humidity,
{
}

} // verus!
