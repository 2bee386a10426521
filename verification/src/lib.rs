//! Verified core of an environmental monitoring station: an SHT20
//! humidity sensor driver, a per-cycle aggregator of temperature and
//! humidity samples, metric derivation, and the polling loop's decisions.
//!
//! Nothing here touches hardware. Every exchange with a bus, a clock or the
//! metrics transport is described as a value handed to the caller, who
//! performs it and reports back what happened.

pub mod error;
pub mod crc;
pub mod reading;
pub mod readings;
pub mod metric;
pub mod sht_20;
pub mod probes;
pub mod station;
