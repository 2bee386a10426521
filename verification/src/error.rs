//! Failures of a sensor operation.

use vstd::prelude::*;

verus! {

/// Why an operation on the humidity sensor produced no value.
#[derive(Clone, Copy, Debug, PartialEq, Eq, Structural)]
pub enum Error {
    /// A bus transfer failed.
    Transport,
    /// The sensor had no data ready within the polling bound.
    Timeout,
    /// The received frame did not pass the checksum.
    ChecksumMismatch,
}

impl Error {
    /// A human-readable description, for logs.
    pub fn message(&self) -> (text: &'static str)
        ensures
            text@ == match *self {
                Error::Transport => "I2C transfer failed"@,
                Error::Timeout => "Timed out reading value waiting for I2C"@,
                Error::ChecksumMismatch => "Incorrect checksum when receiving bytes from sensor"@,
            },
    {
        match self {
            Error::Transport => "I2C transfer failed",
            Error::Timeout => "Timed out reading value waiting for I2C",
            Error::ChecksumMismatch => "Incorrect checksum when receiving bytes from sensor",
        }
    }
}

} // verus!
