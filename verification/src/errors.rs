//! What can go wrong at startup and while fetching departures.

use vstd::prelude::*;

verus! {

/// A setting that the program cannot start with.
#[derive(Clone, Copy, Debug, PartialEq, Eq, Structural)]
pub enum ConfigError {
    /// The direction is neither `inbound` nor `outbound`, or is missing.
    UnknownDirection,
    /// The station is not in the table of stations, or is missing.
    UnknownStation,
    /// The brightness is no number, or one outside the scale.
    Brightness,
}

/// An LED that the driver of the clock does not have.
#[derive(Clone, Copy, Debug, PartialEq, Eq, Structural)]
pub struct LedRefused {
    /// The position asked for.
    pub location: u8,
    /// The LED asked for at that position.
    pub led: u8,
}

/// Why a list of departures could not be had.
#[derive(Clone, Copy, Debug, PartialEq, Eq, Structural)]
pub enum SourceError {
    /// The request failed or was answered with something unreadable.
    Unreachable,
    /// A departure time is not a date and time with a UTC offset.
    Timestamp,
    /// A station button lacks its name or its link.
    Station,
}

} // verus!
