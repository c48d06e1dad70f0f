//! What the driver of the LED matrix takes: which LEDs it has, and how
//! bright it can be set.

use vstd::prelude::*;

verus! {

#[verifier::external_type_specification]
#[verifier::external_body]
pub struct ExLedLocation(ht16k33::LedLocation);

#[verifier::external_type_specification]
#[verifier::external_body]
pub struct ExDimming(ht16k33::Dimming);

#[verifier::external_type_specification]
#[verifier::external_body]
pub struct ExValidationError(ht16k33::ValidationError);

/// `ht16k33::LedLocation::new` takes a row below 16 with a common below 8
/// and refuses every other pair with a validation error.
pub assume_specification[ ht16k33::LedLocation::new ](row: u8, common: u8) -> (location: Result<
    ht16k33::LedLocation,
    ht16k33::ValidationError,
>)
    ensures
        location.is_ok() == (row < 16 && common < 8),
;

/// `ht16k33::Dimming::from_u8` takes a brightness from 0 (dimmest) to 15
/// (brightest) and refuses every other with a validation error.
pub assume_specification[ ht16k33::Dimming::from_u8 ](value: u8) -> (dimming: Result<
    ht16k33::Dimming,
    ht16k33::ValidationError,
>)
    ensures
        dimming.is_ok() == (value <= 15),
;

/// Number of positions that the driver addresses.
pub const ROWS: u8 = 16;

/// Number of LEDs in one position.
pub const COMMONS: u8 = 8;

/// The brightest level of the driver; the dimmest is 0.
pub const BRIGHTEST: u8 = 15;

/// Whether the driver has the LED `led` at the position `location`.
pub open spec fn addressable(location: u8, led: u8) -> bool {
    location < ROWS && led < COMMONS
}

/// Whether the driver has the LED `led` at the position `location`.
pub fn has_led(location: u8, led: u8) -> (found: bool)
    ensures
        found == addressable(location, led),
{
    ht16k33::LedLocation::new(location, led).is_ok()
}

/// Whether the driver can be set to the brightness `level`.
pub fn takes_brightness(level: u8) -> (taken: bool)
    ensures
        taken == (level <= BRIGHTEST),
{
    ht16k33::Dimming::from_u8(level).is_ok()
}

} // verus!
