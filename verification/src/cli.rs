//! The settings of the program, from what was typed on the command line.

use vstd::prelude::*;
use vstd::string::StringExecFns;
use crate::errors::ConfigError;
use crate::stations::StationTable;
use crate::text::{decimal_u8, parse_u8, same_text};

verus! {

/// The direction towards the city.
pub const INBOUND: &'static str = "inbound";

/// The direction out of the city.
pub const OUTBOUND: &'static str = "outbound";

/// The code of the direction towards the city.
pub const INBOUND_CODE: &'static str = "1";

/// The code of the direction out of the city.
pub const OUTBOUND_CODE: &'static str = "0";

/// The brightness of the clock where none is given.
pub const DEFAULT_BRIGHTNESS: u8 = 7;

/// The greatest brightness that can be asked for; the least is 0.
pub const GREATEST_BRIGHTNESS: u8 = 9;

/// The brightness that a text asks for: a decimal number from 0 to 9.
pub open spec fn brightness_of(text: Seq<char>) -> Option<u8> {
    match decimal_u8(text) {
        Some(level) => if level <= GREATEST_BRIGHTNESS {
            Some(level)
        } else {
            None
        },
        None => None,
    }
}

/// The characters of a text that may be missing.
pub open spec fn text_of(given: Option<&str>) -> Option<Seq<char>> {
    match given {
        Some(text) => Some(text@),
        None => None,
    }
}

/// The code of a direction: `1` for `inbound`, `0` for `outbound`, none for
/// anything else.
pub open spec fn direction_code(direction: Seq<char>) -> Option<Seq<char>> {
    if direction == INBOUND@ {
        Some(INBOUND_CODE@)
    } else if direction == OUTBOUND@ {
        Some(OUTBOUND_CODE@)
    } else {
        None
    }
}

/// The settings that the given texts stand for: the code of the direction,
/// the code of the station and the brightness of the clock.
///
/// The direction is looked at first, then the station, then the brightness;
/// the first that is missing or not understood decides the error. A missing
/// brightness is the default one; one that is given is a number from 0 to 9.
pub open spec fn settings(
    direction: Option<Seq<char>>,
    station: Option<Seq<char>>,
    clock_brightness: Option<Seq<char>>,
    stations: Map<Seq<char>, Seq<char>>,
) -> Result<(Seq<char>, Seq<char>, u8), ConfigError> {
    if direction.is_none() || direction_code(direction.unwrap()).is_none() {
        Err(ConfigError::UnknownDirection)
    } else if station.is_none() || !stations.contains_key(station.unwrap()) {
        Err(ConfigError::UnknownStation)
    } else if clock_brightness.is_some() && brightness_of(clock_brightness.unwrap()).is_none() {
        Err(ConfigError::Brightness)
    } else {
        Ok(
            (
                direction_code(direction.unwrap()).unwrap(),
                stations[station.unwrap()],
                match clock_brightness {
                    Some(text) => brightness_of(text).unwrap(),
                    None => DEFAULT_BRIGHTNESS,
                },
            ),
        )
    }
}

/// The code of a direction.
pub fn direction_code_of(direction: &str) -> (code: Option<String>)
    ensures
        code.deep_view() == direction_code(direction@),
{
    if same_text(direction, INBOUND) {
        Some(String::from_str(INBOUND_CODE))
    } else if same_text(direction, OUTBOUND) {
        Some(String::from_str(OUTBOUND_CODE))
    } else {
        None
    }
}

/// Reads the settings from the values of the options `direction`, `station`
/// and `clock_brightness`, each as typed or missing.
///
/// Returns the code of the direction, the code of the station and the
/// brightness of the clock.
pub fn arguments(
    direction: Option<&str>,
    station: Option<&str>,
    clock_brightness: Option<&str>,
    stations: &StationTable,
) -> (parsed: Result<(String, String, u8), ConfigError>)
    ensures
        parsed matches Ok(found) ==> settings(
            text_of(direction),
            text_of(station),
            text_of(clock_brightness),
            stations@,
        ) == Ok::<(Seq<char>, Seq<char>, u8), ConfigError>((found.0@, found.1@, found.2)),
        parsed matches Err(error) ==> settings(
            text_of(direction),
            text_of(station),
            text_of(clock_brightness),
            stations@,
        ) == Err::<(Seq<char>, Seq<char>, u8), ConfigError>(error),
{
    let dir_code: String = match direction {
        Some(direction_input) => match direction_code_of(direction_input) {
            Some(code) => code,
            None => {
                return Err(ConfigError::UnknownDirection);
            },
        },
        None => {
            return Err(ConfigError::UnknownDirection);
        },
    };
    let station_code: String = match station {
        Some(station_input) => match stations.get(station_input) {
            Some(code) => code,
            None => {
                return Err(ConfigError::UnknownStation);
            },
        },
        None => {
            return Err(ConfigError::UnknownStation);
        },
    };
    let brightness: u8 = match clock_brightness {
        Some(clock_bright_input) => match parse_u8(clock_bright_input) {
            Some(level) => {
                if level > GREATEST_BRIGHTNESS {
                    return Err(ConfigError::Brightness);
                }
                level
            },
            None => {
                return Err(ConfigError::Brightness);
            },
        },
        None => DEFAULT_BRIGHTNESS,
    };
    Ok((dir_code, station_code, brightness))
}

} // verus!
