use vstd::prelude::*;

use crate::constants::{
    is_digipin_symbol, is_symbol_char, DIGIPIN_LATITUDE_MAX, DIGIPIN_LATITUDE_MIN, DIGIPIN_LENGTH,
    DIGIPIN_LONGITUDE_MAX, DIGIPIN_LONGITUDE_MIN, GEODETIC_LATITUDE_MAX, GEODETIC_LATITUDE_MIN,
    GEODETIC_LONGITUDE_MAX, GEODETIC_LONGITUDE_MIN,
};
use crate::errors::DigipinError;
use crate::location::Location;
use vstd::string::StrSliceExecFns;

verus! {

/// Whether a latitude lies within geodetic bounds, inclusive.
pub open spec fn latitude_in_geodetic_bounds(latitude: int) -> bool {
    GEODETIC_LATITUDE_MIN <= latitude <= GEODETIC_LATITUDE_MAX
}

/// Whether a longitude lies within geodetic bounds, inclusive.
pub open spec fn longitude_in_geodetic_bounds(longitude: int) -> bool {
    GEODETIC_LONGITUDE_MIN <= longitude <= GEODETIC_LONGITUDE_MAX
}

/// Whether a location lies within geodetic bounds, inclusive.
pub open spec fn location_in_geodetic_bounds(location: Location) -> bool {
    &&& latitude_in_geodetic_bounds(location.latitude as int)
    &&& longitude_in_geodetic_bounds(location.longitude as int)
}

/// Whether a location lies within the DIGIPIN supported territory,
/// inclusive on all four bounds.
pub open spec fn location_in_territory(location: Location) -> bool {
    &&& DIGIPIN_LATITUDE_MIN <= location.latitude <= DIGIPIN_LATITUDE_MAX
    &&& DIGIPIN_LONGITUDE_MIN <= location.longitude <= DIGIPIN_LONGITUDE_MAX
}

/// Whether a code has the required length and uses only alphabet
/// symbols (case-sensitively).
pub open spec fn digipin_format_ok(code: Seq<char>) -> bool {
    &&& code.len() == DIGIPIN_LENGTH
    &&& forall|i: int| 0 <= i < code.len() ==> is_digipin_symbol(#[trigger] code[i])
}

/// Validates geodetic latitude and longitude.
///
/// # Arguments
/// - `location`: A Location struct containing latitude and longitude.
///
/// # Returns
/// - `Ok(())`: If the coordinates are valid.
/// - `Err(DigipinError)`: If the latitude or longitude is out of bounds.
pub fn validate_geodetic_coordinates(location: Location) -> (r: Result<(), DigipinError>)
    ensures
        match r {
            Ok(()) => location_in_geodetic_bounds(location),
            Err(DigipinError::InvalidLatitude) => !latitude_in_geodetic_bounds(
                location.latitude as int,
            ),
            Err(DigipinError::InvalidLongitude) => latitude_in_geodetic_bounds(
                location.latitude as int,
            ) && !longitude_in_geodetic_bounds(location.longitude as int),
            Err(_) => false,
        },
{
    if location.latitude < GEODETIC_LATITUDE_MIN || location.latitude > GEODETIC_LATITUDE_MAX {
        return Err(DigipinError::InvalidLatitude);
    }

    if location.longitude < GEODETIC_LONGITUDE_MIN || location.longitude > GEODETIC_LONGITUDE_MAX {
        return Err(DigipinError::InvalidLongitude);
    }

    Ok(())
}

/// Validates coordinates against the DIGIPIN supported territory.
///
/// # Arguments
/// - `location`: A Location struct containing latitude and longitude.
///
/// # Returns
/// - `Ok(())`: If the coordinates are within the DIGIPIN supported territory.
/// - `Err(DigipinError)`: If the coordinates are outside the supported territory.
pub fn validate_digipin_territory(location: Location) -> (r: Result<(), DigipinError>)
    ensures
        match r {
            Ok(()) => location_in_territory(location),
            Err(DigipinError::OutsideSupportedTerritory) => !location_in_territory(location),
            Err(_) => false,
        },
{
    if location.latitude < DIGIPIN_LATITUDE_MIN || location.latitude > DIGIPIN_LATITUDE_MAX
        || location.longitude < DIGIPIN_LONGITUDE_MIN
        || location.longitude > DIGIPIN_LONGITUDE_MAX {
        return Err(DigipinError::OutsideSupportedTerritory);
    }

    Ok(())
}

/// Validates the DIGIPIN string format: the required length first, then
/// membership of every character in the 16-symbol alphabet. The check is
/// case-sensitive; callers normalize beforehand.
///
/// # Arguments
/// - `digipin`: A string slice representing the DIGIPIN to validate.
///
/// # Returns
/// - `Ok(())`: If the DIGIPIN format is valid.
/// - `Err(DigipinError)`: If the DIGIPIN format is invalid.
pub fn validate_digipin_format(digipin: &str) -> (r: Result<(), DigipinError>)
    ensures
        match r {
            Ok(()) => digipin_format_ok(digipin@),
            Err(DigipinError::InvalidDigipinLength) => digipin@.len() != DIGIPIN_LENGTH,
            Err(DigipinError::InvalidDigipinFormat) => digipin@.len() == DIGIPIN_LENGTH
                && !digipin_format_ok(digipin@),
            Err(_) => false,
        },
{
    let len = digipin.unicode_len();
    if len != DIGIPIN_LENGTH {
        return Err(DigipinError::InvalidDigipinLength);
    }

    let mut i: usize = 0;
    while i < len
        invariant
            i <= len,
            len == digipin@.len(),
            len == DIGIPIN_LENGTH,
            forall|j: int| 0 <= j < i ==> is_digipin_symbol(#[trigger] digipin@[j]),
        decreases len - i,
    {
        if !is_symbol_char(digipin.get_char(i)) {
            return Err(DigipinError::InvalidDigipinFormat);
        }
        i = i + 1;
    }

    Ok(())
}

} // verus!
