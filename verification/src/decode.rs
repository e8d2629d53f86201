use vstd::prelude::*;

use crate::bounds::{
    bounds_invariant, cell_span, initial_bounds, lemma_cell_span_values, narrow_bounds,
};
use crate::constants::{lookup_symbol, symbol_col, symbol_row, DIGIPIN_LENGTH};
use crate::errors::DigipinError;
use crate::location::Location;
use crate::normalize::{normalize, spec_normalize};
use crate::validation::{digipin_format_ok, location_in_territory, validate_digipin_format};
use vstd::string::StrSliceExecFns;

verus! {

/// The top edge of the decoder's box after the first `k` symbols of a
/// code: at each step the box keeps the band named by the symbol's grid
/// row, counting bands from the top.
pub open spec fn dec_lat_max(code: Seq<char>, k: int) -> int
    decreases k,
{
    if k <= 0 {
        crate::constants::DIGIPIN_LATITUDE_MAX as int
    } else {
        dec_lat_max(code, k - 1) - symbol_row(code[k - 1]) * cell_span(k)
    }
}

/// The west edge of the decoder's box after the first `k` symbols of a
/// code, counting bands from the west by the symbol's grid column.
pub open spec fn dec_lon_min(code: Seq<char>, k: int) -> int
    decreases k,
{
    if k <= 0 {
        crate::constants::DIGIPIN_LONGITUDE_MIN as int
    } else {
        dec_lon_min(code, k - 1) + symbol_col(code[k - 1]) * cell_span(k)
    }
}

/// The latitude the decoder reconstructs from a canonical code: the
/// center of the final box.
pub open spec fn spec_decode_latitude(code: Seq<char>) -> int {
    dec_lat_max(code, code.len() as int) - cell_span(code.len() as int) / 2
}

/// The longitude the decoder reconstructs from a canonical code: the
/// center of the final box.
pub open spec fn spec_decode_longitude(code: Seq<char>) -> int {
    dec_lon_min(code, code.len() as int) + cell_span(code.len() as int) / 2
}

/// Decodes a DIGIPIN into geodetic coordinates.
///
/// The raw string is normalized (separators removed, case folded), its
/// format validated, and the territory box narrowed once per symbol by
/// the symbol's grid position; the result is the center of the final
/// box, which always lies within the supported territory.
///
/// # Arguments
/// - `digipin`: A string slice representing the DIGIPIN to decode.
///
/// # Returns
/// - `Ok(Location)`: A struct containing the decoded latitude and longitude.
/// - `Err(DigipinError)`: An error if the DIGIPIN format is invalid.
pub fn decode(digipin: &str) -> (r: Result<Location, DigipinError>)
    ensures
        match r {
            Ok(location) => {
                &&& digipin_format_ok(spec_normalize(digipin@))
                &&& location.latitude == spec_decode_latitude(spec_normalize(digipin@))
                &&& location.longitude == spec_decode_longitude(spec_normalize(digipin@))
                &&& location_in_territory(location)
            },
            Err(DigipinError::InvalidDigipinLength) => spec_normalize(digipin@).len()
                != DIGIPIN_LENGTH,
            Err(DigipinError::InvalidDigipinFormat) => spec_normalize(digipin@).len()
                == DIGIPIN_LENGTH && !digipin_format_ok(spec_normalize(digipin@)),
            Err(_) => false,
        },
{
    let normalized = normalize(digipin);
    if let Err(e) = validate_digipin_format(normalized.as_str()) {
        return Err(e);
    }

    let ghost code = normalized@;
    let mut bounds = initial_bounds();

    let mut k: usize = 0;
    while k < DIGIPIN_LENGTH
        invariant
            k <= DIGIPIN_LENGTH,
            code == normalized@,
            digipin_format_ok(code),
            bounds_invariant(bounds, k as int),
            bounds.latitude_max == dec_lat_max(code, k as int),
            bounds.longitude_min == dec_lon_min(code, k as int),
        decreases DIGIPIN_LENGTH - k,
    {
        let symbol = normalized.as_str().get_char(k);

        match lookup_symbol(symbol) {
            Some((row, column)) => {
                bounds = narrow_bounds(bounds, row, column, Ghost(k as int));
            },
            None => {
                // Unreachable once format validation has passed, since it
                // already restricts every character to the alphabet.
                proof {
                    assert(false);
                }
                return Err(DigipinError::InvalidDigipinFormat);
            },
        }
        k = k + 1;
    }

    proof {
        lemma_cell_span_values();
        let lat_center = bounds.latitude_max - 73728;
        let lon_center = bounds.longitude_min + 73728;
        vstd::arithmetic::div_mod::lemma_div_multiples_vanish(lat_center as int, 2);
        vstd::arithmetic::div_mod::lemma_div_multiples_vanish(lon_center as int, 2);
        assert(bounds.latitude_min + bounds.latitude_max == 2 * lat_center);
        assert(bounds.longitude_min + bounds.longitude_max == 2 * lon_center);
    }
    let latitude = (bounds.latitude_min + bounds.latitude_max) / 2;
    let longitude = (bounds.longitude_min + bounds.longitude_max) / 2;

    Ok(Location { latitude: latitude as i64, longitude: longitude as i64 })
}

} // verus!
