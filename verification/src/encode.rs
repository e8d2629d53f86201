use vstd::prelude::*;

use crate::bounds::{
    bounds_invariant, cell_span, initial_bounds, lemma_cell_span_at, narrow_bounds, Bounds,
};
use crate::constants::{
    symbol_at, symbol_for, DIGIPIN_GRID_SIZE, DIGIPIN_LATITUDE_MAX, DIGIPIN_LATITUDE_MIN,
    DIGIPIN_LENGTH, DIGIPIN_LONGITUDE_MAX, DIGIPIN_LONGITUDE_MIN,
};
use crate::errors::DigipinError;
use crate::location::Location;
use crate::normalize::push_char;
use crate::validation::{
    latitude_in_geodetic_bounds, location_in_geodetic_bounds, location_in_territory,
    longitude_in_geodetic_bounds, validate_digipin_territory, validate_geodetic_coordinates,
};

verus! {

/// A raw band index clamped to the grid, absorbing the edge case of a
/// coordinate exactly on the box's own outer boundary, which would
/// otherwise select band 4.
pub open spec fn clamp_to_grid(i: int) -> int {
    if i < 0 {
        0
    } else if i > 3 {
        3
    } else {
        i
    }
}

/// The top edge of the encoder's box after `k` narrowing steps for a
/// given latitude: at each step the box keeps the band the latitude
/// falls in, counting bands from the top.
pub open spec fn enc_lat_max(latitude: int, k: int) -> int
    decreases k,
{
    if k <= 0 {
        DIGIPIN_LATITUDE_MAX as int
    } else {
        let prev = enc_lat_max(latitude, k - 1);
        let step = cell_span(k);
        prev - clamp_to_grid((prev - latitude) / step) * step
    }
}

/// The west edge of the encoder's box after `k` narrowing steps for a
/// given longitude, counting bands from the west.
pub open spec fn enc_lon_min(longitude: int, k: int) -> int
    decreases k,
{
    if k <= 0 {
        DIGIPIN_LONGITUDE_MIN as int
    } else {
        let prev = enc_lon_min(longitude, k - 1);
        let step = cell_span(k);
        prev + clamp_to_grid((longitude - prev) / step) * step
    }
}

/// The grid row selected at step `k` of encoding (row 0 is the
/// northmost band of the current box).
pub open spec fn enc_row(latitude: int, k: int) -> int {
    clamp_to_grid((enc_lat_max(latitude, k) - latitude) / cell_span(k + 1))
}

/// The grid column selected at step `k` of encoding (column 0 is the
/// westmost band of the current box).
pub open spec fn enc_col(longitude: int, k: int) -> int {
    clamp_to_grid((longitude - enc_lon_min(longitude, k)) / cell_span(k + 1))
}

/// The code the encoder emits for a location within the territory: one
/// grid symbol per narrowing step.
pub open spec fn spec_encode(location: Location) -> Seq<char> {
    Seq::new(
        DIGIPIN_LENGTH as nat,
        |i: int| symbol_for(enc_row(location.latitude as int, i), enc_col(location.longitude as int, i)),
    )
}

/// A band selected by clamped division contains the offset that chose
/// it: if `off` lies in a box of four bands of width `step`, band
/// `clamp_to_grid(off / step)` covers `off`. (At `off == 4 * step`,
/// only the clamp keeps the index on the grid; the top band then still
/// covers it because bands are closed at both ends.)
proof fn lemma_band_bounds(step: int, off: int)
    requires
        step > 0,
        0 <= off <= 4 * step,
    ensures
        ({
            let r = clamp_to_grid(off / step);
            &&& 0 <= r <= 3
            &&& r * step <= off <= (r + 1) * step
        }),
{
    let q = off / step;
    let m = off % step;
    vstd::arithmetic::div_mod::lemma_fundamental_div_mod(off, step);
    vstd::arithmetic::div_mod::lemma_mod_bound(off, step);
    assert(off == step * q + m);
    assert(q >= 0) by (nonlinear_arith)
        requires
            off == step * q + m,
            0 <= m < step,
            off >= 0,
    ;
    if q <= 3 {
        assert(q * step <= off <= (q + 1) * step) by (nonlinear_arith)
            requires
                off == step * q + m,
                0 <= m < step,
        ;
    } else {
        assert(off >= 4 * step) by (nonlinear_arith)
            requires
                off == step * q + m,
                0 <= m,
                q >= 4,
                step > 0,
        ;
        assert(off == 4 * step);
        assert(3 * step <= off <= 4 * step);
    }
}

/// After every step of encoding, the box still contains the latitude it
/// was narrowed towards, and still lies inside the territory.
pub proof fn lemma_enc_lat_contains(latitude: int, k: int)
    requires
        DIGIPIN_LATITUDE_MIN <= latitude <= DIGIPIN_LATITUDE_MAX,
        0 <= k <= 10,
    ensures
        enc_lat_max(latitude, k) - cell_span(k) <= latitude <= enc_lat_max(latitude, k),
        DIGIPIN_LATITUDE_MIN <= enc_lat_max(latitude, k) - cell_span(k),
        enc_lat_max(latitude, k) <= DIGIPIN_LATITUDE_MAX,
    decreases k,
{
    if k > 0 {
        lemma_enc_lat_contains(latitude, k - 1);
        lemma_cell_span_at(k - 1);
        lemma_cell_span_at(k);
        let prev = enc_lat_max(latitude, k - 1);
        let step = cell_span(k);
        lemma_band_bounds(step, prev - latitude);
        let r = clamp_to_grid((prev - latitude) / step);
        assert(enc_lat_max(latitude, k) == prev - r * step);
        assert(prev - r * step - step <= latitude && latitude <= prev - r * step && prev - r
            * step <= prev && prev - 4 * step <= prev - r * step - step) by (nonlinear_arith)
            requires
                r * step <= prev - latitude <= (r + 1) * step,
                0 <= r <= 3,
                step > 0,
        ;
    }
}

/// After every step of encoding, the box still contains the longitude
/// it was narrowed towards, and still lies inside the territory.
pub proof fn lemma_enc_lon_contains(longitude: int, k: int)
    requires
        DIGIPIN_LONGITUDE_MIN <= longitude <= DIGIPIN_LONGITUDE_MAX,
        0 <= k <= 10,
    ensures
        enc_lon_min(longitude, k) <= longitude <= enc_lon_min(longitude, k) + cell_span(k),
        DIGIPIN_LONGITUDE_MIN <= enc_lon_min(longitude, k),
        enc_lon_min(longitude, k) + cell_span(k) <= DIGIPIN_LONGITUDE_MAX,
    decreases k,
{
    if k > 0 {
        lemma_enc_lon_contains(longitude, k - 1);
        lemma_cell_span_at(k - 1);
        lemma_cell_span_at(k);
        let prev = enc_lon_min(longitude, k - 1);
        let step = cell_span(k);
        lemma_band_bounds(step, longitude - prev);
        let c = clamp_to_grid((longitude - prev) / step);
        assert(enc_lon_min(longitude, k) == prev + c * step);
        assert(prev + c * step <= longitude && longitude <= prev + c * step + step && prev <= prev
            + c * step && prev + c * step + step <= prev + 4 * step) by (nonlinear_arith)
            requires
                c * step <= longitude - prev <= (c + 1) * step,
                0 <= c <= 3,
                step > 0,
        ;
    }
}

/// Encodes coordinates into a canonical DIGIPIN.
///
/// Geodetic bounds are checked first, then the supported territory;
/// then the territory box is narrowed ten times, emitting the grid
/// symbol of the band the location falls in at each step.
///
/// # Arguments
/// - `location`: A struct containing the latitude and longitude to encode.
///
/// # Returns
/// - `Ok(String)`: A string representing the encoded DIGIPIN.
/// - `Err(DigipinError)`: An error if the coordinates are invalid or outside the supported territory.
pub fn encode(location: Location) -> (r: Result<String, DigipinError>)
    ensures
        match r {
            Ok(code) => {
                &&& location_in_geodetic_bounds(location)
                &&& location_in_territory(location)
                &&& code@ == spec_encode(location)
            },
            Err(DigipinError::InvalidLatitude) => !latitude_in_geodetic_bounds(
                location.latitude as int,
            ),
            Err(DigipinError::InvalidLongitude) => latitude_in_geodetic_bounds(
                location.latitude as int,
            ) && !longitude_in_geodetic_bounds(location.longitude as int),
            Err(DigipinError::OutsideSupportedTerritory) => location_in_geodetic_bounds(location)
                && !location_in_territory(location),
            Err(_) => false,
        },
{
    if let Err(e) = validate_geodetic_coordinates(location) {
        return Err(e);
    }
    if let Err(e) = validate_digipin_territory(location) {
        return Err(e);
    }

    let latitude = location.latitude as u64;
    let longitude = location.longitude as u64;
    let ghost lat = location.latitude as int;
    let ghost lon = location.longitude as int;

    let mut bounds = initial_bounds();
    let mut digipin = String::new();

    let mut k: usize = 0;
    while k < DIGIPIN_LENGTH
        invariant
            k <= DIGIPIN_LENGTH,
            location_in_territory(location),
            lat == location.latitude as int,
            lon == location.longitude as int,
            latitude == lat,
            longitude == lon,
            bounds_invariant(bounds, k as int),
            bounds.latitude_max == enc_lat_max(lat, k as int),
            bounds.longitude_min == enc_lon_min(lon, k as int),
            digipin@.len() == k,
            forall|i: int|
                0 <= i < k ==> #[trigger] digipin@[i] == symbol_for(enc_row(lat, i), enc_col(lon, i)),
        decreases DIGIPIN_LENGTH - k,
    {
        proof {
            lemma_cell_span_at(k as int);
            lemma_cell_span_at(k as int + 1);
            lemma_enc_lat_contains(lat, k as int);
            lemma_enc_lon_contains(lon, k as int);
            let step = cell_span(k as int + 1);
            assert((4 * step) / 4 == step) by (nonlinear_arith)
                requires
                    step >= 0,
            ;
        }
        let latitude_step = (bounds.latitude_max - bounds.latitude_min) / DIGIPIN_GRID_SIZE;
        let longitude_step = (bounds.longitude_max - bounds.longitude_min) / DIGIPIN_GRID_SIZE;

        let row_raw = (bounds.latitude_max - latitude) / latitude_step;
        let column_raw = (longitude - bounds.longitude_min) / longitude_step;

        // Clamp row and column to valid grid bounds
        let row = if row_raw > DIGIPIN_GRID_SIZE - 1 { DIGIPIN_GRID_SIZE - 1 } else { row_raw };
        let column = if column_raw > DIGIPIN_GRID_SIZE - 1 {
            DIGIPIN_GRID_SIZE - 1
        } else {
            column_raw
        };

        proof {
            assert(row == enc_row(lat, k as int));
            assert(column == enc_col(lon, k as int));
        }

        let symbol = symbol_at(row, column);
        push_char(&mut digipin, symbol);

        bounds = narrow_bounds(bounds, row, column, Ghost(k as int));
        k = k + 1;
    }

    proof {
        assert(digipin@ =~= spec_encode(location));
    }
    Ok(digipin)
}

} // verus!
