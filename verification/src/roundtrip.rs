use vstd::prelude::*;

use crate::bounds::{cell_span, lemma_cell_span_values};
use crate::constants::{
    is_digipin_symbol, lemma_symbol_positions, symbol_col, symbol_for, symbol_row,
    DIGIPIN_LENGTH, DIGIPIN_MAX_DECODE_ERROR,
};
use crate::decode::{dec_lat_max, dec_lon_min, spec_decode_latitude, spec_decode_longitude};
use crate::encode::{enc_col, enc_lat_max, enc_lon_min, enc_row, spec_encode};
use crate::location::Location;
use crate::normalize::{lemma_normalize_canonical, spec_normalize};
use crate::validation::{digipin_format_ok, location_in_territory};

verus! {

/// Walking a code the encoder produced narrows the decoder's box along
/// exactly the boxes the encoder passed through: every symbol names the
/// unique grid cell the encoder chose, so both directions share one
/// chain of boxes.
proof fn lemma_dec_matches_enc(location: Location, k: int)
    requires
        0 <= k <= DIGIPIN_LENGTH,
    ensures
        dec_lat_max(spec_encode(location), k) == enc_lat_max(location.latitude as int, k),
        dec_lon_min(spec_encode(location), k) == enc_lon_min(location.longitude as int, k),
    decreases k,
{
    if k > 0 {
        lemma_dec_matches_enc(location, k - 1);
        lemma_symbol_positions();
        let code = spec_encode(location);
        let row = enc_row(location.latitude as int, k - 1);
        let col = enc_col(location.longitude as int, k - 1);
        assert(code[k - 1] == symbol_for(row, col));
        assert(symbol_row(code[k - 1]) == row && symbol_col(code[k - 1]) == col);
    }
}

/// Round trip: decoding the code of any location within the supported
/// territory succeeds — the code is 10 symbols long, already canonical,
/// and format-valid — and reconstructs a location within
/// `DIGIPIN_MAX_DECODE_ERROR` fixed-point units of the original on both
/// axes.
pub proof fn lemma_round_trip(location: Location)
    requires
        location_in_territory(location),
    ensures
        ({
            let code = spec_encode(location);
            &&& code.len() == DIGIPIN_LENGTH
            &&& digipin_format_ok(code)
            &&& spec_normalize(code) == code
            &&& spec_decode_latitude(code) - location.latitude <= DIGIPIN_MAX_DECODE_ERROR
            &&& location.latitude - spec_decode_latitude(code) <= DIGIPIN_MAX_DECODE_ERROR
            &&& spec_decode_longitude(code) - location.longitude <= DIGIPIN_MAX_DECODE_ERROR
            &&& location.longitude - spec_decode_longitude(code) <= DIGIPIN_MAX_DECODE_ERROR
        }),
{
    let code = spec_encode(location);
    let lat = location.latitude as int;
    let lon = location.longitude as int;

    lemma_symbol_positions();
    assert(forall|i: int| 0 <= i < code.len() ==> is_digipin_symbol(#[trigger] code[i]));
    lemma_normalize_canonical(code);

    lemma_dec_matches_enc(location, DIGIPIN_LENGTH as int);
    crate::encode::lemma_enc_lat_contains(lat, DIGIPIN_LENGTH as int);
    crate::encode::lemma_enc_lon_contains(lon, DIGIPIN_LENGTH as int);
    lemma_cell_span_values();
    assert(cell_span(DIGIPIN_LENGTH as int) / 2 == 73728);
}

} // verus!
