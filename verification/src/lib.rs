//! DIGIPIN - Digital Postal Index Number
//!
//! This library encodes geographic locations (latitude and longitude)
//! into canonical 10-character DIGIPIN strings and decodes DIGIPIN
//! strings back into geographic locations.
//!
//! Coordinates are fixed-point degrees: `COORD_SCALE` units to the
//! degree. Because the scale is a power of two and the supported
//! territory spans 36 whole degrees on each axis, every step of the
//! recursive spatial subdivision is exact integer arithmetic, and the
//! encoder and decoder are proved to stay numerically consistent: the
//! round-trip theorem `lemma_round_trip` bounds the distance between a
//! location and the decoding of its code by `DIGIPIN_MAX_DECODE_ERROR`.

mod bounds;
mod constants;
mod decode;
mod encode;
mod errors;
mod location;
mod normalize;
mod roundtrip;
mod validation;

pub use constants::COORD_SCALE;
pub use constants::DIGIPIN_LATITUDE_MAX;
pub use constants::DIGIPIN_LATITUDE_MIN;
pub use constants::DIGIPIN_LENGTH;
pub use constants::DIGIPIN_LONGITUDE_MAX;
pub use constants::DIGIPIN_LONGITUDE_MIN;
pub use constants::DIGIPIN_MAX_DECODE_ERROR;
pub use constants::digipin_label_grid;
pub use constants::digipin_symbols;
pub use constants::lemma_symbols_match_label_grid;
pub use decode::decode;
pub use encode::encode;
pub use errors::DigipinError;
pub use location::Location;
pub use normalize::normalize;
pub use roundtrip::lemma_round_trip;
pub use validation::validate_digipin_format;
pub use validation::validate_digipin_territory;
pub use validation::validate_geodetic_coordinates;
