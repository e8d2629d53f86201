use digipin::decode;
use digipin::digipin_label_grid;
use digipin::digipin_symbols;
use digipin::encode;
use digipin::normalize;
use digipin::DigipinError;
use digipin::Location;
use digipin::DIGIPIN_MAX_DECODE_ERROR;

/// One degree in fixed-point units, as a float, for writing test
/// coordinates in degrees.
const SCALE: f64 = 4294967296.0;

/// A location from coordinates in degrees.
fn location(latitude: f64, longitude: f64) -> Location {
    Location {
        latitude: (latitude * SCALE).round() as i64,
        longitude: (longitude * SCALE).round() as i64,
    }
}

/// Tests the roundtrip encoding and decoding of a DIGIPIN.
#[test]
fn encode_decode_roundtrip() {
    let original = location(28.622788, 77.213033);

    let digipin = encode(original).unwrap();
    let decoded_location = decode(&digipin).unwrap();

    assert!((decoded_location.latitude - original.latitude).abs() <= DIGIPIN_MAX_DECODE_ERROR);
    assert!((decoded_location.longitude - original.longitude).abs() <= DIGIPIN_MAX_DECODE_ERROR);

    let decoded_latitude = decoded_location.latitude as f64 / SCALE;
    let decoded_longitude = decoded_location.longitude as f64 / SCALE;
    assert!((decoded_latitude - 28.622788).abs() <= 0.0000171661376953125);
    assert!((decoded_longitude - 77.213033).abs() <= 0.0000171661376953125);
}

/// Tests that decoding accepts lowercase letters and separators.
#[test]
fn decode_accpets_lowercase_and_seperators() {
    let formatted = "2c3-4k5-pft9";
    assert!(decode(formatted).is_ok());
}

/// Tests that encoding rejects locations outside the defined territory.
#[test]
fn encode_rejects_outside_territory() {
    assert!(encode(location(0.0, 0.0)).is_err());
}

/// Tests encoding at the boundary of the supported territory (south-west corner).
#[test]
fn boundary_south_west() {
    assert!(encode(location(2.5, 63.5)).is_ok());
}

/// Tests encoding at the boundary of the supported territory (north-east corner).
#[test]
fn boundary_north_east() {
    assert!(encode(location(38.5, 99.5)).is_ok());
}

/// Tests that encoding rejects latitude below minimum supported value.
#[test]
fn encode_rejects_latitude_below_min() {
    assert!(encode(location(2.48, 70.0)).is_err());
}

/// Tests that encoding rejects latitude above maximum supported value.
#[test]
fn encode_rejects_longitude_above_max() {
    assert!(encode(location(20.0, 99.51)).is_err());
}

/// Tests that decoding accepts formatted DIGIPIN strings with separators.
#[test]
fn decode_accepts_formatted_digipin() {
    assert!(decode("2c3-4km-pft9").is_ok());
}

/// Tests that decoding rejects DIGIPIN strings of invalid length or invalid symbols.
#[test]
fn decode_rejects_invalid_symbol() {
    assert!(decode("2C3J4K5MZFT9").is_err());
    assert!(decode("A4D-SK2-S7Z5").is_err());
}

/// Tests that the DIGIPIN symbols match the label grid.
#[test]
fn symbols_match_label_grid() {
    let flattened: Vec<char> = digipin_label_grid().into_iter().flatten().collect();
    assert_eq!(flattened, digipin_symbols());
}

/// Encoding a known location yields its known code.
#[test]
fn encode_known_location() {
    let digipin = encode(location(28.622788, 77.213033)).unwrap();
    assert_eq!(digipin, "39J49LL8T4");
}

/// Encoding the territory corners yields the corner cells' symbols at
/// every level: south-west is row 3, column 0; north-east is row 0,
/// column 3.
#[test]
fn encode_corner_codes() {
    assert_eq!(encode(location(2.5, 63.5)).unwrap(), "LLLLLLLLLL");
    assert_eq!(encode(location(38.5, 99.5)).unwrap(), "8888888888");
}

/// Decoding a known code yields the center of its final cell, exactly.
#[test]
fn decode_known_code() {
    let decoded = decode("39J49LL8T4").unwrap();
    assert_eq!(decoded.latitude, 122933960704);
    assert_eq!(decoded.longitude, 331627520000);

    let decoded = decode("2c3-4k5-pft9").unwrap();
    assert_eq!(decoded.latitude, 122670014464);
    assert_eq!(decoded.longitude, 362819919872);
}

/// Repeated encode calls with identical input produce identical output.
#[test]
fn encode_is_deterministic() {
    let original = location(11.25, 81.125);
    let first = encode(original).unwrap();
    let second = encode(original).unwrap();
    assert_eq!(first, second);
}

/// Each error variant is produced by a matching input.
#[test]
fn error_variants() {
    assert_eq!(
        encode(location(91.0, 10.0)),
        Err(DigipinError::InvalidLatitude)
    );
    assert_eq!(
        encode(location(10.0, 181.0)),
        Err(DigipinError::InvalidLongitude)
    );
    assert_eq!(
        encode(location(0.0, 0.0)),
        Err(DigipinError::OutsideSupportedTerritory)
    );
    assert_eq!(
        decode("2C34K5PFT922"),
        Err(DigipinError::InvalidDigipinLength)
    );
    assert_eq!(decode(""), Err(DigipinError::InvalidDigipinLength));
    assert_eq!(decode("ZC34K5PFT9"), Err(DigipinError::InvalidDigipinFormat));
}

/// Normalization strips '-' separators and upper-cases the rest, and
/// nothing else.
#[test]
fn normalize_strips_and_uppercases() {
    assert_eq!(normalize("2c3-4k5-pft9"), "2C34K5PFT9");
    assert_eq!(normalize("--a-b--"), "AB");
    assert_eq!(normalize(""), "");
    assert_eq!(normalize("xY#9"), "XY#9");
}

/// Validation entry points agree with the encode/decode error taxonomy.
#[test]
fn validation_bounds() {
    assert!(digipin::validate_geodetic_coordinates(location(90.0, 180.0)).is_ok());
    assert!(digipin::validate_geodetic_coordinates(location(-90.0, -180.0)).is_ok());
    assert_eq!(
        digipin::validate_geodetic_coordinates(location(-90.01, 0.0)),
        Err(DigipinError::InvalidLatitude)
    );
    assert_eq!(
        digipin::validate_geodetic_coordinates(location(0.0, -180.01)),
        Err(DigipinError::InvalidLongitude)
    );
    assert!(digipin::validate_digipin_territory(location(20.0, 80.0)).is_ok());
    assert_eq!(
        digipin::validate_digipin_territory(location(38.51, 80.0)),
        Err(DigipinError::OutsideSupportedTerritory)
    );
    assert!(digipin::validate_digipin_format("39J49LL8T4").is_ok());
    assert_eq!(
        digipin::validate_digipin_format("39J49LL8T"),
        Err(DigipinError::InvalidDigipinLength)
    );
    assert_eq!(
        digipin::validate_digipin_format("39j49LL8T4"),
        Err(DigipinError::InvalidDigipinFormat)
    );
}

/// Error messages name their condition.
#[test]
fn error_messages() {
    assert_eq!(
        DigipinError::InvalidLatitude.message(),
        "Latitude is outside geodetic bounds."
    );
    assert_eq!(
        DigipinError::OutsideSupportedTerritory.message(),
        "Location is outside the DIGIPIN supported territory."
    );
}
