use vstd::prelude::*;

verus! {

/// Errors returned by DIGIPIN operations.
///
/// # Variants
/// - `InvalidLatitude`: Latitude is outside geodetic bounds.
/// - `InvalidLongitude`: Longitude is outside geodetic bounds.
/// - `OutsideSupportedTerritory`: Location is outside the DIGIPIN supported territory.
/// - `InvalidDigipinLength`: DIGIPIN does not conform to required length.
/// - `InvalidDigipinFormat`: DIGIPIN contains invalid symbols or format.
#[derive(Debug, Clone, PartialEq, Eq, Structural)]
pub enum DigipinError {
    InvalidLatitude,
    InvalidLongitude,
    OutsideSupportedTerritory,
    InvalidDigipinLength,
    InvalidDigipinFormat,
}

impl DigipinError {
    /// A human-readable message for the error.
    pub fn message(&self) -> (r: &'static str)
        ensures
            r@ == match self {
                DigipinError::InvalidLatitude => "Latitude is outside geodetic bounds."@,
                DigipinError::InvalidLongitude => "Longitude is outside geodetic bounds."@,
                DigipinError::OutsideSupportedTerritory => "Location is outside the DIGIPIN supported territory."@,
                DigipinError::InvalidDigipinLength => "DIGIPIN does not conform to required length."@,
                DigipinError::InvalidDigipinFormat => "DIGIPIN contains invalid symbols or format."@,
            },
    {
        match self {
            DigipinError::InvalidLatitude => "Latitude is outside geodetic bounds.",
            DigipinError::InvalidLongitude => "Longitude is outside geodetic bounds.",
            DigipinError::OutsideSupportedTerritory => "Location is outside the DIGIPIN supported territory.",
            DigipinError::InvalidDigipinLength => "DIGIPIN does not conform to required length.",
            DigipinError::InvalidDigipinFormat => "DIGIPIN contains invalid symbols or format.",
        }
    }
}

} // verus!
