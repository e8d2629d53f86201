use vstd::prelude::*;

verus! {

/// Represents a geographic location with latitude and longitude.
///
/// Both coordinates are in fixed-point degrees: `COORD_SCALE` units to
/// the degree, positive north and east.
///
/// # Fields
/// - `latitude`: The latitude in fixed-point degrees.
/// - `longitude`: The longitude in fixed-point degrees.
#[derive(Debug, Clone, Copy, PartialEq, Eq, Structural)]
pub struct Location {
    pub latitude: i64,
    pub longitude: i64,
}

} // verus!
