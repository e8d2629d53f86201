use vstd::prelude::*;

use crate::constants::{
    DIGIPIN_GRID_SIZE, DIGIPIN_LATITUDE_MAX, DIGIPIN_LATITUDE_MIN, DIGIPIN_LONGITUDE_MAX,
    DIGIPIN_LONGITUDE_MIN,
};

verus! {

/// The working rectangle of the encode/decode recursion, in fixed-point
/// units. It starts at the supported territory and one grid cell of it
/// is selected per code symbol. Within the territory every coordinate is
/// positive, so the fields are unsigned.
#[derive(Debug, Clone, Copy, PartialEq, Eq, Structural)]
pub struct Bounds {
    pub latitude_min: u64,
    pub latitude_max: u64,
    pub longitude_min: u64,
    pub longitude_max: u64,
}

/// The span, on either axis, of the box reached after `level` narrowing
/// steps: the full 36-degree territory span divided by 4 at each step.
pub open spec fn cell_span(level: int) -> int
    decreases level,
{
    if level <= 0 {
        DIGIPIN_LATITUDE_MAX - DIGIPIN_LATITUDE_MIN
    } else {
        cell_span(level - 1) / 4
    }
}

/// The spans of all eleven levels. Each is a quarter of the one before,
/// with no remainder: the territory span is 36 times a power of two.
pub proof fn lemma_cell_span_values()
    ensures
        cell_span(0) == 154618822656,
        cell_span(1) == 38654705664,
        cell_span(2) == 9663676416,
        cell_span(3) == 2415919104,
        cell_span(4) == 603979776,
        cell_span(5) == 150994944,
        cell_span(6) == 37748736,
        cell_span(7) == 9437184,
        cell_span(8) == 2359296,
        cell_span(9) == 589824,
        cell_span(10) == 147456,
{
    reveal_with_fuel(cell_span, 11);
}

/// At every level of a code, the span is positive, at most the territory
/// span, and divides exactly by 4 into the next level's span.
pub proof fn lemma_cell_span_at(level: int)
    requires
        0 <= level <= 10,
    ensures
        147456 <= cell_span(level) <= 154618822656,
        level < 10 ==> cell_span(level) == 4 * cell_span(level + 1),
{
    lemma_cell_span_values();
    if level == 0 {
    } else if level == 1 {
    } else if level == 2 {
    } else if level == 3 {
    } else if level == 4 {
    } else if level == 5 {
    } else if level == 6 {
    } else if level == 7 {
    } else if level == 8 {
    } else if level == 9 {
    } else {
    }
}

/// Well-formedness of the working rectangle after `level` steps: both
/// axes span exactly `cell_span(level)` and the rectangle lies inside
/// the supported territory.
pub open spec fn bounds_invariant(b: Bounds, level: int) -> bool {
    &&& b.latitude_max - b.latitude_min == cell_span(level)
    &&& b.longitude_max - b.longitude_min == cell_span(level)
    &&& DIGIPIN_LATITUDE_MIN <= b.latitude_min
    &&& b.latitude_max <= DIGIPIN_LATITUDE_MAX
    &&& DIGIPIN_LONGITUDE_MIN <= b.longitude_min
    &&& b.longitude_max <= DIGIPIN_LONGITUDE_MAX
}

/// The box both directions start from: the supported territory bounds.
pub fn initial_bounds() -> (b: Bounds)
    ensures
        b.latitude_min == DIGIPIN_LATITUDE_MIN,
        b.latitude_max == DIGIPIN_LATITUDE_MAX,
        b.longitude_min == DIGIPIN_LONGITUDE_MIN,
        b.longitude_max == DIGIPIN_LONGITUDE_MAX,
        bounds_invariant(b, 0),
{
    Bounds {
        latitude_min: DIGIPIN_LATITUDE_MIN as u64,
        latitude_max: DIGIPIN_LATITUDE_MAX as u64,
        longitude_min: DIGIPIN_LONGITUDE_MIN as u64,
        longitude_max: DIGIPIN_LONGITUDE_MAX as u64,
    }
}

/// The one narrowing step shared by the encoder and the decoder, so the
/// two directions can never numerically diverge: select the `row`-th
/// band from the top and the `col`-th band from the west, each band one
/// quarter of the current span.
pub fn narrow_bounds(b: Bounds, row: u64, col: u64, Ghost(level): Ghost<int>) -> (nb: Bounds)
    requires
        bounds_invariant(b, level),
        0 <= level < 10,
        row <= 3,
        col <= 3,
    ensures
        bounds_invariant(nb, level + 1),
        nb.latitude_max == b.latitude_max - row * cell_span(level + 1),
        nb.latitude_min == nb.latitude_max - cell_span(level + 1),
        nb.longitude_min == b.longitude_min + col * cell_span(level + 1),
        nb.longitude_max == nb.longitude_min + cell_span(level + 1),
{
    proof {
        lemma_cell_span_at(level);
        lemma_cell_span_at(level + 1);
        let step = cell_span(level + 1);
        assert((4 * step) / 4 == step) by (nonlinear_arith)
            requires
                step >= 0,
        ;
        assert(row * step <= 3 * step && col * step <= 3 * step) by (nonlinear_arith)
            requires
                step >= 0,
                row <= 3,
                col <= 3,
        ;
    }
    let latitude_step = (b.latitude_max - b.latitude_min) / DIGIPIN_GRID_SIZE;
    let longitude_step = (b.longitude_max - b.longitude_min) / DIGIPIN_GRID_SIZE;

    let latitude_max = b.latitude_max - row * latitude_step;
    let latitude_min = latitude_max - latitude_step;

    let longitude_min = b.longitude_min + col * longitude_step;
    let longitude_max = longitude_min + longitude_step;

    Bounds { latitude_min, latitude_max, longitude_min, longitude_max }
}

} // verus!
