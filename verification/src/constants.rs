use vstd::prelude::*;

verus! {

/// Number of fixed-point units in one degree.
///
/// Coordinates are carried as signed fixed-point degrees: a value of
/// `COORD_SCALE` stands for exactly one degree. The scale is a power of
/// two so that halving and quartering a span of whole or half degrees is
/// exact at every one of the ten subdivision steps.
pub const COORD_SCALE: i64 = 4294967296;

/// Geodetic coordinate limits (WGS-84 compatible), in fixed-point units.
pub const GEODETIC_LATITUDE_MIN: i64 = -90 * COORD_SCALE;

pub const GEODETIC_LATITUDE_MAX: i64 = 90 * COORD_SCALE;

pub const GEODETIC_LONGITUDE_MIN: i64 = -180 * COORD_SCALE;

pub const GEODETIC_LONGITUDE_MAX: i64 = 180 * COORD_SCALE;

/// Official DIGIPIN supported territory bounds, in fixed-point units.
/// Latitude 2.5 to 38.5 degrees, longitude 63.5 to 99.5 degrees:
/// each bound is an odd multiple of half of `COORD_SCALE`.
pub const DIGIPIN_LATITUDE_MIN: i64 = 5 * 2147483648;

pub const DIGIPIN_LATITUDE_MAX: i64 = 77 * 2147483648;

pub const DIGIPIN_LONGITUDE_MIN: i64 = 127 * 2147483648;

pub const DIGIPIN_LONGITUDE_MAX: i64 = 199 * 2147483648;

/// Number of symbols in a DIGIPIN code.
pub const DIGIPIN_LENGTH: usize = 10;

/// The label grid is square with this many rows and columns.
pub const DIGIPIN_GRID_SIZE: u64 = 4;

/// Largest distance, on either axis, between a decoded location and any
/// location that encodes to the same code: half the span of the smallest
/// cell, `36 degrees / 4^10 / 2` in fixed-point units.
pub const DIGIPIN_MAX_DECODE_ERROR: i64 = 73728;

/// Official DIGIPIN symbols (base-16), in row-major grid order.
pub open spec fn spec_symbols() -> Seq<char> {
    seq!['F', 'C', '9', '8', 'J', '3', '2', '7', 'K', '4', '5', '6', 'L', 'M', 'P', 'T']
}

/// The symbol at a given cell of the 4x4 label grid.
pub open spec fn symbol_for(row: int, col: int) -> char {
    if row == 0 {
        if col == 0 { 'F' } else if col == 1 { 'C' } else if col == 2 { '9' } else { '8' }
    } else if row == 1 {
        if col == 0 { 'J' } else if col == 1 { '3' } else if col == 2 { '2' } else { '7' }
    } else if row == 2 {
        if col == 0 { 'K' } else if col == 1 { '4' } else if col == 2 { '5' } else { '6' }
    } else {
        if col == 0 { 'L' } else if col == 1 { 'M' } else if col == 2 { 'P' } else { 'T' }
    }
}

/// Whether a character is one of the 16 DIGIPIN symbols.
pub open spec fn is_digipin_symbol(c: char) -> bool {
    ||| c == 'F' ||| c == 'C' ||| c == '9' ||| c == '8'
    ||| c == 'J' ||| c == '3' ||| c == '2' ||| c == '7'
    ||| c == 'K' ||| c == '4' ||| c == '5' ||| c == '6'
    ||| c == 'L' ||| c == 'M' ||| c == 'P' ||| c == 'T'
}

/// The grid row of a symbol; 0 for characters outside the alphabet.
pub open spec fn symbol_row(c: char) -> int {
    if c == 'F' || c == 'C' || c == '9' || c == '8' {
        0
    } else if c == 'J' || c == '3' || c == '2' || c == '7' {
        1
    } else if c == 'K' || c == '4' || c == '5' || c == '6' {
        2
    } else if c == 'L' || c == 'M' || c == 'P' || c == 'T' {
        3
    } else {
        0
    }
}

/// The grid column of a symbol; 0 for characters outside the alphabet.
pub open spec fn symbol_col(c: char) -> int {
    if c == 'F' || c == 'J' || c == 'K' || c == 'L' {
        0
    } else if c == 'C' || c == '3' || c == '4' || c == 'M' {
        1
    } else if c == '9' || c == '2' || c == '5' || c == 'P' {
        2
    } else if c == '8' || c == '7' || c == '6' || c == 'T' {
        3
    } else {
        0
    }
}

/// All 16 symbols are distinct, so the grid position of a symbol is the
/// unique cell holding it: looking up the symbol of a cell gives that
/// cell back.
pub proof fn lemma_symbol_positions()
    ensures
        forall|row: int, col: int|
            0 <= row < 4 && 0 <= col < 4 ==> {
                &&& symbol_row(#[trigger] symbol_for(row, col)) == row
                &&& symbol_col(symbol_for(row, col)) == col
                &&& is_digipin_symbol(symbol_for(row, col))
            },
{
}

/// The grid's row-major flattening equals the declared linear alphabet,
/// order-sensitively: symbol `i` of the alphabet sits at row `i / 4`,
/// column `i % 4` of the label grid.
pub proof fn lemma_symbols_match_label_grid()
    ensures
        spec_symbols().len() == 16,
        forall|i: int| 0 <= i < 16 ==> spec_symbols()[i] == symbol_for(i / 4, i % 4),
{
}

/// The symbol at a given cell of the 4x4 label grid.
pub fn symbol_at(row: u64, col: u64) -> (c: char)
    requires
        row < 4,
        col < 4,
    ensures
        c == symbol_for(row as int, col as int),
        is_digipin_symbol(c),
{
    if row == 0 {
        if col == 0 { 'F' } else if col == 1 { 'C' } else if col == 2 { '9' } else { '8' }
    } else if row == 1 {
        if col == 0 { 'J' } else if col == 1 { '3' } else if col == 2 { '2' } else { '7' }
    } else if row == 2 {
        if col == 0 { 'K' } else if col == 1 { '4' } else if col == 2 { '5' } else { '6' }
    } else {
        if col == 0 { 'L' } else if col == 1 { 'M' } else if col == 2 { 'P' } else { 'T' }
    }
}

/// The grid cell holding a symbol, or `None` for a character outside the
/// alphabet.
pub fn lookup_symbol(c: char) -> (r: Option<(u64, u64)>)
    ensures
        match r {
            Some(cell) => {
                &&& is_digipin_symbol(c)
                &&& cell.0 < 4
                &&& cell.1 < 4
                &&& cell.0 == symbol_row(c)
                &&& cell.1 == symbol_col(c)
            },
            None => !is_digipin_symbol(c),
        },
{
    match c {
        'F' => Some((0, 0)),
        'C' => Some((0, 1)),
        '9' => Some((0, 2)),
        '8' => Some((0, 3)),
        'J' => Some((1, 0)),
        '3' => Some((1, 1)),
        '2' => Some((1, 2)),
        '7' => Some((1, 3)),
        'K' => Some((2, 0)),
        '4' => Some((2, 1)),
        '5' => Some((2, 2)),
        '6' => Some((2, 3)),
        'L' => Some((3, 0)),
        'M' => Some((3, 1)),
        'P' => Some((3, 2)),
        'T' => Some((3, 3)),
        _ => None,
    }
}

/// Whether a character is one of the 16 DIGIPIN symbols.
pub fn is_symbol_char(c: char) -> (b: bool)
    ensures
        b == is_digipin_symbol(c),
{
    lookup_symbol(c).is_some()
}

/// The declared linear alphabet, as a vector.
pub fn digipin_symbols() -> (symbols: Vec<char>)
    ensures
        symbols@ == spec_symbols(),
{
    let mut symbols: Vec<char> = Vec::new();
    symbols.push('F');
    symbols.push('C');
    symbols.push('9');
    symbols.push('8');
    symbols.push('J');
    symbols.push('3');
    symbols.push('2');
    symbols.push('7');
    symbols.push('K');
    symbols.push('4');
    symbols.push('5');
    symbols.push('6');
    symbols.push('L');
    symbols.push('M');
    symbols.push('P');
    symbols.push('T');
    proof {
        assert(symbols@ =~= spec_symbols());
    }
    symbols
}

/// The 4x4 label grid, as a vector of rows.
pub fn digipin_label_grid() -> (grid: Vec<Vec<char>>)
    ensures
        grid@.len() == 4,
        forall|row: int| 0 <= row < 4 ==> (#[trigger] grid@[row])@.len() == 4,
        forall|row: int, col: int|
            0 <= row < 4 && 0 <= col < 4 ==> #[trigger] grid@[row]@[col] == symbol_for(row, col),
{
    let mut grid: Vec<Vec<char>> = Vec::new();
    let mut row: u64 = 0;
    while row < 4
        invariant
            row <= 4,
            grid@.len() == row,
            forall|r: int| 0 <= r < row as int ==> (#[trigger] grid@[r])@.len() == 4,
            forall|r: int, c: int|
                0 <= r < row as int && 0 <= c < 4 ==> #[trigger] grid@[r]@[c] == symbol_for(r, c),
        decreases 4 - row,
    {
        let mut cells: Vec<char> = Vec::new();
        let mut col: u64 = 0;
        while col < 4
            invariant
                row < 4,
                col <= 4,
                cells@.len() == col,
                forall|c: int| 0 <= c < col as int ==> cells@[c] == symbol_for(row as int, c),
            decreases 4 - col,
        {
            cells.push(symbol_at(row, col));
            col = col + 1;
        }
        grid.push(cells);
        row = row + 1;
    }
    grid
}

} // verus!
