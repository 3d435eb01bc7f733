//! Parsing one raw input line into a board coordinate.

use vstd::prelude::*;
use crate::board::Point;

verus! {

/// Read a guess from the bytes of one input line: the first byte must be a
/// lowercase row letter a-j, the second a column digit 0-9; everything after
/// the first two bytes is ignored. Any other line, a short or empty one
/// included, parses to nothing, and the caller prompts again.
pub fn parse_guess(line: &[u8]) -> (r: Option<Point>)
    ensures
        r is Some <==> line@.len() >= 2 && 97 <= line@[0] <= 106 && 48 <= line@[1] <= 57,
        r matches Some(p) ==> p.wf() && p.row == line@[0] - 97 && p.col == line@[1] - 48,
{
    if line.len() < 2 {
        return None;
    }
    let row_byte = line[0];
    let col_byte = line[1];
    // b'a' = 97, b'j' = 106, b'0' = 48, b'9' = 57
    if 97 <= row_byte && row_byte <= 106 && 48 <= col_byte && col_byte <= 57 {
        Some(Point { row: (row_byte - 97) as usize, col: (col_byte - 48) as usize })
    } else {
        None
    }
}

} // verus!
