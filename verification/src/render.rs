//! Rendering a board as monospace text: a header line with the column
//! digits 0-9, then one line per row, led by its row letter a-j.

use vstd::prelude::*;
use crate::tile::TileKind;
use crate::board::{Board, Point, SIZE};

verus! {

/// The display glyph of a tile: ' ' for water, '.' for a miss, '|' and '='
/// for vertical and horizontal ship segments, 'x' for a hit.
pub open spec fn spec_glyph(t: TileKind) -> u8 {
    match t {
        TileKind::Water => 32,
        TileKind::Miss => 46,
        TileKind::VerticalShip => 124,
        TileKind::HorizontalShip => 61,
        TileKind::HitShip => 120,
    }
}

/// Column `i` of the header line reads " i".
pub open spec fn header_cell_ok(s: Seq<u8>, i: int) -> bool {
    s[1 + 2 * i] == 32 && s[2 + 2 * i] == 48 + i
}

/// The header line: a leading space, then " 0" through " 9".
pub open spec fn header_ok(s: Seq<u8>) -> bool {
    s.len() >= 21 && s[0] == 32 && forall|i: int| 0 <= i < 10 ==> #[trigger] header_cell_ok(s, i)
}

/// Cell (r, c) of the grid shows its glyph followed by a space.
pub open spec fn cell_ok(s: Seq<u8>, g: Seq<TileKind>, r: int, c: int) -> bool {
    s[23 * r + 24 + 2 * c] == spec_glyph(g[10 * r + c]) && s[23 * r + 25 + 2 * c] == 32
}

/// Row `r` of the rendering: a newline, the row letter, a space, then the
/// ten cells of that board row.
pub open spec fn row_ok(s: Seq<u8>, g: Seq<TileKind>, r: int) -> bool {
    &&& s.len() >= 44 + 23 * r
    &&& s[21 + 23 * r] == 10
    &&& s[22 + 23 * r] == 97 + r
    &&& s[23 + 23 * r] == 32
    &&& forall|c: int| 0 <= c < 10 ==> #[trigger] cell_ok(s, g, r, c)
}

/// The complete rendering: the header, the ten rows, a final newline.
pub open spec fn rendering_ok(s: Seq<u8>, g: Seq<TileKind>) -> bool {
    &&& s.len() == 252
    &&& header_ok(s)
    &&& forall|r: int| 0 <= r < 10 ==> #[trigger] row_ok(s, g, r)
    &&& s[251] == 10
}

/// A header stays a header when bytes are only appended after it.
proof fn lemma_header_ok_extend(s1: Seq<u8>, s2: Seq<u8>)
    requires
        header_ok(s1),
        s1.len() <= s2.len(),
        forall|j: int| 0 <= j < s1.len() ==> s2[j] == s1[j],
    ensures
        header_ok(s2),
{
    assert forall|i: int| 0 <= i < 10 implies #[trigger] header_cell_ok(s2, i) by {
        assert(header_cell_ok(s1, i));
    }
}

/// A finished row stays intact when bytes are only appended after it.
proof fn lemma_row_ok_extend(s1: Seq<u8>, s2: Seq<u8>, g: Seq<TileKind>, r: int)
    requires
        0 <= r,
        row_ok(s1, g, r),
        s1.len() <= s2.len(),
        forall|j: int| 0 <= j < s1.len() ==> s2[j] == s1[j],
    ensures
        row_ok(s2, g, r),
{
    assert forall|c: int| 0 <= c < 10 implies #[trigger] cell_ok(s2, g, r, c) by {
        assert(cell_ok(s1, g, r, c));
    }
}

/// The display glyph of a tile.
pub fn glyph(t: TileKind) -> (b: u8)
    ensures
        b == spec_glyph(t),
{
    match t {
        TileKind::Water => 32,
        TileKind::Miss => 46,
        TileKind::VerticalShip => 124,
        TileKind::HorizontalShip => 61,
        TileKind::HitShip => 120,
    }
}

/// Append row `r` of the board to a rendering under construction.
fn push_row(out: &mut Vec<u8>, board: &Board, r: usize)
    requires
        board.wf(),
        r < SIZE,
        old(out)@.len() == 21 + 23 * r,
    ensures
        final(out)@.len() == 21 + 23 * (r + 1),
        forall|j: int| 0 <= j < old(out)@.len() ==> final(out)@[j] == old(out)@[j],
        row_ok(final(out)@, board.grid(), r as int),
{
    let ghost orig = out@;
    out.push(10);
    out.push(97 + r as u8);
    out.push(32);
    let mut c: usize = 0;
    while c < SIZE
        invariant
            board.wf(),
            r < SIZE,
            c <= SIZE,
            orig.len() == 21 + 23 * r,
            out@.len() == 24 + 23 * r + 2 * c,
            forall|j: int| 0 <= j < orig.len() ==> out@[j] == orig[j],
            out@[21 + 23 * r] == 10,
            out@[22 + 23 * r] == 97 + r,
            out@[23 + 23 * r] == 32,
            forall|c0: int| 0 <= c0 < c ==> #[trigger] cell_ok(out@, board.grid(), r as int, c0),
        decreases SIZE - c,
    {
        let ghost prev = out@;
        let t = board.at(Point { row: r, col: c });
        out.push(glyph(t));
        out.push(32);
        proof {
            assert forall|j: int| 0 <= j < orig.len() implies out@[j] == orig[j] by {
                assert(out@[j] == prev[j]);
            }
            assert(out@[23 * (r as int) + 24 + 2 * (c as int)] == spec_glyph(
                board.grid()[10 * (r as int) + (c as int)],
            ));
            assert forall|c0: int| 0 <= c0 < c + 1 implies #[trigger] cell_ok(
                out@,
                board.grid(),
                r as int,
                c0,
            ) by {
                if c0 < c {
                    assert(cell_ok(prev, board.grid(), r as int, c0));
                }
            }
        }
        c = c + 1;
    }
}

/// Render the whole board as the bytes of its text form: the header line,
/// ten rows, and a closing newline, 252 bytes in all, every byte pinned by
/// `rendering_ok`.
pub fn show(board: &Board) -> (out: Vec<u8>)
    requires
        board.wf(),
    ensures
        rendering_ok(out@, board.grid()),
{
    let mut out: Vec<u8> = Vec::new();
    out.push(32);
    let mut i: usize = 0;
    while i < SIZE
        invariant
            i <= SIZE,
            out@.len() == 1 + 2 * i,
            out@[0] == 32,
            forall|i0: int| 0 <= i0 < i ==> #[trigger] header_cell_ok(out@, i0),
        decreases SIZE - i,
    {
        let ghost prev = out@;
        out.push(32);
        out.push(48 + i as u8);
        proof {
            assert forall|i0: int| 0 <= i0 < i + 1 implies #[trigger] header_cell_ok(out@, i0) by {
                if i0 < i {
                    assert(header_cell_ok(prev, i0));
                }
            }
        }
        i = i + 1;
    }
    let mut r: usize = 0;
    while r < SIZE
        invariant
            board.wf(),
            r <= SIZE,
            out@.len() == 21 + 23 * r,
            header_ok(out@),
            forall|r0: int| 0 <= r0 < r ==> #[trigger] row_ok(out@, board.grid(), r0),
        decreases SIZE - r,
    {
        let ghost prev = out@;
        push_row(&mut out, board, r);
        proof {
            lemma_header_ok_extend(prev, out@);
            assert forall|r0: int| 0 <= r0 < r + 1 implies #[trigger] row_ok(
                out@,
                board.grid(),
                r0,
            ) by {
                if r0 < r {
                    lemma_row_ok_extend(prev, out@, board.grid(), r0);
                }
            }
        }
        r = r + 1;
    }
    let ghost prev = out@;
    out.push(10);
    proof {
        lemma_header_ok_extend(prev, out@);
        assert forall|r0: int| 0 <= r0 < 10 implies #[trigger] row_ok(out@, board.grid(), r0) by {
            lemma_row_ok_extend(prev, out@, board.grid(), r0);
        }
    }
    out
}

} // verus!
