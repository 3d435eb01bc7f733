//! Randomized, non-overlapping ship placement on a fresh board.

use vstd::prelude::*;
use rand::Rng;
use crate::tile::TileKind;
use crate::board::{Board, Point, SIZE, CELLS, SHIP_CELLS, ship_cells, hit_cells, miss_cells,
    water_cells, ship_pred, hit_pred, miss_pred, water_pred, lemma_count_update,
    lemma_count_uniform_false, lemma_count_uniform_true};

verus! {

/// How many random anchors are tried for one ship before generation gives up.
pub const MAX_PLACE_TRIES: usize = 10000;

/// Declares rand's thread-local generator so that it can be threaded through
/// the functions that draw from it; the value itself is opaque here.
#[verifier::external_type_specification]
#[verifier::external_body]
pub struct ExThreadRng(rand::rngs::ThreadRng);

/// Relies on rand::Rng::gen_range over the range 0..bound: it returns a value
/// of that range, and the range is non-empty, so the call does not panic.
#[verifier::external_body]
pub(crate) fn rand_below(rng: &mut rand::rngs::ThreadRng, bound: usize) -> (r: usize)
    requires
        1 <= bound,
    ensures
        r < bound,
{
    rng.gen_range(0..bound)
}

/// Relies on rand::Rng::gen::<bool>: an unbiased coin flip. Nothing can be
/// promised of a random draw.
#[verifier::external_body]
pub(crate) fn rand_coin(rng: &mut rand::rngs::ThreadRng) -> bool {
    rng.gen()
}

/// The tile kind a ship of the given orientation is drawn with.
pub open spec fn ship_tile(vertical: bool) -> TileKind {
    if vertical {
        TileKind::VerticalShip
    } else {
        TileKind::HorizontalShip
    }
}

/// Position of the `k`-th segment of a ship anchored at (row, col).
pub open spec fn run_idx(row: int, col: int, vertical: bool, k: int) -> int {
    if vertical {
        (row + k) * SIZE + col
    } else {
        row * SIZE + col + k
    }
}

/// Whether flat position `i` is covered by a ship of length `len` anchored at
/// (row, col) with the given orientation.
pub open spec fn in_run(row: int, col: int, len: int, vertical: bool, i: int) -> bool {
    exists|k: int| 0 <= k < len && i == #[trigger] run_idx(row, col, vertical, k)
}

/// Whether every cell of the run is still untouched water, so that a ship
/// placed there overlaps no other.
pub open spec fn run_is_water(g: Seq<TileKind>, row: int, col: int, len: int, vertical: bool) -> bool {
    forall|k: int| 0 <= k < len ==> g[#[trigger] run_idx(row, col, vertical, k)] == TileKind::Water
}

/// The whole relation between a board and the board after one ship of length
/// `len` lands on it: some in-bounds run that held only water now holds the
/// ship's tiles, and no other cell moved.
pub open spec fn placement_ok(
    g0: Seq<TileKind>,
    g1: Seq<TileKind>,
    row: int,
    col: int,
    len: int,
    vertical: bool,
) -> bool {
    &&& 0 <= row
    &&& 0 <= col
    &&& (vertical ==> col < SIZE && row + len <= SIZE)
    &&& (!vertical ==> row < SIZE && col + len <= SIZE)
    &&& run_is_water(g0, row, col, len, vertical)
    &&& forall|k: int|
        0 <= k < len ==> g1[#[trigger] run_idx(row, col, vertical, k)] == ship_tile(vertical)
    &&& forall|i: int| 0 <= i < CELLS && !in_run(row, col, len, vertical, i) ==> g1[i] == g0[i]
}

/// Place a ship on the run anchored at (row, col) if the whole run is still
/// water; report whether it was placed. A placed vertical ship of length
/// `len` covers exactly the cells (row..row+len, col), a horizontal one the
/// cells (row, col..col+len); every other cell keeps its tile, and the ship
/// count grows by `len` at the sole expense of water.
pub fn try_place(board: &mut Board, row: usize, col: usize, len: usize, vertical: bool) -> (placed:
    bool)
    requires
        old(board).wf(),
        1 <= len <= SIZE,
        vertical ==> col < SIZE && row + len <= SIZE,
        !vertical ==> row < SIZE && col + len <= SIZE,
    ensures
        final(board).wf(),
        placed == run_is_water(old(board).grid(), row as int, col as int, len as int, vertical),
        !placed ==> final(board).grid() == old(board).grid(),
        placed ==> forall|k: int|
            0 <= k < len ==> final(board).grid()[#[trigger] run_idx(
                row as int,
                col as int,
                vertical,
                k,
            )] == ship_tile(vertical),
        placed ==> forall|i: int|
            0 <= i < CELLS && !in_run(row as int, col as int, len as int, vertical, i)
                ==> final(board).grid()[i] == old(board).grid()[i],
        placed ==> ship_cells(final(board).grid()) == ship_cells(old(board).grid()) + len,
        placed ==> water_cells(final(board).grid()) as int == water_cells(old(board).grid()) - len,
        placed ==> hit_cells(final(board).grid()) == hit_cells(old(board).grid()),
        placed ==> miss_cells(final(board).grid()) == miss_cells(old(board).grid()),
{
    let mut k: usize = 0;
    while k < len
        invariant
            k <= len,
            board.wf(),
            board.grid() == old(board).grid(),
            1 <= len <= SIZE,
            vertical ==> col < SIZE && row + len <= SIZE,
            !vertical ==> row < SIZE && col + len <= SIZE,
            forall|j: int|
                0 <= j < k ==> board.grid()[#[trigger] run_idx(row as int, col as int, vertical, j)]
                    == TileKind::Water,
        decreases len - k,
    {
        let p = if vertical {
            Point { row: row + k, col }
        } else {
            Point { row, col: col + k }
        };
        if board.at(p) != TileKind::Water {
            proof {
                assert(board.grid()[run_idx(row as int, col as int, vertical, k as int)]
                    != TileKind::Water);
            }
            return false;
        }
        k = k + 1;
    }
    let mut k: usize = 0;
    while k < len
        invariant
            k <= len,
            board.wf(),
            1 <= len <= SIZE,
            vertical ==> col < SIZE && row + len <= SIZE,
            !vertical ==> row < SIZE && col + len <= SIZE,
            run_is_water(old(board).grid(), row as int, col as int, len as int, vertical),
            forall|j: int|
                0 <= j < k ==> board.grid()[#[trigger] run_idx(row as int, col as int, vertical, j)]
                    == ship_tile(vertical),
            forall|i: int|
                0 <= i < CELLS && !in_run(row as int, col as int, k as int, vertical, i)
                    ==> board.grid()[i] == old(board).grid()[i],
            ship_cells(board.grid()) == ship_cells(old(board).grid()) + k,
            water_cells(board.grid()) as int == water_cells(old(board).grid()) - k,
            hit_cells(board.grid()) == hit_cells(old(board).grid()),
            miss_cells(board.grid()) == miss_cells(old(board).grid()),
        decreases len - k,
    {
        let p = if vertical {
            Point { row: row + k, col }
        } else {
            Point { row, col: col + k }
        };
        let ghost pre = board.grid();
        let ghost i = run_idx(row as int, col as int, vertical, k as int);
        proof {
            assert(p.idx() == i);
            assert(!in_run(row as int, col as int, k as int, vertical, i)) by {
                assert(forall|j: int|
                    0 <= j < k ==> i != #[trigger] run_idx(row as int, col as int, vertical, j));
            }
            assert(pre[i] == old(board).grid()[i]);
            assert(pre[i] == TileKind::Water);
        }
        board.set(p, if vertical {
            TileKind::VerticalShip
        } else {
            TileKind::HorizontalShip
        });
        proof {
            lemma_count_update(pre, ship_pred(), i, ship_tile(vertical), CELLS as int);
            lemma_count_update(pre, water_pred(), i, ship_tile(vertical), CELLS as int);
            lemma_count_update(pre, hit_pred(), i, ship_tile(vertical), CELLS as int);
            lemma_count_update(pre, miss_pred(), i, ship_tile(vertical), CELLS as int);
            assert(forall|j: int|
                0 <= j < CELLS && !in_run(row as int, col as int, k as int + 1, vertical, j) ==> !in_run(
                    row as int,
                    col as int,
                    k as int,
                    vertical,
                    j,
                ) && j != i);
        }
        k = k + 1;
    }
    true
}

/// Choose a random orientation for a ship of the given length, then sample
/// random anchors until one fits on water only, giving up after a bounded
/// number of tries. Reports whether the ship was placed; an unplaced ship
/// leaves the board exactly as it was.
pub fn place_one(board: &mut Board, rng: &mut rand::rngs::ThreadRng, len: usize) -> (placed: bool)
    requires
        old(board).wf(),
        1 <= len <= SIZE,
    ensures
        final(board).wf(),
        !placed ==> final(board).grid() == old(board).grid(),
        placed ==> exists|row: int, col: int, vertical: bool|
            placement_ok(
                old(board).grid(),
                final(board).grid(),
                row,
                col,
                len as int,
                vertical,
            ),
        placed ==> ship_cells(final(board).grid()) == ship_cells(old(board).grid()) + len,
        placed ==> water_cells(final(board).grid()) as int == water_cells(old(board).grid()) - len,
        placed ==> hit_cells(final(board).grid()) == hit_cells(old(board).grid()),
        placed ==> miss_cells(final(board).grid()) == miss_cells(old(board).grid()),
{
    let vertical = rand_coin(rng);
    let mut tries: usize = 0;
    while tries < MAX_PLACE_TRIES
        invariant
            board.wf(),
            board.grid() == old(board).grid(),
            1 <= len <= SIZE,
        decreases MAX_PLACE_TRIES - tries,
    {
        let (row, col) = if vertical {
            (rand_below(rng, SIZE - len + 1), rand_below(rng, SIZE))
        } else {
            (rand_below(rng, SIZE), rand_below(rng, SIZE - len + 1))
        };
        if try_place(board, row, col, len, vertical) {
            proof {
                assert(placement_ok(
                    old(board).grid(),
                    board.grid(),
                    row as int,
                    col as int,
                    len as int,
                    vertical,
                ));
            }
            return true;
        }
        tries = tries + 1;
    }
    false
}

/// Produce a fully populated board: all water, then ships of lengths
/// 5, 4, 3, 3 and 2 placed in sequence at random anchors, no two overlapping.
/// A populated board holds exactly 17 ship cells and 83 water cells and no
/// guessed cell. `None` is returned only if some ship found no free run
/// within the bounded number of tries.
pub fn board(rng: &mut rand::rngs::ThreadRng) -> (r: Option<Board>)
    ensures
        r matches Some(b) ==> b.wf() && ship_cells(b.grid()) == SHIP_CELLS && water_cells(b.grid())
            == CELLS - SHIP_CELLS && hit_cells(b.grid()) == 0 && miss_cells(b.grid()) == 0,
{
    let mut b = Board::new_water();
    proof {
        lemma_count_uniform_false(b.grid(), ship_pred(), CELLS as int);
        lemma_count_uniform_false(b.grid(), hit_pred(), CELLS as int);
        lemma_count_uniform_false(b.grid(), miss_pred(), CELLS as int);
        lemma_count_uniform_true(b.grid(), water_pred(), CELLS as int);
    }
    if !place_one(&mut b, rng, 5) {
        return None;
    }
    if !place_one(&mut b, rng, 4) {
        return None;
    }
    if !place_one(&mut b, rng, 3) {
        return None;
    }
    if !place_one(&mut b, rng, 3) {
        return None;
    }
    if !place_one(&mut b, rng, 2) {
        return None;
    }
    Some(b)
}

} // verus!
