//! Guess resolution against a board, and the fog-of-war view update.

use vstd::prelude::*;
use crate::tile::TileKind;
use crate::board::{Board, Point, ship_pred, hit_pred, miss_pred, resolved_pred, ship_cells,
    hit_cells, miss_cells, resolved_cells, lemma_count_update};

verus! {

/// What a guessed tile becomes: ship segments are marked hit, known hits stay
/// as they are, everything else is marked as a miss.
pub open spec fn resolve_tile(t: TileKind) -> TileKind {
    if t.spec_is_ship() {
        TileKind::HitShip
    } else if t == TileKind::HitShip {
        t
    } else {
        TileKind::Miss
    }
}

/// Whether a guess at a tile reports a hit: it does on an unguessed ship
/// segment and on a segment already hit.
pub open spec fn resolve_hit(t: TileKind) -> bool {
    t.spec_is_ship() || t == TileKind::HitShip
}

/// By how much a guess at a tile raises the hit counter: only a first hit
/// on a ship segment counts.
pub open spec fn resolve_delta(t: TileKind) -> nat {
    if t.spec_is_ship() {
        1
    } else {
        0
    }
}

/// What a view cell shows once the guess at it has resolved: the hit tile
/// itself, or a miss for everything else.
pub open spec fn view_tile(t: TileKind) -> TileKind {
    if t.spec_is_hit() {
        t
    } else {
        TileKind::Miss
    }
}

/// A fog-of-war grid reveals no unguessed ship segment.
pub open spec fn view_ok(g: Seq<TileKind>) -> bool {
    forall|i: int| 0 <= i < g.len() ==> !(#[trigger] g[i]).spec_is_ship()
}

/// Resolve the guess `p` against `board`. A ship cell is marked hit and the
/// counter raised; a cell already hit reports a hit and changes nothing; any
/// other cell is marked as a miss.
pub fn guess(board: &mut Board, counter: &mut u8, p: Point) -> (hit: bool)
    requires
        old(board).wf(),
        p.wf(),
        *old(counter) < 255,
    ensures
        final(board).wf(),
        final(board).grid() == old(board).grid().update(p.idx(), resolve_tile(old(board).spec_at(p))),
        *final(counter) == *old(counter) + resolve_delta(old(board).spec_at(p)),
        hit == resolve_hit(old(board).spec_at(p)),
{
    let t = board.at(p);
    if t.is_ship() {
        board.set(p, TileKind::HitShip);
        *counter = *counter + 1;
        true
    } else if t == TileKind::HitShip {
        proof {
            assert(old(board).grid() =~= old(board).grid().update(p.idx(), resolve_tile(t)));
        }
        true
    } else {
        board.set(p, TileKind::Miss);
        false
    }
}

/// Copy the outcome of the guess `p` into the guessing player's view: the hit
/// tile where the opponent's cell is hit, a miss otherwise.
pub fn changeview(view: &mut Board, board: &Board, p: Point)
    requires
        old(view).wf(),
        board.wf(),
        p.wf(),
    ensures
        final(view).wf(),
        final(view).grid() == old(view).grid().update(p.idx(), view_tile(board.spec_at(p))),
{
    let t = board.at(p);
    if t.is_hit() {
        view.set(p, t);
    } else {
        view.set(p, TileKind::Miss);
    }
}

/// How resolving one cell moves every cell count: the hit count rises by the
/// resolution's increment, ship and hit cells together are conserved, misses
/// rise exactly when a non-ship cell is guessed for the first time, and the
/// count of resolved cells rises by one unless the cell was already resolved.
pub proof fn lemma_resolve_counts(g: Seq<TileKind>, i: int)
    requires
        0 <= i < g.len(),
    ensures
        hit_cells(g.update(i, resolve_tile(g[i]))) == hit_cells(g) + resolve_delta(g[i]),
        ship_cells(g.update(i, resolve_tile(g[i]))) as int == ship_cells(g) as int - resolve_delta(
            g[i],
        ),
        ship_cells(g.update(i, resolve_tile(g[i]))) + hit_cells(g.update(i, resolve_tile(g[i])))
            == ship_cells(g) + hit_cells(g),
        miss_cells(g.update(i, resolve_tile(g[i]))) == miss_cells(g) + (if g[i].spec_is_resolved()
            || g[i].spec_is_ship() {
            0int
        } else {
            1int
        }),
        resolved_cells(g.update(i, resolve_tile(g[i]))) == resolved_cells(g) + (
        if g[i].spec_is_resolved() {
            0int
        } else {
            1int
        }),
{
    let t = resolve_tile(g[i]);
    let n = g.len() as int;
    lemma_count_update(g, hit_pred(), i, t, n);
    lemma_count_update(g, ship_pred(), i, t, n);
    lemma_count_update(g, miss_pred(), i, t, n);
    lemma_count_update(g, resolved_pred(), i, t, n);
}

/// Resolving a guess leaves the chosen cell resolved and every cell already
/// resolved stays so. A cell once guessed therefore stays resolved for the
/// rest of the game, and a guesser that only picks unresolved cells never
/// picks the same cell twice.
pub proof fn lemma_resolved_stays(g: Seq<TileKind>, i: int, j: int)
    requires
        0 <= i < g.len(),
        0 <= j < g.len(),
    ensures
        g.update(i, resolve_tile(g[i]))[i].spec_is_resolved(),
        g[j].spec_is_resolved() ==> g.update(i, resolve_tile(g[i]))[j].spec_is_resolved(),
{
}

/// Resolving a guess at an unguessed ship cell reports a hit, marks the cell
/// hit, and raises the counter by one; resolving the very same cell again
/// still reports a hit but changes neither the board nor the counter.
pub proof fn lemma_hit_once_then_idempotent(g: Seq<TileKind>, i: int)
    requires
        0 <= i < g.len(),
        g[i].spec_is_ship(),
    ensures
        resolve_hit(g[i]),
        resolve_delta(g[i]) == 1,
        g.update(i, resolve_tile(g[i]))[i] == TileKind::HitShip,
        resolve_hit(g.update(i, resolve_tile(g[i]))[i]),
        resolve_delta(g.update(i, resolve_tile(g[i]))[i]) == 0,
        g.update(i, resolve_tile(g[i])).update(
            i,
            resolve_tile(g.update(i, resolve_tile(g[i]))[i]),
        ) == g.update(i, resolve_tile(g[i])),
{
    let g2 = g.update(i, resolve_tile(g[i]));
    assert(g2.update(i, resolve_tile(g2[i])) =~= g2);
}

/// Resolving a guess at a never-guessed non-ship cell marks it as a miss and
/// reports no hit; resolving that same cell again still reports no hit and
/// changes neither the board nor the counter.
pub proof fn lemma_miss_idempotent(g: Seq<TileKind>, i: int)
    requires
        0 <= i < g.len(),
        !g[i].spec_is_ship(),
        g[i] != TileKind::HitShip,
    ensures
        !resolve_hit(g[i]),
        resolve_delta(g[i]) == 0,
        g.update(i, resolve_tile(g[i]))[i] == TileKind::Miss,
        !resolve_hit(g.update(i, resolve_tile(g[i]))[i]),
        resolve_delta(g.update(i, resolve_tile(g[i]))[i]) == 0,
        g.update(i, resolve_tile(g[i])).update(
            i,
            resolve_tile(g.update(i, resolve_tile(g[i]))[i]),
        ) == g.update(i, resolve_tile(g[i])),
{
    let g2 = g.update(i, resolve_tile(g[i]));
    assert(g2.update(i, resolve_tile(g2[i])) =~= g2);
}

/// A fog-of-war view stays free of unguessed ship markers across a view
/// update: the written cell shows only a hit tile or a miss.
pub proof fn lemma_view_stays_fogged(v: Seq<TileKind>, t: TileKind, i: int)
    requires
        0 <= i < v.len(),
        view_ok(v),
    ensures
        view_ok(v.update(i, view_tile(t))),
{
}

} // verus!
