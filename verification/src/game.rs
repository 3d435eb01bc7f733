//! The game state and the decisions of the turn loop: resolving the human's
//! guess, picking and resolving the computer's guess, and win detection.

use vstd::prelude::*;
use crate::tile::TileKind;
use crate::board::{Board, Point, SIZE, CELLS, SHIP_CELLS, count_before, resolved_pred, hit_pred,
    miss_pred, ship_cells, hit_cells, resolved_cells, lemma_count_le, lemma_count_split,
    lemma_count_zero, lemma_count_uniform_false};
use crate::resolve::{guess, changeview, resolve_tile, resolve_hit, resolve_delta, view_tile,
    view_ok, lemma_resolve_counts, lemma_view_stays_fogged};
use crate::placement::{board, rand_below};

verus! {

/// The whole state of one game: each player's own board with the hits taken
/// against it, and the human player's fog-of-war view of the computer's board.
pub struct Game {
    your_board: Board,
    computers_board: Board,
    view: Board,
    hits_on_your_board: u8,
    hits_on_computers_board: u8,
}

impl Game {
    pub closed spec fn your_grid(self) -> Seq<TileKind> {
        self.your_board.grid()
    }

    pub closed spec fn computers_grid(self) -> Seq<TileKind> {
        self.computers_board.grid()
    }

    pub closed spec fn view_grid(self) -> Seq<TileKind> {
        self.view.grid()
    }

    /// Hits the computer has landed on the human's board.
    pub closed spec fn spec_hits_on_your_board(self) -> u8 {
        self.hits_on_your_board
    }

    /// Hits the human has landed on the computer's board.
    pub closed spec fn spec_hits_on_computers_board(self) -> u8 {
        self.hits_on_computers_board
    }

    /// The game invariant: both boards are full grids carrying the fixed
    /// fleet (ship cells still afloat plus ship cells hit always total 17),
    /// each hit counter equals the hit cells on its board, and the view
    /// shows no unguessed ship and claims no hit the computer's board does
    /// not have.
    pub open spec fn wf(self) -> bool {
        &&& self.your_grid().len() == CELLS
        &&& self.computers_grid().len() == CELLS
        &&& self.view_grid().len() == CELLS
        &&& self.spec_hits_on_your_board() == hit_cells(self.your_grid())
        &&& self.spec_hits_on_computers_board() == hit_cells(self.computers_grid())
        &&& ship_cells(self.your_grid()) + hit_cells(self.your_grid()) == SHIP_CELLS
        &&& ship_cells(self.computers_grid()) + hit_cells(self.computers_grid()) == SHIP_CELLS
        &&& view_ok(self.view_grid())
        &&& forall|i: int|
            0 <= i < CELLS && #[trigger] self.view_grid()[i] == TileKind::HitShip
                ==> self.computers_grid()[i] == TileKind::HitShip
    }

    /// Start a game: two freshly generated boards, an all-water (all-unknown)
    /// view, both hit counters at zero. `None` only if board generation gave
    /// up on a placement.
    pub fn new(rng: &mut rand::rngs::ThreadRng) -> (r: Option<Game>)
        ensures
            r matches Some(g) ==> g.wf() && g.spec_hits_on_your_board() == 0
                && g.spec_hits_on_computers_board() == 0 && resolved_cells(g.your_grid()) == 0
                && resolved_cells(g.computers_grid()) == 0 && (forall|i: int|
                0 <= i < CELLS ==> g.view_grid()[i] == TileKind::Water),
    {
        let your_board = match board(rng) {
            Some(b) => b,
            None => {
                return None;
            },
        };
        let computers_board = match board(rng) {
            Some(b) => b,
            None => {
                return None;
            },
        };
        let view = Board::new_water();
        proof {
            lemma_count_zero(your_board.grid(), hit_pred(), CELLS as int);
            lemma_count_zero(your_board.grid(), miss_pred(), CELLS as int);
            lemma_count_zero(computers_board.grid(), hit_pred(), CELLS as int);
            lemma_count_zero(computers_board.grid(), miss_pred(), CELLS as int);
            lemma_count_uniform_false(your_board.grid(), resolved_pred(), CELLS as int);
            lemma_count_uniform_false(computers_board.grid(), resolved_pred(), CELLS as int);
        }
        Some(
            Game {
                your_board,
                computers_board,
                view,
                hits_on_your_board: 0,
                hits_on_computers_board: 0,
            },
        )
    }

    /// Resolve the human's guess `p` against the computer's board and copy
    /// the outcome into the human's view; report whether it was a hit.
    pub fn human_turn(&mut self, p: Point) -> (hit: bool)
        requires
            old(self).wf(),
            p.wf(),
        ensures
            final(self).wf(),
            hit == resolve_hit(old(self).computers_grid()[p.idx()]),
            final(self).computers_grid() == old(self).computers_grid().update(
                p.idx(),
                resolve_tile(old(self).computers_grid()[p.idx()]),
            ),
            final(self).spec_hits_on_computers_board() == old(self).spec_hits_on_computers_board()
                + resolve_delta(old(self).computers_grid()[p.idx()]),
            final(self).view_grid() == old(self).view_grid().update(
                p.idx(),
                view_tile(resolve_tile(old(self).computers_grid()[p.idx()])),
            ),
            final(self).your_grid() == old(self).your_grid(),
            final(self).spec_hits_on_your_board() == old(self).spec_hits_on_your_board(),
    {
        proof {
            lemma_resolve_counts(self.computers_grid(), p.idx());
        }
        let hit = guess(&mut self.computers_board, &mut self.hits_on_computers_board, p);
        changeview(&mut self.view, &self.computers_board, p);
        proof {
            lemma_view_stays_fogged(old(self).view_grid(), self.computers_grid()[p.idx()], p.idx());
        }
        hit
    }

    /// How many cells of the human's board no computer guess has resolved
    /// yet; while it is positive the computer can still move.
    pub fn unresolved_on_your_board(&self) -> (n: usize)
        requires
            self.wf(),
        ensures
            n == CELLS - resolved_cells(self.your_grid()),
    {
        proof {
            lemma_count_split(self.your_grid(), resolved_pred(), CELLS as int);
        }
        let mut i: usize = 0;
        let mut c: usize = 0;
        while i < CELLS
            invariant
                self.wf(),
                i <= CELLS,
                c == i - count_before(self.your_grid(), resolved_pred(), i as int),
                c <= i,
            decreases CELLS - i,
        {
            proof {
                lemma_count_le(self.your_grid(), resolved_pred(), i as int);
            }
            let p = Point { row: i / SIZE, col: i % SIZE };
            let t = self.your_board.at(p);
            if !(t.is_hit() || t == TileKind::Miss) {
                c = c + 1;
            }
            i = i + 1;
        }
        c
    }

    /// The cell the computer guesses next, drawn uniformly from the cells of
    /// the human's board it has never guessed: the `k`-th unresolved cell in
    /// row-major order for a uniformly random `k`. Across a game the computer
    /// therefore never guesses the same cell twice.
    pub fn pick_unresolved(&self, k: usize) -> (p: Point)
        requires
            self.wf(),
            k < CELLS - resolved_cells(self.your_grid()),
        ensures
            p.wf(),
            !self.your_grid()[p.idx()].spec_is_resolved(),
            p.idx() - count_before(self.your_grid(), resolved_pred(), p.idx()) == k,
    {
        proof {
            lemma_count_split(self.your_grid(), resolved_pred(), CELLS as int);
        }
        let mut i: usize = 0;
        let mut c: usize = 0;
        while i < CELLS
            invariant
                self.wf(),
                i <= CELLS,
                c == i - count_before(self.your_grid(), resolved_pred(), i as int),
                c <= k,
                k < CELLS - resolved_cells(self.your_grid()),
            decreases CELLS - i,
        {
            proof {
                lemma_count_le(self.your_grid(), resolved_pred(), i as int);
            }
            let p = Point { row: i / SIZE, col: i % SIZE };
            let t = self.your_board.at(p);
            if !(t.is_hit() || t == TileKind::Miss) {
                if c == k {
                    return p;
                }
                c = c + 1;
            }
            i = i + 1;
        }
        // never reached: the k-th unresolved cell lies within the grid
        proof {
            assert(false);
        }
        Point { row: 0, col: 0 }
    }

    /// Pick a never-guessed cell of the human's board uniformly at random and
    /// resolve the computer's guess there. The chosen cell was unresolved, so
    /// each computer turn resolves exactly one further cell.
    pub fn computer_turn(&mut self, rng: &mut rand::rngs::ThreadRng) -> (p: Point)
        requires
            old(self).wf(),
            resolved_cells(old(self).your_grid()) < CELLS,
        ensures
            final(self).wf(),
            p.wf(),
            !old(self).your_grid()[p.idx()].spec_is_resolved(),
            final(self).your_grid() == old(self).your_grid().update(
                p.idx(),
                resolve_tile(old(self).your_grid()[p.idx()]),
            ),
            final(self).spec_hits_on_your_board() == old(self).spec_hits_on_your_board()
                + resolve_delta(old(self).your_grid()[p.idx()]),
            resolved_cells(final(self).your_grid()) == resolved_cells(old(self).your_grid()) + 1,
            final(self).computers_grid() == old(self).computers_grid(),
            final(self).view_grid() == old(self).view_grid(),
            final(self).spec_hits_on_computers_board() == old(
                self,
            ).spec_hits_on_computers_board(),
    {
        let unresolved = self.unresolved_on_your_board();
        let k = rand_below(rng, unresolved);
        let p = self.pick_unresolved(k);
        proof {
            lemma_resolve_counts(self.your_grid(), p.idx());
        }
        guess(&mut self.your_board, &mut self.hits_on_your_board, p);
        p
    }

    /// Hits the computer has landed on the human's board, for display and for
    /// the win check against the fixed total of 17.
    pub fn hits_on_your_board(&self) -> (n: u8)
        ensures
            n == self.spec_hits_on_your_board(),
    {
        self.hits_on_your_board
    }

    /// Hits the human has landed on the computer's board.
    pub fn hits_on_computers_board(&self) -> (n: u8)
        ensures
            n == self.spec_hits_on_computers_board(),
    {
        self.hits_on_computers_board
    }

    /// Player 1 (the human) wins once every ship cell of the computer's board
    /// is hit.
    pub fn human_wins(&self) -> (r: bool)
        requires
            self.wf(),
        ensures
            r == (self.spec_hits_on_computers_board() == SHIP_CELLS),
            r ==> ship_cells(self.computers_grid()) == 0,
    {
        self.hits_on_computers_board as usize == SHIP_CELLS
    }

    /// Player 2 (the computer) wins once every ship cell of the human's board
    /// is hit.
    pub fn computer_wins(&self) -> (r: bool)
        requires
            self.wf(),
        ensures
            r == (self.spec_hits_on_your_board() == SHIP_CELLS),
            r ==> ship_cells(self.your_grid()) == 0,
    {
        self.hits_on_your_board as usize == SHIP_CELLS
    }

    /// Borrow the human's own board, for rendering.
    pub fn your_board(&self) -> (b: &Board)
        ensures
            b.grid() == self.your_grid(),
    {
        &self.your_board
    }

    /// Borrow the computer's board, for the final reveal.
    pub fn computers_board(&self) -> (b: &Board)
        ensures
            b.grid() == self.computers_grid(),
    {
        &self.computers_board
    }

    /// Borrow the human's fog-of-war view of the computer's board.
    pub fn view(&self) -> (b: &Board)
        ensures
            b.grid() == self.view_grid(),
    {
        &self.view
    }
}

/// A game lasts at most 100 computer guesses: every computer turn resolves
/// exactly one further cell of the human's board, a board never holds more
/// than 100 resolved cells, and a hit counter reaching 17 ends the game
/// before the next guess.
pub proof fn lemma_turns_bounded(g: Seq<TileKind>)
    requires
        g.len() == CELLS,
    ensures
        resolved_cells(g) <= CELLS,
{
    lemma_count_le(g, resolved_pred(), CELLS as int);
}

} // verus!
