//! The 10x10 grid of tiles, coordinates into it, and counts of cell kinds.

use vstd::prelude::*;
use crate::tile::TileKind;

verus! {

/// Side length of the square grid.
pub const SIZE: usize = 10;

/// Total number of cells on a board.
pub const CELLS: usize = 100;

/// Total number of ship cells a fully populated board holds (5+4+3+3+2).
pub const SHIP_CELLS: usize = 17;

/// A coordinate pair. `row` maps to the letters a-j, `col` to the digits 0-9.
#[derive(Clone, Copy, Debug, PartialEq, Eq, Structural)]
pub struct Point {
    pub row: usize,
    pub col: usize,
}

impl Point {
    /// Both coordinates lie on the board.
    pub open spec fn wf(self) -> bool {
        self.row < SIZE && self.col < SIZE
    }

    /// Position of this coordinate in the row-major flattening of the grid.
    pub open spec fn idx(self) -> int {
        self.row * SIZE + self.col
    }
}

/// How many of the first `n` tiles of `g` satisfy `f`.
pub open spec fn count_before(g: Seq<TileKind>, f: spec_fn(TileKind) -> bool, n: int) -> nat
    decreases n,
{
    if n <= 0 {
        0
    } else {
        count_before(g, f, n - 1) + (if f(g[n - 1]) {
            1nat
        } else {
            0nat
        })
    }
}

pub open spec fn ship_pred() -> spec_fn(TileKind) -> bool {
    |t: TileKind| t.spec_is_ship()
}

pub open spec fn hit_pred() -> spec_fn(TileKind) -> bool {
    |t: TileKind| t.spec_is_hit()
}

pub open spec fn miss_pred() -> spec_fn(TileKind) -> bool {
    |t: TileKind| t == TileKind::Miss
}

pub open spec fn water_pred() -> spec_fn(TileKind) -> bool {
    |t: TileKind| t == TileKind::Water
}

pub open spec fn resolved_pred() -> spec_fn(TileKind) -> bool {
    |t: TileKind| t.spec_is_resolved()
}

pub open spec fn ship_cells(g: Seq<TileKind>) -> nat {
    count_before(g, ship_pred(), g.len() as int)
}

pub open spec fn hit_cells(g: Seq<TileKind>) -> nat {
    count_before(g, hit_pred(), g.len() as int)
}

pub open spec fn miss_cells(g: Seq<TileKind>) -> nat {
    count_before(g, miss_pred(), g.len() as int)
}

pub open spec fn water_cells(g: Seq<TileKind>) -> nat {
    count_before(g, water_pred(), g.len() as int)
}

/// Cells that some earlier guess has already resolved (hit or miss).
pub open spec fn resolved_cells(g: Seq<TileKind>) -> nat {
    count_before(g, resolved_pred(), g.len() as int)
}

/// A prefix holds no more matching tiles than its length.
pub proof fn lemma_count_le(g: Seq<TileKind>, f: spec_fn(TileKind) -> bool, n: int)
    requires
        0 <= n,
    ensures
        count_before(g, f, n) <= n,
    decreases n,
{
    if n > 0 {
        lemma_count_le(g, f, n - 1);
    }
}

/// How overwriting one tile changes a prefix count.
pub proof fn lemma_count_update(
    g: Seq<TileKind>,
    f: spec_fn(TileKind) -> bool,
    j: int,
    t: TileKind,
    n: int,
)
    requires
        0 <= j < g.len(),
        n <= g.len(),
    ensures
        count_before(g.update(j, t), f, n) as int == count_before(g, f, n) as int + (if j < n
            && f(t) {
            1int
        } else {
            0int
        }) - (if j < n && f(g[j]) {
            1int
        } else {
            0int
        }),
    decreases n,
{
    if n > 0 {
        lemma_count_update(g, f, j, t, n - 1);
    }
}

/// A prefix of tiles that all satisfy `f` counts as its full length.
pub proof fn lemma_count_uniform_true(g: Seq<TileKind>, f: spec_fn(TileKind) -> bool, n: int)
    requires
        0 <= n,
        forall|i: int| 0 <= i < n ==> f(#[trigger] g[i]),
    ensures
        count_before(g, f, n) == n,
    decreases n,
{
    if n > 0 {
        lemma_count_uniform_true(g, f, n - 1);
    }
}

/// A prefix of tiles none of which satisfies `f` counts as zero.
pub proof fn lemma_count_uniform_false(g: Seq<TileKind>, f: spec_fn(TileKind) -> bool, n: int)
    requires
        0 <= n,
        forall|i: int| 0 <= i < n ==> !f(#[trigger] g[i]),
    ensures
        count_before(g, f, n) == 0,
    decreases n,
{
    if n > 0 {
        lemma_count_uniform_false(g, f, n - 1);
    }
}

/// A prefix that counts zero matching tiles holds none.
pub proof fn lemma_count_zero(g: Seq<TileKind>, f: spec_fn(TileKind) -> bool, n: int)
    requires
        0 <= n,
        count_before(g, f, n) == 0,
    ensures
        forall|i: int| 0 <= i < n ==> !f(#[trigger] g[i]),
    decreases n,
{
    if n > 0 {
        lemma_count_zero(g, f, n - 1);
    }
}

/// Every cell is either resolved or unresolved, so the two counts split `n`.
pub proof fn lemma_count_split(g: Seq<TileKind>, f: spec_fn(TileKind) -> bool, n: int)
    requires
        0 <= n,
    ensures
        count_before(g, f, n) + count_before(g, (|t: TileKind| !f(t)), n) == n,
    decreases n,
{
    if n > 0 {
        lemma_count_split(g, f, n - 1);
    }
}

/// A player's 10x10 grid of tiles, stored in row-major order.
pub struct Board {
    cells: Vec<TileKind>,
}

impl Board {
    /// The tiles of the board, flattened row-major.
    pub closed spec fn grid(self) -> Seq<TileKind> {
        self.cells@
    }

    /// The board holds exactly one tile per cell.
    pub open spec fn wf(self) -> bool {
        self.grid().len() == CELLS
    }

    pub open spec fn spec_at(self, p: Point) -> TileKind {
        self.grid()[p.idx()]
    }

    /// A board with every cell untouched water.
    pub fn new_water() -> (b: Board)
        ensures
            b.wf(),
            forall|i: int| 0 <= i < CELLS ==> b.grid()[i] == TileKind::Water,
    {
        let mut cells: Vec<TileKind> = Vec::new();
        let mut i: usize = 0;
        while i < CELLS
            invariant
                i <= CELLS,
                cells@.len() == i,
                forall|j: int| 0 <= j < i ==> cells@[j] == TileKind::Water,
            decreases CELLS - i,
        {
            cells.push(TileKind::Water);
            i = i + 1;
        }
        Board { cells }
    }

    /// The tile at an in-range coordinate.
    pub fn at(&self, p: Point) -> (t: TileKind)
        requires
            self.wf(),
            p.wf(),
        ensures
            t == self.spec_at(p),
    {
        self.cells[p.row * SIZE + p.col]
    }

    /// Overwrite the tile at an in-range coordinate.
    pub fn set(&mut self, p: Point, t: TileKind)
        requires
            old(self).wf(),
            p.wf(),
        ensures
            final(self).grid() == old(self).grid().update(p.idx(), t),
            final(self).wf(),
    {
        self.cells[p.row * SIZE + p.col] = t;
    }
}

} // verus!
