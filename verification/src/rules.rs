use vstd::prelude::*;

use crate::grid::{lemma_index_of_position, lemma_position_of_index, Cell, Grid};
use crate::snapshot::{snapshot, Snapshot};

verus! {

/// How much one neighbor adds to the alive count.
pub open spec fn alive_contribution(alive: bool) -> int {
    if alive {
        1int
    } else {
        0int
    }
}

/// The survival/birth rule: a cell is alive in the next generation iff it
/// has exactly three alive neighbors, or exactly two alive neighbors and
/// is alive already; every other cell is dead.
pub open spec fn spec_next_alive(alive: bool, n: int) -> bool {
    n == 3 || (n == 2 && alive)
}

/// Computes the next alive/dead state from the current state and the
/// number of alive Moore-neighbors.
pub fn rule_next_alive(alive: bool, n: u32) -> (r: bool)
    ensures
        r == spec_next_alive(alive, n as int),
{
    n == 3 || (n == 2 && alive)
}

impl Snapshot {
    /// The number of alive Moore-neighbors of `(c, r)` recorded in this
    /// view: the eight surrounding positions, off-board ones dead.
    pub open spec fn spec_live_neighbors(self, c: int, r: int) -> int {
        alive_contribution(self.spec_alive(c - 1, r - 1)) + alive_contribution(
            self.spec_alive(c - 1, r),
        ) + alive_contribution(self.spec_alive(c - 1, r + 1)) + alive_contribution(
            self.spec_alive(c, r - 1),
        ) + alive_contribution(self.spec_alive(c, r + 1)) + alive_contribution(
            self.spec_alive(c + 1, r - 1),
        ) + alive_contribution(self.spec_alive(c + 1, r)) + alive_contribution(
            self.spec_alive(c + 1, r + 1),
        )
    }
}

impl Grid {
    /// The number of alive Moore-neighbors of `(c, r)` in the grid's
    /// current generation: the eight surrounding positions, off-board
    /// ones dead.
    pub open spec fn spec_live_neighbors(self, c: int, r: int) -> int {
        alive_contribution(self.spec_alive(c - 1, r - 1)) + alive_contribution(
            self.spec_alive(c - 1, r),
        ) + alive_contribution(self.spec_alive(c - 1, r + 1)) + alive_contribution(
            self.spec_alive(c, r - 1),
        ) + alive_contribution(self.spec_alive(c, r + 1)) + alive_contribution(
            self.spec_alive(c + 1, r - 1),
        ) + alive_contribution(self.spec_alive(c + 1, r)) + alive_contribution(
            self.spec_alive(c + 1, r + 1),
        )
    }

    /// The state the cell of `(c, r)` takes one generation later: the
    /// survival/birth rule applied to its current state and its alive
    /// neighbor count.
    pub open spec fn spec_step_alive(self, c: int, r: int) -> bool {
        spec_next_alive(self.spec_alive(c, r), self.spec_live_neighbors(c, r))
    }
}

/// Counts the alive Moore-neighbors of `(c, r)` against the snapshot.
pub fn live_neighbors(snap: &Snapshot, c: usize, r: usize) -> (n: u32)
    requires
        snap.wf(),
        c < snap.width,
        r < snap.height,
    ensures
        n == snap.spec_live_neighbors(c as int, r as int),
        n <= 8,
{
    let mut n: u32 = 0;
    if c > 0 && r > 0 && snap.probe(c - 1, r - 1) {
        n += 1;
    }
    if c > 0 && snap.probe(c - 1, r) {
        n += 1;
    }
    if c > 0 && snap.probe(c - 1, r + 1) {
        n += 1;
    }
    if r > 0 && snap.probe(c, r - 1) {
        n += 1;
    }
    if snap.probe(c, r + 1) {
        n += 1;
    }
    if c + 1 < snap.width && r > 0 && snap.probe(c + 1, r - 1) {
        n += 1;
    }
    if c + 1 < snap.width && snap.probe(c + 1, r) {
        n += 1;
    }
    if c + 1 < snap.width && snap.probe(c + 1, r + 1) {
        n += 1;
    }
    n
}

/// The rule evaluation for one cell against the snapshot: pure and total,
/// reading only the queried cell and the immutable view.
pub fn next_state(cell: &Cell, snap: &Snapshot) -> (b: bool)
    requires
        snap.wf(),
        cell.board_column < snap.width,
        cell.board_row < snap.height,
    ensures
        b == spec_next_alive(
            cell.is_alive,
            snap.spec_live_neighbors(cell.board_column as int, cell.board_row as int),
        ),
{
    let n = live_neighbors(snap, cell.board_column, cell.board_row);
    rule_next_alive(cell.is_alive, n)
}

/// One full generation advance: build the snapshot of the current
/// generation, then rewrite every cell's state from it by the
/// survival/birth rule. The snapshot phase completes before the first
/// write, so every neighbor count reflects the previous generation only,
/// whatever order the cells are visited in.
pub fn advance_generation(grid: &mut Grid)
    requires
        old(grid).wf(),
    ensures
        final(grid).wf(),
        final(grid).width == old(grid).width,
        final(grid).height == old(grid).height,
        final(grid).cells@.len() == old(grid).cells@.len(),
        forall|j: int| 0 <= j < final(grid).cells@.len()
            ==> (#[trigger] final(grid).cells@[j]).board_column
                == old(grid).cells@[j].board_column
                && final(grid).cells@[j].board_row == old(grid).cells@[j].board_row,
        forall|c: int, r: int| old(grid).in_bounds(c, r) ==> final(grid).spec_alive(c, r)
            == old(grid).spec_step_alive(c, r),
{
    let snap = snapshot(grid);
    let h = grid.height;
    let w = grid.width;
    let total = grid.cells.len();
    let mut k: usize = 0;
    while k < total
        invariant
            old(grid).wf(),
            w == old(grid).width,
            h == old(grid).height,
            grid.width == w,
            grid.height == h,
            grid.cells@.len() == total,
            total == old(grid).cells@.len(),
            snap.wf(),
            snap.width == w,
            snap.height == h,
            forall|x: int, y: int| snap.spec_alive(x, y) == old(grid).spec_alive(x, y),
            0 <= k <= total,
            forall|j: int| 0 <= j < total
                ==> (#[trigger] grid.cells@[j]).board_column == old(grid).cells@[j].board_column
                    && grid.cells@[j].board_row == old(grid).cells@[j].board_row,
            forall|j: int| k <= j < total ==> (#[trigger] grid.cells@[j]).is_alive == old(
                grid,
            ).cells@[j].is_alive,
            forall|j: int| 0 <= j < k ==> (#[trigger] grid.cells@[j]).is_alive == spec_next_alive(
                old(grid).cells@[j].is_alive,
                old(grid).spec_live_neighbors(j / (h as int), j % (h as int)),
            ),
        decreases total - k,
    {
        proof {
            lemma_position_of_index(w as int, h as int, k as int);
        }
        let c = grid.cells[k].board_column;
        let r = grid.cells[k].board_row;
        let n = live_neighbors(&snap, c, r);
        let was = grid.cells[k].is_alive;
        let next = rule_next_alive(was, n);
        grid.cells[k].is_alive = next;
        k += 1;
    }
    proof {
        assert forall|c: int, r: int| old(grid).in_bounds(c, r) implies grid.spec_alive(c, r)
            == old(grid).spec_step_alive(c, r) by {
            lemma_index_of_position(w as int, h as int, c, r);
        }
    }
}

/// Law: with no alive cell anywhere, no position has an alive neighbor,
/// so no birth happens — every position is dead in the next generation
/// too.
pub proof fn lemma_dead_board_stays_dead(g: Grid, c: int, r: int)
    requires
        forall|x: int, y: int| !g.spec_alive(x, y),
    ensures
        g.spec_live_neighbors(c, r) == 0,
        !g.spec_step_alive(c, r),
{
}

/// Law: a live cell whose eight Moore-neighbor positions are all dead or
/// off-board dies in the next generation.
pub proof fn lemma_isolated_cell_dies(g: Grid, c: int, r: int)
    requires
        forall|x: int, y: int| !(x == c && y == r) ==> !g.spec_alive(x, y),
    ensures
        g.spec_live_neighbors(c, r) == 0,
        !g.spec_step_alive(c, r),
{
}

/// Law (boundary policy): the corner cell of `(0, 0)` draws alive
/// contributions only from its three on-board Moore neighbors; the five
/// off-board positions never contribute, so its next state depends only
/// on `(0, 1)`, `(1, 0)` and `(1, 1)`.
pub proof fn lemma_corner_boundary(g: Grid)
    ensures
        g.spec_live_neighbors(0, 0) == alive_contribution(g.spec_alive(0, 1))
            + alive_contribution(g.spec_alive(1, 0)) + alive_contribution(g.spec_alive(1, 1)),
{
}

/// Law (still life): when the alive cells are exactly a two-by-two block
/// anchored at `(a, b)` that lies on the board, each live cell has
/// exactly three alive neighbors and survives, every other cell has at
/// most two alive neighbors and stays dead — the board is unchanged by
/// the step, and hence by every later generation.
pub proof fn lemma_block_still_life(g: Grid, a: int, b: int)
    requires
        forall|x: int, y: int| g.spec_alive(x, y) == (a <= x <= a + 1 && b <= y <= b + 1),
    ensures
        forall|c: int, r: int| (a <= c <= a + 1 && b <= r <= b + 1)
            ==> g.spec_live_neighbors(c, r) == 3,
        forall|c: int, r: int| !(a <= c <= a + 1 && b <= r <= b + 1)
            ==> g.spec_live_neighbors(c, r) <= 2,
        forall|c: int, r: int| g.spec_step_alive(c, r) == g.spec_alive(c, r),
{
    assert forall|c: int, r: int| g.spec_step_alive(c, r) == g.spec_alive(c, r) by {
        assert(g.spec_live_neighbors(c, r) == alive_contribution(g.spec_alive(c - 1, r - 1))
            + alive_contribution(g.spec_alive(c - 1, r)) + alive_contribution(
            g.spec_alive(c - 1, r + 1),
        ) + alive_contribution(g.spec_alive(c, r - 1)) + alive_contribution(
            g.spec_alive(c, r + 1),
        ) + alive_contribution(g.spec_alive(c + 1, r - 1)) + alive_contribution(
            g.spec_alive(c + 1, r),
        ) + alive_contribution(g.spec_alive(c + 1, r + 1)));
    }
    assert forall|c: int, r: int| (a <= c <= a + 1 && b <= r <= b + 1) implies
        g.spec_live_neighbors(c, r) == 3 by {
        assert(g.spec_alive(c, r));
    }
    assert forall|c: int, r: int| !(a <= c <= a + 1 && b <= r <= b + 1) implies
        g.spec_live_neighbors(c, r) <= 2 by {
        assert(!g.spec_alive(c, r));
    }
}

/// Law (determinism): the generation step is a pure function of the grid
/// state. Two grids of equal dimensions and pointwise equal alive state
/// step to pointwise equal alive state, so repeated runs from identical
/// initial state produce identical generation sequences.
pub proof fn lemma_step_deterministic(g1: Grid, g2: Grid)
    requires
        g1.width == g2.width,
        g1.height == g2.height,
        forall|x: int, y: int| g1.spec_alive(x, y) == g2.spec_alive(x, y),
    ensures
        forall|c: int, r: int| g1.spec_step_alive(c, r) == g2.spec_step_alive(c, r),
{
    assert forall|c: int, r: int| g1.spec_step_alive(c, r) == g2.spec_step_alive(c, r) by {
        assert(g1.spec_live_neighbors(c, r) == g2.spec_live_neighbors(c, r));
    }
}

/// The derived two-value display attribute: a pure projection of a
/// cell's alive state, reconstructible at any time; it carries no
/// independent state.
#[derive(Debug, Clone, Copy, PartialEq, Eq, Structural)]
pub enum CellColor {
    Black,
    White,
}

/// One color for alive cells (black), another for dead ones (white).
pub fn display_attribute(alive: bool) -> (color: CellColor)
    ensures
        color == (if alive {
            CellColor::Black
        } else {
            CellColor::White
        }),
{
    if alive {
        CellColor::Black
    } else {
        CellColor::White
    }
}

} // verus!
