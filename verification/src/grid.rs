use vstd::prelude::*;
use vstd::arithmetic::div_mod::{
    lemma_fundamental_div_mod, lemma_fundamental_div_mod_converse, lemma_mod_bound,
};

use crate::config::{LifeConfig, LifeError};
use crate::random::coin_flip;

verus! {

/// One grid position. The coordinates are assigned once at grid
/// construction and never change afterwards; `is_alive` is rewritten once
/// per generation.
#[derive(Debug, Clone, Copy, PartialEq, Eq, Structural)]
pub struct Cell {
    pub is_alive: bool,
    pub board_column: usize,
    pub board_row: usize,
}

impl Cell {
    pub fn new(column: usize, row: usize, is_alive: bool) -> (c: Cell)
        ensures
            c.board_column == column,
            c.board_row == row,
            c.is_alive == is_alive,
    {
        Cell { is_alive, board_column: column, board_row: row }
    }
}

/// Position-to-index facts for a `width` by `height` board stored in
/// column-major order: `(c, r)` maps to an index inside the cell vector,
/// and that index decodes back to `(c, r)`.
pub proof fn lemma_index_of_position(w: int, h: int, c: int, r: int)
    requires
        1 <= h,
        0 <= c < w,
        0 <= r < h,
    ensures
        0 <= c * h + r < w * h,
        (c * h + r) / h == c,
        (c * h + r) % h == r,
{
    assert(0 <= c * h + r < w * h) by (nonlinear_arith)
        requires
            1 <= h,
            0 <= c < w,
            0 <= r < h,
    ;
    lemma_fundamental_div_mod_converse(c * h + r, h, c, r);
}

/// Index-to-position facts: any index into the cell vector decodes to an
/// in-bounds position that maps back to it.
pub proof fn lemma_position_of_index(w: int, h: int, k: int)
    requires
        1 <= h,
        0 <= k < w * h,
    ensures
        0 <= k / h < w,
        0 <= k % h < h,
        (k / h) * h + (k % h) == k,
{
    lemma_mod_bound(k, h);
    lemma_fundamental_div_mod(k, h);
    assert(0 <= k / h < w) by (nonlinear_arith)
        requires
            1 <= h,
            0 <= k < w * h,
            k == h * (k / h) + (k % h),
            0 <= k % h < h,
    ;
    assert((k / h) * h == h * (k / h)) by (nonlinear_arith);
}

/// `w * h <= m` is exactly the check `w <= m / h` (for `h >= 1`), which an
/// implementation can make without overflowing.
proof fn lemma_fits_check(w: int, h: int, m: int)
    requires
        1 <= h,
        0 <= w,
        0 <= m,
    ensures
        (w <= m / h) <==> (w * h <= m),
{
    lemma_fundamental_div_mod(m, h);
    lemma_mod_bound(m, h);
    assert((w <= m / h) <==> (w * h <= m)) by (nonlinear_arith)
        requires
            1 <= h,
            0 <= w,
            m == h * (m / h) + m % h,
            0 <= m % h < h,
    ;
}

/// Whether the seed set names position `(c, r)`.
pub open spec fn seed_names(seed: Seq<(usize, usize)>, c: int, r: int) -> bool {
    exists|k: int| 0 <= k < seed.len() && seed[k].0 == c && seed[k].1 == r
}

/// Membership test against the configured seed set.
fn seed_lookup(seed: &Vec<(usize, usize)>, c: usize, r: usize) -> (b: bool)
    ensures
        b == seed_names(seed@, c as int, r as int),
{
    let n = seed.len();
    let mut k: usize = 0;
    while k < n
        invariant
            n == seed@.len(),
            0 <= k <= n,
            forall|j: int| 0 <= j < k ==> !((#[trigger] seed@[j]).0 == c && seed@[j].1 == r),
        decreases n - k,
    {
        let entry = seed[k];
        if entry.0 == c && entry.1 == r {
            assert(seed_names(seed@, c as int, r as int));
            return true;
        }
        k += 1;
    }
    false
}

/// The authoritative store of cell state: one `Cell` for every position of
/// a `width` by `height` board, in column-major order (the cell of column
/// `c` and row `r` sits at index `c * height + r`). Created once at
/// startup, never resized; mutated in place, one full pass per generation.
#[derive(Debug)]
pub struct Grid {
    pub width: usize,
    pub height: usize,
    pub cells: Vec<Cell>,
}

impl Grid {
    /// Well-formedness: a non-empty board, exactly one cell per position,
    /// each cell holding the coordinates its index encodes.
    pub open spec fn wf(self) -> bool {
        &&& self.width >= 1
        &&& self.height >= 1
        &&& self.cells@.len() == self.width * self.height
        &&& forall|k: int| 0 <= k < self.cells@.len()
                ==> (#[trigger] self.cells@[k]).board_column == k / (self.height as int)
                    && self.cells@[k].board_row == k % (self.height as int)
    }

    pub open spec fn in_bounds(self, c: int, r: int) -> bool {
        0 <= c < self.width && 0 <= r < self.height
    }

    /// Whether the cell of column `c` and row `r` is alive; positions off
    /// the board count as dead (hard boundary, no wraparound).
    pub open spec fn spec_alive(self, c: int, r: int) -> bool {
        self.in_bounds(c, r) && self.cells@[c * (self.height as int) + r].is_alive
    }

    /// Random initialization: one cell per position, each alive/dead drawn
    /// as an independent fair coin flip from the supplied random source.
    /// Fails with `InvalidConfig` exactly on an invalid configuration or a
    /// board too large for this machine.
    pub fn initialize_random(config: &LifeConfig, rng: &mut rand::rngs::StdRng) -> (g: Result<
        Grid,
        LifeError,
    >)
        ensures
            g is Ok <==> config.valid() && config.board_fits(),
            g matches Ok(grid) ==> {
                &&& grid.wf()
                &&& grid.width == config.board.width
                &&& grid.height == config.board.height
            },
    {
        if !config.validate() {
            return Err(LifeError::InvalidConfig);
        }
        let w = config.board.width;
        let h = config.board.height;
        proof {
            lemma_fits_check(w as int, h as int, usize::MAX as int);
        }
        if !(w <= usize::MAX / h) {
            return Err(LifeError::InvalidConfig);
        }
        let total: usize = w * h;
        let mut cells: Vec<Cell> = Vec::new();
        let mut k: usize = 0;
        while k < total
            invariant
                1 <= h,
                total == w * h,
                0 <= k <= total,
                cells@.len() == k,
                forall|j: int| 0 <= j < k
                    ==> (#[trigger] cells@[j]).board_column == j / (h as int)
                        && cells@[j].board_row == j % (h as int),
            decreases total - k,
        {
            proof {
                lemma_position_of_index(w as int, h as int, k as int);
            }
            let c = k / h;
            let r = k % h;
            let alive = coin_flip(rng);
            cells.push(Cell::new(c, r, alive));
            k += 1;
        }
        Ok(Grid { width: w, height: h, cells })
    }

    /// Seeded (deterministic) initialization: every position named by the
    /// configuration's seed set starts alive, every other position dead.
    /// Fails with `InvalidConfig` exactly on an invalid configuration or a
    /// board too large for this machine.
    pub fn initialize_seeded(config: &LifeConfig) -> (g: Result<Grid, LifeError>)
        ensures
            g is Ok <==> config.valid() && config.board_fits(),
            g matches Ok(grid) ==> {
                &&& grid.wf()
                &&& grid.width == config.board.width
                &&& grid.height == config.board.height
                &&& forall|c: int, r: int| grid.in_bounds(c, r)
                        ==> grid.spec_alive(c, r) == seed_names(config.seed@, c, r)
            },
    {
        if !config.validate() {
            return Err(LifeError::InvalidConfig);
        }
        let w = config.board.width;
        let h = config.board.height;
        proof {
            lemma_fits_check(w as int, h as int, usize::MAX as int);
        }
        if !(w <= usize::MAX / h) {
            return Err(LifeError::InvalidConfig);
        }
        let total: usize = w * h;
        let mut cells: Vec<Cell> = Vec::new();
        let mut k: usize = 0;
        while k < total
            invariant
                1 <= h,
                total == w * h,
                0 <= k <= total,
                cells@.len() == k,
                forall|j: int| 0 <= j < k
                    ==> (#[trigger] cells@[j]).board_column == j / (h as int)
                        && cells@[j].board_row == j % (h as int)
                        && cells@[j].is_alive == seed_names(
                        config.seed@,
                        j / (h as int),
                        j % (h as int),
                    ),
            decreases total - k,
        {
            proof {
                lemma_position_of_index(w as int, h as int, k as int);
            }
            let c = k / h;
            let r = k % h;
            let alive = seed_lookup(&config.seed, c, r);
            cells.push(Cell::new(c, r, alive));
            k += 1;
        }
        let grid = Grid { width: w, height: h, cells };
        proof {
            assert forall|c: int, r: int| grid.in_bounds(c, r) implies grid.spec_alive(c, r)
                == seed_names(config.seed@, c, r) by {
                lemma_index_of_position(w as int, h as int, c, r);
            }
        }
        Ok(grid)
    }

    /// Read-only export for a rendering collaborator: every cell's
    /// position and state, in grid order. Reflects only fully completed
    /// generations, since a generation advance finishes before control
    /// returns to any caller.
    pub fn read_view(&self) -> (v: Vec<(usize, usize, bool)>)
        ensures
            v@.len() == self.cells@.len(),
            forall|k: int| 0 <= k < v@.len() ==> #[trigger] v@[k] == (
                self.cells@[k].board_column,
                self.cells@[k].board_row,
                self.cells@[k].is_alive,
            ),
    {
        let total = self.cells.len();
        let mut v: Vec<(usize, usize, bool)> = Vec::new();
        let mut k: usize = 0;
        while k < total
            invariant
                total == self.cells@.len(),
                0 <= k <= total,
                v@.len() == k,
                forall|j: int| 0 <= j < k ==> #[trigger] v@[j] == (
                    self.cells@[j].board_column,
                    self.cells@[j].board_row,
                    self.cells@[j].is_alive,
                ),
            decreases total - k,
        {
            let cell = self.cells[k];
            v.push((cell.board_column, cell.board_row, cell.is_alive));
            k += 1;
        }
        v
    }

    /// Runtime well-formedness check: lets an unverified caller establish
    /// `wf` before driving the simulation, failing fast on an inconsistent
    /// grid rather than producing a wrong generation.
    pub fn is_well_formed(&self) -> (b: bool)
        ensures
            b == self.wf(),
    {
        if self.width < 1 || self.height < 1 {
            return false;
        }
        let w = self.width;
        let h = self.height;
        let len = self.cells.len();
        proof {
            lemma_fits_check(w as int, h as int, usize::MAX as int);
        }
        if !(w <= usize::MAX / h) {
            return false;
        }
        let total: usize = w * h;
        if len != total {
            return false;
        }
        let mut k: usize = 0;
        while k < total
            invariant
                1 <= h,
                total == w * h,
                w == self.width,
                h == self.height,
                self.cells@.len() == total,
                0 <= k <= total,
                forall|j: int| 0 <= j < k
                    ==> (#[trigger] self.cells@[j]).board_column == j / (h as int)
                        && self.cells@[j].board_row == j % (h as int),
            decreases total - k,
        {
            proof {
                lemma_position_of_index(w as int, h as int, k as int);
            }
            let cell = &self.cells[k];
            if cell.board_column != k / h || cell.board_row != k % h {
                return false;
            }
            k += 1;
        }
        true
    }
}

} // verus!
