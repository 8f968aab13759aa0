use vstd::prelude::*;

use crate::grid::{lemma_index_of_position, Grid};

verus! {

/// An immutable alive/dead view of one generation, in the grid's own
/// column-major order. It is rebuilt fresh for each generation, used as
/// the sole read basis of rule evaluation, and discarded afterwards.
#[derive(Debug)]
pub struct Snapshot {
    pub width: usize,
    pub height: usize,
    pub alive: Vec<bool>,
}

impl Snapshot {
    /// Well-formedness: a non-empty board and exactly one recorded state
    /// per position.
    pub open spec fn wf(self) -> bool {
        &&& self.width >= 1
        &&& self.height >= 1
        &&& self.alive@.len() == self.width * self.height
    }

    pub open spec fn in_bounds(self, c: int, r: int) -> bool {
        0 <= c < self.width && 0 <= r < self.height
    }

    /// Whether the recorded state of column `c`, row `r` is alive;
    /// positions off the board count as dead (hard boundary).
    pub open spec fn spec_alive(self, c: int, r: int) -> bool {
        self.in_bounds(c, r) && self.alive@[c * (self.height as int) + r]
    }

    /// Total lookup: the recorded state at `(c, r)`, dead off the board.
    pub fn probe(&self, c: usize, r: usize) -> (b: bool)
        requires
            self.wf(),
        ensures
            b == self.spec_alive(c as int, r as int),
    {
        if c < self.width && r < self.height {
            proof {
                vstd::std_specs::vec::axiom_spec_len(&self.alive);
                lemma_index_of_position(self.width as int, self.height as int, c as int, r as int);
            }
            self.alive[c * self.height + r]
        } else {
            false
        }
    }
}

/// Builds the immutable view of the grid's current generation, reading
/// every cell's state exactly once. The build completes in full before
/// any rule-engine write of that generation begins, so neighbor counts
/// reflect the previous generation only. The view's cardinality equals
/// the grid's by construction.
pub fn snapshot(grid: &Grid) -> (s: Snapshot)
    requires
        grid.wf(),
    ensures
        s.wf(),
        s.width == grid.width,
        s.height == grid.height,
        s.alive@.len() == grid.cells@.len(),
        forall|c: int, r: int| s.spec_alive(c, r) == grid.spec_alive(c, r),
{
    let total = grid.cells.len();
    let mut alive: Vec<bool> = Vec::new();
    let mut k: usize = 0;
    while k < total
        invariant
            total == grid.cells@.len(),
            0 <= k <= total,
            alive@.len() == k,
            forall|j: int| 0 <= j < k ==> #[trigger] alive@[j] == grid.cells@[j].is_alive,
        decreases total - k,
    {
        let a = grid.cells[k].is_alive;
        alive.push(a);
        k += 1;
    }
    let s = Snapshot { width: grid.width, height: grid.height, alive };
    proof {
        assert forall|c: int, r: int| s.spec_alive(c, r) == grid.spec_alive(c, r) by {
            if 0 <= c < s.width && 0 <= r < s.height {
                lemma_index_of_position(s.width as int, s.height as int, c, r);
            }
        }
    }
    s
}

} // verus!
