use vstd::prelude::*;

verus! {

/// Board dimensions in cells.
///
/// The configuration surface hands these in as already-floored cell counts
/// (the loader floors any fractional configured dimensions before the core
/// sees them). A non-positive dimension is rejected at validation time.
#[derive(Debug, Clone, Copy, PartialEq, Eq, Structural)]
pub struct BoardConfig {
    pub height: usize,
    pub width: usize,
}

impl Default for BoardConfig {
    /// The default board is 10 by 10 cells.
    fn default() -> (c: BoardConfig)
        ensures
            c.height == 10,
            c.width == 10,
    {
        BoardConfig { height: 10, width: 10 }
    }
}

/// Full simulation configuration.
///
/// `tick_interval` is the generation cadence in milliseconds; a negative
/// value is invalid. `seed` is an optional deterministic initialization set:
/// the coordinates to mark alive when seeded initialization is chosen
/// instead of random initialization.
#[derive(Debug)]
pub struct LifeConfig {
    pub board: BoardConfig,
    pub seed: Vec<(usize, usize)>,
    pub tick_interval: i64,
}

impl Default for LifeConfig {
    /// Defaults: a 10 by 10 board, a one-second interval, an empty seed set.
    fn default() -> (c: LifeConfig)
        ensures
            c.board.height == 10,
            c.board.width == 10,
            c.tick_interval == 1000,
            c.seed@ =~= Seq::<(usize, usize)>::empty(),
    {
        LifeConfig { board: BoardConfig { height: 10, width: 10 }, seed: Vec::new(), tick_interval: 1000 }
    }
}

impl LifeConfig {
    /// A configuration is valid when both board dimensions are positive and
    /// the tick interval is non-negative.
    pub open spec fn valid(self) -> bool {
        &&& self.board.width >= 1
        &&& self.board.height >= 1
        &&& self.tick_interval >= 0
    }

    /// The board's cell count must be representable on this machine: the
    /// grid stores one cell per position.
    pub open spec fn board_fits(self) -> bool {
        self.board.width * self.board.height <= usize::MAX
    }

    pub fn validate(&self) -> (ok: bool)
        ensures
            ok == self.valid(),
    {
        self.board.width >= 1 && self.board.height >= 1 && self.tick_interval >= 0
    }
}

/// Errors of the simulation core.
///
/// `InvalidConfig` covers a non-positive board dimension, a negative tick
/// interval, and a board whose cell count the machine cannot represent.
/// The specification's internal-inconsistency condition (a snapshot whose
/// cardinality differs from the grid's, or a neighbor lookup outside the
/// constructed range) is ruled out statically by the grid and snapshot
/// contracts, so no variant exists for it.
#[derive(Debug, Clone, Copy, PartialEq, Eq, Structural)]
pub enum LifeError {
    InvalidConfig,
}

} // verus!
