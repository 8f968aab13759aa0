use vstd::prelude::*;

use crate::config::{LifeConfig, LifeError};
use crate::grid::Grid;
use crate::rules::advance_generation;

verus! {

/// The tick scheduler: accumulates elapsed milliseconds across
/// invocations and triggers exactly one generation advance per interval
/// crossing. Excess accumulated time beyond the interval is discarded,
/// not carried forward as further advances, so the cost of one call
/// stays bounded however long the external driver stalled.
#[derive(Debug, Clone, Copy, PartialEq, Eq, Structural)]
pub struct CellSystem {
    pub tick_interval: u64,
    pub accumulated: u64,
}

impl CellSystem {
    /// Whether a call handing in `delta` more milliseconds crosses the
    /// interval and advances a generation.
    pub open spec fn spec_should_advance(self, delta: u64) -> bool {
        self.accumulated + delta >= self.tick_interval
    }

    /// Builds a scheduler from a valid configuration, with the
    /// accumulator at zero; rejects an invalid one, since simulation
    /// startup is fatal on bad configuration.
    pub fn new(config: &LifeConfig) -> (s: Result<CellSystem, LifeError>)
        ensures
            s is Ok <==> config.valid(),
            s matches Ok(sys) ==> sys.tick_interval == config.tick_interval as u64
                && sys.accumulated == 0,
    {
        if config.validate() {
            Ok(CellSystem { tick_interval: config.tick_interval as u64, accumulated: 0 })
        } else {
            Err(LifeError::InvalidConfig)
        }
    }

    /// One scheduler invocation: add `delta` elapsed milliseconds to the
    /// accumulator; while the sum stays below the interval nothing else
    /// happens, and the first call whose sum reaches the interval resets
    /// the accumulator to zero and advances exactly one generation.
    pub fn tick(&mut self, grid: &mut Grid, delta: u64) -> (advanced: bool)
        requires
            old(grid).wf(),
        ensures
            final(grid).wf(),
            final(self).tick_interval == old(self).tick_interval,
            advanced == old(self).spec_should_advance(delta),
            !advanced ==> final(self).accumulated == old(self).accumulated + delta && *final(grid)
                == *old(grid),
            advanced ==> {
                &&& final(self).accumulated == 0
                &&& final(grid).width == old(grid).width
                &&& final(grid).height == old(grid).height
                &&& final(grid).cells@.len() == old(grid).cells@.len()
                &&& forall|c: int, r: int| old(grid).in_bounds(c, r)
                        ==> final(grid).spec_alive(c, r) == old(grid).spec_step_alive(c, r)
            },
    {
        if delta < self.tick_interval && self.accumulated < self.tick_interval - delta {
            self.accumulated = self.accumulated + delta;
            false
        } else {
            self.accumulated = 0;
            advance_generation(grid);
            true
        }
    }
}

} // verus!
