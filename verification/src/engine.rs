//! The stepping algorithm as a function on states.
//!
//! The engine keeps two maps: the cells, and the marks of the cells that the
//! next generation has to evaluate. One generation evaluates the marked cells
//! against the old cells, and marks the neighbourhood of every cell that
//! changed.

use crate::rule::RuleSpec;
use crate::torus::Torus;
use vstd::prelude::*;

verus! {

/// What the dirty-tracking engine carries from one generation to the next:
/// the cells, and the marks of the cells that are due for evaluation.
pub struct EngineState {
    pub grid: Torus,
    pub dirty: Torus,
}

impl EngineState {
    /// Cells and marks have the same, valid shape.
    pub open spec fn wf(self) -> bool {
        self.grid.wf() && self.dirty.wf() && self.grid.same_shape(self.dirty)
    }

    /// The state of a fresh universe: the given cells, all of them marked.
    pub open spec fn start(grid: Torus) -> EngineState {
        EngineState { grid, dirty: Torus::filled(grid.width, grid.height, true) }
    }

    /// One generation of the engine: the marked cells are evaluated, and the
    /// new marks are the neighbourhoods of the cells that changed.
    pub open spec fn tick(self, rule: RuleSpec) -> EngineState {
        let next = self.grid.step_where(rule, self.dirty);
        EngineState { grid: next, dirty: self.grid.diff(next).halo() }
    }

    /// The state after `n` generations of the engine.
    pub open spec fn run(self, rule: RuleSpec, n: nat) -> EngineState
        decreases n,
    {
        if n == 0 {
            self
        } else {
            self.tick(rule).run(rule, (n - 1) as nat)
        }
    }

    /// A generation keeps the shape, and keeps every cell that the rule could
    /// change among the marked ones.
    pub proof fn lemma_tick_keeps_settled(self, rule: RuleSpec)
        requires
            self.wf(),
            self.grid.settled(rule, self.dirty),
        ensures
            self.tick(rule).wf(),
            self.tick(rule).grid.settled(rule, self.tick(rule).dirty),
            self.tick(rule).grid == self.grid.step(rule),
    {
        self.grid.lemma_step_settled(rule, self.dirty);
        self.grid.lemma_step_where_is_step(rule, self.dirty);
    }

    /// From a state in which every unmarked cell is stable, the engine and a
    /// full scan of every cell agree after any number of generations.
    pub proof fn lemma_run_is_full_scan(self, rule: RuleSpec, n: nat)
        requires
            self.wf(),
            self.grid.settled(rule, self.dirty),
        ensures
            self.run(rule, n).grid == self.grid.run(rule, n),
        decreases n,
    {
        if n > 0 {
            self.lemma_tick_keeps_settled(rule);
            self.tick(rule).lemma_run_is_full_scan(rule, (n - 1) as nat);
        }
    }
}

} // verus!
