//! What holds of the engine as a whole, stated over the model and proved.

use crate::engine::EngineState;
use crate::rule::RuleSpec;
use crate::torus::{lemma_flat, wrap, Torus};
use vstd::arithmetic::div_mod::{lemma_mod_bound, lemma_mod_multiples_vanish};
use vstd::prelude::*;

verus! {

/// The grid tiles the plane: every coordinate names a cell of the grid, and
/// moving by whole heights and widths arrives at the same cell. The
/// neighbours of a cell on an edge are therefore the cells across that edge,
/// and its live neighbours are counted as on an unbounded plane that repeats
/// the grid.
pub proof fn law_grid_tiles_the_plane(grid: Torus, row: int, col: int, i: int, j: int)
    requires
        grid.wf(),
    ensures
        0 <= grid.index(row, col) < grid.size(),
        grid.index(row + i * grid.height, col + j * grid.width) == grid.index(row, col),
        grid.at(row + i * grid.height, col + j * grid.width) == grid.at(row, col),
        grid.neighbors(row + i * grid.height, col + j * grid.width) == grid.neighbors(row, col),
{
    let h = grid.height;
    let w = grid.width;
    assert(i * h == h * i && j * w == w * j) by (nonlinear_arith);
    lemma_mod_multiples_vanish(i, row - 1, h);
    lemma_mod_multiples_vanish(i, row, h);
    lemma_mod_multiples_vanish(i, row + 1, h);
    lemma_mod_multiples_vanish(j, col - 1, w);
    lemma_mod_multiples_vanish(j, col, w);
    lemma_mod_multiples_vanish(j, col + 1, w);
    lemma_mod_bound(row, h);
    lemma_mod_bound(col, w);
    lemma_flat(wrap(row, h), wrap(col, w), w, h);
}

/// Dirty marks are sound: a cell whose value differs between two consecutive
/// generations was marked when the generation began.
pub proof fn law_changed_cells_were_dirty(state: EngineState, rule: RuleSpec)
    requires
        state.wf(),
    ensures
        forall|i: int|
            0 <= i < state.grid.cells.len() && state.tick(rule).grid.cells[i]
                != state.grid.cells[i] ==> state.dirty.cells[i],
{
}

/// Tracking changes cost, never outcomes: for any rule and any initial
/// cells, `n` generations of the dirty-tracking engine give the same cells
/// as `n` generations that evaluate every cell.
pub proof fn law_full_scan_equivalence(grid: Torus, rule: RuleSpec, n: nat)
    requires
        grid.wf(),
    ensures
        EngineState::start(grid).run(rule, n).grid == grid.run(rule, n),
{
    EngineState::start(grid).lemma_run_is_full_scan(rule, n);
}

/// Toggling a cell twice restores the cells. The marks of the first toggle
/// stay, and the second toggle adds none.
pub proof fn law_toggle_twice(grid: Torus, dirty: Torus, row: int, col: int)
    requires
        grid.wf(),
        dirty.wf(),
    ensures
        grid.toggled(row, col).toggled(row, col) == grid,
        dirty.marked(row, col).marked(row, col) == dirty.marked(row, col),
{
    grid.lemma_coords();
    grid.lemma_periodic(row, col);
    let r = wrap(row, grid.height);
    let c = wrap(col, grid.width);
    lemma_flat(r, c, grid.width, grid.height);
    assert(grid.toggled(row, col).toggled(row, col).cells =~= grid.cells);
    assert(dirty.marked(row, col).marked(row, col).cells =~= dirty.marked(row, col).cells);
}

} // verus!
