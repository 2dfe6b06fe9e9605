//! The universe: a toroidal grid of cells, the rule that drives it, and the
//! stepping algorithm.
//!
//! A generation evaluates only the cells that are marked dirty. The marks are
//! kept so that every cell the rule could change is among them, which makes
//! the result the same as that of evaluating every cell.

use crate::bitset::{bits, block_bit};
use crate::dirty::DirtyTracker;
use crate::engine::EngineState;
use crate::pattern::PositionSet;
use crate::rule::{Rule, RuleInBitSet, RuleSpec};
use crate::torus::{after, before, flat, flat_index, wrapped, Torus};
use fixedbitset::FixedBitSet;
use vstd::prelude::*;

verus! {

/// Why an operation on a universe was refused.
#[derive(Debug, Clone, Copy, PartialEq, Eq, Structural)]
pub enum UniverseError {
    /// A coordinate lies outside the grid.
    InvalidCoordinate,
}

/// A grid of cells with wrap-around edges, advanced one generation at a time.
pub struct Universe {
    rule: RuleInBitSet,
    width: u32,
    height: u32,
    cells: FixedBitSet,
    next_cells_to_be_updated: DirtyTracker,
}

impl View for Universe {
    type V = Torus;

    /// The cells: a set bit is a live cell.
    closed spec fn view(&self) -> Torus {
        Torus { width: self.width as int, height: self.height as int, cells: bits(self.cells) }
    }
}

impl Universe {
    /// The cells that the next generation will evaluate.
    pub closed spec fn dirty(&self) -> Torus {
        self.next_cells_to_be_updated@
    }

    /// The rule that drives the universe.
    pub closed spec fn rule(&self) -> RuleSpec {
        self.rule@
    }

    /// What the engine works on: the cells and the dirty marks.
    pub open spec fn state(&self) -> EngineState {
        EngineState { grid: self@, dirty: self.dirty() }
    }

    /// The parts fit together: positive dimensions, one cell and one dirty
    /// mark per place, and a buffer that a `usize` can address.
    pub closed spec fn shaped(&self) -> bool {
        &&& self@.wf()
        &&& self@.size() <= usize::MAX
        &&& self.next_cells_to_be_updated.wf()
        &&& self@.same_shape(self.dirty())
        &&& self.rule.wf()
    }

    /// The universe is consistent: its parts fit together, and every cell
    /// that the rule would change is marked dirty.
    pub closed spec fn wf(&self) -> bool {
        self.shaped() && self@.settled(self.rule(), self.dirty())
    }

    /// What consistency means in terms of the cells, the marks and the rule.
    pub proof fn lemma_wf(&self)
        requires
            self.wf(),
        ensures
            self@.wf(),
            self@.size() <= usize::MAX,
            self.dirty().wf(),
            self@.same_shape(self.dirty()),
            self.rule().wf(),
            self@.settled(self.rule(), self.dirty()),
    {
        self.rule.lemma_counts_only();
    }

    /// Where the cell `(row, column)` is stored.
    fn get_index(&self, row: u32, column: u32) -> (index: usize)
        requires
            self.shaped(),
            row < self.height,
            column < self.width,
        ensures
            index == flat(row as int, column as int, self.width as int),
            index == self@.index(row as int, column as int),
            index < self@.size(),
    {
        proof {
            self@.lemma_coords();
        }
        flat_index(row, column, self.width, self.height)
    }

    /// Whether a cell inside the grid is alive.
    fn alive_at(&self, row: u32, column: u32) -> (alive: bool)
        requires
            self.shaped(),
            row < self.height,
            column < self.width,
        ensures
            alive == self@.cells[flat(row as int, column as int, self.width as int)],
    {
        let index: usize = self.get_index(row, column);
        self.cells.contains(index)
    }

    /// The number of live neighbours of a cell inside the grid. Nothing is
    /// allocated: the eight cells are read one by one.
    fn neighbor_count_at(&self, row: u32, column: u32) -> (count: u8)
        requires
            self.shaped(),
            row < self.height,
            column < self.width,
        ensures
            count == self@.neighbors(row as int, column as int),
            count <= 8,
    {
        let north: u32 = before(row, self.height);
        let south: u32 = after(row, self.height);
        let west: u32 = before(column, self.width);
        let east: u32 = after(column, self.width);
        proof {
            self@.lemma_coords();
        }
        let mut count: u8 = 0;
        if self.alive_at(north, west) {
            count += 1;
        }
        if self.alive_at(north, column) {
            count += 1;
        }
        if self.alive_at(north, east) {
            count += 1;
        }
        if self.alive_at(row, west) {
            count += 1;
        }
        if self.alive_at(row, east) {
            count += 1;
        }
        if self.alive_at(south, west) {
            count += 1;
        }
        if self.alive_at(south, column) {
            count += 1;
        }
        if self.alive_at(south, east) {
            count += 1;
        }
        count
    }

    /// Whether the cell `(row, column)` is alive. Coordinates wrap around.
    pub fn get(&self, row: u32, column: u32) -> (alive: bool)
        requires
            self.wf(),
        ensures
            alive == self@.at(row as int, column as int),
    {
        let r: u32 = wrapped(row, self.height);
        let c: u32 = wrapped(column, self.width);
        self.alive_at(r, c)
    }

    /// Whether the cell `(row, column)` is due for evaluation in the next
    /// generation. Coordinates wrap around.
    pub fn is_dirty(&self, row: u32, column: u32) -> (dirty: bool)
        requires
            self.wf(),
        ensures
            dirty == self.dirty().at(row as int, column as int),
    {
        self.next_cells_to_be_updated.is_dirty(row, column)
    }

    /// The number of live cells among the eight neighbours of
    /// `(row, column)`, counted across the edges as if the grid tiled the
    /// plane.
    pub fn live_neighbor_count(&self, row: u32, column: u32) -> (count: u8)
        requires
            self.wf(),
        ensures
            count == self@.neighbors(row as int, column as int),
            count <= 8,
    {
        proof {
            self@.lemma_periodic(row as int, column as int);
        }
        let r: u32 = wrapped(row, self.height);
        let c: u32 = wrapped(column, self.width);
        self.neighbor_count_at(r, c)
    }

    /// The cells as a bit set, in row-major order.
    pub fn get_cells(&self) -> (cells: &FixedBitSet)
        ensures
            bits(*cells) == self@.cells,
    {
        &self.cells
    }

    /// The cells packed into 32-bit blocks, in row-major order: the cell
    /// stored at `i` is bit `i % 32` of block `i / 32`.
    pub fn cells(&self) -> (blocks: &[u32])
        ensures
            blocks@.len() == (self@.cells.len() + 31) / 32,
            forall|i: int|
                0 <= i < self@.cells.len() ==> #[trigger] self@.cells[i] == block_bit(blocks@, i),
    {
        self.cells.as_slice()
    }

    /// The number of columns.
    pub fn width(&self) -> (width: u32)
        ensures
            width == self@.width,
    {
        self.width
    }

    /// The number of rows.
    pub fn height(&self) -> (height: u32)
        ensures
            height == self@.height,
    {
        self.height
    }

    /// A universe of `width` by `height` cells in which exactly the cells of
    /// `initial` are alive and every cell is due for evaluation. Fails, and
    /// builds nothing, if a cell of `initial` lies outside the grid.
    pub fn new(width: u32, height: u32, rule: Rule, initial: PositionSet) -> (made: Result<
        Universe,
        UniverseError,
    >)
        requires
            width > 0,
            height > 0,
            width * height <= usize::MAX,
        ensures
            made is Ok <==> Torus::filled(width as int, height as int, false).holds(initial@),
            made matches Ok(universe) ==> {
                &&& universe.wf()
                &&& universe@ == Torus::filled(width as int, height as int, false).raised(
                    initial@,
                )
                &&& universe.state() == EngineState::start(universe@)
                &&& universe.rule() == rule@
            },
            made matches Err(error) ==> error == UniverseError::InvalidCoordinate,
    {
        let positions = initial.positions();
        if !all_inside(positions.as_slice(), width, height) {
            return Err(UniverseError::InvalidCoordinate);
        }
        let size: usize = width as usize * height as usize;
        let mut cells = FixedBitSet::with_capacity(size);
        let ghost blank = Torus::filled(width as int, height as int, false);
        let mut k: usize = 0;
        while k < positions.len()
            invariant
                k <= positions.len(),
                width > 0,
                height > 0,
                width * height <= usize::MAX,
                blank == Torus::filled(width as int, height as int, false),
                blank.holds(positions@),
                bits(cells) == blank.raised(positions@.take(k as int)).cells,
            decreases positions.len() - k,
        {
            let (row, column) = positions[k];
            let index: usize = flat_index(row, column, width, height);
            cells.set(index, true);
            proof {
                let seen = positions@.take(k as int);
                blank.lemma_coords();
                blank.lemma_raised_push(seen, positions@[k as int]);
                assert(seen.push(positions@[k as int]) =~= positions@.take(k + 1));
            }
            k += 1;
        }
        assert(positions@.take(k as int) =~= positions@);
        let universe = Universe {
            rule: rule.to_bit_set(),
            width,
            height,
            cells,
            next_cells_to_be_updated: DirtyTracker::new(width, height),
        };
        assert(universe@ =~= blank.raised(initial@));
        Ok(universe)
    }

    /// Flips the cell `(row, column)` and marks it and its eight neighbours
    /// for evaluation. Fails, and changes nothing, if the cell lies outside
    /// the grid.
    pub fn toggle_cell(&mut self, row: u32, column: u32) -> (done: Result<(), UniverseError>)
        requires
            old(self).wf(),
        ensures
            final(self).wf(),
            final(self).rule() == old(self).rule(),
            done is Ok <==> row < old(self)@.height && column < old(self)@.width,
            done is Ok ==> {
                &&& final(self)@ == old(self)@.toggled(row as int, column as int)
                &&& final(self).dirty() == old(self).dirty().marked(row as int, column as int)
            },
            done matches Err(error) ==> {
                &&& error == UniverseError::InvalidCoordinate
                &&& *final(self) == *old(self)
            },
    {
        if row >= self.height || column >= self.width {
            return Err(UniverseError::InvalidCoordinate);
        }
        let index: usize = self.get_index(row, column);
        let alive: bool = self.cells.contains(index);
        proof {
            self@.lemma_edit_settled(self.rule(), self.dirty(), row as int, column as int, !alive);
        }
        self.cells.set(index, !alive);
        self.next_cells_to_be_updated.mark_neighborhood(row, column);
        assert(self@ =~= old(self)@.with(row as int, column as int, !alive));
        Ok(())
    }

    /// Brings every listed cell to life and marks it and its eight neighbours
    /// for evaluation. Fails, and changes nothing, if a listed cell lies
    /// outside the grid.
    pub fn turn_cells_alive(&mut self, cells: &[(u32, u32)]) -> (done: Result<(), UniverseError>)
        requires
            old(self).wf(),
        ensures
            final(self).wf(),
            final(self).rule() == old(self).rule(),
            done is Ok <==> old(self)@.holds(cells@),
            done is Ok ==> {
                &&& final(self)@ == old(self)@.raised(cells@)
                &&& final(self).dirty() == old(self).dirty().marked_each(cells@)
            },
            done matches Err(error) ==> {
                &&& error == UniverseError::InvalidCoordinate
                &&& *final(self) == *old(self)
            },
    {
        if !all_inside(cells, self.width, self.height) {
            return Err(UniverseError::InvalidCoordinate);
        }
        let ghost grid = self@;
        let ghost marks = self.dirty();
        assert(self@ =~= grid.raised(cells@.take(0)));
        assert(self.dirty() =~= marks.marked_each(cells@.take(0)));
        let mut k: usize = 0;
        while k < cells.len()
            invariant
                k <= cells.len(),
                self.wf(),
                self.rule() == old(self).rule(),
                grid == old(self)@,
                marks == old(self).dirty(),
                grid.wf(),
                marks.wf(),
                grid.holds(cells@),
                self@ == grid.raised(cells@.take(k as int)),
                self.dirty() == marks.marked_each(cells@.take(k as int)),
            decreases cells.len() - k,
        {
            let (row, column) = cells[k];
            let index: usize = self.get_index(row, column);
            proof {
                let seen = cells@.take(k as int);
                self@.lemma_edit_settled(
                    self.rule(),
                    self.dirty(),
                    row as int,
                    column as int,
                    true,
                );
                grid.lemma_raised_push(seen, cells@[k as int]);
                marks.lemma_marked_each_push(seen, cells@[k as int]);
                assert(seen.push(cells@[k as int]) =~= cells@.take(k + 1));
            }
            self.cells.set(index, true);
            self.next_cells_to_be_updated.mark_neighborhood(row, column);
            assert(self@ =~= grid.raised(cells@.take(k as int)).with(
                row as int,
                column as int,
                true,
            ));
            k += 1;
        }
        assert(cells@.take(k as int) =~= cells@);
        Ok(())
    }

    /// Advances the universe by one generation.
    ///
    /// Only the cells marked dirty are evaluated; each is read from the old
    /// generation and written to a separate buffer, which replaces the cells
    /// at the end. Every cell that changes marks itself and its eight
    /// neighbours for the generation after.
    pub fn tick(&mut self)
        requires
            old(self).wf(),
        ensures
            final(self).wf(),
            final(self).rule() == old(self).rule(),
            final(self).state() == old(self).state().tick(old(self).rule()),
            final(self)@ == old(self)@.step(old(self).rule()),
            forall|i: int|
                0 <= i < old(self)@.cells.len() && final(self)@.cells[i] != old(self)@.cells[i]
                    ==> old(self).dirty().cells[i],
    {
        let ghost grid = self@;
        let ghost rule = self.rule();
        let ghost marks = self.dirty();
        let mut next = self.cells.clone();
        let current = self.next_cells_to_be_updated.take_and_clear();
        let ghost mut done: int = 0;
        proof {
            assert(grid.step_before(rule, marks, 0) =~= grid);
            grid.flipped_before(rule, marks, 0).lemma_empty_halo();
            assert(grid.flipped_before(rule, marks, 0) =~= self.dirty());
        }
        let mut row: u32 = 0;
        while row < self.height
            invariant
                row <= self.height,
                done == row * self.width,
                self.shaped(),
                self@ == grid,
                self.rule() == rule,
                grid.wf(),
                current.wf(),
                current@ == marks,
                grid.same_shape(marks),
                bits(next) == grid.step_before(rule, marks, done).cells,
                self.dirty() == grid.flipped_before(rule, marks, done).halo(),
            decreases self.height - row,
        {
            let mut col: u32 = 0;
            while col < self.width
                invariant
                    row < self.height,
                    col <= self.width,
                    done == row * self.width + col,
                    self.shaped(),
                    self@ == grid,
                    self.rule() == rule,
                    grid.wf(),
                    current.wf(),
                    current@ == marks,
                    grid.same_shape(marks),
                    bits(next) == grid.step_before(rule, marks, done).cells,
                    self.dirty() == grid.flipped_before(rule, marks, done).halo(),
                decreases self.width - col,
            {
                let idx: usize = self.get_index(row, col);
                proof {
                    grid.lemma_advance(rule, marks, row as int, col as int);
                }
                // A clean cell keeps its value.
                if current.is_dirty_at(idx) {
                    let cell: bool = self.cells.contains(idx);
                    let n: u8 = self.neighbor_count_at(row, col);
                    // Birth.
                    if !cell && self.rule.is_birth(n) {
                        next.set(idx, true);
                        self.next_cells_to_be_updated.mark_neighborhood(row, col);
                    }
                    // Death.
                    if cell && !self.rule.is_survival(n) {
                        next.set(idx, false);
                        self.next_cells_to_be_updated.mark_neighborhood(row, col);
                    }
                }
                proof {
                    done = done + 1;
                }
                col += 1;
            }
            proof {
                assert((row + 1) * self.width == row * self.width + self.width)
                    by (nonlinear_arith);
            }
            row += 1;
        }
        self.cells = next;
        proof {
            assert(self.height * self.width == self.width * self.height) by (nonlinear_arith);
            assert(self@ =~= grid.step_where(rule, marks));
            assert(grid.flipped_before(rule, marks, done) =~= grid.diff(self@));
            grid.lemma_step_where_is_step(rule, marks);
            grid.lemma_step_settled(rule, marks);
        }
    }

    /// Marks every cell for evaluation, so that the next generation scans
    /// the whole grid. The cells stay as they are.
    pub fn mark_all(&mut self)
        requires
            old(self).wf(),
        ensures
            final(self).wf(),
            final(self)@ == old(self)@,
            final(self).rule() == old(self).rule(),
            final(self).dirty() == Torus::filled(old(self)@.width, old(self)@.height, true),
    {
        self.next_cells_to_be_updated.mark_all();
    }

    /// Gives the universe new dimensions. Nothing of the old content is kept:
    /// every cell is dead afterwards, and every cell is due for evaluation.
    pub fn resize(&mut self, width: u32, height: u32)
        requires
            old(self).wf(),
            width > 0,
            height > 0,
            width * height <= usize::MAX,
        ensures
            final(self).wf(),
            final(self)@ == Torus::filled(width as int, height as int, false),
            final(self).dirty() == Torus::filled(width as int, height as int, true),
            final(self).rule() == old(self).rule(),
    {
        let size: usize = width as usize * height as usize;
        self.width = width;
        self.height = height;
        self.cells = FixedBitSet::with_capacity(size);
        self.next_cells_to_be_updated = DirtyTracker::new(width, height);
    }

    /// Sets the number of columns; see [`Universe::resize`].
    pub fn set_width(&mut self, width: u32)
        requires
            old(self).wf(),
            width > 0,
            width * old(self)@.height <= usize::MAX,
        ensures
            final(self).wf(),
            final(self)@ == Torus::filled(width as int, old(self)@.height, false),
            final(self).dirty() == Torus::filled(width as int, old(self)@.height, true),
            final(self).rule() == old(self).rule(),
    {
        let height: u32 = self.height;
        self.resize(width, height);
    }

    /// Sets the number of rows; see [`Universe::resize`].
    pub fn set_height(&mut self, height: u32)
        requires
            old(self).wf(),
            height > 0,
            old(self)@.width * height <= usize::MAX,
        ensures
            final(self).wf(),
            final(self)@ == Torus::filled(old(self)@.width, height as int, false),
            final(self).dirty() == Torus::filled(old(self)@.width, height as int, true),
            final(self).rule() == old(self).rule(),
    {
        let width: u32 = self.width;
        self.resize(width, height);
    }
}

/// Whether every listed cell lies inside a `width` by `height` grid.
fn all_inside(positions: &[(u32, u32)], width: u32, height: u32) -> (inside: bool)
    ensures
        inside == Torus::filled(width as int, height as int, false).holds(positions@),
{
    let mut k: usize = 0;
    while k < positions.len()
        invariant
            k <= positions.len(),
            forall|j: int|
                0 <= j < k ==> (#[trigger] positions@[j]).0 < height && positions@[j].1 < width,
        decreases positions.len() - k,
    {
        let (row, column) = positions[k];
        if row >= height || column >= width {
            return false;
        }
        k += 1;
    }
    true
}

} // verus!
