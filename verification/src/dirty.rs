//! The set of cells that the next generation has to evaluate.
//!
//! A cell is dirty when its own state or that of a neighbour may have
//! changed. Every change of a cell therefore marks nine cells: the cell and
//! the eight around it, across the edges where the cell lies on one.

use crate::bitset::{bits, set_all};
use crate::torus::{after, before, flat_index, lemma_wrap, lemma_wrap_shift, wrapped, Torus};
use fixedbitset::FixedBitSet;
use vstd::prelude::*;

verus! {

/// One dirty mark per cell of a grid.
pub struct DirtyTracker {
    width: u32,
    height: u32,
    marks: FixedBitSet,
}

impl View for DirtyTracker {
    type V = Torus;

    closed spec fn view(&self) -> Torus {
        Torus { width: self.width as int, height: self.height as int, cells: bits(self.marks) }
    }
}

impl DirtyTracker {
    /// The tracker covers a grid with positive dimensions, one mark per
    /// cell, and the marks can be addressed by a `usize`.
    pub open spec fn wf(&self) -> bool {
        self@.wf() && self@.size() <= usize::MAX
    }

    /// A tracker for a `width` by `height` grid with every cell marked.
    pub fn new(width: u32, height: u32) -> (tracker: DirtyTracker)
        requires
            width > 0,
            height > 0,
            width * height <= usize::MAX,
        ensures
            tracker.wf(),
            tracker@ == Torus::filled(width as int, height as int, true),
    {
        let size: usize = width as usize * height as usize;
        let mut marks = FixedBitSet::with_capacity(size);
        set_all(&mut marks, true);
        DirtyTracker { width, height, marks }
    }

    /// The width of the grid that the tracker covers.
    pub fn width(&self) -> (width: u32)
        ensures
            width == self@.width,
    {
        self.width
    }

    /// The height of the grid that the tracker covers.
    pub fn height(&self) -> (height: u32)
        ensures
            height == self@.height,
    {
        self.height
    }

    /// Whether the cell `(row, col)` is marked. Coordinates wrap around.
    pub fn is_dirty(&self, row: u32, col: u32) -> (dirty: bool)
        requires
            self.wf(),
        ensures
            dirty == self@.at(row as int, col as int),
    {
        let r: u32 = wrapped(row, self.height);
        let c: u32 = wrapped(col, self.width);
        let i: usize = flat_index(r, c, self.width, self.height);
        self.marks.contains(i)
    }

    /// Whether the cell stored at `i` is marked.
    pub fn is_dirty_at(&self, i: usize) -> (dirty: bool)
        requires
            self.wf(),
            i < self@.size(),
        ensures
            dirty == self@.cells[i as int],
    {
        self.marks.contains(i)
    }

    /// Marks every cell.
    pub fn mark_all(&mut self)
        requires
            old(self).wf(),
        ensures
            final(self).wf(),
            final(self)@ == Torus::filled(old(self)@.width, old(self)@.height, true),
    {
        set_all(&mut self.marks, true);
    }

    /// Marks the cell `(row, col)` and its eight neighbours. Coordinates wrap
    /// around, so a cell on an edge marks cells on the opposite edge.
    pub fn mark_neighborhood(&mut self, row: u32, col: u32)
        requires
            old(self).wf(),
        ensures
            final(self).wf(),
            final(self)@ == old(self)@.marked(row as int, col as int),
    {
        let w: u32 = self.width;
        let h: u32 = self.height;
        let r: u32 = wrapped(row, h);
        let c: u32 = wrapped(col, w);
        let north: u32 = before(r, h);
        let south: u32 = after(r, h);
        let west: u32 = before(c, w);
        let east: u32 = after(c, w);
        proof {
            lemma_wrap_shift(row as int, -1, h as int);
            lemma_wrap_shift(row as int, 1, h as int);
            lemma_wrap_shift(col as int, -1, w as int);
            lemma_wrap_shift(col as int, 1, w as int);
            lemma_wrap(r as int, h as int);
            lemma_wrap(c as int, w as int);
        }
        self.marks.set(flat_index(north, west, w, h), true);
        self.marks.set(flat_index(north, c, w, h), true);
        self.marks.set(flat_index(north, east, w, h), true);
        self.marks.set(flat_index(r, west, w, h), true);
        self.marks.set(flat_index(r, c, w, h), true);
        self.marks.set(flat_index(r, east, w, h), true);
        self.marks.set(flat_index(south, west, w, h), true);
        self.marks.set(flat_index(south, c, w, h), true);
        self.marks.set(flat_index(south, east, w, h), true);
        assert(self@.cells =~= old(self)@.marked(row as int, col as int).cells);
    }

    /// Hands out the current marks and leaves the tracker empty, ready to
    /// collect the marks of the generation that is about to be computed.
    pub fn take_and_clear(&mut self) -> (snapshot: DirtyTracker)
        requires
            old(self).wf(),
        ensures
            snapshot@ == old(self)@,
            snapshot.wf(),
            final(self).wf(),
            final(self)@ == Torus::filled(old(self)@.width, old(self)@.height, false),
    {
        let snapshot = DirtyTracker {
            width: self.width,
            height: self.height,
            marks: self.marks.clone(),
        };
        set_all(&mut self.marks, false);
        snapshot
    }
}

} // verus!
