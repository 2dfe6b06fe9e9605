//! The mathematical model: a rectangle of bits whose edges wrap around.
//!
//! A [`Torus`] stands for the cells of a universe and equally for a map of
//! dirty marks. Coordinates are arbitrary integers: the rectangle tiles the
//! plane, so `(row, col)` and `(row + height, col - width)` name the same bit.

use crate::rule::RuleSpec;
use vstd::arithmetic::div_mod::{
    lemma_fundamental_div_mod,
    lemma_fundamental_div_mod_converse,
    lemma_mod_bound,
    lemma_mod_multiples_vanish,
};
use vstd::prelude::*;

verus! {

/// The representative of `x` in `0..n`.
pub open spec fn wrap(x: int, n: int) -> int {
    x % n
}

/// What wrapping comes to for a coordinate at most one period outside
/// `0..n`: a single addition or subtraction.
pub open spec fn fold(x: int, n: int) -> int {
    if x < 0 {
        x + n
    } else if x < n {
        x
    } else {
        x - n
    }
}

/// Whether `b` is what `a`, the coordinate before it or the one after it
/// wraps to on a ring of `n`.
pub open spec fn close(a: int, b: int, n: int) -> bool {
    wrap(a - 1, n) == b || wrap(a, n) == b || wrap(a + 1, n) == b
}

/// The place of the cell `(row, col)` in a row-major buffer.
pub open spec fn flat(row: int, col: int, width: int) -> int {
    row * width + col
}

/// One for a live cell, zero for a dead one.
pub open spec fn unit(alive: bool) -> int {
    if alive {
        1
    } else {
        0
    }
}

/// Whether the cell `(row, col)` is among `positions`.
pub open spec fn listed(positions: Seq<(u32, u32)>, row: int, col: int) -> bool {
    exists|k: int|
        0 <= k < positions.len() && (#[trigger] positions[k]).0 == row && positions[k].1 == col
}

/// A rectangle of `width * height` bits in row-major order.
#[verifier::ext_equal]
pub struct Torus {
    pub width: int,
    pub height: int,
    pub cells: Seq<bool>,
}

impl Torus {
    /// Both dimensions are positive and there is one bit per cell.
    pub open spec fn wf(self) -> bool {
        &&& self.width > 0
        &&& self.height > 0
        &&& self.cells.len() == self.width * self.height
    }

    /// The number of cells.
    pub open spec fn size(self) -> int {
        self.width * self.height
    }

    /// Whether `other` has the same dimensions.
    pub open spec fn same_shape(self, other: Torus) -> bool {
        self.width == other.width && self.height == other.height
    }

    /// The rectangle of the given dimensions with every bit equal to `value`.
    pub open spec fn filled(width: int, height: int, value: bool) -> Torus {
        Torus { width, height, cells: Seq::new((width * height) as nat, |i: int| value) }
    }

    /// The row of the cell stored at `i`.
    pub open spec fn row_of(self, i: int) -> int {
        i / self.width
    }

    /// The column of the cell stored at `i`.
    pub open spec fn col_of(self, i: int) -> int {
        i % self.width
    }

    /// Where the cell `(row, col)` is stored, after wrapping both coordinates.
    pub open spec fn index(self, row: int, col: int) -> int {
        flat(wrap(row, self.height), wrap(col, self.width), self.width)
    }

    /// The bit at `(row, col)` of the tiled plane.
    pub open spec fn at(self, row: int, col: int) -> bool {
        self.cells[self.index(row, col)]
    }

    /// The number of set bits among the eight cells around `(row, col)`.
    pub open spec fn neighbors(self, row: int, col: int) -> int {
        unit(self.at(row - 1, col - 1)) + unit(self.at(row - 1, col)) + unit(
            self.at(row - 1, col + 1),
        ) + unit(self.at(row, col - 1)) + unit(self.at(row, col + 1)) + unit(
            self.at(row + 1, col - 1),
        ) + unit(self.at(row + 1, col)) + unit(self.at(row + 1, col + 1))
    }

    /// Whether a bit is set at `(row, col)` or at one of its eight neighbours.
    pub open spec fn around(self, row: int, col: int) -> bool {
        ||| self.at(row - 1, col - 1)
        ||| self.at(row - 1, col)
        ||| self.at(row - 1, col + 1)
        ||| self.at(row, col - 1)
        ||| self.at(row, col)
        ||| self.at(row, col + 1)
        ||| self.at(row + 1, col - 1)
        ||| self.at(row + 1, col)
        ||| self.at(row + 1, col + 1)
    }

    /// Whether `i` is where `(row, col)` or one of its eight neighbours is
    /// stored.
    pub open spec fn near(self, i: int, row: int, col: int) -> bool {
        ||| i == self.index(row - 1, col - 1)
        ||| i == self.index(row - 1, col)
        ||| i == self.index(row - 1, col + 1)
        ||| i == self.index(row, col - 1)
        ||| i == self.index(row, col)
        ||| i == self.index(row, col + 1)
        ||| i == self.index(row + 1, col - 1)
        ||| i == self.index(row + 1, col)
        ||| i == self.index(row + 1, col + 1)
    }

    /// This map with the nine bits of the neighbourhood of `(row, col)` set.
    pub open spec fn marked(self, row: int, col: int) -> Torus {
        Torus {
            cells: Seq::new(self.cells.len(), |i: int| self.cells[i] || self.near(i, row, col)),
            ..self
        }
    }

    /// The map of the cells that have a set bit in their neighbourhood.
    pub open spec fn halo(self) -> Torus {
        Torus {
            cells: Seq::new(
                self.cells.len(),
                |i: int| self.around(self.row_of(i), self.col_of(i)),
            ),
            ..self
        }
    }

    /// The map of the cells in which `self` and `other` differ.
    pub open spec fn diff(self, other: Torus) -> Torus {
        Torus {
            cells: Seq::new(self.cells.len(), |i: int| self.cells[i] != other.cells[i]),
            ..self
        }
    }

    /// This map with the bit at `(row, col)` written.
    pub open spec fn with(self, row: int, col: int, value: bool) -> Torus {
        Torus { cells: self.cells.update(self.index(row, col), value), ..self }
    }

    /// This map with the bit at `(row, col)` inverted.
    pub open spec fn toggled(self, row: int, col: int) -> Torus {
        self.with(row, col, !self.at(row, col))
    }

    /// What `rule` makes of the cell `(row, col)` in the next generation.
    pub open spec fn next_at(self, rule: RuleSpec, row: int, col: int) -> bool {
        rule.next(self.at(row, col), self.neighbors(row, col))
    }

    /// Whether `rule` changes the cell stored at `i`.
    pub open spec fn flips(self, rule: RuleSpec, i: int) -> bool {
        self.next_at(rule, self.row_of(i), self.col_of(i)) != self.cells[i]
    }

    /// The next generation: `rule` applied to every cell at once.
    pub open spec fn step(self, rule: RuleSpec) -> Torus {
        Torus {
            cells: Seq::new(
                self.cells.len(),
                |i: int| self.next_at(rule, self.row_of(i), self.col_of(i)),
            ),
            ..self
        }
    }

    /// The map after `n` generations, each evaluating every cell.
    pub open spec fn run(self, rule: RuleSpec, n: nat) -> Torus
        decreases n,
    {
        if n == 0 {
            self
        } else {
            self.step(rule).run(rule, (n - 1) as nat)
        }
    }

    /// The next generation when only the cells marked in `dirty` are
    /// evaluated and every other cell keeps its value.
    pub open spec fn step_where(self, rule: RuleSpec, dirty: Torus) -> Torus {
        Torus {
            cells: Seq::new(
                self.cells.len(),
                |i: int|
                    if dirty.cells[i] {
                        self.next_at(rule, self.row_of(i), self.col_of(i))
                    } else {
                        self.cells[i]
                    },
            ),
            ..self
        }
    }

    /// Every cell that `rule` would change is marked in `dirty`.
    pub open spec fn settled(self, rule: RuleSpec, dirty: Torus) -> bool {
        forall|i: int|
            0 <= i < self.cells.len() && !dirty.cells[i] ==> !#[trigger] self.flips(rule, i)
    }

    /// The generation under way: the cells stored before `upto` are done,
    /// the others still hold their old value.
    pub open spec fn step_before(self, rule: RuleSpec, dirty: Torus, upto: int) -> Torus {
        Torus {
            cells: Seq::new(
                self.cells.len(),
                |i: int|
                    if i < upto && dirty.cells[i] {
                        self.next_at(rule, self.row_of(i), self.col_of(i))
                    } else {
                        self.cells[i]
                    },
            ),
            ..self
        }
    }

    /// The map of the dirty cells stored before `upto` that `rule` changes.
    pub open spec fn flipped_before(self, rule: RuleSpec, dirty: Torus, upto: int) -> Torus {
        Torus {
            cells: Seq::new(
                self.cells.len(),
                |i: int| i < upto && dirty.cells[i] && self.flips(rule, i),
            ),
            ..self
        }
    }

    /// Whether every listed cell lies inside the rectangle.
    pub open spec fn holds(self, positions: Seq<(u32, u32)>) -> bool {
        forall|k: int|
            0 <= k < positions.len() ==> (#[trigger] positions[k]).0 < self.height
                && positions[k].1 < self.width
    }

    /// This map with the bit of every listed cell set.
    pub open spec fn raised(self, positions: Seq<(u32, u32)>) -> Torus {
        Torus {
            cells: Seq::new(
                self.cells.len(),
                |i: int| self.cells[i] || listed(positions, self.row_of(i), self.col_of(i)),
            ),
            ..self
        }
    }

    /// This map with the neighbourhood of every listed cell set.
    pub open spec fn marked_each(self, positions: Seq<(u32, u32)>) -> Torus {
        Torus {
            cells: Seq::new(
                self.cells.len(),
                |i: int| self.cells[i] || self.near_any(i, positions),
            ),
            ..self
        }
    }

    /// Whether `i` is stored in the neighbourhood of a listed cell.
    pub open spec fn near_any(self, i: int, positions: Seq<(u32, u32)>) -> bool {
        exists|k: int|
            0 <= k < positions.len() && self.near(
                i,
                (#[trigger] positions[k]).0 as int,
                positions[k].1 as int,
            )
    }

    /// Coordinates and buffer positions correspond one to one, and a
    /// coordinate at most one period outside the rectangle wraps by a single
    /// addition or subtraction.
    pub proof fn lemma_coords(self)
        requires
            self.wf(),
        ensures
            forall|i: int|
                0 <= i < self.size() ==> {
                    &&& 0 <= #[trigger] self.row_of(i) < self.height
                    &&& 0 <= self.col_of(i) < self.width
                    &&& flat(self.row_of(i), self.col_of(i), self.width) == i
                },
            forall|r: int, c: int|
                0 <= r < self.height && 0 <= c < self.width ==> {
                    &&& 0 <= #[trigger] flat(r, c, self.width) < self.size()
                    &&& self.row_of(flat(r, c, self.width)) == r
                    &&& self.col_of(flat(r, c, self.width)) == c
                },
            forall|x: int|
                -self.height <= x < 2 * self.height ==> #[trigger] wrap(x, self.height) == fold(
                    x,
                    self.height,
                ),
            forall|x: int|
                -self.width <= x < 2 * self.width ==> #[trigger] wrap(x, self.width) == fold(
                    x,
                    self.width,
                ),
    {
        let w = self.width;
        let h = self.height;
        assert forall|i: int| 0 <= i < self.size() implies {
            &&& 0 <= #[trigger] self.row_of(i) < h
            &&& 0 <= self.col_of(i) < w
            &&& flat(self.row_of(i), self.col_of(i), w) == i
        } by {
            lemma_unflat(i, w, h);
        }
        assert forall|r: int, c: int| 0 <= r < h && 0 <= c < w implies {
            &&& 0 <= #[trigger] flat(r, c, w) < self.size()
            &&& self.row_of(flat(r, c, w)) == r
            &&& self.col_of(flat(r, c, w)) == c
        } by {
            lemma_flat(r, c, w, h);
        }
        assert forall|x: int| -h <= x < 2 * h implies #[trigger] wrap(x, h) == fold(x, h) by {
            lemma_wrap(x, h);
        }
        assert forall|x: int| -w <= x < 2 * w implies #[trigger] wrap(x, w) == fold(x, w) by {
            lemma_wrap(x, w);
        }
    }

    /// Every coordinate names a cell of the rectangle: its place lies inside
    /// the buffer, in the row and the column that the coordinates wrap to.
    pub proof fn lemma_index_inside(self, row: int, col: int)
        requires
            self.wf(),
        ensures
            0 <= self.index(row, col) < self.size(),
            0 <= wrap(row, self.height) < self.height,
            0 <= wrap(col, self.width) < self.width,
            self.row_of(self.index(row, col)) == wrap(row, self.height),
            self.col_of(self.index(row, col)) == wrap(col, self.width),
    {
        lemma_mod_bound(row, self.height);
        lemma_mod_bound(col, self.width);
        lemma_flat(wrap(row, self.height), wrap(col, self.width), self.width, self.height);
    }

    /// The nine cells of a neighbourhood are stored inside the buffer.
    pub proof fn lemma_around_inside(self, row: int, col: int)
        requires
            self.wf(),
        ensures
            0 <= self.index(row - 1, col - 1) < self.size(),
            0 <= self.index(row - 1, col) < self.size(),
            0 <= self.index(row - 1, col + 1) < self.size(),
            0 <= self.index(row, col - 1) < self.size(),
            0 <= self.index(row, col) < self.size(),
            0 <= self.index(row, col + 1) < self.size(),
            0 <= self.index(row + 1, col - 1) < self.size(),
            0 <= self.index(row + 1, col) < self.size(),
            0 <= self.index(row + 1, col + 1) < self.size(),
    {
        self.lemma_index_inside(row - 1, col - 1);
        self.lemma_index_inside(row - 1, col);
        self.lemma_index_inside(row - 1, col + 1);
        self.lemma_index_inside(row, col - 1);
        self.lemma_index_inside(row, col);
        self.lemma_index_inside(row, col + 1);
        self.lemma_index_inside(row + 1, col - 1);
        self.lemma_index_inside(row + 1, col);
        self.lemma_index_inside(row + 1, col + 1);
    }

    /// A cell inside the rectangle is stored where its coordinates say, and
    /// wrapping leaves the coordinates as they are.
    pub proof fn lemma_index_of_cell(self, i: int)
        requires
            self.wf(),
            0 <= i < self.size(),
        ensures
            0 <= self.row_of(i) < self.height,
            0 <= self.col_of(i) < self.width,
            self.index(self.row_of(i), self.col_of(i)) == i,
    {
        lemma_unflat(i, self.width, self.height);
        lemma_wrap(self.row_of(i), self.height);
        lemma_wrap(self.col_of(i), self.width);
    }

    /// A place lies in a neighbourhood exactly when its row is within one of
    /// the centre's row and its column within one of the centre's column.
    pub proof fn lemma_near_splits(self, i: int, row: int, col: int)
        requires
            self.wf(),
            0 <= i < self.size(),
        ensures
            self.near(i, row, col) == (close(row, self.row_of(i), self.height) && close(
                col,
                self.col_of(i),
                self.width,
            )),
    {
        let w = self.width;
        let h = self.height;
        lemma_mod_bound(row - 1, h);
        lemma_mod_bound(row, h);
        lemma_mod_bound(row + 1, h);
        lemma_mod_bound(col - 1, w);
        lemma_mod_bound(col, w);
        lemma_mod_bound(col + 1, w);
        lemma_flat_injective(i, wrap(row - 1, h), wrap(col - 1, w), w, h);
        lemma_flat_injective(i, wrap(row - 1, h), wrap(col, w), w, h);
        lemma_flat_injective(i, wrap(row - 1, h), wrap(col + 1, w), w, h);
        lemma_flat_injective(i, wrap(row, h), wrap(col - 1, w), w, h);
        lemma_flat_injective(i, wrap(row, h), wrap(col, w), w, h);
        lemma_flat_injective(i, wrap(row, h), wrap(col + 1, w), w, h);
        lemma_flat_injective(i, wrap(row + 1, h), wrap(col - 1, w), w, h);
        lemma_flat_injective(i, wrap(row + 1, h), wrap(col, w), w, h);
        lemma_flat_injective(i, wrap(row + 1, h), wrap(col + 1, w), w, h);
    }

    /// Neighbourhoods are symmetric: `i` lies around `(row, col)` exactly when
    /// `(row, col)` lies around `i`.
    pub proof fn lemma_near_symmetric(self, i: int, row: int, col: int)
        requires
            self.wf(),
            0 <= i < self.size(),
            0 <= row < self.height,
            0 <= col < self.width,
        ensures
            self.near(i, row, col) == self.near(
                flat(row, col, self.width),
                self.row_of(i),
                self.col_of(i),
            ),
    {
        let k = flat(row, col, self.width);
        lemma_flat(row, col, self.width, self.height);
        lemma_unflat(i, self.width, self.height);
        self.lemma_near_splits(i, row, col);
        self.lemma_near_splits(k, self.row_of(i), self.col_of(i));
        lemma_close_symmetric(row, self.row_of(i), self.height);
        lemma_close_symmetric(col, self.col_of(i), self.width);
    }

    /// Setting the bit stored at `k` adds to each neighbourhood exactly
    /// whether `k` lies in it.
    pub proof fn lemma_around_with(self, row: int, col: int, r: int, c: int)
        requires
            self.wf(),
        ensures
            self.with(row, col, true).around(r, c) == (self.around(r, c) || self.near(
                self.index(row, col),
                r,
                c,
            )),
    {
        self.lemma_index_inside(row, col);
        self.lemma_around_inside(r, c);
    }

    /// Writing the bit stored at `k` leaves a neighbourhood that `k` does not
    /// lie in as it was.
    pub proof fn lemma_around_kept(self, row: int, col: int, value: bool, r: int, c: int)
        requires
            self.wf(),
            !self.near(self.index(row, col), r, c),
        ensures
            self.with(row, col, value).at(r, c) == self.at(r, c),
            self.with(row, col, value).neighbors(r, c) == self.neighbors(r, c),
    {
        self.lemma_index_inside(row, col);
        self.lemma_around_inside(r, c);
    }

    /// Setting one bit adds to the halo exactly the neighbourhood of that bit.
    pub proof fn lemma_halo_with(self, row: int, col: int)
        requires
            self.wf(),
            0 <= row < self.height,
            0 <= col < self.width,
        ensures
            self.with(row, col, true).halo() == self.halo().marked(row, col),
    {
        let set = self.with(row, col, true);
        lemma_wrap(row, self.height);
        lemma_wrap(col, self.width);
        self.lemma_index_inside(row, col);
        assert forall|i: int| 0 <= i < self.size() implies set.halo().cells[i]
            == self.halo().marked(row, col).cells[i] by {
            self.lemma_near_symmetric(i, row, col);
            self.lemma_around_with(row, col, self.row_of(i), self.col_of(i));
        }
        assert(set.halo().cells =~= self.halo().marked(row, col).cells);
    }

    /// When every cell outside `dirty` is stable, evaluating the dirty cells
    /// alone gives the same generation as evaluating them all.
    pub proof fn lemma_step_where_is_step(self, rule: RuleSpec, dirty: Torus)
        requires
            self.wf(),
            dirty.wf(),
            self.same_shape(dirty),
            self.settled(rule, dirty),
        ensures
            self.step_where(rule, dirty) == self.step(rule),
    {
        assert forall|i: int| 0 <= i < self.size() implies self.step_where(rule, dirty).cells[i]
            == self.step(rule).cells[i] by {
            if !dirty.cells[i] {
                assert(!self.flips(rule, i));
            }
        }
        assert(self.step_where(rule, dirty).cells =~= self.step(rule).cells);
    }

    /// A cell whose neighbourhood is the same in two maps has the same value
    /// and the same number of live neighbours in both.
    pub proof fn lemma_same_around(self, other: Torus, i: int)
        requires
            self.wf(),
            other.wf(),
            self.same_shape(other),
            0 <= i < self.size(),
            !self.diff(other).halo().cells[i],
        ensures
            self.cells[i] == other.cells[i],
            self.neighbors(self.row_of(i), self.col_of(i)) == other.neighbors(
                self.row_of(i),
                self.col_of(i),
            ),
            self.at(self.row_of(i), self.col_of(i)) == self.cells[i],
            other.at(self.row_of(i), self.col_of(i)) == other.cells[i],
    {
        let changed = self.diff(other);
        let r = self.row_of(i);
        let c = self.col_of(i);
        self.lemma_index_of_cell(i);
        self.lemma_around_inside(r, c);
        assert(!changed.around(r, c));
    }

    /// After a generation in which only dirty cells were evaluated, every cell
    /// that the rule could change next lies around a cell that just changed.
    pub proof fn lemma_step_settled(self, rule: RuleSpec, dirty: Torus)
        requires
            self.wf(),
            dirty.wf(),
            self.same_shape(dirty),
            self.settled(rule, dirty),
        ensures
            self.step_where(rule, dirty).settled(
                rule,
                self.diff(self.step_where(rule, dirty)).halo(),
            ),
    {
        let after = self.step_where(rule, dirty);
        let marks = self.diff(after).halo();
        assert forall|i: int|
            0 <= i < after.cells.len() && !marks.cells[i] implies !#[trigger] after.flips(
                rule,
                i,
            ) by {
            self.lemma_same_around(after, i);
            if !dirty.cells[i] {
                assert(!self.flips(rule, i));
            }
        }
    }

    /// Writing one cell and marking its neighbourhood keeps every unmarked
    /// cell stable.
    pub proof fn lemma_edit_settled(
        self,
        rule: RuleSpec,
        dirty: Torus,
        row: int,
        col: int,
        value: bool,
    )
        requires
            self.wf(),
            dirty.wf(),
            self.same_shape(dirty),
            self.settled(rule, dirty),
            0 <= row < self.height,
            0 <= col < self.width,
        ensures
            self.with(row, col, value).settled(rule, dirty.marked(row, col)),
    {
        let after = self.with(row, col, value);
        let marks = dirty.marked(row, col);
        lemma_wrap(row, self.height);
        lemma_wrap(col, self.width);
        self.lemma_index_inside(row, col);
        assert forall|i: int|
            0 <= i < after.cells.len() && !marks.cells[i] implies !#[trigger] after.flips(
                rule,
                i,
            ) by {
            let r = self.row_of(i);
            let c = self.col_of(i);
            assert(dirty.near(i, row, col) == self.near(i, row, col));
            self.lemma_near_symmetric(i, row, col);
            self.lemma_around_kept(row, col, value, r, c);
            self.lemma_index_of_cell(i);
            assert(!self.flips(rule, i));
        }
    }

    /// A map without a set bit has an empty halo.
    pub proof fn lemma_empty_halo(self)
        requires
            self.wf(),
            forall|i: int| 0 <= i < self.size() ==> !self.cells[i],
        ensures
            self.halo() == self,
    {
        assert forall|i: int| 0 <= i < self.size() implies !self.halo().cells[i] by {
            self.lemma_around_inside(self.row_of(i), self.col_of(i));
        }
        assert(self.halo().cells =~= self.cells);
    }

    /// What evaluating one more cell does to the generation under way: the
    /// cell takes its next value if it is dirty, and if that changes it, its
    /// neighbourhood joins the marks.
    pub proof fn lemma_advance(self, rule: RuleSpec, dirty: Torus, row: int, col: int)
        requires
            self.wf(),
            dirty.wf(),
            self.same_shape(dirty),
            0 <= row < self.height,
            0 <= col < self.width,
        ensures
            ({
                let k = flat(row, col, self.width);
                let done = self.step_before(rule, dirty, k);
                let marks = self.flipped_before(rule, dirty, k).halo();
                &&& 0 <= k < self.size()
                &&& self.row_of(k) == row
                &&& self.col_of(k) == col
                &&& self.at(row, col) == self.cells[k]
                &&& done.cells[k] == self.cells[k]
                &&& self.step_before(rule, dirty, k + 1).cells == if dirty.cells[k] {
                    done.cells.update(k, self.next_at(rule, row, col))
                } else {
                    done.cells
                }
                &&& self.flipped_before(rule, dirty, k + 1).halo() == if dirty.cells[k]
                    && self.flips(rule, k) {
                    marks.marked(row, col)
                } else {
                    marks
                }
            }),
    {
        let k = flat(row, col, self.width);
        let was = self.flipped_before(rule, dirty, k);
        let now = self.flipped_before(rule, dirty, k + 1);
        lemma_flat(row, col, self.width, self.height);
        lemma_wrap(row, self.height);
        lemma_wrap(col, self.width);
        if dirty.cells[k] {
            assert(self.step_before(rule, dirty, k + 1).cells =~= self.step_before(
                rule,
                dirty,
                k,
            ).cells.update(k, self.next_at(rule, row, col)));
        } else {
            assert(self.step_before(rule, dirty, k + 1).cells =~= self.step_before(
                rule,
                dirty,
                k,
            ).cells);
        }
        if dirty.cells[k] && self.flips(rule, k) {
            was.lemma_halo_with(row, col);
            assert(now.cells =~= was.with(row, col, true).cells);
        } else {
            assert(now.cells =~= was.cells);
        }
    }

    /// The map repeats with its period: a neighbourhood looks the same around
    /// `(row, col)` and around the cell that `(row, col)` wraps to.
    pub proof fn lemma_periodic(self, row: int, col: int)
        requires
            self.wf(),
        ensures
            self.at(row, col) == self.at(wrap(row, self.height), wrap(col, self.width)),
            self.neighbors(row, col) == self.neighbors(
                wrap(row, self.height),
                wrap(col, self.width),
            ),
            forall|i: int|
                self.near(i, row, col) == self.near(
                    i,
                    wrap(row, self.height),
                    wrap(col, self.width),
                ),
    {
        lemma_wrap_shift(row, -1, self.height);
        lemma_wrap_shift(row, 0, self.height);
        lemma_wrap_shift(row, 1, self.height);
        lemma_wrap_shift(col, -1, self.width);
        lemma_wrap_shift(col, 0, self.width);
        lemma_wrap_shift(col, 1, self.width);
    }

    /// Setting one more cell is the same as listing it.
    pub proof fn lemma_raised_push(self, positions: Seq<(u32, u32)>, p: (u32, u32))
        requires
            self.wf(),
            p.0 < self.height,
            p.1 < self.width,
        ensures
            self.raised(positions).with(p.0 as int, p.1 as int, true) == self.raised(
                positions.push(p),
            ),
    {
        self.lemma_coords();
        let more = positions.push(p);
        let left = self.raised(positions).with(p.0 as int, p.1 as int, true);
        let right = self.raised(more);
        assert forall|i: int| 0 <= i < self.size() implies left.cells[i] == right.cells[i] by {
            let r = self.row_of(i);
            let c = self.col_of(i);
            if listed(positions, r, c) {
                let k = choose|k: int|
                    0 <= k < positions.len() && (#[trigger] positions[k]).0 == r && positions[k].1
                        == c;
                assert(more[k] == positions[k]);
            }
            if i == self.index(p.0 as int, p.1 as int) {
                assert(more[positions.len() as int] == p);
            }
            if listed(more, r, c) {
                let k = choose|k: int|
                    0 <= k < more.len() && (#[trigger] more[k]).0 == r && more[k].1 == c;
                if k < positions.len() {
                    assert(positions[k] == more[k]);
                }
            }
        }
        assert(left.cells =~= right.cells);
    }

    /// Marking the neighbourhood of one more cell is the same as listing it.
    pub proof fn lemma_marked_each_push(self, positions: Seq<(u32, u32)>, p: (u32, u32))
        requires
            self.wf(),
        ensures
            self.marked_each(positions).marked(p.0 as int, p.1 as int) == self.marked_each(
                positions.push(p),
            ),
    {
        let more = positions.push(p);
        let left = self.marked_each(positions).marked(p.0 as int, p.1 as int);
        let right = self.marked_each(more);
        assert forall|i: int| 0 <= i < self.size() implies left.cells[i] == right.cells[i] by {
            if self.near_any(i, positions) {
                let k = choose|k: int|
                    0 <= k < positions.len() && self.near(
                        i,
                        (#[trigger] positions[k]).0 as int,
                        positions[k].1 as int,
                    );
                assert(more[k] == positions[k]);
            }
            if self.near(i, p.0 as int, p.1 as int) {
                assert(more[positions.len() as int] == p);
            }
            if self.near_any(i, more) {
                let k = choose|k: int|
                    0 <= k < more.len() && self.near(
                        i,
                        (#[trigger] more[k]).0 as int,
                        more[k].1 as int,
                    );
                if k < positions.len() {
                    assert(positions[k] == more[k]);
                }
            }
        }
        assert(left.cells =~= right.cells);
    }
}

/// A coordinate at most one period outside `0..n` wraps by a single addition
/// or subtraction.
pub proof fn lemma_wrap(x: int, n: int)
    requires
        n > 0,
        -n <= x < 2 * n,
    ensures
        wrap(x, n) == fold(x, n),
{
    if x < 0 {
        lemma_fundamental_div_mod_converse(x, n, -1, x + n);
    } else if x < n {
        lemma_fundamental_div_mod_converse(x, n, 0, x);
    } else {
        lemma_fundamental_div_mod_converse(x, n, 1, x - n);
    }
}

/// A cell inside the rectangle is stored inside the buffer, and its
/// coordinates can be read back from its position.
pub proof fn lemma_flat(r: int, c: int, w: int, h: int)
    requires
        0 <= r < h,
        0 <= c < w,
    ensures
        0 <= flat(r, c, w) < w * h,
        flat(r, c, w) / w == r,
        flat(r, c, w) % w == c,
{
    assert(0 <= r * w && r * w + w <= w * h) by (nonlinear_arith)
        requires
            0 <= r < h,
            0 < w,
    ;
    lemma_fundamental_div_mod_converse(flat(r, c, w), w, r, c);
}

/// A position is that of a cell exactly when it divides into the cell's
/// coordinates.
pub proof fn lemma_flat_injective(i: int, r: int, c: int, w: int, h: int)
    requires
        0 < w,
        0 < h,
        0 <= i < w * h,
        0 <= r < h,
        0 <= c < w,
    ensures
        (i == flat(r, c, w)) == (i / w == r && i % w == c),
{
    lemma_flat(r, c, w, h);
    lemma_unflat(i, w, h);
}

/// Being next to each other on a ring is mutual.
pub proof fn lemma_close_symmetric(a: int, b: int, n: int)
    requires
        n > 0,
        0 <= a < n,
        0 <= b < n,
    ensures
        close(a, b, n) == close(b, a, n),
{
    lemma_wrap(a - 1, n);
    lemma_wrap(a, n);
    lemma_wrap(a + 1, n);
    lemma_wrap(b - 1, n);
    lemma_wrap(b, n);
    lemma_wrap(b + 1, n);
}

/// A position inside the buffer belongs to a cell inside the rectangle.
pub proof fn lemma_unflat(i: int, w: int, h: int)
    requires
        0 < w,
        0 < h,
        0 <= i < w * h,
    ensures
        0 <= i / w < h,
        0 <= i % w < w,
        flat(i / w, i % w, w) == i,
{
    assert(0 <= i / w < h && 0 <= i % w < w && (i / w) * w + i % w == i) by (nonlinear_arith)
        requires
            0 < w,
            0 < h,
            0 <= i < w * h,
    ;
}

/// Shifting a coordinate and wrapping it gives the same cell as wrapping it
/// first.
pub proof fn lemma_wrap_shift(x: int, d: int, n: int)
    requires
        n > 0,
    ensures
        wrap(wrap(x, n) + d, n) == wrap(x + d, n),
{
    lemma_fundamental_div_mod(x, n);
    lemma_mod_multiples_vanish(x / n, x % n + d, n);
}

/// The coordinate `x` brought into `0..n`.
pub(crate) fn wrapped(x: u32, n: u32) -> (r: u32)
    requires
        n > 0,
    ensures
        r == wrap(x as int, n as int),
        r < n,
{
    x % n
}

/// The coordinate before `x` on a ring of `n`.
pub(crate) fn before(x: u32, n: u32) -> (r: u32)
    requires
        x < n,
    ensures
        r == wrap(x - 1, n as int),
        r < n,
{
    proof {
        lemma_wrap(x - 1, n as int);
        lemma_wrap(x + n - 1, n as int);
    }
    let r: u64 = (x as u64 + (n - 1) as u64) % (n as u64);
    r as u32
}

/// The coordinate after `x` on a ring of `n`.
pub(crate) fn after(x: u32, n: u32) -> (r: u32)
    requires
        x < n,
    ensures
        r == wrap(x + 1, n as int),
        r < n,
{
    proof {
        lemma_wrap(x + 1, n as int);
    }
    let r: u64 = (x as u64 + 1) % (n as u64);
    r as u32
}

/// Where the cell `(row, col)` of a `width` by `height` rectangle is stored.
pub(crate) fn flat_index(row: u32, col: u32, width: u32, height: u32) -> (i: usize)
    requires
        row < height,
        col < width,
        width * height <= usize::MAX,
    ensures
        i == flat(row as int, col as int, width as int),
        i < width * height,
{
    proof {
        lemma_flat(row as int, col as int, width as int, height as int);
        assert(0 <= row * width <= width * height) by (nonlinear_arith)
            requires
                0 <= row < height,
                0 < width,
        ;
    }
    row as usize * width as usize + col as usize
}

} // verus!
