//! Named seed patterns: lists of cells to bring alive in a new universe.
//!
//! Most patterns are placed for a grid of the default dimensions,
//! [`GRID_WIDTH`] by [`GRID_HEIGHT`].

use vstd::prelude::*;

verus! {

/// The default number of columns.
pub const GRID_WIDTH: u32 = 345;

/// The default number of rows.
pub const GRID_HEIGHT: u32 = 149;

/// An ordered list of `(row, column)` pairs.
pub struct PositionSet {
    positions: Vec<(u32, u32)>,
}

impl View for PositionSet {
    type V = Seq<(u32, u32)>;

    closed spec fn view(&self) -> Seq<(u32, u32)> {
        self.positions@
    }
}

/// The cells of a light-weight spaceship at the left edge, just above the
/// middle row of the default grid.
pub open spec fn lwss_cells() -> Seq<(u32, u32)> {
    seq![
        (71u32, 0u32),
        (71u32, 3u32),
        (72u32, 4u32),
        (73u32, 0u32),
        (73u32, 4u32),
        (74u32, 1u32),
        (74u32, 2u32),
        (74u32, 3u32),
        (74u32, 4u32),
    ]
}

impl PositionSet {
    /// The given cells, in the given order.
    pub fn new(positions: Vec<(u32, u32)>) -> (set: PositionSet)
        ensures
            set@ == positions@,
    {
        PositionSet { positions }
    }

    /// The cells of the pattern, in order.
    pub fn positions(&self) -> (positions: &Vec<(u32, u32)>)
        ensures
            positions@ == self@,
    {
        &self.positions
    }

    /// A glider in the top left corner.
    pub fn glider() -> (set: PositionSet)
        ensures
            set@ == seq![(0u32, 0u32), (1u32, 1u32), (1u32, 2u32), (2u32, 0u32), (2u32, 1u32)],
    {
        let set = PositionSet { positions: vec![(0, 0), (1, 1), (1, 2), (2, 0), (2, 1)] };
        assert(set@ =~= seq![(0u32, 0u32), (1u32, 1u32), (1u32, 2u32), (2u32, 0u32), (2u32, 1u32)]);
        set
    }

    /// A light-weight spaceship at the left edge, heading right.
    pub fn lwss() -> (set: PositionSet)
        ensures
            set@ == lwss_cells(),
    {
        let middle: u32 = GRID_HEIGHT / 2;
        let set = PositionSet {
            positions: vec![
                (middle - 3, 0),
                (middle - 3, 3),
                (middle - 2, 4),
                (middle - 1, 0),
                (middle - 1, 4),
                (middle, 1),
                (middle, 2),
                (middle, 3),
                (middle, 4),
            ],
        };
        assert(set@ =~= lwss_cells());
        set
    }

    /// Two light-weight spaceships on a collision course: the one of
    /// [`PositionSet::lwss`], followed by its mirror image across the
    /// diagonal, moved one row down.
    pub fn two_lwss_accident() -> (set: PositionSet)
        ensures
            set@.len() == 2 * lwss_cells().len(),
            forall|i: int|
                0 <= i < lwss_cells().len() ==> {
                    &&& set@[i] == lwss_cells()[i]
                    &&& set@[lwss_cells().len() + i] == (
                        lwss_cells()[i].1,
                        (lwss_cells()[i].0 + 1) as u32,
                    )
                },
    {
        let lwss = Self::lwss();
        let lwss_num_cells: usize = lwss.positions.len();
        let mut positions: Vec<(u32, u32)> = Vec::new();
        let mut i: usize = 0;
        while i < lwss_num_cells
            invariant
                i <= lwss_num_cells,
                lwss_num_cells == 9,
                lwss@ == lwss_cells(),
                positions@ == lwss@.take(i as int),
            decreases lwss_num_cells - i,
        {
            positions.push(lwss.positions[i]);
            assert(positions@ =~= lwss@.take(i + 1));
            i += 1;
        }
        let mut i: usize = 0;
        while i < lwss_num_cells
            invariant
                i <= lwss_num_cells,
                lwss_num_cells == 9,
                lwss@ == lwss_cells(),
                positions@.len() == lwss_num_cells + i,
                forall|j: int| 0 <= j < lwss_num_cells ==> positions@[j] == lwss_cells()[j],
                forall|j: int|
                    0 <= j < i ==> positions@[lwss_num_cells + j] == (
                        lwss_cells()[j].1,
                        (lwss_cells()[j].0 + 1) as u32,
                    ),
            decreases lwss_num_cells - i,
        {
            let (y, x) = lwss.positions[i];
            positions.push((x, y + 1));
            i += 1;
        }
        PositionSet { positions }
    }

    /// A horizontal line of `n` cells on the middle row, centred on the
    /// middle column of the default grid.
    pub fn row(n: usize) -> (set: PositionSet)
        requires
            n <= GRID_WIDTH,
        ensures
            set@.len() == n,
            forall|i: int|
                0 <= i < n ==> set@[i] == (
                    (GRID_HEIGHT / 2) as u32,
                    (GRID_WIDTH / 2 - n / 2 + i) as u32,
                ),
    {
        let middle_x: u32 = GRID_WIDTH / 2;
        let middle_y: u32 = GRID_HEIGHT / 2;
        let init_x: u32 = middle_x - (n as u32) / 2;
        let init_y: u32 = middle_y;
        let mut positions: Vec<(u32, u32)> = Vec::new();
        let mut i: usize = 0;
        while i < n
            invariant
                i <= n <= GRID_WIDTH,
                init_y == GRID_HEIGHT / 2,
                init_x == GRID_WIDTH / 2 - n / 2,
                positions@.len() == i,
                forall|j: int| 0 <= j < i ==> positions@[j] == (init_y, (init_x + j) as u32),
            decreases n - i,
        {
            positions.push((init_y, init_x + (i as u32)));
            i += 1;
        }
        PositionSet { positions }
    }

    /// A vertical line of `n` cells on the middle column, centred on the
    /// middle row of the default grid.
    pub fn column(n: usize) -> (set: PositionSet)
        requires
            n <= GRID_HEIGHT,
        ensures
            set@.len() == n,
            forall|i: int|
                0 <= i < n ==> set@[i] == (
                    (GRID_HEIGHT / 2 - n / 2 + i) as u32,
                    (GRID_WIDTH / 2) as u32,
                ),
    {
        let middle_x: u32 = GRID_WIDTH / 2;
        let middle_y: u32 = GRID_HEIGHT / 2;
        let init_x: u32 = middle_x;
        let init_y: u32 = middle_y - (n as u32) / 2;
        let mut positions: Vec<(u32, u32)> = Vec::new();
        let mut i: usize = 0;
        while i < n
            invariant
                i <= n <= GRID_HEIGHT,
                init_x == GRID_WIDTH / 2,
                init_y == GRID_HEIGHT / 2 - n / 2,
                positions@.len() == i,
                forall|j: int| 0 <= j < i ==> positions@[j] == ((init_y + j) as u32, init_x),
            decreases n - i,
        {
            positions.push((init_y + (i as u32), init_x));
            i += 1;
        }
        PositionSet { positions }
    }

    /// Three cells around the centre of the default grid that grow without
    /// bound under a rule in which no cell dies.
    pub fn monster_without_death() -> (set: PositionSet)
        ensures
            set@ == seq![(73u32, 172u32), (75u32, 171u32), (75u32, 173u32)],
    {
        let middle_x: u32 = GRID_WIDTH / 2;
        let middle_y: u32 = GRID_HEIGHT / 2;
        let set = PositionSet {
            positions: vec![
                (middle_y - 1, middle_x),
                (middle_y + 1, middle_x - 1),
                (middle_y + 1, middle_x + 1),
            ],
        };
        assert(set@ =~= seq![(73u32, 172u32), (75u32, 171u32), (75u32, 173u32)]);
        set
    }

    /// No cells at all.
    pub fn empty() -> (set: PositionSet)
        ensures
            set@ == Seq::<(u32, u32)>::empty(),
    {
        PositionSet { positions: vec![] }
    }
}

} // verus!
