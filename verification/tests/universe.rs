use toroidal_life::{PositionSet, Rule, Universe, UniverseError};

fn universe(width: u32, height: u32, rule: Rule, cells: &[(u32, u32)]) -> Universe {
    match Universe::new(width, height, rule, PositionSet::new(cells.to_vec())) {
        Ok(universe) => universe,
        Err(_) => panic!("the seed lies inside the grid"),
    }
}

fn alive(universe: &Universe) -> Vec<(u32, u32)> {
    let mut found: Vec<(u32, u32)> = Vec::new();
    for row in 0..universe.height() {
        for col in 0..universe.width() {
            if universe.get(row, col) {
                found.push((row, col));
            }
        }
    }
    found
}

fn dirty(universe: &Universe) -> Vec<(u32, u32)> {
    let mut found: Vec<(u32, u32)> = Vec::new();
    for row in 0..universe.height() {
        for col in 0..universe.width() {
            if universe.is_dirty(row, col) {
                found.push((row, col));
            }
        }
    }
    found
}

fn all_cells(width: u32, height: u32) -> Vec<(u32, u32)> {
    let mut cells: Vec<(u32, u32)> = Vec::new();
    for row in 0..height {
        for col in 0..width {
            cells.push((row, col));
        }
    }
    cells
}

fn around(width: u32, height: u32, row: u32, col: u32) -> Vec<(u32, u32)> {
    let mut cells: Vec<(u32, u32)> = Vec::new();
    for dr in [height - 1, 0, 1] {
        for dc in [width - 1, 0, 1] {
            cells.push(((row + dr) % height, (col + dc) % width));
        }
    }
    cells.sort();
    cells.dedup();
    cells
}

/// One generation that evaluates every cell, written without the library's
/// engine.
fn full_scan(width: u32, height: u32, rule: &Rule, before: &[Vec<bool>]) -> Vec<Vec<bool>> {
    let h: i64 = height as i64;
    let w: i64 = width as i64;
    let mut after: Vec<Vec<bool>> = vec![vec![false; width as usize]; height as usize];
    for row in 0..h {
        for col in 0..w {
            let mut count: u8 = 0;
            for dr in [-1i64, 0, 1] {
                for dc in [-1i64, 0, 1] {
                    if dr == 0 && dc == 0 {
                        continue;
                    }
                    let r: usize = (row + dr).rem_euclid(h) as usize;
                    let c: usize = (col + dc).rem_euclid(w) as usize;
                    if before[r][c] {
                        count += 1;
                    }
                }
            }
            let cell: bool = before[row as usize][col as usize];
            after[row as usize][col as usize] =
                if cell { rule.is_survival(count) } else { rule.is_birth(count) };
        }
    }
    after
}

fn snapshot(universe: &Universe) -> Vec<Vec<bool>> {
    let mut rows: Vec<Vec<bool>> = Vec::new();
    for row in 0..universe.height() {
        let mut cells: Vec<bool> = Vec::new();
        for col in 0..universe.width() {
            cells.push(universe.get(row, col));
        }
        rows.push(cells);
    }
    rows
}

/// A fixed scatter of cells, dense enough to keep a small grid busy.
fn scatter(width: u32, height: u32) -> Vec<(u32, u32)> {
    let mut cells: Vec<(u32, u32)> = Vec::new();
    let mut state: u32 = 12345;
    for row in 0..height {
        for col in 0..width {
            state = state.wrapping_mul(1103515245).wrapping_add(12345);
            if (state >> 16) % 3 == 0 {
                cells.push((row, col));
            }
        }
    }
    cells
}

#[test]
fn new_universe_holds_exactly_the_seed() {
    let u = universe(5, 4, Rule::life(), &[(3, 4), (0, 0), (1, 2), (0, 0)]);
    assert_eq!(u.width(), 5);
    assert_eq!(u.height(), 4);
    assert_eq!(alive(&u), vec![(0, 0), (1, 2), (3, 4)]);
}

#[test]
fn new_universe_is_fully_dirty() {
    let u = universe(5, 4, Rule::life(), &[(1, 1)]);
    assert_eq!(dirty(&u), all_cells(5, 4));
    let empty = universe(5, 4, Rule::life(), &[]);
    assert_eq!(dirty(&empty), all_cells(5, 4));
    assert_eq!(alive(&empty), Vec::<(u32, u32)>::new());
}

#[test]
fn new_rejects_a_row_outside_the_grid() {
    let made = Universe::new(5, 4, Rule::life(), PositionSet::new(vec![(0, 0), (4, 0)]));
    assert_eq!(made.err(), Some(UniverseError::InvalidCoordinate));
}

#[test]
fn new_rejects_a_column_outside_the_grid() {
    let made = Universe::new(5, 4, Rule::life(), PositionSet::new(vec![(3, 5)]));
    assert_eq!(made.err(), Some(UniverseError::InvalidCoordinate));
}

#[test]
fn new_accepts_the_last_row_and_column() {
    let u = universe(5, 4, Rule::life(), &[(3, 4)]);
    assert_eq!(alive(&u), vec![(3, 4)]);
}

#[test]
fn named_patterns_fit_the_default_grid() {
    let made = Universe::new(345, 149, Rule::life(), PositionSet::two_lwss_accident());
    assert!(made.is_ok());
    let small = Universe::new(100, 100, Rule::life(), PositionSet::monster_without_death());
    assert_eq!(small.err(), Some(UniverseError::InvalidCoordinate));
}

#[test]
fn neighbor_count_wraps_around_the_corner() {
    let u = universe(3, 3, Rule::life(), &[(0, 0)]);
    assert_eq!(u.live_neighbor_count(2, 2), 1);
}

#[test]
fn neighbor_count_on_a_three_by_three_grid_sees_the_cell_from_everywhere() {
    let u = universe(3, 3, Rule::life(), &[(0, 0)]);
    for row in 0..3 {
        for col in 0..3 {
            let expected: u8 = if (row, col) == (0, 0) { 0 } else { 1 };
            assert_eq!(u.live_neighbor_count(row, col), expected);
        }
    }
}

#[test]
fn neighbor_count_wraps_rows_and_columns_apart() {
    let u = universe(6, 5, Rule::life(), &[(4, 2), (0, 5), (2, 0)]);
    // Row 0 sees row 4 above it.
    assert_eq!(u.live_neighbor_count(0, 2), 1);
    assert_eq!(u.live_neighbor_count(0, 1), 1);
    assert_eq!(u.live_neighbor_count(0, 3), 1);
    // Column 0 sees column 5 to its left.
    assert_eq!(u.live_neighbor_count(0, 0), 1);
    assert_eq!(u.live_neighbor_count(1, 0), 2);
    assert_eq!(u.live_neighbor_count(4, 0), 1);
    // Column 5 sees column 0 to its right.
    assert_eq!(u.live_neighbor_count(2, 5), 1);
    assert_eq!(u.live_neighbor_count(1, 5), 2);
    // A cell does not count itself.
    assert_eq!(u.live_neighbor_count(4, 2), 0);
    // Far from everything.
    assert_eq!(u.live_neighbor_count(2, 3), 0);
}

#[test]
fn neighbor_count_reaches_eight() {
    let u = universe(
        4,
        4,
        Rule::life(),
        &[(0, 0), (0, 1), (0, 2), (1, 0), (1, 2), (2, 0), (2, 1), (2, 2)],
    );
    assert_eq!(u.live_neighbor_count(1, 1), 8);
    let full = universe(4, 4, Rule::life(), &all_cells(4, 4));
    assert_eq!(full.live_neighbor_count(0, 0), 8);
    assert_eq!(full.live_neighbor_count(3, 3), 8);
}

#[test]
fn neighbor_count_on_a_single_cell_grid_counts_the_cell_eight_times() {
    let u = universe(1, 1, Rule::life(), &[(0, 0)]);
    assert_eq!(u.live_neighbor_count(0, 0), 8);
}

#[test]
fn queries_wrap_coordinates_outside_the_grid() {
    let u = universe(6, 5, Rule::life(), &[(4, 2)]);
    assert!(u.get(9, 8));
    assert!(u.get(4, 2));
    assert!(!u.get(5, 2));
    assert_eq!(u.live_neighbor_count(5, 2), u.live_neighbor_count(0, 2));
    assert_eq!(u.live_neighbor_count(5, 7), 1);
    assert!(u.is_dirty(9, 8));
}

#[test]
fn isolated_cell_dies() {
    let mut u = universe(5, 5, Rule::life(), &[(2, 2)]);
    assert_eq!(u.live_neighbor_count(2, 2), 0);
    u.tick();
    assert_eq!(alive(&u), Vec::<(u32, u32)>::new());
}

#[test]
fn blinker_oscillates() {
    let mut u = universe(5, 5, Rule::life(), &[(2, 1), (2, 2), (2, 3)]);
    u.tick();
    assert_eq!(alive(&u), vec![(1, 2), (2, 2), (3, 2)]);
    u.tick();
    assert_eq!(alive(&u), vec![(2, 1), (2, 2), (2, 3)]);
}

#[test]
fn block_is_still_and_leaves_nothing_dirty() {
    let mut u = universe(6, 6, Rule::life(), &[(2, 2), (2, 3), (3, 2), (3, 3)]);
    u.tick();
    assert_eq!(alive(&u), vec![(2, 2), (2, 3), (3, 2), (3, 3)]);
    assert_eq!(dirty(&u), Vec::<(u32, u32)>::new());
    u.tick();
    assert_eq!(alive(&u), vec![(2, 2), (2, 3), (3, 2), (3, 3)]);
}

#[test]
fn glider_moves_one_cell_diagonally_in_four_generations() {
    let glider = PositionSet::glider();
    let seed: Vec<(u32, u32)> = glider.positions().clone();
    let mut u = universe(5, 5, Rule::life(), &seed);
    for _ in 0..4 {
        u.tick();
    }
    let mut moved: Vec<(u32, u32)> = seed.iter().map(|(r, c)| (r + 1, c + 1)).collect();
    moved.sort();
    assert_eq!(alive(&u), moved);
}

#[test]
fn glider_keeps_moving_on_a_larger_grid() {
    let seed: Vec<(u32, u32)> = PositionSet::glider().positions().clone();
    let mut u = universe(12, 9, Rule::life(), &seed);
    for _ in 0..12 {
        u.tick();
    }
    let mut moved: Vec<(u32, u32)> = seed.iter().map(|(r, c)| (r + 3, c + 3)).collect();
    moved.sort();
    assert_eq!(alive(&u), moved);
}

#[test]
fn glider_crosses_the_edge() {
    let seed: Vec<(u32, u32)> = PositionSet::glider().positions().clone();
    let mut u = universe(5, 5, Rule::life(), &seed);
    for _ in 0..20 {
        u.tick();
    }
    let mut home: Vec<(u32, u32)> = seed.clone();
    home.sort();
    assert_eq!(alive(&u), home);
}

#[test]
fn tick_marks_the_neighbourhoods_of_the_cells_that_changed() {
    let mut u = universe(7, 7, Rule::life(), &[(3, 3)]);
    u.tick();
    assert_eq!(alive(&u), Vec::<(u32, u32)>::new());
    assert_eq!(dirty(&u), around(7, 7, 3, 3));
    u.tick();
    assert_eq!(dirty(&u), Vec::<(u32, u32)>::new());
}

#[test]
fn tick_marks_across_the_edge() {
    let mut u = universe(7, 6, Rule::life(), &[(0, 6)]);
    u.tick();
    assert_eq!(dirty(&u), around(7, 6, 0, 6));
    assert!(u.is_dirty(5, 0));
    assert!(u.is_dirty(1, 5));
}

#[test]
fn changed_cells_were_dirty() {
    let rules: Vec<Rule> = vec![Rule::life(), Rule::maze(), Rule::morley(), Rule::freeze()];
    for rule in rules {
        let mut u = universe(9, 7, rule, &scatter(9, 7));
        for _ in 0..25 {
            let cells_before = snapshot(&u);
            let dirty_before = dirty(&u);
            u.tick();
            let cells_after = snapshot(&u);
            for row in 0..7u32 {
                for col in 0..9u32 {
                    if cells_before[row as usize][col as usize]
                        != cells_after[row as usize][col as usize]
                    {
                        assert!(dirty_before.contains(&(row, col)));
                    }
                }
            }
        }
    }
}

#[test]
fn tracked_engine_agrees_with_a_full_scan() {
    let names: Vec<fn() -> Rule> = vec![
        Rule::life,
        Rule::maze,
        Rule::morley,
        Rule::freeze,
        Rule::life_without_death,
        Rule::modified_life_without_death,
    ];
    for make in names {
        let rule = make();
        let mut u = universe(11, 8, make(), &scatter(11, 8));
        let mut expected = snapshot(&u);
        for _ in 0..30 {
            u.tick();
            expected = full_scan(11, 8, &rule, &expected);
            assert_eq!(snapshot(&u), expected);
        }
    }
}

#[test]
fn tracked_engine_agrees_with_a_full_scan_when_dead_cells_are_born_alone() {
    let rule = Rule::new(vec![0, 2], vec![1, 8]);
    let mut u = universe(6, 5, Rule::new(vec![0, 2], vec![1, 8]), &[(1, 1), (3, 4)]);
    let mut expected = snapshot(&u);
    for _ in 0..12 {
        u.tick();
        expected = full_scan(6, 5, &rule, &expected);
        assert_eq!(snapshot(&u), expected);
    }
}

#[test]
fn tracked_engine_agrees_with_a_full_scan_after_edits() {
    let rule = Rule::life();
    let mut u = universe(10, 10, Rule::life(), &scatter(10, 10));
    let mut expected = snapshot(&u);
    for round in 0..10u32 {
        u.tick();
        expected = full_scan(10, 10, &rule, &expected);
        assert_eq!(snapshot(&u), expected);
        assert_eq!(u.toggle_cell(round, 9 - round), Ok(()));
        assert_eq!(u.turn_cells_alive(&[(round, round), (0, round)]), Ok(()));
        expected = snapshot(&u);
    }
}

#[test]
fn toggle_flips_one_cell_and_marks_its_neighbourhood() {
    let mut u = universe(6, 6, Rule::life(), &[]);
    u.tick();
    assert_eq!(dirty(&u), Vec::<(u32, u32)>::new());
    assert_eq!(u.toggle_cell(2, 3), Ok(()));
    assert_eq!(alive(&u), vec![(2, 3)]);
    assert_eq!(dirty(&u), around(6, 6, 2, 3));
}

#[test]
fn toggle_twice_restores_the_cells() {
    let seed = scatter(6, 6);
    let mut u = universe(6, 6, Rule::life(), &seed);
    u.tick();
    let cells_before = snapshot(&u);
    for (row, col) in [(0u32, 0u32), (5, 5), (2, 3)] {
        assert_eq!(u.toggle_cell(row, col), Ok(()));
        assert_ne!(snapshot(&u), cells_before);
        let dirty_once = dirty(&u);
        assert_eq!(u.toggle_cell(row, col), Ok(()));
        assert_eq!(snapshot(&u), cells_before);
        assert_eq!(dirty(&u), dirty_once);
    }
}

#[test]
fn toggle_outside_the_grid_is_refused_and_changes_nothing() {
    let mut u = universe(6, 4, Rule::life(), &[(1, 1)]);
    u.tick();
    let cells_before = snapshot(&u);
    let dirty_before = dirty(&u);
    assert_eq!(u.toggle_cell(4, 0), Err(UniverseError::InvalidCoordinate));
    assert_eq!(u.toggle_cell(0, 6), Err(UniverseError::InvalidCoordinate));
    assert_eq!(u.toggle_cell(u32::MAX, u32::MAX), Err(UniverseError::InvalidCoordinate));
    assert_eq!(snapshot(&u), cells_before);
    assert_eq!(dirty(&u), dirty_before);
}

#[test]
fn toggle_before_a_tick_is_seen_by_that_tick() {
    let mut u = universe(8, 8, Rule::life(), &[(3, 2), (3, 4)]);
    u.tick();
    u.tick();
    assert_eq!(alive(&u), Vec::<(u32, u32)>::new());
    assert_eq!(dirty(&u), Vec::<(u32, u32)>::new());
    assert_eq!(u.turn_cells_alive(&[(3, 2), (3, 4)]), Ok(()));
    assert_eq!(u.toggle_cell(3, 3), Ok(()));
    u.tick();
    assert_eq!(alive(&u), vec![(2, 3), (3, 3), (4, 3)]);
}

#[test]
fn turn_cells_alive_sets_every_listed_cell() {
    let mut u = universe(6, 6, Rule::life(), &[(0, 0), (2, 2)]);
    u.tick();
    u.tick();
    assert_eq!(alive(&u), Vec::<(u32, u32)>::new());
    assert_eq!(u.turn_cells_alive(&[(5, 5), (2, 2), (5, 5)]), Ok(()));
    assert_eq!(alive(&u), vec![(2, 2), (5, 5)]);
    let mut expected: Vec<(u32, u32)> = around(6, 6, 5, 5);
    expected.extend(around(6, 6, 2, 2));
    expected.sort();
    expected.dedup();
    assert_eq!(dirty(&u), expected);
}

#[test]
fn turn_cells_alive_keeps_live_cells_alive_and_still_marks_them() {
    let mut u = universe(6, 6, Rule::life(), &[(2, 2), (2, 3), (3, 2), (3, 3)]);
    u.tick();
    assert_eq!(dirty(&u), Vec::<(u32, u32)>::new());
    assert_eq!(u.turn_cells_alive(&[(2, 2)]), Ok(()));
    assert_eq!(alive(&u), vec![(2, 2), (2, 3), (3, 2), (3, 3)]);
    assert_eq!(dirty(&u), around(6, 6, 2, 2));
}

#[test]
fn turn_cells_alive_with_a_cell_outside_changes_nothing() {
    let mut u = universe(6, 4, Rule::life(), &[(1, 1)]);
    u.tick();
    let cells_before = snapshot(&u);
    let dirty_before = dirty(&u);
    assert_eq!(
        u.turn_cells_alive(&[(0, 0), (3, 5), (4, 0)]),
        Err(UniverseError::InvalidCoordinate)
    );
    assert_eq!(u.turn_cells_alive(&[(0, 6)]), Err(UniverseError::InvalidCoordinate));
    assert_eq!(snapshot(&u), cells_before);
    assert_eq!(dirty(&u), dirty_before);
    assert_eq!(u.turn_cells_alive(&[]), Ok(()));
    assert_eq!(snapshot(&u), cells_before);
    assert_eq!(dirty(&u), dirty_before);
}

#[test]
fn resize_kills_every_cell_and_marks_every_cell() {
    let mut u = universe(6, 6, Rule::life(), &[(2, 2), (2, 3), (3, 2), (3, 3)]);
    u.tick();
    u.resize(4, 9);
    assert_eq!(u.width(), 4);
    assert_eq!(u.height(), 9);
    assert_eq!(alive(&u), Vec::<(u32, u32)>::new());
    assert_eq!(dirty(&u), all_cells(4, 9));
    assert_eq!(u.get_cells().len(), 36);
}

#[test]
fn resize_to_the_same_dimensions_still_resets() {
    let mut u = universe(6, 6, Rule::life(), &[(2, 2), (2, 3), (3, 2), (3, 3)]);
    u.tick();
    u.resize(6, 6);
    assert_eq!(alive(&u), Vec::<(u32, u32)>::new());
    assert_eq!(dirty(&u), all_cells(6, 6));
}

#[test]
fn resize_keeps_the_rule() {
    let mut u = universe(3, 3, Rule::life(), &[]);
    u.resize(8, 8);
    assert_eq!(u.turn_cells_alive(&[(3, 2), (3, 3), (3, 4)]), Ok(()));
    u.tick();
    assert_eq!(alive(&u), vec![(2, 3), (3, 3), (4, 3)]);
}

#[test]
fn set_width_and_set_height_reset_like_resize() {
    let mut u = universe(6, 6, Rule::life(), &[(2, 2), (2, 3), (3, 2), (3, 3)]);
    u.tick();
    u.set_width(9);
    assert_eq!((u.width(), u.height()), (9, 6));
    assert_eq!(alive(&u), Vec::<(u32, u32)>::new());
    assert_eq!(dirty(&u), all_cells(9, 6));
    assert_eq!(u.toggle_cell(5, 8), Ok(()));
    u.tick();
    u.set_height(2);
    assert_eq!((u.width(), u.height()), (9, 2));
    assert_eq!(alive(&u), Vec::<(u32, u32)>::new());
    assert_eq!(dirty(&u), all_cells(9, 2));
    assert_eq!(u.toggle_cell(1, 8), Ok(()));
    assert_eq!(u.toggle_cell(2, 0), Err(UniverseError::InvalidCoordinate));
}

#[test]
fn cells_are_packed_row_major_into_blocks() {
    let u = universe(7, 6, Rule::life(), &[(0, 0), (0, 6), (1, 0), (4, 3), (5, 6)]);
    let blocks: &[u32] = u.cells();
    assert_eq!(blocks.len(), 2);
    // Positions 0, 6, 7, 31 and 41 of 42.
    assert_eq!(blocks[0], (1 << 0) | (1 << 6) | (1 << 7) | (1 << 31));
    assert_eq!(blocks[1], 1 << (41 - 32));
}

#[test]
fn get_cells_is_the_same_buffer_bit_by_bit() {
    let u = universe(7, 6, Rule::life(), &[(0, 0), (0, 6), (1, 0), (4, 3), (5, 6)]);
    let bits = u.get_cells();
    assert_eq!(bits.len(), 42);
    for row in 0..6u32 {
        for col in 0..7u32 {
            assert_eq!(bits.contains((row * 7 + col) as usize), u.get(row, col));
        }
    }
    assert_eq!(bits.count_ones(..), 5);
}

#[test]
fn life_without_death_grows_the_monster() {
    let mut u = universe(
        345,
        149,
        Rule::life_without_death(),
        PositionSet::monster_without_death().positions(),
    );
    let mut count: usize = alive(&u).len();
    assert_eq!(count, 3);
    for _ in 0..5 {
        u.tick();
        let now: usize = alive(&u).len();
        assert!(now > count);
        count = now;
    }
}

#[test]
fn freeze_keeps_every_cell() {
    let seed = scatter(8, 8);
    let mut u = universe(8, 8, Rule::freeze(), &seed);
    let cells_before = snapshot(&u);
    u.tick();
    assert_eq!(snapshot(&u), cells_before);
    assert_eq!(dirty(&u), Vec::<(u32, u32)>::new());
}

#[test]
fn mark_all_makes_the_next_tick_scan_every_cell() {
    let mut u = universe(6, 6, Rule::life(), &[(2, 2), (2, 3), (3, 2), (3, 3)]);
    u.tick();
    assert_eq!(dirty(&u), Vec::<(u32, u32)>::new());
    let cells_before = snapshot(&u);
    u.mark_all();
    assert_eq!(dirty(&u), all_cells(6, 6));
    assert_eq!(snapshot(&u), cells_before);
    u.tick();
    assert_eq!(snapshot(&u), full_scan(6, 6, &Rule::life(), &cells_before));
    assert_eq!(dirty(&u), Vec::<(u32, u32)>::new());
}

#[test]
fn permanently_dirty_engine_is_the_full_scan_engine() {
    let rule = Rule::morley();
    let mut sparse = universe(9, 8, Rule::morley(), &scatter(9, 8));
    let mut scanned = universe(9, 8, Rule::morley(), &scatter(9, 8));
    let mut expected = snapshot(&sparse);
    for _ in 0..15 {
        sparse.tick();
        scanned.mark_all();
        scanned.tick();
        expected = full_scan(9, 8, &rule, &expected);
        assert_eq!(snapshot(&sparse), expected);
        assert_eq!(snapshot(&scanned), expected);
    }
}
