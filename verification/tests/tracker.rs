use toroidal_life::DirtyTracker;

fn marks(tracker: &DirtyTracker) -> Vec<(u32, u32)> {
    let mut found = Vec::new();
    for row in 0..tracker.height() {
        for col in 0..tracker.width() {
            if tracker.is_dirty(row, col) {
                found.push((row, col));
            }
        }
    }
    found
}

fn all_cells(width: u32, height: u32) -> Vec<(u32, u32)> {
    let mut cells = Vec::new();
    for row in 0..height {
        for col in 0..width {
            cells.push((row, col));
        }
    }
    cells
}

#[test]
fn new_tracker_marks_every_cell() {
    let tracker = DirtyTracker::new(4, 3);
    assert_eq!(tracker.width(), 4);
    assert_eq!(tracker.height(), 3);
    assert_eq!(marks(&tracker), all_cells(4, 3));
}

#[test]
fn take_and_clear_hands_out_the_marks_and_empties_the_tracker() {
    let mut tracker = DirtyTracker::new(4, 3);
    let snapshot = tracker.take_and_clear();
    assert_eq!(marks(&snapshot), all_cells(4, 3));
    assert_eq!(marks(&tracker), Vec::<(u32, u32)>::new());
    assert_eq!(snapshot.width(), 4);
    assert_eq!(snapshot.height(), 3);
}

#[test]
fn mark_neighborhood_marks_nine_cells() {
    let mut tracker = DirtyTracker::new(6, 5);
    tracker.take_and_clear();
    tracker.mark_neighborhood(2, 3);
    assert_eq!(
        marks(&tracker),
        vec![(1, 2), (1, 3), (1, 4), (2, 2), (2, 3), (2, 4), (3, 2), (3, 3), (3, 4)]
    );
}

#[test]
fn mark_neighborhood_wraps_at_the_corner() {
    let mut tracker = DirtyTracker::new(6, 5);
    tracker.take_and_clear();
    tracker.mark_neighborhood(0, 0);
    assert_eq!(
        marks(&tracker),
        vec![(0, 0), (0, 1), (0, 5), (1, 0), (1, 1), (1, 5), (4, 0), (4, 1), (4, 5)]
    );
}

#[test]
fn mark_neighborhood_wraps_at_the_far_corner() {
    let mut tracker = DirtyTracker::new(6, 5);
    tracker.take_and_clear();
    tracker.mark_neighborhood(4, 5);
    assert_eq!(
        marks(&tracker),
        vec![(0, 0), (0, 4), (0, 5), (3, 0), (3, 4), (3, 5), (4, 0), (4, 4), (4, 5)]
    );
}

#[test]
fn mark_neighborhood_accumulates() {
    let mut tracker = DirtyTracker::new(8, 8);
    tracker.take_and_clear();
    tracker.mark_neighborhood(1, 1);
    tracker.mark_neighborhood(1, 2);
    assert_eq!(
        marks(&tracker),
        vec![
            (0, 0),
            (0, 1),
            (0, 2),
            (0, 3),
            (1, 0),
            (1, 1),
            (1, 2),
            (1, 3),
            (2, 0),
            (2, 1),
            (2, 2),
            (2, 3)
        ]
    );
}

#[test]
fn mark_neighborhood_on_a_tiny_grid_marks_each_cell_once() {
    let mut tracker = DirtyTracker::new(2, 1);
    tracker.take_and_clear();
    tracker.mark_neighborhood(0, 0);
    assert_eq!(marks(&tracker), vec![(0, 0), (0, 1)]);
}

#[test]
fn coordinates_outside_the_grid_wrap() {
    let mut tracker = DirtyTracker::new(6, 5);
    tracker.take_and_clear();
    tracker.mark_neighborhood(7, 9);
    let mut same = DirtyTracker::new(6, 5);
    same.take_and_clear();
    same.mark_neighborhood(2, 3);
    assert_eq!(marks(&tracker), marks(&same));
    assert!(tracker.is_dirty(7, 9));
    assert!(tracker.is_dirty(2 + 5, 3));
    assert!(!tracker.is_dirty(5, 6));
}

#[test]
fn mark_all_marks_every_cell_again() {
    let mut tracker = DirtyTracker::new(3, 2);
    tracker.take_and_clear();
    tracker.mark_neighborhood(0, 0);
    tracker.mark_all();
    assert_eq!(marks(&tracker), all_cells(3, 2));
}

#[test]
fn is_dirty_at_reads_row_major_positions() {
    let mut tracker = DirtyTracker::new(7, 5);
    tracker.take_and_clear();
    tracker.mark_neighborhood(2, 3);
    for i in 0..35usize {
        let row = (i / 7) as u32;
        let col = (i % 7) as u32;
        assert_eq!(tracker.is_dirty_at(i), tracker.is_dirty(row, col));
    }
    assert!(tracker.is_dirty_at(2 * 7 + 3));
    assert!(!tracker.is_dirty_at(0));
}
