use toroidal_life::{PositionSet, GRID_HEIGHT, GRID_WIDTH};

#[test]
fn default_dimensions() {
    assert_eq!(GRID_WIDTH, 345);
    assert_eq!(GRID_HEIGHT, 149);
}

#[test]
fn glider_cells() {
    let glider = PositionSet::glider();
    assert_eq!(glider.positions(), &vec![(0, 0), (1, 1), (1, 2), (2, 0), (2, 1)]);
}

#[test]
fn lwss_cells_sit_above_the_middle_row() {
    let lwss = PositionSet::lwss();
    assert_eq!(
        lwss.positions(),
        &vec![(71, 0), (71, 3), (72, 4), (73, 0), (73, 4), (74, 1), (74, 2), (74, 3), (74, 4)]
    );
}

#[test]
fn two_lwss_accident_mirrors_the_first_ship() {
    let pair = PositionSet::two_lwss_accident();
    assert_eq!(
        pair.positions(),
        &vec![
            (71, 0),
            (71, 3),
            (72, 4),
            (73, 0),
            (73, 4),
            (74, 1),
            (74, 2),
            (74, 3),
            (74, 4),
            (0, 72),
            (3, 72),
            (4, 73),
            (0, 74),
            (4, 74),
            (1, 75),
            (2, 75),
            (3, 75),
            (4, 75),
        ]
    );
}

#[test]
fn row_is_centred_on_the_middle_column() {
    let row = PositionSet::row(5);
    assert_eq!(row.positions(), &vec![(74, 170), (74, 171), (74, 172), (74, 173), (74, 174)]);
}

#[test]
fn row_of_even_length() {
    let row = PositionSet::row(4);
    assert_eq!(row.positions(), &vec![(74, 170), (74, 171), (74, 172), (74, 173)]);
}

#[test]
fn row_of_nothing_and_of_the_whole_width() {
    assert!(PositionSet::row(0).positions().is_empty());
    let full = PositionSet::row(345);
    assert_eq!(full.positions().len(), 345);
    assert_eq!(full.positions()[0], (74, 0));
    assert_eq!(full.positions()[344], (74, 344));
}

#[test]
fn column_is_centred_on_the_middle_row() {
    let column = PositionSet::column(3);
    assert_eq!(column.positions(), &vec![(73, 172), (74, 172), (75, 172)]);
}

#[test]
fn column_of_nothing_and_of_the_whole_height() {
    assert!(PositionSet::column(0).positions().is_empty());
    let full = PositionSet::column(149);
    assert_eq!(full.positions().len(), 149);
    assert_eq!(full.positions()[0], (0, 172));
    assert_eq!(full.positions()[148], (148, 172));
}

#[test]
fn monster_without_death_cells() {
    let monster = PositionSet::monster_without_death();
    assert_eq!(monster.positions(), &vec![(73, 172), (75, 171), (75, 173)]);
}

#[test]
fn empty_has_no_cells() {
    assert!(PositionSet::empty().positions().is_empty());
}

#[test]
fn new_keeps_order_and_repetition() {
    let set = PositionSet::new(vec![(2, 1), (0, 0), (2, 1)]);
    assert_eq!(set.positions(), &vec![(2, 1), (0, 0), (2, 1)]);
}
