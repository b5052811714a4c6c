use pattern_editor::color::Rgb;
use pattern_editor::grid::Grid;
use pattern_editor::marks::{copy_marks, find_mark, merge_mark, merge_marks};
use pattern_editor::pattern::{GridCell, GridSize, Thread, ThreadType};

const RED: Rgb = Rgb { r: 255, g: 0, b: 0 };
const GREEN: Rgb = Rgb { r: 0, g: 255, b: 0 };
const BLUE: Rgb = Rgb { r: 0, g: 0, b: 255 };

fn entries(grid: &Grid) -> Vec<(GridCell, Vec<Thread>)> {
    (0..grid.len()).map(|i| grid.entry(i).unwrap()).collect()
}

#[test]
fn merge_replaces_in_kind_and_keeps_the_rest() {
    let mut grid = Grid::new();
    let cell = GridCell(2, 3);
    grid.merge(
        cell,
        &vec![Thread::new(BLUE, ThreadType::SlashForwards), Thread::new(GREEN, ThreadType::BorderTop)],
    );
    grid.merge(cell, &vec![Thread::new(RED, ThreadType::SlashForwards)]);
    assert_eq!(
        grid.get(cell),
        vec![Thread::new(RED, ThreadType::SlashForwards), Thread::new(GREEN, ThreadType::BorderTop)]
    );
    assert_eq!(grid.len(), 1);
}

#[test]
fn merge_appends_a_new_kind() {
    let mut grid = Grid::new();
    let cell = GridCell(0, 0);
    grid.merge(cell, &vec![Thread::new(BLUE, ThreadType::BorderLeft)]);
    grid.merge(cell, &vec![Thread::new(RED, ThreadType::BorderRight), Thread::new(GREEN, ThreadType::BorderLeft)]);
    assert_eq!(
        grid.get(cell),
        vec![Thread::new(GREEN, ThreadType::BorderLeft), Thread::new(RED, ThreadType::BorderRight)]
    );
}

#[test]
fn merge_of_two_threads_of_one_kind_keeps_the_later() {
    let mut grid = Grid::new();
    let cell = GridCell(1, 1);
    grid.merge(cell, &vec![Thread::new(BLUE, ThreadType::BorderTop), Thread::new(RED, ThreadType::BorderTop)]);
    assert_eq!(grid.get(cell), vec![Thread::new(RED, ThreadType::BorderTop)]);
}

#[test]
fn get_of_an_absent_cell_is_empty() {
    let mut grid = Grid::new();
    assert!(grid.is_empty());
    assert_eq!(grid.get(GridCell(4, 4)), Vec::new());
    assert!(!grid.contains(GridCell(4, 4)));
    grid.merge(GridCell(4, 5), &vec![Thread::new(RED, ThreadType::BorderTop)]);
    assert_eq!(grid.get(GridCell(4, 4)), Vec::new());
    assert_eq!(grid.get(GridCell(5, 4)), Vec::new());
    assert!(grid.contains(GridCell(4, 5)));
    assert!(!grid.is_empty());
}

#[test]
fn merge_creates_the_cell() {
    let mut grid = Grid::new();
    grid.merge(GridCell(7, 8), &Vec::new());
    assert!(grid.contains(GridCell(7, 8)));
    assert_eq!(grid.get(GridCell(7, 8)), Vec::new());
    assert_eq!(grid.len(), 1);
}

#[test]
fn merge_keeps_other_cells_and_their_order() {
    let mut grid = Grid::new();
    grid.merge(GridCell(0, 0), &vec![Thread::new(RED, ThreadType::BorderTop)]);
    grid.merge(GridCell(1, 0), &vec![Thread::new(GREEN, ThreadType::BorderTop)]);
    grid.merge(GridCell(0, 0), &vec![Thread::new(BLUE, ThreadType::BorderTop)]);
    assert_eq!(
        entries(&grid),
        vec![
            (GridCell(0, 0), vec![Thread::new(BLUE, ThreadType::BorderTop)]),
            (GridCell(1, 0), vec![Thread::new(GREEN, ThreadType::BorderTop)]),
        ]
    );
    assert_eq!(grid.entry(2), None);
}

#[test]
fn fill_region_covers_every_cell_row_by_row() {
    let mut grid = Grid::new();
    let marks = vec![Thread::new(RED, ThreadType::SlashForwards)];
    grid.fill_region(GridSize(2, 3), &marks);
    let expected: Vec<(GridCell, Vec<Thread>)> =
        [(0, 0), (1, 0), (0, 1), (1, 1), (0, 2), (1, 2)]
            .iter()
            .map(|&(column, row)| (GridCell(column, row), marks.clone()))
            .collect();
    assert_eq!(entries(&grid), expected);
    assert!(!grid.contains(GridCell(2, 0)));
    assert!(!grid.contains(GridCell(0, 3)));
}

#[test]
fn fill_region_merges_into_cells_that_hold_threads() {
    let mut grid = Grid::new();
    grid.merge(GridCell(1, 1), &vec![Thread::new(BLUE, ThreadType::BorderTop)]);
    grid.merge(GridCell(5, 5), &vec![Thread::new(BLUE, ThreadType::SlashForwards)]);
    grid.fill_region(GridSize(2, 2), &vec![Thread::new(RED, ThreadType::SlashForwards)]);
    assert_eq!(
        grid.get(GridCell(1, 1)),
        vec![Thread::new(BLUE, ThreadType::BorderTop), Thread::new(RED, ThreadType::SlashForwards)]
    );
    assert_eq!(grid.get(GridCell(5, 5)), vec![Thread::new(BLUE, ThreadType::SlashForwards)]);
    assert_eq!(grid.get(GridCell(0, 0)), vec![Thread::new(RED, ThreadType::SlashForwards)]);
    assert_eq!(grid.len(), 5);
}

#[test]
fn fill_region_without_cells_changes_nothing() {
    let mut grid = Grid::new();
    grid.fill_region(GridSize(0, 0), &vec![Thread::new(RED, ThreadType::SlashForwards)]);
    assert!(grid.is_empty());
    grid.fill_region(GridSize(3, 0), &vec![Thread::new(RED, ThreadType::SlashForwards)]);
    assert!(grid.is_empty());
    grid.fill_region(GridSize(0, 3), &vec![Thread::new(RED, ThreadType::SlashForwards)]);
    assert!(grid.is_empty());
}

#[test]
fn merge_grid_merges_each_cell_of_the_delta() {
    let mut grid = Grid::new();
    grid.merge(GridCell(0, 0), &vec![Thread::new(BLUE, ThreadType::BorderTop)]);
    grid.merge(GridCell(1, 0), &vec![Thread::new(BLUE, ThreadType::SlashForwards)]);
    let mut delta = Grid::new();
    delta.merge(GridCell(1, 0), &vec![Thread::new(RED, ThreadType::SlashForwards)]);
    delta.merge(GridCell(2, 0), &vec![Thread::new(GREEN, ThreadType::SlashBackwards)]);
    grid.merge_grid(&delta);
    assert_eq!(
        entries(&grid),
        vec![
            (GridCell(0, 0), vec![Thread::new(BLUE, ThreadType::BorderTop)]),
            (GridCell(1, 0), vec![Thread::new(RED, ThreadType::SlashForwards)]),
            (GridCell(2, 0), vec![Thread::new(GREEN, ThreadType::SlashBackwards)]),
        ]
    );
    assert_eq!(delta.len(), 2);
}

#[test]
fn clone_is_a_copy_of_its_own() {
    let mut grid = Grid::new();
    grid.merge(GridCell(0, 0), &vec![Thread::new(BLUE, ThreadType::BorderTop)]);
    let snapshot = grid.clone();
    grid.merge(GridCell(0, 0), &vec![Thread::new(RED, ThreadType::BorderTop)]);
    grid.merge(GridCell(1, 1), &vec![Thread::new(RED, ThreadType::BorderTop)]);
    assert_eq!(entries(&snapshot), vec![(GridCell(0, 0), vec![Thread::new(BLUE, ThreadType::BorderTop)])]);
    assert_eq!(grid.len(), 2);
}

#[test]
fn merge_mark_replaces_or_appends() {
    let mut marks = vec![Thread::new(BLUE, ThreadType::BorderTop), Thread::new(GREEN, ThreadType::BorderLeft)];
    merge_mark(&mut marks, Thread::new(RED, ThreadType::BorderLeft));
    assert_eq!(marks, vec![Thread::new(BLUE, ThreadType::BorderTop), Thread::new(RED, ThreadType::BorderLeft)]);
    merge_mark(&mut marks, Thread::new(RED, ThreadType::SlashBackwards));
    assert_eq!(
        marks,
        vec![
            Thread::new(BLUE, ThreadType::BorderTop),
            Thread::new(RED, ThreadType::BorderLeft),
            Thread::new(RED, ThreadType::SlashBackwards),
        ]
    );
}

#[test]
fn merge_marks_goes_first_to_last() {
    let mut marks = vec![Thread::new(BLUE, ThreadType::BorderTop)];
    merge_marks(
        &mut marks,
        &vec![
            Thread::new(GREEN, ThreadType::BorderBottom),
            Thread::new(RED, ThreadType::BorderTop),
            Thread::new(BLUE, ThreadType::BorderBottom),
        ],
    );
    assert_eq!(marks, vec![Thread::new(RED, ThreadType::BorderTop), Thread::new(BLUE, ThreadType::BorderBottom)]);
    merge_marks(&mut marks, &Vec::new());
    assert_eq!(marks.len(), 2);
}

#[test]
fn find_mark_gives_the_first_of_its_kind() {
    let marks = vec![Thread::new(BLUE, ThreadType::BorderTop), Thread::new(GREEN, ThreadType::BorderLeft)];
    assert_eq!(find_mark(&marks, ThreadType::BorderLeft), Some(Thread::new(GREEN, ThreadType::BorderLeft)));
    assert_eq!(find_mark(&marks, ThreadType::BorderRight), None);
    assert_eq!(find_mark(&Vec::new(), ThreadType::BorderTop), None);
    assert_eq!(copy_marks(&marks), marks);
}

#[test]
fn grid_size_holds_cells_below_its_bounds() {
    let size = GridSize(3, 2);
    assert!(size.contains(GridCell(0, 0)));
    assert!(size.contains(GridCell(2, 1)));
    assert!(!size.contains(GridCell(3, 1)));
    assert!(!size.contains(GridCell(2, 2)));
    assert!(!GridSize(0, 0).contains(GridCell(0, 0)));
}
