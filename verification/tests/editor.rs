use pattern_editor::color::{Rgb, RgbError};
use pattern_editor::editor::{default_color, make_stroke_marks, Editor, PatternEditorFeature};
use pattern_editor::grid::Grid;
use pattern_editor::pattern::{GridCell, GridSize, Thread, ThreadType};

const RED: Rgb = Rgb { r: 255, g: 0, b: 0 };
const BLUE: Rgb = Rgb { r: 0, g: 0, b: 255 };

fn entries(grid: &Grid) -> Vec<(GridCell, Vec<Thread>)> {
    (0..grid.len()).map(|i| grid.entry(i).unwrap()).collect()
}

fn diagonals(color: Rgb) -> Vec<Thread> {
    vec![Thread::new(color, ThreadType::SlashForwards), Thread::new(color, ThreadType::SlashBackwards)]
}

#[test]
fn new_session_starts_with_the_brush() {
    let editor = Editor::new();
    assert_eq!(editor.active_feature(), PatternEditorFeature::Brush);
    assert!(!editor.is_mousedown());
    assert_eq!(editor.grid_size(), None);
    assert_eq!(editor.thread_color(), RED);
    assert_eq!(default_color(), RED);
    assert_eq!(editor.active_thread_cell(), (GridCell(0, 0), Vec::new()));
    assert_eq!(editor.selected_cell(), None);
    assert!(editor.clear());
    assert!(editor.grid().is_empty());
    assert!(editor.pending().is_empty());
    assert_eq!(editor.state().len(), 0);
    assert_eq!(Editor::default().active_feature(), PatternEditorFeature::Brush);
}

#[test]
fn stroke_marks_are_the_two_diagonals() {
    assert_eq!(make_stroke_marks(BLUE), diagonals(BLUE));
}

#[test]
fn brush_down_starts_a_stroke() {
    let mut editor = Editor::new();
    editor.pointer_down(GridCell(2, 3));
    assert!(editor.is_mousedown());
    assert_eq!(entries(editor.pending()), vec![(GridCell(2, 3), diagonals(RED))]);
    assert!(editor.grid().is_empty());
    assert_eq!(editor.state().len(), 0);
}

#[test]
fn brush_move_adds_cells_once() {
    let mut editor = Editor::new();
    editor.pointer_down(GridCell(0, 0));
    editor.pointer_move(GridCell(1, 0));
    editor.pointer_move(GridCell(1, 0));
    editor.pointer_move(GridCell(0, 0));
    editor.pointer_move(GridCell(2, 1));
    assert_eq!(
        entries(editor.pending()),
        vec![(GridCell(0, 0), diagonals(RED)), (GridCell(1, 0), diagonals(RED)), (GridCell(2, 1), diagonals(RED))]
    );
}

#[test]
fn move_without_a_stroke_does_nothing() {
    let mut editor = Editor::new();
    editor.pointer_move(GridCell(1, 0));
    assert!(editor.pending().is_empty());
    assert!(!editor.is_mousedown());
}

#[test]
fn brush_up_commits_the_stroke() {
    let mut editor = Editor::new();
    editor.pointer_down(GridCell(0, 0));
    editor.pointer_move(GridCell(1, 1));
    assert!(editor.pointer_up());
    assert!(!editor.is_mousedown());
    assert!(editor.pending().is_empty());
    assert_eq!(editor.state().len(), 1);
    assert_eq!(
        entries(editor.grid()),
        vec![(GridCell(0, 0), diagonals(RED)), (GridCell(1, 1), diagonals(RED))]
    );
}

#[test]
fn second_stroke_merges_into_the_grid_on_show() {
    let mut editor = Editor::new();
    editor.thread_change(GridCell(0, 0), &vec![Thread::new(BLUE, ThreadType::BorderTop), Thread::new(BLUE, ThreadType::SlashBackwards)]);
    editor.pointer_down(GridCell(0, 0));
    assert!(editor.pointer_up());
    assert_eq!(editor.state().len(), 2);
    assert_eq!(
        editor.grid().get(GridCell(0, 0)),
        vec![
            Thread::new(BLUE, ThreadType::BorderTop),
            Thread::new(RED, ThreadType::SlashBackwards),
            Thread::new(RED, ThreadType::SlashForwards),
        ]
    );
}

#[test]
fn up_without_down_commits_nothing() {
    let mut editor = Editor::new();
    assert!(!editor.pointer_up());
    assert_eq!(editor.state().len(), 0);
}

#[test]
fn fill_covers_the_known_size() {
    let mut editor = Editor::new();
    editor.set_grid_size(GridSize(2, 2));
    editor.set_feature(PatternEditorFeature::Fill);
    editor.pointer_down(GridCell(9, 9));
    assert!(editor.is_mousedown());
    assert_eq!(
        entries(editor.pending()),
        vec![
            (GridCell(0, 0), diagonals(RED)),
            (GridCell(1, 0), diagonals(RED)),
            (GridCell(0, 1), diagonals(RED)),
            (GridCell(1, 1), diagonals(RED)),
        ]
    );
    editor.pointer_move(GridCell(5, 5));
    assert_eq!(editor.pending().len(), 4);
    assert!(editor.pointer_up());
    assert_eq!(editor.grid().len(), 4);
    assert_eq!(editor.state().len(), 1);
}

#[test]
fn fill_without_a_size_covers_nothing() {
    let mut editor = Editor::new();
    editor.set_feature(PatternEditorFeature::Fill);
    editor.pointer_down(GridCell(0, 0));
    assert!(editor.is_mousedown());
    assert!(editor.pending().is_empty());
    assert!(editor.pointer_up());
    assert_eq!(editor.state().len(), 1);
    assert!(editor.grid().is_empty());
}

#[test]
fn pointer_click_selects_and_second_click_clears() {
    let mut editor = Editor::new();
    editor.set_grid_size(GridSize(4, 4));
    editor.set_feature(PatternEditorFeature::Pointer);
    editor.pointer_down(GridCell(1, 2));
    assert_eq!(editor.selected_cell(), Some(GridCell(1, 2)));
    assert!(!editor.is_mousedown());
    editor.pointer_down(GridCell(1, 2));
    assert_eq!(editor.selected_cell(), None);
    editor.pointer_down(GridCell(1, 2));
    editor.pointer_down(GridCell(3, 3));
    assert_eq!(editor.selected_cell(), Some(GridCell(3, 3)));
    assert!(!editor.pointer_up());
    assert_eq!(editor.state().len(), 0);
}

#[test]
fn pointer_click_shows_the_threads_of_the_cell() {
    let mut editor = Editor::new();
    editor.set_grid_size(GridSize(4, 4));
    editor.pointer_down(GridCell(1, 1));
    editor.pointer_up();
    editor.set_feature(PatternEditorFeature::Pointer);
    editor.pointer_down(GridCell(1, 1));
    assert_eq!(editor.active_thread_cell(), (GridCell(1, 1), diagonals(RED)));
    editor.pointer_down(GridCell(2, 2));
    assert_eq!(editor.active_thread_cell(), (GridCell(2, 2), Vec::new()));
}

#[test]
fn pointer_click_outside_the_pattern_keeps_the_active_cell() {
    let mut editor = Editor::new();
    editor.set_grid_size(GridSize(2, 2));
    editor.set_feature(PatternEditorFeature::Pointer);
    editor.pointer_down(GridCell(1, 1));
    editor.pointer_down(GridCell(2, 0));
    assert_eq!(editor.active_thread_cell(), (GridCell(1, 1), Vec::new()));
    assert_eq!(editor.selected_cell(), Some(GridCell(2, 0)));
}

#[test]
fn pointer_click_without_a_size_only_selects() {
    let mut editor = Editor::new();
    editor.set_feature(PatternEditorFeature::Pointer);
    editor.pointer_down(GridCell(0, 0));
    assert_eq!(editor.selected_cell(), Some(GridCell(0, 0)));
    assert_eq!(editor.active_thread_cell(), (GridCell(0, 0), Vec::new()));
    editor.pointer_down(GridCell(3, 1));
    assert_eq!(editor.active_thread_cell(), (GridCell(0, 0), Vec::new()));
}

#[test]
fn leaving_the_pointer_tool_clears_the_selection() {
    let mut editor = Editor::new();
    editor.set_feature(PatternEditorFeature::Pointer);
    editor.pointer_down(GridCell(1, 2));
    editor.set_feature(PatternEditorFeature::Pointer);
    assert_eq!(editor.selected_cell(), Some(GridCell(1, 2)));
    editor.set_feature(PatternEditorFeature::Brush);
    assert_eq!(editor.selected_cell(), None);
    assert_eq!(editor.active_feature(), PatternEditorFeature::Brush);
}

#[test]
fn release_under_the_pointer_tool_keeps_the_stroke() {
    let mut editor = Editor::new();
    editor.pointer_down(GridCell(0, 0));
    editor.set_feature(PatternEditorFeature::Pointer);
    assert!(!editor.pointer_up());
    assert!(editor.is_mousedown());
    assert_eq!(editor.pending().len(), 1);
    assert_eq!(editor.state().len(), 0);
    editor.pointer_move(GridCell(1, 0));
    assert_eq!(editor.pending().len(), 1);
}

#[test]
fn set_color_takes_a_valid_notation() {
    let mut editor = Editor::new();
    assert_eq!(editor.set_color("#0000ff".to_string()).unwrap(), BLUE);
    assert_eq!(editor.thread_color(), BLUE);
    editor.pointer_down(GridCell(0, 0));
    assert_eq!(entries(editor.pending()), vec![(GridCell(0, 0), diagonals(BLUE))]);
}

#[test]
fn set_color_keeps_the_colour_on_bad_text() {
    let mut editor = Editor::new();
    assert!(matches!(editor.set_color("12345".to_string()), Err(RgbError::InvalidInput(_))));
    assert_eq!(editor.thread_color(), RED);
    assert!(matches!(editor.set_color("#zzzzzz".to_string()), Err(RgbError::Conversion(_))));
    assert_eq!(editor.thread_color(), RED);
    assert!(matches!(editor.set_color(String::new()), Err(RgbError::InvalidInput(_))));
    assert_eq!(editor.thread_color(), RED);
}

#[test]
fn new_colour_waits_for_the_next_stroke() {
    let mut editor = Editor::new();
    editor.pointer_down(GridCell(0, 0));
    editor.set_color("#0000ff".to_string()).unwrap();
    editor.pointer_move(GridCell(1, 0));
    assert_eq!(
        entries(editor.pending()),
        vec![(GridCell(0, 0), diagonals(RED)), (GridCell(1, 0), diagonals(RED))]
    );
    editor.pointer_up();
    editor.pointer_down(GridCell(2, 0));
    assert_eq!(entries(editor.pending()), vec![(GridCell(2, 0), diagonals(BLUE))]);
}

#[test]
fn undo_takes_back_a_stroke() {
    let mut editor = Editor::new();
    editor.pointer_down(GridCell(0, 0));
    editor.pointer_up();
    editor.pointer_down(GridCell(1, 0));
    editor.pointer_up();
    editor.rendered();
    assert!(!editor.clear());
    editor.undo();
    assert!(editor.clear());
    assert_eq!(editor.state().len(), 1);
    assert_eq!(entries(editor.grid()), vec![(GridCell(0, 0), diagonals(RED))]);
    editor.undo();
    assert_eq!(editor.state().len(), 0);
    assert!(editor.grid().is_empty());
    editor.undo();
    assert_eq!(editor.state().len(), 0);
    assert!(editor.grid().is_empty());
}

#[test]
fn undo_drops_the_pending_change() {
    let mut editor = Editor::new();
    editor.pointer_down(GridCell(0, 0));
    editor.undo();
    assert!(editor.pending().is_empty());
}

#[test]
fn rendered_turns_the_clearing_off() {
    let mut editor = Editor::new();
    assert!(editor.clear());
    editor.rendered();
    assert!(!editor.clear());
    editor.rendered();
    assert!(!editor.clear());
}

#[test]
fn thread_change_merges_and_commits() {
    let mut editor = Editor::new();
    editor.pointer_down(GridCell(1, 1));
    editor.pointer_up();
    editor.thread_change(GridCell(1, 1), &vec![Thread::new(BLUE, ThreadType::SlashBackwards), Thread::new(BLUE, ThreadType::BorderTop)]);
    let expected = vec![
        Thread::new(RED, ThreadType::SlashForwards),
        Thread::new(BLUE, ThreadType::SlashBackwards),
        Thread::new(BLUE, ThreadType::BorderTop),
    ];
    assert_eq!(editor.grid().get(GridCell(1, 1)), expected);
    assert_eq!(editor.active_thread_cell(), (GridCell(1, 1), expected));
    assert_eq!(editor.state().len(), 2);
    editor.undo();
    assert_eq!(editor.grid().get(GridCell(1, 1)), diagonals(RED));
}

#[test]
fn thread_change_on_an_empty_cell_creates_it() {
    let mut editor = Editor::new();
    editor.thread_change(GridCell(3, 0), &vec![Thread::new(BLUE, ThreadType::BorderLeft)]);
    assert_eq!(editor.grid().get(GridCell(3, 0)), vec![Thread::new(BLUE, ThreadType::BorderLeft)]);
    assert_eq!(editor.state().len(), 1);
}

#[test]
fn closing_the_cell_editor_clears_the_selection() {
    let mut editor = Editor::new();
    editor.set_feature(PatternEditorFeature::Pointer);
    editor.pointer_down(GridCell(1, 2));
    editor.close_cell_editor();
    assert_eq!(editor.selected_cell(), None);
    assert_eq!(editor.active_feature(), PatternEditorFeature::Pointer);
}

#[test]
fn set_grid_size_is_kept() {
    let mut editor = Editor::new();
    editor.set_grid_size(GridSize(7, 9));
    assert_eq!(editor.grid_size(), Some(GridSize(7, 9)));
    editor.set_grid_size(GridSize(0, 0));
    assert_eq!(editor.grid_size(), Some(GridSize(0, 0)));
}

#[test]
fn pointer_move_tells_whether_it_stitched() {
    let mut editor = Editor::new();
    assert!(!editor.pointer_move(GridCell(0, 0)));
    editor.pointer_down(GridCell(0, 0));
    assert!(!editor.pointer_move(GridCell(0, 0)));
    assert!(editor.pointer_move(GridCell(0, 1)));
    assert!(!editor.pointer_move(GridCell(0, 1)));
    editor.pointer_up();
    assert!(!editor.pointer_move(GridCell(0, 2)));
}

#[test]
fn form_sets_the_size_from_two_counts() {
    let mut editor = Editor::new();
    assert!(editor.submit_dimensions("12", "7"));
    assert_eq!(editor.grid_size(), Some(GridSize(12, 7)));
    assert!(editor.submit_dimensions("+3", "007"));
    assert_eq!(editor.grid_size(), Some(GridSize(3, 7)));
    assert!(editor.submit_dimensions("0", "0"));
    assert_eq!(editor.grid_size(), Some(GridSize(0, 0)));
}

#[test]
fn form_with_bad_text_changes_nothing() {
    let mut editor = Editor::new();
    assert!(!editor.submit_dimensions("12", ""));
    assert_eq!(editor.grid_size(), None);
    editor.set_grid_size(GridSize(2, 2));
    for (columns, rows) in [("a", "1"), ("1", "b"), ("-1", "1"), ("1", " 1"), ("1.5", "1"), ("+", "1"),
        ("1", "++1"), ("1", "1_000"), ("\u{661}", "1"), ("1", "99999999999999999999999999")]
    {
        assert!(!editor.submit_dimensions(columns, rows));
        assert_eq!(editor.grid_size(), Some(GridSize(2, 2)));
    }
}
