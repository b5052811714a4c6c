use pattern_editor::cell_editor::{find_thread_type_hex_value, on_change_event};
use pattern_editor::color::{Rgb, RgbError};
use pattern_editor::pattern::{GridCell, Thread, ThreadType};

const RED: Rgb = Rgb { r: 255, g: 0, b: 0 };
const GREEN: Rgb = Rgb { r: 0, g: 255, b: 0 };
const BLUE: Rgb = Rgb { r: 0, g: 0, b: 255 };

#[test]
fn field_shows_the_colour_of_its_thread() {
    let threads = [Thread::new(BLUE, ThreadType::BorderTop), Thread::new(GREEN, ThreadType::SlashForwards)];
    assert_eq!(find_thread_type_hex_value(ThreadType::SlashForwards, &threads, RED), "#00ff00");
    assert_eq!(find_thread_type_hex_value(ThreadType::BorderTop, &threads, RED), "#0000ff");
}

#[test]
fn field_shows_the_default_where_the_cell_has_no_such_thread() {
    let threads = [Thread::new(BLUE, ThreadType::BorderTop)];
    assert_eq!(find_thread_type_hex_value(ThreadType::BorderLeft, &threads, RED), "#ff0000");
    assert_eq!(find_thread_type_hex_value(ThreadType::BorderLeft, &[], GREEN), "#00ff00");
}

#[test]
fn field_shows_the_first_of_two_threads_of_its_type() {
    let threads = [Thread::new(BLUE, ThreadType::BorderTop), Thread::new(GREEN, ThreadType::BorderTop)];
    assert_eq!(find_thread_type_hex_value(ThreadType::BorderTop, &threads, RED), "#0000ff");
}

#[test]
fn change_recolours_the_thread_in_place() {
    let cell = (
        GridCell(1, 2),
        vec![Thread::new(BLUE, ThreadType::BorderTop), Thread::new(GREEN, ThreadType::SlashForwards)],
    );
    let changed = on_change_event(ThreadType::BorderTop, &cell, "#ff0000".to_string()).unwrap();
    assert_eq!(
        changed,
        (
            GridCell(1, 2),
            vec![Thread::new(RED, ThreadType::BorderTop), Thread::new(GREEN, ThreadType::SlashForwards)]
        )
    );
}

#[test]
fn change_adds_a_thread_of_a_new_type_at_the_end() {
    let cell = (GridCell(1, 2), vec![Thread::new(BLUE, ThreadType::BorderTop)]);
    let changed = on_change_event(ThreadType::BorderLeft, &cell, "00FF00".to_string()).unwrap();
    assert_eq!(
        changed,
        (
            GridCell(1, 2),
            vec![Thread::new(BLUE, ThreadType::BorderTop), Thread::new(GREEN, ThreadType::BorderLeft)]
        )
    );
    let empty = (GridCell(0, 0), Vec::new());
    let changed = on_change_event(ThreadType::BorderLeft, &empty, "#0000ff".to_string()).unwrap();
    assert_eq!(changed, (GridCell(0, 0), vec![Thread::new(BLUE, ThreadType::BorderLeft)]));
}

#[test]
fn change_to_bad_text_is_refused() {
    let cell = (GridCell(1, 2), vec![Thread::new(BLUE, ThreadType::BorderTop)]);
    assert!(matches!(
        on_change_event(ThreadType::BorderTop, &cell, String::new()),
        Err(RgbError::InvalidInput(_))
    ));
    assert!(matches!(
        on_change_event(ThreadType::BorderTop, &cell, "#zzzzzz".to_string()),
        Err(RgbError::Conversion(_))
    ));
    assert_eq!(cell.1, vec![Thread::new(BLUE, ThreadType::BorderTop)]);
}
