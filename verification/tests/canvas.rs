use pattern_editor::canvas::{Canvas, CanvasAction};

#[test]
fn new_surface_is_not_measured() {
    let canvas = Canvas::new(60, 100);
    assert!(canvas.is_first_render);
    assert_eq!(canvas.display_size, (60, 100));
}

#[test]
fn first_update_measures_listens_and_draws() {
    let mut canvas = Canvas::new(60, 100);
    let action = canvas.update(Some((640, 480)));
    assert_eq!(action, CanvasAction { listen_for_resize: true, render: true });
    assert_eq!(canvas, Canvas { is_first_render: false, display_size: (640, 480) });
}

#[test]
fn later_updates_only_draw() {
    let mut canvas = Canvas::new(60, 100);
    canvas.update(Some((640, 480)));
    let action = canvas.update(Some((800, 600)));
    assert_eq!(action, CanvasAction { listen_for_resize: false, render: true });
    assert_eq!(canvas, Canvas { is_first_render: false, display_size: (640, 480) });
}

#[test]
fn update_without_a_surface_does_nothing() {
    let mut canvas = Canvas::new(60, 100);
    let action = canvas.update(None);
    assert_eq!(action, CanvasAction { listen_for_resize: false, render: false });
    assert_eq!(canvas, Canvas { is_first_render: true, display_size: (60, 100) });
    // The surface is measured once it turns up.
    let action = canvas.update(Some((10, 20)));
    assert_eq!(action, CanvasAction { listen_for_resize: true, render: true });
    assert_eq!(canvas.display_size, (10, 20));
}

#[test]
fn resize_takes_the_new_size() {
    let mut canvas = Canvas::new(60, 100);
    canvas.update(Some((640, 480)));
    canvas.resize((320, 240));
    assert_eq!(canvas, Canvas { is_first_render: false, display_size: (320, 240) });
}
