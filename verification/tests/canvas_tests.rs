use yosegaki::canvas::{data_url_payload, CanvasEditor, PenStroke, Press, TextCommit, Tool};

#[test]
fn pen_strokes_follow_the_pointer() {
    let mut pen = PenStroke::new();
    assert!(!pen.drags());
    pen.press();
    assert!(pen.drags());
    pen.release();
    assert!(!pen.drags());
}

#[test]
fn shared_canvas_pen_draws_and_marks_unsaved_work() {
    let mut e = CanvasEditor::new();
    assert_eq!(e.tool, Tool::Pen);
    assert!(!e.drags());
    assert_eq!(e.press(3, 4), Press::BeginStroke { x: 3, y: 4 });
    assert!(e.drags());
    assert!(e.unsaved);
    e.release();
    assert!(!e.drags());
}

#[test]
fn text_tool_marks_a_point_and_places_the_text() {
    let mut e = CanvasEditor::new();
    e.select_tool(Tool::Text);
    assert_eq!(e.press(10, 20), Press::MarkText { x: 10, y: 20 });
    assert!(!e.drags());
    assert_eq!(e.pending_text, Some((10, 20)));
    assert_eq!(e.commit_text("おめでとう"), TextCommit::Draw { x: 10, y: 20 });
    assert_eq!(e.pending_text, None);
    assert!(e.unsaved);
}

#[test]
fn blank_text_is_not_drawn() {
    let mut e = CanvasEditor::new();
    e.select_tool(Tool::Text);
    e.press(1, 1);
    assert_eq!(e.commit_text("  \u{3000} "), TextCommit::Skip);
    assert_eq!(e.pending_text, None);
    assert!(!e.unsaved);
    assert_eq!(e.commit_text("late"), TextCommit::NothingPending);
}

#[test]
fn cancelling_drops_the_mark() {
    let mut e = CanvasEditor::new();
    e.select_tool(Tool::Text);
    e.press(5, 6);
    e.cancel_text();
    assert_eq!(e.pending_text, None);
}

#[test]
fn undo_only_touches_unsaved_work() {
    let mut e = CanvasEditor::new();
    assert!(!e.discard_unsaved());
    e.press(0, 0);
    e.release();
    e.mark_saved();
    assert!(!e.discard_unsaved());
    e.press(1, 1);
    assert!(e.discard_unsaved());
    assert!(!e.drags());
    assert!(!e.discard_unsaved());
}

#[test]
fn data_url_payload_is_what_follows_the_comma() {
    assert_eq!(data_url_payload("data:image/png;base64,iVBORw0KGgo="), "iVBORw0KGgo=");
    assert_eq!(data_url_payload("no comma here"), "");
    assert_eq!(data_url_payload("a,b,c"), "b,c");
}
