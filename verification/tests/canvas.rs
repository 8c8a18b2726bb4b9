use screenshot::canvas::{handle_tool, Annotation, Canvas, Status, ToolEvent};
use screenshot::tools::Tool;

type Pt = (i32, i32);

fn start_at(x: i32, style: u8) -> ToolEvent<Pt, u8> {
    ToolEvent::DragStarted { pos: (x, x), style }
}

fn labels(c: &Canvas<Pt, u8>) -> Vec<Pt> {
    c.annotations
        .iter()
        .map(|a| match a {
            Annotation::Text { pos, .. } => *pos,
            Annotation::Rectangle { max, .. } => *max,
            Annotation::Arrow { end, .. } => *end,
            Annotation::Freehand { points, .. } => *points.last().unwrap(),
        })
        .collect()
}

fn canvas_with(xs: &[i32]) -> Canvas<Pt, u8> {
    let mut c = Canvas::new();
    for x in xs {
        handle_tool(&mut c, Tool::Text, start_at(*x, 0));
    }
    c
}

#[test]
fn new_canvas_is_empty() {
    let c: Canvas<Pt, u8> = Canvas::new();
    assert!(c.annotations.is_empty());
    assert!(c.redo_stack.is_empty());
    assert!(c.drawing.is_none());
    assert_eq!(c.status, Status::Empty);
    assert_eq!(c.status.text(), "");
}

#[test]
fn undo_then_redo_restores() {
    let mut c = canvas_with(&[1, 2, 3]);
    c.undo();
    assert_eq!(labels(&c), vec![(1, 1), (2, 2)]);
    assert_eq!(c.redo_stack.len(), 1);
    c.undo();
    assert_eq!(labels(&c), vec![(1, 1)]);
    c.redo();
    assert_eq!(labels(&c), vec![(1, 1), (2, 2)]);
    c.redo();
    assert_eq!(labels(&c), vec![(1, 1), (2, 2), (3, 3)]);
    assert!(c.redo_stack.is_empty());
}

#[test]
fn undo_and_redo_on_empty_stacks_do_nothing() {
    let mut c: Canvas<Pt, u8> = Canvas::new();
    c.undo();
    c.redo();
    assert!(c.annotations.is_empty() && c.redo_stack.is_empty());
}

#[test]
fn text_tool_places_label_and_sets_status() {
    let mut c = canvas_with(&[1, 2]);
    c.undo();
    handle_tool(&mut c, Tool::Text, ToolEvent::DragStarted { pos: (9, 8), style: 7 });
    match &c.annotations[1] {
        Annotation::Text { pos, text, style } => {
            assert_eq!(*pos, (9, 8));
            assert_eq!(text, "标注");
            assert_eq!(*style, 7);
        }
        _ => panic!("not a label"),
    }
    assert!(c.redo_stack.is_empty());
    assert!(c.drawing.is_none());
    assert_eq!(c.status, Status::TextAdded);
    assert_eq!(c.status.text(), "文字已添加");
}

#[test]
fn rectangle_stroke_keeps_first_corner() {
    let mut c: Canvas<Pt, u8> = Canvas::new();
    handle_tool(&mut c, Tool::Rectangle, ToolEvent::DragStarted { pos: (1, 2), style: 5 });
    assert_eq!(c.drawing, Some((Tool::Rectangle, 5)));
    handle_tool(&mut c, Tool::Rectangle, ToolEvent::Dragged((4, 4)));
    handle_tool(&mut c, Tool::Rectangle, ToolEvent::Dragged((6, 9)));
    assert!(matches!(c.annotations[..], [Annotation::Rectangle { min: (1, 2), max: (6, 9), style: 5 }]));
    handle_tool(&mut c, Tool::Rectangle, ToolEvent::Released { measured_small: false });
    assert_eq!(c.annotations.len(), 1);
    assert!(c.drawing.is_none());
    assert_eq!(c.status, Status::StrokeFinished);
    assert_eq!(c.status.text(), "标注完成");
}

#[test]
fn arrow_stroke_keeps_its_tail() {
    let mut c: Canvas<Pt, u8> = Canvas::new();
    handle_tool(&mut c, Tool::Arrow, ToolEvent::DragStarted { pos: (0, 0), style: 1 });
    assert!(matches!(c.annotations[..], [Annotation::Arrow { start: (0, 0), end: (0, 0), style: 1 }]));
    handle_tool(&mut c, Tool::Arrow, ToolEvent::Dragged((10, 3)));
    assert!(matches!(c.annotations[..], [Annotation::Arrow { start: (0, 0), end: (10, 3), style: 1 }]));
}

#[test]
fn freehand_stroke_appends_points() {
    let mut c: Canvas<Pt, u8> = Canvas::new();
    handle_tool(&mut c, Tool::Freehand, ToolEvent::DragStarted { pos: (0, 0), style: 2 });
    handle_tool(&mut c, Tool::Freehand, ToolEvent::Dragged((1, 1)));
    handle_tool(&mut c, Tool::Freehand, ToolEvent::Dragged((2, 3)));
    match &c.annotations[0] {
        Annotation::Freehand { points, style } => {
            assert_eq!(points, &vec![(0, 0), (1, 1), (2, 3)]);
            assert_eq!(*style, 2);
        }
        _ => panic!("not a line"),
    }
    handle_tool(&mut c, Tool::Freehand, ToolEvent::Released { measured_small: true });
    assert_eq!(c.annotations.len(), 1);
}

#[test]
fn single_point_freehand_line_is_dropped() {
    let mut c = canvas_with(&[1]);
    handle_tool(&mut c, Tool::Freehand, ToolEvent::DragStarted { pos: (5, 5), style: 2 });
    handle_tool(&mut c, Tool::Freehand, ToolEvent::Released { measured_small: false });
    assert_eq!(labels(&c), vec![(1, 1)]);
}

#[test]
fn small_arrow_is_dropped_and_redo_stays_cleared() {
    let mut c = canvas_with(&[1, 2]);
    c.undo();
    handle_tool(&mut c, Tool::Arrow, ToolEvent::DragStarted { pos: (2, 2), style: 0 });
    handle_tool(&mut c, Tool::Arrow, ToolEvent::Dragged((3, 3)));
    handle_tool(&mut c, Tool::Arrow, ToolEvent::Released { measured_small: true });
    assert_eq!(labels(&c), vec![(1, 1)]);
    assert!(c.redo_stack.is_empty());
    assert!(c.drawing.is_none());
    assert_eq!(c.status, Status::StrokeFinished);
}

#[test]
fn label_is_never_too_small() {
    let mut c = canvas_with(&[1]);
    handle_tool(&mut c, Tool::Text, ToolEvent::Released { measured_small: true });
    assert_eq!(labels(&c), vec![(1, 1)]);
}

#[test]
fn dragging_without_a_stroke_changes_nothing() {
    let mut c = canvas_with(&[1, 2]);
    handle_tool(&mut c, Tool::Freehand, ToolEvent::Dragged((7, 7)));
    assert_eq!(labels(&c), vec![(1, 1), (2, 2)]);
}

#[test]
fn freehand_drag_leaves_other_shapes_alone() {
    let mut c: Canvas<Pt, u8> = Canvas::new();
    handle_tool(&mut c, Tool::Freehand, ToolEvent::DragStarted { pos: (0, 0), style: 2 });
    c.undo();
    handle_tool(&mut c, Tool::Freehand, ToolEvent::Dragged((1, 1)));
    assert!(c.annotations.is_empty());
    let mut d = canvas_with(&[4]);
    d.drawing = Some((Tool::Freehand, 0));
    handle_tool(&mut d, Tool::Freehand, ToolEvent::Dragged((1, 1)));
    assert_eq!(labels(&d), vec![(4, 4)]);
}

#[test]
fn select_tool_cancels_stroke_and_draws_nothing() {
    let mut c = canvas_with(&[1]);
    handle_tool(&mut c, Tool::Freehand, ToolEvent::DragStarted { pos: (2, 2), style: 0 });
    assert!(c.drawing.is_some());
    handle_tool(&mut c, Tool::Select, ToolEvent::Idle);
    assert!(c.drawing.is_none());
    handle_tool(&mut c, Tool::Select, ToolEvent::DragStarted { pos: (5, 5), style: 0 });
    handle_tool(&mut c, Tool::Select, ToolEvent::Released { measured_small: true });
    assert_eq!(labels(&c), vec![(1, 1), (2, 2)]);
    assert_eq!(c.status, Status::TextAdded);
}

#[test]
fn new_annotation_clears_redo() {
    let mut c = canvas_with(&[1, 2, 3]);
    c.undo();
    c.undo();
    handle_tool(&mut c, Tool::Freehand, ToolEvent::DragStarted { pos: (4, 4), style: 0 });
    c.redo();
    assert_eq!(labels(&c), vec![(1, 1), (4, 4)]);
    assert!(c.redo_stack.is_empty());
}
