//! The annotation editor.

use pinwall::annotation::{Color, Shape, Tool};
use pinwall::editor::{AnnotationEditor, EditEvent, EditOutcome};
use pinwall::geom::{Point, Rect, Size};

fn u(v: f64) -> i64 {
    (v * 1_000_000.0).round() as i64
}

fn p(x: f64, y: f64) -> Point {
    Point::new(u(x), u(y))
}

fn rect(x: f64, y: f64, w: f64, h: f64) -> Rect {
    Rect::from_xywh(u(x), u(y), u(w), u(h))
}

fn drag(e: &mut AnnotationEditor, from: Point, to: Point) {
    e.handle(EditEvent::Down(from));
    e.handle(EditEvent::Move(to));
    e.handle(EditEvent::Up(to));
}

#[test]
fn draws_rect() {
    let mut e = AnnotationEditor::new();
    e.set_tool(Tool::Rect);
    drag(&mut e, p(10.0, 10.0), p(110.0, 60.0));
    assert_eq!(e.objects().len(), 1);
    assert_eq!(e.objects()[0].bounds(), rect(10.0, 10.0, 100.0, 50.0));
}

#[test]
fn reverse_drag_normalizes_bounds() {
    let mut e = AnnotationEditor::new();
    e.set_tool(Tool::Rect);
    drag(&mut e, p(110.0, 60.0), p(10.0, 10.0));
    assert_eq!(e.objects()[0].bounds(), rect(10.0, 10.0, 100.0, 50.0));
}

#[test]
fn click_without_drag_creates_nothing() {
    let mut e = AnnotationEditor::new();
    e.set_tool(Tool::Rect);
    drag(&mut e, p(10.0, 10.0), p(11.0, 11.0));
    assert!(e.is_empty(), "a figure this small is dropped");
}

#[test]
fn arrow_hit_uses_segment_distance_not_bounds() {
    let mut e = AnnotationEditor::new();
    e.set_tool(Tool::Arrow);
    drag(&mut e, p(0.0, 0.0), p(100.0, 100.0));
    let arrow = &e.objects()[0];
    assert!(arrow.hit(p(50.0, 50.0)), "on the line");
    assert!(!arrow.hit(p(95.0, 5.0)), "in the bounds, but far from the line");
}

#[test]
fn select_move_and_resize() {
    let mut e = AnnotationEditor::new();
    e.set_tool(Tool::Rect);
    drag(&mut e, p(10.0, 10.0), p(110.0, 60.0));

    e.set_tool(Tool::Select);
    drag(&mut e, p(50.0, 30.0), p(70.0, 50.0));
    assert_eq!(
        e.objects()[0].bounds(),
        rect(30.0, 30.0, 100.0, 50.0),
        "moving keeps the size"
    );

    let b = e.objects()[0].b;
    drag(&mut e, b, Point::new(b.x + u(40.0), b.y + u(20.0)));
    assert_eq!(e.objects()[0].bounds().size.width, u(140.0));
}

#[test]
fn handle_takes_priority_over_move() {
    let mut e = AnnotationEditor::new();
    e.set_tool(Tool::Rect);
    drag(&mut e, p(10.0, 10.0), p(110.0, 60.0));
    e.set_tool(Tool::Select);
    e.handle(EditEvent::Down(p(60.0, 35.0)));
    e.handle(EditEvent::Up(p(60.0, 35.0)));

    let a = e.objects()[0].a;
    drag(&mut e, a, Point::new(a.x - u(10.0), a.y - u(10.0)));
    assert_eq!(
        e.objects()[0].bounds(),
        rect(0.0, 0.0, 110.0, 60.0),
        "resized and not moved"
    );
}

#[test]
fn topmost_object_wins_hit_test() {
    let mut e = AnnotationEditor::new();
    e.set_tool(Tool::Rect);
    drag(&mut e, p(0.0, 0.0), p(100.0, 100.0));
    drag(&mut e, p(20.0, 20.0), p(80.0, 80.0));
    e.set_tool(Tool::Select);
    e.handle(EditEvent::Down(p(50.0, 50.0)));
    assert_eq!(e.selected(), Some(1), "the one added last");
}

#[test]
fn undo_redo_roundtrip() {
    let mut e = AnnotationEditor::new();
    e.set_tool(Tool::Rect);
    drag(&mut e, p(0.0, 0.0), p(50.0, 50.0));
    drag(&mut e, p(60.0, 60.0), p(90.0, 90.0));
    assert_eq!(e.objects().len(), 2);

    assert!(e.undo());
    assert_eq!(e.objects().len(), 1);
    assert!(e.undo());
    assert!(e.is_empty());
    assert!(!e.undo(), "nothing is left to undo");

    assert!(e.redo());
    assert_eq!(e.objects().len(), 1);
    assert!(e.redo());
    assert_eq!(e.objects().len(), 2);
    assert!(!e.redo(), "nothing is left to redo");
}

#[test]
fn new_action_truncates_redo_branch() {
    let mut e = AnnotationEditor::new();
    e.set_tool(Tool::Rect);
    drag(&mut e, p(0.0, 0.0), p(50.0, 50.0));
    drag(&mut e, p(60.0, 60.0), p(90.0, 90.0));
    e.undo();
    drag(&mut e, p(100.0, 100.0), p(150.0, 150.0));
    assert!(!e.redo(), "the old branch is gone");
    assert_eq!(e.objects().len(), 2);
}

#[test]
fn text_tool_requests_input_and_drops_empty() {
    let mut e = AnnotationEditor::new();
    e.set_tool(Tool::Text);
    let out = e.handle(EditEvent::Down(p(20.0, 20.0)));
    let EditOutcome::BeginTextInput(i) = out else {
        panic!("no text input: {out:?}");
    };
    e.finish_text(i);
    assert!(e.is_empty(), "a text without characters is dropped");
}

#[test]
fn text_with_content_is_kept() {
    let mut e = AnnotationEditor::new();
    e.set_tool(Tool::Text);
    let EditOutcome::BeginTextInput(i) = e.handle(EditEvent::Down(p(20.0, 20.0))) else {
        panic!("no text input");
    };
    e.set_text(i, "重点在这里".into());
    e.finish_text(i);
    assert_eq!(e.objects().len(), 1);
    assert_eq!(e.objects()[0].shape, Shape::Text("重点在这里".into()));
}

#[test]
fn delete_selected() {
    let mut e = AnnotationEditor::new();
    e.set_tool(Tool::Rect);
    drag(&mut e, p(0.0, 0.0), p(50.0, 50.0));
    e.set_tool(Tool::Select);
    e.handle(EditEvent::Down(p(25.0, 25.0)));
    assert!(e.delete_selected());
    assert!(e.is_empty());
    assert!(!e.delete_selected(), "nothing is selected");
}

#[test]
fn switching_tool_clears_selection() {
    let mut e = AnnotationEditor::new();
    e.set_tool(Tool::Rect);
    drag(&mut e, p(0.0, 0.0), p(50.0, 50.0));
    assert!(e.selected().is_some());
    e.set_tool(Tool::Arrow);
    assert_eq!(e.selected(), None);
}

#[test]
fn every_tool_draws_its_figure() {
    let figures = [
        (Tool::Rect, Shape::Rect),
        (Tool::Ellipse, Shape::Ellipse),
        (Tool::Line, Shape::Line),
        (Tool::Arrow, Shape::Arrow),
        (Tool::Highlight, Shape::Highlight),
        (Tool::Redact, Shape::Redact),
        (Tool::Number, Shape::Number(1)),
    ];
    for (tool, shape) in figures {
        let mut e = AnnotationEditor::new();
        e.set_tool(tool);
        drag(&mut e, p(10.0, 10.0), p(60.0, 60.0));
        assert_eq!(e.objects()[0].shape, shape);
        assert_eq!(e.objects()[0].color, Color::red());
        assert_eq!(e.objects()[0].width, u(3.0));
    }
}

#[test]
fn numbers_count_up_and_are_not_reused_while_they_show() {
    let mut e = AnnotationEditor::new();
    e.set_tool(Tool::Number);
    drag(&mut e, p(0.0, 0.0), p(20.0, 20.0));
    drag(&mut e, p(30.0, 0.0), p(50.0, 20.0));
    assert_eq!(e.objects()[1].shape, Shape::Number(2));
    e.set_tool(Tool::Select);
    e.handle(EditEvent::Down(p(10.0, 10.0)));
    e.handle(EditEvent::Up(p(10.0, 10.0)));
    assert!(e.delete_selected());
    e.set_tool(Tool::Number);
    drag(&mut e, p(60.0, 0.0), p(80.0, 20.0));
    assert_eq!(e.objects()[1].shape, Shape::Number(3));
}

#[test]
fn texts_take_the_room_that_they_need() {
    let mut e = AnnotationEditor::new();
    e.set_tool(Tool::Text);
    e.handle(EditEvent::Down(p(20.0, 20.0)));
    assert_eq!(e.objects()[0].bounds(), rect(20.0, 20.0, 160.0, 24.0));
    e.set_text_extent(0, Size::new(u(33.0), u(21.5)));
    assert_eq!(e.objects()[0].bounds(), rect(20.0, 20.0, 33.0, 21.5));
    e.set_text_extent(7, Size::new(u(1.0), u(1.0)));
    assert_eq!(e.objects().len(), 1);
}

#[test]
fn a_drag_is_under_way_until_the_button_is_up() {
    let mut e = AnnotationEditor::new();
    assert!(!e.has_active_drag());
    e.set_tool(Tool::Rect);
    e.handle(EditEvent::Down(p(0.0, 0.0)));
    assert!(e.has_active_drag());
    assert_eq!(e.handle(EditEvent::Move(p(9.0, 9.0))), EditOutcome::Redraw);
    assert_eq!(e.handle(EditEvent::Up(p(9.0, 9.0))), EditOutcome::Redraw);
    assert!(!e.has_active_drag());
    assert_eq!(e.handle(EditEvent::Move(p(1.0, 1.0))), EditOutcome::Idle);
    assert_eq!(e.handle(EditEvent::Up(p(1.0, 1.0))), EditOutcome::Idle);
}

#[test]
fn clicks_close_to_a_figure_hit_it() {
    let mut e = AnnotationEditor::new();
    e.set_tool(Tool::Rect);
    drag(&mut e, p(10.0, 10.0), p(60.0, 60.0));
    let o = &e.objects()[0];
    assert!(o.hit(p(7.0, 7.0)));
    assert!(!o.hit(p(6.9, 30.0)));
    assert!(!o.hit(p(63.0, 30.0)));
    assert!(o.hit(p(62.9, 30.0)));
}

#[test]
fn colours_and_widths_are_for_what_is_drawn_next() {
    let mut e = AnnotationEditor::new();
    assert_eq!((e.color(), e.width()), (Color::red(), u(3.0)));
    e.set_tool(Tool::Rect);
    drag(&mut e, p(0.0, 0.0), p(50.0, 50.0));
    let blue = Color { r: 0, g: 0, b: u(1.0), a: u(1.0) };
    e.set_color(blue);
    e.set_width(u(5.0));
    drag(&mut e, p(60.0, 60.0), p(90.0, 90.0));
    assert_eq!((e.color(), e.width()), (blue, u(5.0)));
    assert_eq!((e.objects()[0].color, e.objects()[0].width), (Color::red(), u(3.0)));
    assert_eq!((e.objects()[1].color, e.objects()[1].width), (blue, u(5.0)));
}

#[test]
fn a_whole_drag_is_one_step() {
    let mut e = AnnotationEditor::new();
    e.set_tool(Tool::Rect);
    drag(&mut e, p(0.0, 0.0), p(50.0, 50.0));
    e.set_tool(Tool::Select);
    e.handle(EditEvent::Down(p(25.0, 25.0)));
    for i in 0..10 {
        e.handle(EditEvent::Move(p(30.0 + i as f64, 25.0)));
    }
    e.handle(EditEvent::Up(p(39.0, 25.0)));
    assert!(!e.redo());
    assert_eq!(e.objects()[0].bounds(), rect(14.0, 0.0, 50.0, 50.0));
    assert!(e.undo());
    assert_eq!(e.objects()[0].bounds(), rect(0.0, 0.0, 50.0, 50.0));
    assert!(e.redo());
    assert_eq!(e.objects()[0].bounds(), rect(14.0, 0.0, 50.0, 50.0));
}

#[test]
fn a_small_drag_leaves_no_trace() {
    let mut e = AnnotationEditor::new();
    e.set_tool(Tool::Rect);
    e.handle(EditEvent::Down(p(10.0, 10.0)));
    e.handle(EditEvent::Move(p(90.0, 90.0)));
    e.handle(EditEvent::Move(p(11.0, 11.0)));
    e.handle(EditEvent::Up(p(11.0, 11.0)));
    assert!(e.is_empty() && e.selected().is_none() && !e.undo());
}

#[test]
fn the_selection_names_an_annotation() {
    let mut e = AnnotationEditor::new();
    e.set_tool(Tool::Rect);
    drag(&mut e, p(0.0, 0.0), p(50.0, 50.0));
    assert_eq!(e.selected(), Some(0));
    assert!(e.delete_selected());
    assert_eq!(e.selected(), None);
    assert!(e.undo());
    assert_eq!((e.objects().len(), e.selected()), (1, Some(0)));
}
