//! Pinned images: annotating, typing, keys and what they lead to.

use pinwall::annotation::{Shape, Tool};
use pinwall::bitmap::Flattening;
use pinwall::draw::{DrawCommand, Rgba};
use pinwall::effect::Effect;
use pinwall::geom::{Point, Rect, Size};
use pinwall::image::{CapturedImage, PinImage};
use pinwall::input::{HandlerId, KeyPress, PointerEvent};
use pinwall::pin::{make_pin, Pin, PinAction, TEXT_FONT_SIZE};
use pinwall::pin_view::{FieldFacts, Press};
use pinwall::pin_window::PinWindow;
use pinwall::platform::Os;

fn u(v: f64) -> i64 {
    (v * 1_000_000.0).round() as i64
}

fn point(x: f64, y: f64) -> Point {
    Point::new(u(x), u(y))
}

fn rect(x: f64, y: f64, w: f64, h: f64) -> Rect {
    Rect::from_xywh(u(x), u(y), u(w), u(h))
}

fn pin() -> Pin {
    let image = CapturedImage {
        width: 200,
        height: 100,
        scale: u(2.0),
        bgra: vec![7; 200 * 100 * 4],
    };
    let mut window = PinWindow::new(u(956.0));
    let mut fx = Vec::new();
    let borrowed = PinImage { width: 200, height: 100, scale: u(2.0), bgra: &image.bgra };
    window.set_image(&borrowed, rect(0.0, 0.0, 100.0, 50.0), &mut fx).unwrap();
    window.set_pointer_handler(HandlerId(1));
    make_pin(window, image, HandlerId(2), HandlerId(3))
}

fn facts(text: &str, width: f64, editing: bool) -> FieldFacts {
    FieldFacts { text: text.into(), measured: Size::new(u(width), u(20.0)), editing }
}

fn draw(p: &mut Pin, tool: Tool, from: Point, to: Point) {
    p.editor.set_tool(tool);
    p.events.push(PointerEvent::Down(from));
    p.events.push(PointerEvent::Moved(to));
    p.events.push(PointerEvent::Up(to));
    assert!(p.pump_annotation(&mut Vec::new()));
}

/// Presses keys and returns whether to draw again, and the actions.
fn keys(p: &mut Pin, list: &[KeyPress]) -> (bool, Vec<PinAction>) {
    p.keys.extend_from_slice(list);
    let r = p.pump_keys(None, &mut Vec::new());
    assert!(p.keys.is_empty());
    r
}

#[test]
fn annotations_become_commands() {
    let mut p = pin();
    draw(&mut p, Tool::Rect, point(0.0, 0.0), point(10.0, 20.0));
    draw(&mut p, Tool::Arrow, point(5.0, 5.0), point(30.0, 40.0));
    let red = Rgba::new(u(1.0), u(0.23), u(0.19), u(1.0));
    assert_eq!(
        p.draw_commands(),
        vec![
            DrawCommand::Rect { rect: rect(0.0, 0.0, 10.0, 20.0), color: red, width: u(3.0) },
            DrawCommand::Arrow {
                from: point(5.0, 5.0),
                to: point(30.0, 40.0),
                color: red,
                width: u(3.0),
            },
            DrawCommand::SelectionBox { rect: rect(5.0, 5.0, 25.0, 35.0) },
        ]
    );
    assert_eq!(p.export_commands().len(), 2, "the selection box is not exported");
}

#[test]
fn every_figure_has_its_command() {
    let figures = [
        Tool::Ellipse,
        Tool::Line,
        Tool::Highlight,
        Tool::Redact,
        Tool::Number,
    ];
    let mut p = pin();
    for tool in figures {
        draw(&mut p, tool, point(0.0, 0.0), point(10.0, 20.0));
    }
    let cmds = p.export_commands();
    let r = rect(0.0, 0.0, 10.0, 20.0);
    assert!(matches!(cmds[0], DrawCommand::Ellipse { rect, .. } if rect == r));
    assert!(matches!(cmds[1], DrawCommand::Line { to, .. } if to == point(10.0, 20.0)));
    assert!(matches!(cmds[2], DrawCommand::Highlight { rect } if rect == r));
    assert!(matches!(cmds[3], DrawCommand::Redact { rect } if rect == r));
    assert!(matches!(cmds[4], DrawCommand::Number { rect, value: 1, .. } if rect == r));
}

#[test]
fn a_text_is_typed_into_a_field() {
    let mut p = pin();
    let mut fx = Vec::new();
    p.set_annotation_mode(true, None, &mut fx);
    p.editor.set_tool(Tool::Text);
    fx.clear();
    p.events.push(PointerEvent::Down(point(10.0, 10.0)));
    assert!(p.pump_annotation(&mut fx));
    assert!(p.events.is_empty());
    assert_eq!(p.editing_text, Some(0));
    assert!(matches!(&fx[0], Effect::AddField { text, font_size, .. }
        if text.is_empty() && *font_size == TEXT_FONT_SIZE));
    assert!(p.draw_commands().is_empty(), "the field shows the text, and where it is");

    let typed = facts("note", 40.0, true);
    assert!(p.pump_text(Some(&typed), &mut fx));
    assert!(!p.pump_text(Some(&typed), &mut fx), "nothing new was typed");
    assert_eq!(p.editor.objects()[0].shape, Shape::Text("note".into()));
    assert_eq!(p.editor.objects()[0].bounds(), rect(10.0, 10.0, 40.0, 20.0));
    assert_eq!(p.export_commands().len(), 1, "what is being typed is exported");

    let left = facts("note!", 45.0, false);
    assert!(p.pump_text(Some(&left), &mut fx));
    assert_eq!(p.editing_text, None);
    assert_eq!(p.editor.objects()[0].shape, Shape::Text("note!".into()));
    assert_eq!(fx[fx.len() - 2..], [Effect::DropFocus, Effect::RemoveField]);
    assert!(!p.pump_text(Some(&left), &mut fx));
}

#[test]
fn a_text_without_characters_is_dropped() {
    let mut p = pin();
    let mut fx = Vec::new();
    p.editor.set_tool(Tool::Text);
    p.events.push(PointerEvent::Down(point(10.0, 10.0)));
    p.pump_annotation(&mut fx);
    p.end_text(Some(&facts(" ", 4.0, true)), &mut fx);
    assert!(p.editor.is_empty());
    assert_eq!(p.editing_text, None);
}

#[test]
fn a_field_that_is_gone_ends_the_text() {
    let mut p = pin();
    let mut fx = Vec::new();
    p.editor.set_tool(Tool::Text);
    p.events.push(PointerEvent::Down(point(10.0, 10.0)));
    p.pump_annotation(&mut fx);
    assert!(p.pump_text(None, &mut fx));
    assert_eq!(p.editing_text, None);
    assert!(p.editor.is_empty());
}

#[test]
fn the_right_button_deletes() {
    let mut p = pin();
    let mut fx = Vec::new();
    draw(&mut p, Tool::Rect, point(0.0, 0.0), point(10.0, 20.0));
    p.events.push(PointerEvent::Cancel);
    assert!(p.pump_annotation(&mut fx));
    assert!(p.editor.is_empty());
    p.events.push(PointerEvent::Cancel);
    assert!(!p.pump_annotation(&mut fx));
}

#[test]
fn a_press_beside_the_annotations_moves_the_window() {
    let mut p = pin();
    let mut fx = Vec::new();
    draw(&mut p, Tool::Rect, point(0.0, 0.0), point(10.0, 20.0));
    p.editor.set_tool(Tool::Select);
    p.events.push(PointerEvent::Down(point(60.0, 40.0)));
    p.pump_annotation(&mut fx);
    assert!(p.window.view.as_ref().unwrap().ivars.window_drag);
    p.events.push(PointerEvent::Down(point(5.0, 10.0)));
    p.pump_annotation(&mut fx);
    assert!(!p.window.view.as_ref().unwrap().ivars.window_drag);
}

#[test]
fn keys_while_staging() {
    let mut p = pin();
    p.staging = true;
    let both = vec![PinAction::Copy, PinAction::Close];
    assert_eq!(keys(&mut p, &[KeyPress::Enter { shift: false }]), (false, both.clone()));
    assert_eq!(keys(&mut p, &[KeyPress::Command('c')]), (false, both));
    assert_eq!(keys(&mut p, &[KeyPress::Enter { shift: true }]), (false, vec![PinAction::Keep]));
    assert_eq!(keys(&mut p, &[KeyPress::Escape]), (false, vec![PinAction::Close]));
}

#[test]
fn keys_once_kept() {
    let mut p = pin();
    assert_eq!(keys(&mut p, &[KeyPress::Enter { shift: false }]), (false, vec![]));
    assert_eq!(keys(&mut p, &[KeyPress::Command('c')]), (false, vec![PinAction::Copy]));
    assert_eq!(keys(&mut p, &[KeyPress::Command('s')]), (false, vec![PinAction::SaveAs]));
    assert_eq!(keys(&mut p, &[KeyPress::CommandShift('s')]), (false, vec![PinAction::QuickSave]));
    assert_eq!(keys(&mut p, &[KeyPress::Command('q'), KeyPress::CommandShift('z')]), (false, vec![]));
    assert_eq!(keys(&mut p, &[KeyPress::Plain('x')]), (false, vec![]));
    assert_eq!(keys(&mut p, &[KeyPress::Plain(' ')]), (true, vec![]));
    assert!(p.window.is_annotation_mode());
    assert_eq!(keys(&mut p, &[KeyPress::Escape]), (true, vec![]));
    assert!(!p.window.is_annotation_mode());
    assert_eq!(keys(&mut p, &[KeyPress::Escape]), (false, vec![PinAction::Close]));
}

#[test]
fn tool_keys_start_annotating() {
    let mut p = pin();
    assert_eq!(keys(&mut p, &[KeyPress::Plain('a')]), (true, vec![]));
    assert!(p.window.is_annotation_mode());
    assert_eq!(p.editor.tool(), Tool::Arrow);
    assert!(p.window.toolbar.is_some());
    assert_eq!(keys(&mut p, &[KeyPress::Plain(' ')]), (true, vec![]));
    assert!(p.window.toolbar.is_none());
}

#[test]
fn undoing_ends_typing_first() {
    let mut p = pin();
    let mut fx = Vec::new();
    draw(&mut p, Tool::Rect, point(0.0, 0.0), point(10.0, 20.0));
    p.editor.set_tool(Tool::Text);
    p.events.push(PointerEvent::Down(point(10.0, 10.0)));
    p.pump_annotation(&mut fx);
    p.keys.push(KeyPress::Command('z'));
    let typed = facts("abc", 30.0, true);
    assert_eq!(p.pump_keys(Some(&typed), &mut fx), (true, vec![]));
    assert_eq!(p.editing_text, None);
    assert_eq!(p.editor.objects().len(), 1, "the text that was just typed is undone");
}

#[test]
fn a_turn_takes_up_the_clicked_tool_and_draws() {
    let mut p = pin();
    let mut fx = Vec::new();
    p.set_annotation_mode(true, None, &mut fx);
    fx.clear();
    p.pending_tool = Some(4);
    let (dirty, actions) = p.drive_input(None, &mut fx);
    assert!(!dirty && actions.is_empty());
    assert_eq!(p.editor.tool(), Tool::Arrow);
    assert!(p.window.toolbar.as_ref().unwrap().view.ivars.items[4].selected);
    assert!(matches!(fx[0], Effect::PlaceToolbar(_)));
    p.pending_tool = Some(77);
    p.drive_input(None, &mut fx);
    assert_eq!(p.editor.tool(), Tool::Arrow);
    assert_eq!(p.pending_tool, None);
}

#[test]
fn a_turn_hands_requests_to_the_owner() {
    let mut p = pin();
    let mut fx = Vec::new();
    let press = Press { at: point(1.0, 1.0), view_height: u(50.0), click_count: 2 };
    p.window.view.as_mut().unwrap().mouse_down(press, None, &mut fx);
    let (dirty, actions) = p.drive_input(None, &mut fx);
    let actions = p.drive_text(dirty, actions, None, None, &mut fx);
    assert_eq!(actions, vec![PinAction::Copy, PinAction::Close]);
    assert!(p.drive_text(false, vec![], None, None, &mut fx).is_empty());
}

#[test]
fn touching_an_overlay_brings_the_image_back_to_the_front() {
    let mut p = pin();
    let mut fx = Vec::new();
    p.staging = true;
    p.touch_overlay(PointerEvent::Moved(point(0.0, 0.0)));
    assert!(p.drive_text(false, vec![], None, Some(false), &mut fx).is_empty());
    assert_eq!(
        fx,
        vec![Effect::OrderFront, Effect::Activate, Effect::MakeKey, Effect::FocusView]
    );
    p.touch_overlay(PointerEvent::Cancel);
    assert!(p.staging_cancelled());
    assert_eq!(p.drive_text(false, vec![], None, None, &mut fx), vec![PinAction::Close]);
}

#[test]
fn exports_are_drawn_or_ready() {
    let mut p = pin();
    let Ok(Flattening::Ready(bytes)) = p.export_image(Os::Mac) else { panic!("not ready") };
    assert_eq!(bytes, p.image.bgra);
    draw(&mut p, Tool::Redact, point(0.0, 0.0), point(10.0, 20.0));
    let Ok(Flattening::Paint { bitmap, drawing }) = p.export_image(Os::Mac) else {
        panic!("nothing to paint");
    };
    assert_eq!((bitmap.width, bitmap.height), (200, 100));
    assert_eq!(bitmap.logical, Size::new(u(100.0), u(50.0)));
    assert_eq!(drawing.ops.len(), 1);
    let exported = p.exported(vec![1; 200 * 100 * 4]);
    assert_eq!((exported.width, exported.height, exported.scale), (200, 100, u(2.0)));
    assert_eq!(p.as_pin_image().bgra, &p.image.bgra[..]);
}
