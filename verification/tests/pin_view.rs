//! How the view of a pinned image answers the mouse, the wheel and the keyboard.

use pinwall::draw::{marker, DrawCommand, PaintOp, Rgba};
use pinwall::effect::Effect;
use pinwall::geom::{Point, Rect, Size};
use pinwall::image::PinImage;
use pinwall::input::{HandlerId, KeyPress, PointerEvent};
use pinwall::pin_view::{
    place_below, reposition_children, FieldFacts, PinView, Press, Wheel, OPACITY_MIN, ZOOM_MAX,
    ZOOM_MIN,
};
use pinwall::pin_window::{reposition_toolbar, PinWindow};
use pinwall::toolbar::ToolbarItem;

fn u(v: f64) -> i64 {
    (v * 1_000_000.0).round() as i64
}

fn point(x: f64, y: f64) -> Point {
    Point::new(u(x), u(y))
}

fn rect(x: f64, y: f64, w: f64, h: f64) -> Rect {
    Rect::from_xywh(u(x), u(y), u(w), u(h))
}

fn view() -> PinView {
    let mut v = PinView::new(Size::new(u(200.0), u(100.0)));
    v.set_handler(HandlerId(1));
    v.set_key_handler(HandlerId(2));
    v
}

fn press(x: f64, y: f64, clicks: i64) -> Press {
    Press { at: point(x, y), view_height: u(100.0), click_count: clicks }
}

fn wheel(dx: f64, dy: f64) -> Wheel {
    Wheel {
        dx: u(dx),
        dy: u(dy),
        shift: false,
        option: false,
        mouse: point(50.0, 25.0),
        window: Some(rect(0.0, 0.0, 200.0, 100.0)),
    }
}

fn facts(text: &str, width: f64, editing: bool) -> FieldFacts {
    FieldFacts { text: text.into(), measured: Size::new(u(width), u(20.0)), editing }
}

#[test]
fn a_drag_moves_the_window() {
    let mut v = view();
    let mut fx = Vec::new();
    assert_eq!(v.mouse_down(press(10.0, 20.0, 1), Some(true), &mut fx), None);
    assert_eq!(fx, vec![Effect::FocusView]);
    fx.clear();
    assert_eq!(v.mouse_dragged(point(0.0, 0.0), 0, point(500.0, 400.0), &mut fx), None);
    assert_eq!(fx, vec![Effect::MoveWindow(point(490.0, 380.0))]);
    fx.clear();
    assert_eq!(v.mouse_up(point(0.0, 0.0), 0), None);
    v.mouse_dragged(point(0.0, 0.0), 0, point(1.0, 1.0), &mut fx);
    assert!(fx.is_empty());
}

#[test]
fn a_press_takes_the_keyboard() {
    let mut fx = Vec::new();
    view().mouse_down(press(0.0, 0.0, 1), Some(false), &mut fx);
    assert_eq!(fx, vec![Effect::Activate, Effect::MakeKey, Effect::FocusView]);
    fx.clear();
    view().mouse_down(press(0.0, 0.0, 1), None, &mut fx);
    assert!(fx.is_empty());
}

#[test]
fn while_annotating_the_mouse_draws() {
    let mut v = view();
    let mut fx = Vec::new();
    v.set_annotating(true, &mut fx);
    assert!(v.is_annotating());
    let down = v.mouse_down(press(10.0, 20.0, 1), None, &mut fx);
    assert_eq!(down, Some((HandlerId(1), PointerEvent::Down(point(10.0, 80.0)))));
    let moved = v.mouse_dragged(point(30.0, 30.0), u(100.0), point(0.0, 0.0), &mut fx);
    assert_eq!(moved, Some((HandlerId(1), PointerEvent::Moved(point(30.0, 70.0)))));
    let up = v.mouse_up(point(30.0, 30.0), u(100.0));
    assert_eq!(up, Some((HandlerId(1), PointerEvent::Up(point(30.0, 70.0)))));
    assert_eq!(v.right_mouse_down(&mut fx), Some((HandlerId(1), PointerEvent::Cancel)));
    assert!(!v.is_closed());
    assert!(fx.is_empty());
}

#[test]
fn positions_do_not_depend_on_the_zoom() {
    let mut v = view();
    let mut fx = Vec::new();
    v.set_annotating(true, &mut fx);
    v.scroll_wheel(wheel(0.0, 100.0), &mut fx);
    assert_eq!(v.ivars.zoom, u(2.0));
    let down = v.mouse_down(
        Press { at: point(20.0, 140.0), view_height: u(200.0), click_count: 1 },
        None,
        &mut fx,
    );
    assert_eq!(down, Some((HandlerId(1), PointerEvent::Down(point(10.0, 30.0)))));
}

#[test]
fn a_double_click_asks_for_a_copy() {
    let mut v = view();
    let mut fx = Vec::new();
    v.mouse_down(press(10.0, 20.0, 2), None, &mut fx);
    assert!(v.take_copy_request());
    assert!(!v.take_copy_request());
    assert!(!v.is_closed());
}

#[test]
fn a_double_click_copies_nothing_while_drawing() {
    let mut v = view();
    let mut fx = Vec::new();
    v.set_annotating(true, &mut fx);
    v.mouse_down(press(10.0, 20.0, 2), None, &mut fx);
    assert!(!v.take_copy_request());
    v.set_window_drag(true);
    v.mouse_down(press(10.0, 20.0, 2), None, &mut fx);
    assert!(v.take_copy_request());
}

#[test]
fn a_drag_beside_the_annotations_moves_the_window() {
    let mut v = view();
    let mut fx = Vec::new();
    v.set_annotating(true, &mut fx);
    v.mouse_down(press(10.0, 20.0, 1), None, &mut fx);
    v.set_window_drag(true);
    assert_eq!(v.mouse_dragged(point(0.0, 0.0), 0, point(15.0, 25.0), &mut fx), None);
    assert_eq!(fx, vec![Effect::MoveWindow(point(5.0, 5.0))]);
}

#[test]
fn the_right_button_closes() {
    let mut v = view();
    let mut fx = Vec::new();
    assert_eq!(v.right_mouse_down(&mut fx), None);
    assert!(v.is_closed());
    assert_eq!(fx, vec![Effect::OrderOut]);
}

#[test]
fn the_middle_button_lets_clicks_through() {
    let mut v = view();
    let mut fx = Vec::new();
    v.other_mouse_down(&mut fx);
    assert!(v.is_click_through());
    v.set_click_through(false, &mut fx);
    assert!(!v.is_click_through());
    assert_eq!(fx, vec![Effect::SetIgnoresMouse(true), Effect::SetIgnoresMouse(false)]);
}

#[test]
fn the_wheel_zooms_around_the_mouse() {
    let mut v = view();
    let mut fx = Vec::new();
    v.scroll_wheel(wheel(0.0, 10.0), &mut fx);
    assert_eq!(v.ivars.zoom, u(1.1));
    assert_eq!(fx, vec![Effect::SetFrame(rect(-5.0, -2.5, 220.0, 110.0))]);
}

#[test]
fn the_zoom_has_limits() {
    let mut v = view();
    let mut fx = Vec::new();
    v.scroll_wheel(wheel(0.0, -1000.0), &mut fx);
    assert_eq!(v.ivars.zoom, ZOOM_MIN);
    v.scroll_wheel(wheel(0.0, -10.0), &mut fx);
    assert_eq!(fx.len(), 1, "nothing happens at the limit");
    v.scroll_wheel(wheel(0.0, 1.0e6), &mut fx);
    assert_eq!(v.ivars.zoom, ZOOM_MAX);
    let no_window = Wheel { window: None, ..wheel(0.0, -1.0) };
    v.scroll_wheel(no_window, &mut fx);
    assert_eq!(v.ivars.zoom, ZOOM_MAX);
}

#[test]
fn the_wheel_fades_with_shift() {
    let mut v = view();
    let mut fx = Vec::new();
    let shift = Wheel { shift: true, ..wheel(-20.0, 0.0) };
    v.scroll_wheel(shift, &mut fx);
    assert_eq!(v.ivars.opacity, u(0.8));
    let option = Wheel { option: true, ..wheel(7.0, -1000.0) };
    v.scroll_wheel(option, &mut fx);
    assert_eq!(v.ivars.opacity, OPACITY_MIN);
    assert_eq!(fx, vec![Effect::SetAlpha(u(0.8)), Effect::SetAlpha(u(0.1))]);
    v.scroll_wheel(Wheel { shift: true, ..wheel(0.0, 0.0) }, &mut fx);
    v.scroll_wheel(wheel(3.0, 0.0), &mut fx);
    assert_eq!(fx.len(), 2);
}

#[test]
fn keys_go_to_their_handler() {
    let mut v = view();
    assert_eq!(v.key_down(Some(KeyPress::Plain('a'))), Some((HandlerId(2), KeyPress::Plain('a'))));
    assert_eq!(v.key_down(None), None);
    assert_eq!(v.perform_key_equivalent(Some(KeyPress::Plain('a'))), None);
    assert_eq!(
        v.perform_key_equivalent(Some(KeyPress::Command('z'))),
        Some((HandlerId(2), KeyPress::Command('z')))
    );
    let mut fx = Vec::new();
    v.begin_text_input(rect(0.0, 0.0, 1.0, 1.0), "", u(18.0), Rgba::new(0, 0, 0, 0), 0, &mut fx);
    assert_eq!(v.key_down(Some(KeyPress::Plain('a'))), None, "the text field has the keys");
    assert_eq!(v.perform_key_equivalent(Some(KeyPress::Command('z'))), None);
}

#[test]
fn text_fields_lie_over_their_text() {
    let mut v = view();
    let mut fx = Vec::new();
    let color = Rgba::new(1, 2, 3, 4);
    v.begin_text_input(rect(10.0, 20.0, 160.0, 24.0), "hi", u(18.0), color, u(100.0), &mut fx);
    assert_eq!(
        fx,
        vec![
            Effect::AddField {
                frame: rect(8.0, 54.8, 160.0, 25.2),
                text: "hi".into(),
                font_size: u(18.0),
                color,
            },
            Effect::Activate,
            Effect::MakeKey,
            Effect::FocusField,
        ]
    );
    assert_eq!(v.ivars.text_anchor, Some((point(10.0, 20.0), u(18.0))));
    fx.clear();
    v.set_annotating(false, &mut fx);
    assert_eq!(fx, vec![Effect::DropFocus, Effect::RemoveField]);
    assert_eq!(v.ivars.text_field, None);
}

#[test]
fn text_fields_grow_and_end() {
    let mut v = view();
    let mut fx = Vec::new();
    assert!(v.poll_text_input(&facts("x", 10.0, false), &mut fx).is_none());
    let color = Rgba::new(0, 0, 0, 0);
    v.begin_text_input(rect(0.0, 0.0, 160.0, 24.0), "", u(18.0), color, u(100.0), &mut fx);
    fx.clear();

    let input = v.poll_text_input(&facts("", 0.0, false), &mut fx).unwrap();
    assert!(!input.finished, "the field has not had the keyboard yet");
    let input = v.poll_text_input(&facts("long", 160.0, true), &mut fx).unwrap();
    assert!(!input.finished);
    assert_eq!(input.extent, Size::new(u(160.0), u(20.0)));
    assert_eq!(fx, vec![Effect::ResizeField(Size::new(u(168.0), u(25.2)))]);
    let input = v.poll_text_input(&facts("long", 160.0, false), &mut fx).unwrap();
    assert!(input.finished, "the keyboard is elsewhere now");
    assert_eq!(input.text, "long");
    assert_eq!(fx.len(), 1);
}

#[test]
fn enter_and_clicks_end_typing() {
    let mut v = view();
    let mut fx = Vec::new();
    let color = Rgba::new(0, 0, 0, 0);
    v.begin_text_input(rect(0.0, 0.0, 1.0, 1.0), "", u(18.0), color, u(100.0), &mut fx);
    v.text_committed();
    assert!(v.poll_text_input(&facts("a", 1.0, true), &mut fx).unwrap().finished);
    v.begin_text_input(rect(0.0, 0.0, 1.0, 1.0), "", u(18.0), color, u(100.0), &mut fx);
    assert!(!v.poll_text_input(&facts("a", 1.0, true), &mut fx).unwrap().finished);
    assert_eq!(v.mouse_down(press(1.0, 1.0, 2), None, &mut fx), None);
    assert!(v.poll_text_input(&facts("a", 1.0, true), &mut fx).unwrap().finished);
    assert!(!v.take_copy_request());
    v.end_text_input(&mut fx);
    v.begin_text_input(rect(0.0, 0.0, 1.0, 1.0), "", u(18.0), color, u(100.0), &mut fx);
    v.scroll_wheel(wheel(0.0, 1.0), &mut fx);
    assert!(v.poll_text_input(&facts("a", 1.0, true), &mut fx).unwrap().finished);
}

#[test]
fn annotations_grow_with_the_image() {
    let mut v = view();
    let mut fx = Vec::new();
    assert!(v.draw_commands(rect(0.0, 0.0, 200.0, 100.0)).is_none());
    v.set_commands(&[DrawCommand::Highlight { rect: rect(0.0, 10.0, 5.0, 5.0) }]);
    v.scroll_wheel(wheel(0.0, 100.0), &mut fx);
    let d = v.draw_commands(rect(0.0, 0.0, 400.0, 200.0)).unwrap();
    assert_eq!(d.scale, u(2.0));
    assert_eq!(d.ops, vec![PaintOp::FillRect { rect: rect(0.0, 85.0, 5.0, 5.0), color: marker() }]);
}

#[test]
fn images_have_a_border_of_two_lines() {
    let ops = view().draw_border(rect(0.0, 0.0, 200.0, 100.0));
    assert_eq!(
        ops,
        vec![
            PaintOp::StrokeRect {
                rect: rect(0.5, 0.5, 199.0, 99.0),
                color: Rgba::new(0, 0, 0, u(0.45)),
                width: u(1.0),
            },
            PaintOp::StrokeRect {
                rect: rect(1.5, 1.5, 197.0, 97.0),
                color: Rgba::new(u(1.0), u(1.0), u(1.0), u(0.3)),
                width: u(1.0),
            },
        ]
    );
}

#[test]
fn child_windows_go_below() {
    let pin = rect(100.0, 200.0, 300.0, 50.0);
    let size = Size::new(u(100.0), u(36.0));
    assert_eq!(place_below(pin, size), point(200.0, 159.0));
    assert_eq!(reposition_children(pin, &[size, size]), vec![point(200.0, 159.0); 2]);
}

#[test]
fn the_toolbar_goes_above_where_there_is_no_room_below() {
    let pin = rect(100.0, 30.0, 300.0, 50.0);
    let size = Size::new(u(100.0), u(36.0));
    assert_eq!(reposition_toolbar(pin, size, None), point(200.0, -11.0));
    assert_eq!(reposition_toolbar(pin, size, Some(u(-11.0))), point(200.0, -11.0));
    assert_eq!(reposition_toolbar(pin, size, Some(0)), point(200.0, 85.0));
}

fn item(id: u32) -> ToolbarItem {
    ToolbarItem { id, label: "x".into(), selected: false }
}

#[test]
fn windows_take_the_size_of_their_image() {
    let mut w = PinWindow::new(u(956.0));
    let mut fx = Vec::new();
    assert!(!w.is_annotation_mode() && !w.is_closed() && !w.is_click_through());
    let bgra = vec![0u8; 200 * 100 * 4];
    let image = PinImage { width: 200, height: 100, scale: u(2.0), bgra: &bgra };
    w.set_image(&image, rect(10.0, 20.0, 300.0, 300.0), &mut fx).unwrap();
    assert_eq!(fx, vec![Effect::SetFrame(rect(10.0, 270.0, 100.0, 50.0))]);
    let broken = PinImage { width: 0, ..image };
    assert!(w.set_image(&broken, rect(0.0, 0.0, 1.0, 1.0), &mut fx).is_err());
    assert_eq!(fx.len(), 1);
}

#[test]
fn windows_are_placed_from_the_top() {
    let w = PinWindow::new(u(956.0));
    let mut fx = Vec::new();
    w.move_to(point(10.0, 20.0), Size::new(u(100.0), u(50.0)), &mut fx);
    w.set_opacity(u(1.5), &mut fx);
    w.set_opacity(u(-1.0), &mut fx);
    w.show(&mut fx);
    assert_eq!(
        fx,
        vec![
            Effect::MoveWindow(point(10.0, 886.0)),
            Effect::SetAlpha(u(1.0)),
            Effect::SetAlpha(0),
            Effect::OrderFront,
        ]
    );
    assert_eq!(w.frame(rect(10.0, 886.0, 100.0, 50.0)), rect(10.0, 20.0, 100.0, 50.0));
    fx.clear();
    w.close(&mut fx);
    assert_eq!(fx, vec![Effect::CloseWindow]);
}

#[test]
fn the_toolbar_is_opened_once() {
    let mut w = PinWindow::new(0);
    let mut fx = Vec::new();
    w.set_toolbar_handler(HandlerId(3));
    w.set_toolbar(&[], &mut fx);
    assert!(fx.is_empty());
    let size = Size::new(u(119.0), u(36.0));
    w.set_toolbar(&[item(1), item(2)], &mut fx);
    w.set_toolbar(&[item(1), item(2)], &mut fx);
    w.set_toolbar(&[], &mut fx);
    assert_eq!(
        fx,
        vec![
            Effect::OpenToolbar(size),
            Effect::PlaceToolbar(size),
            Effect::PlaceToolbar(size),
            Effect::CloseToolbar,
        ]
    );
    assert!(w.toolbar.is_none());
    w.set_toolbar(&[item(5)], &mut fx);
    let clicked = w.toolbar.as_ref().unwrap().view.mouse_down(point(6.0, 6.0));
    assert_eq!(clicked, Some((HandlerId(3), 5)));
}

#[test]
fn windows_without_an_image_still_let_clicks_through() {
    let mut w = PinWindow::new(0);
    let mut fx = Vec::new();
    w.set_click_through(true, &mut fx);
    assert_eq!(fx, vec![Effect::SetIgnoresMouse(true)]);
    assert!(!w.is_click_through());
}

#[test]
fn windows_can_be_hidden_and_shown() {
    let w = PinWindow::new(0);
    let mut fx = Vec::new();
    w.hide_window(&mut fx);
    w.show(&mut fx);
    assert_eq!(fx, vec![Effect::OrderOut, Effect::OrderFront]);
}

#[test]
fn views_are_closed_by_the_right_button_alone() {
    let mut v = view();
    let mut fx = Vec::new();
    v.mouse_down(press(1.0, 1.0, 2), Some(true), &mut fx);
    v.other_mouse_down(&mut fx);
    v.set_annotating(true, &mut fx);
    v.right_mouse_down(&mut fx);
    assert!(!v.is_closed());
    v.set_annotating(false, &mut fx);
    v.right_mouse_down(&mut fx);
    assert!(v.is_closed());
    v.set_annotating(true, &mut fx);
    assert!(v.is_closed());
}
