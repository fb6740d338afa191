//! Paint operations.

use pinwall::draw::{
    accent, centre, draw, flip, head_corners, inset, marker, number_size, redaction, white,
    DrawCommand, PaintOp, Rgba,
};
use pinwall::geom::{Point, Rect};
use pinwall::overlay::{OverlayView, OverlayViewIvars};
use pinwall::toolbar::{toolbar_size, ToolbarItem, ToolbarView};
use pinwall::input::{HandlerId, PointerEvent};
use pinwall::geom::Size;

fn u(v: f64) -> i64 {
    (v * 1_000_000.0).round() as i64
}

fn point(x: f64, y: f64) -> Point {
    Point::new(u(x), u(y))
}

fn rect(x: f64, y: f64, w: f64, h: f64) -> Rect {
    Rect::from_xywh(u(x), u(y), u(w), u(h))
}

fn red() -> Rgba {
    Rgba::new(u(1.0), 0, 0, u(1.0))
}

#[test]
fn nothing_to_draw() {
    assert!(draw(&[], u(100.0), u(1.0)).is_none());
}

#[test]
fn figures_are_turned_upside_down() {
    let cmds = [
        DrawCommand::Rect { rect: rect(10.0, 20.0, 30.0, 5.0), color: red(), width: u(2.0) },
        DrawCommand::Ellipse { rect: rect(0.0, 0.0, 4.0, 4.0), color: red(), width: u(1.0) },
        DrawCommand::Line {
            from: point(1.0, 2.0),
            to: point(3.0, 4.0),
            color: red(),
            width: u(1.0),
        },
        DrawCommand::Highlight { rect: rect(0.0, 90.0, 5.0, 10.0) },
        DrawCommand::Redact { rect: rect(0.0, 0.0, 1.0, 1.0) },
        DrawCommand::Number { rect: rect(2.0, 2.0, 8.0, 8.0), value: 7, color: red() },
        DrawCommand::Text {
            origin: point(5.0, 10.0),
            text: "hi".into(),
            color: red(),
            size: u(18.0),
        },
    ];
    let d = draw(&cmds, u(100.0), u(2.0)).unwrap();
    assert_eq!(d.scale, u(2.0));
    assert_eq!(
        d.ops,
        vec![
            PaintOp::StrokeRect { rect: rect(10.0, 75.0, 30.0, 5.0), color: red(), width: u(2.0) },
            PaintOp::StrokeEllipse { rect: rect(0.0, 96.0, 4.0, 4.0), color: red(), width: u(1.0) },
            PaintOp::StrokeLine {
                from: point(1.0, 98.0),
                to: point(3.0, 96.0),
                color: red(),
                width: u(1.0),
            },
            PaintOp::FillRect { rect: rect(0.0, 0.0, 5.0, 10.0), color: marker() },
            PaintOp::FillRect { rect: rect(0.0, 99.0, 1.0, 1.0), color: redaction() },
            PaintOp::Number { rect: rect(2.0, 90.0, 8.0, 8.0), value: 7, color: red() },
            PaintOp::Text {
                at: point(5.0, 68.4),
                text: "hi".into(),
                color: red(),
                size: u(18.0),
            },
        ]
    );
}

#[test]
fn arrows_have_heads_along_their_line() {
    let cmds = [DrawCommand::Arrow {
        from: point(0.0, 50.0),
        to: point(40.0, 50.0),
        color: red(),
        width: u(3.0),
    }];
    let d = draw(&cmds, u(100.0), u(1.0)).unwrap();
    assert_eq!(d.ops.len(), 2);
    assert_eq!(
        d.ops[1],
        PaintOp::FillTriangle {
            tip: point(40.0, 50.0),
            left: point(26.0, 57.0),
            right: point(26.0, 43.0),
            color: red(),
        }
    );
}

#[test]
fn slanted_heads_are_isosceles() {
    let (left, right) = head_corners(point(0.0, 0.0), point(30.0, 40.0), u(1.0)).unwrap();
    assert_eq!(left, point(20.0, 35.0));
    assert_eq!(right, point(28.0, 29.0));
}

#[test]
fn the_shortest_arrows_have_whole_heads() {
    let (left, right) =
        head_corners(Point::new(0, 0), Point::new(1, 1), 0).unwrap();
    assert_eq!(left, Point::new(1 - 8_485_281, 1 - 2_828_427));
    assert_eq!(right, Point::new(1 - 2_828_427, 1 - 8_485_281));
    let far = 4_000_000_000_000_000_000;
    let (left, _) = head_corners(Point::new(0, 0), Point::new(far, -far), 0).unwrap();
    assert_eq!(left, Point::new(far - 2_828_427, -far + 8_485_281));
}

#[test]
fn arrows_without_direction_have_no_head() {
    assert_eq!(head_corners(point(1.0, 1.0), point(1.0, 1.0), u(3.0)), None);
    let cmds = [DrawCommand::Arrow {
        from: point(1.0, 1.0),
        to: point(1.0, 1.0),
        color: red(),
        width: u(3.0),
    }];
    assert_eq!(draw(&cmds, u(10.0), u(1.0)).unwrap().ops.len(), 1);
}

#[test]
fn the_selection_box_has_two_handles() {
    let cmds = [DrawCommand::SelectionBox { rect: rect(10.0, 10.0, 20.0, 30.0) }];
    let ops = draw(&cmds, u(100.0), u(1.0)).unwrap().ops;
    assert_eq!(
        ops,
        vec![
            PaintOp::StrokeRect { rect: rect(7.0, 57.0, 26.0, 36.0), color: accent(), width: u(1.0) },
            PaintOp::FillRect { rect: rect(6.5, 86.5, 7.0, 7.0), color: accent() },
            PaintOp::StrokeRect { rect: rect(6.5, 86.5, 7.0, 7.0), color: white(), width: u(1.0) },
            PaintOp::FillRect { rect: rect(26.5, 56.5, 7.0, 7.0), color: accent() },
            PaintOp::StrokeRect { rect: rect(26.5, 56.5, 7.0, 7.0), color: white(), width: u(1.0) },
        ]
    );
}

#[test]
fn insets_do_not_turn_a_rectangle_inside_out() {
    assert_eq!(inset(rect(0.0, 0.0, 10.0, 1.0), u(2.0)), rect(2.0, 2.0, 6.0, 0.0));
    assert_eq!(inset(inset(rect(1.0, 2.0, 3.0, 4.0), u(-3.0)), u(3.0)), rect(1.0, 2.0, 3.0, 4.0));
}

#[test]
fn flips_are_undone_by_flips() {
    let r = rect(1.0, 2.0, 3.0, 4.0);
    assert_eq!(flip(r, u(100.0)), rect(1.0, 94.0, 3.0, 4.0));
    assert_eq!(flip(flip(r, u(100.0)), u(100.0)), r);
}

fn overlay(selection: Option<Rect>) -> OverlayView {
    OverlayView::new(OverlayViewIvars {
        screen_frame: rect(-1920.0, 0.0, 1920.0, 1080.0),
        primary_height: u(956.0),
        handler: Some(HandlerId(4)),
        selection,
        needs_display: false,
    })
}

#[test]
fn overlays_are_dark_but_for_the_selection() {
    let bounds = rect(0.0, 0.0, 1920.0, 1080.0);
    assert_eq!(overlay(None).draw(bounds).len(), 1);
    assert_eq!(overlay(Some(rect(10.0, 10.0, 50.0, 50.0))).draw(bounds).len(), 1);
    let ops = overlay(Some(rect(-100.0, 100.0, 200.0, 50.0))).draw(bounds);
    assert_eq!(ops[1], PaintOp::Clear { rect: rect(1820.0, 930.0, 100.0, 50.0) });
    assert!(matches!(ops[2], PaintOp::StrokeRect { width: 1_000_000, .. }));
    assert_eq!(
        ops[0],
        PaintOp::FillRect { rect: bounds, color: Rgba::new(0, 0, 0, u(0.35)) }
    );
}

#[test]
fn overlays_report_the_pointer_on_the_desktop() {
    let o = overlay(None);
    let origin = Some(point(-1920.0, -124.0));
    assert_eq!(
        o.mouse_down(point(20.0, 80.0), origin),
        Some((HandlerId(4), PointerEvent::Down(point(-1900.0, 1000.0))))
    );
    assert_eq!(
        o.mouse_dragged(point(20.0, 80.0), None),
        Some((HandlerId(4), PointerEvent::Moved(point(20.0, 876.0))))
    );
    assert_eq!(
        o.mouse_up(point(0.0, 0.0), origin),
        Some((HandlerId(4), PointerEvent::Up(point(-1920.0, 1080.0))))
    );
    assert_eq!(o.right_mouse_down(), Some((HandlerId(4), PointerEvent::Cancel)));
}

fn toolbar() -> ToolbarView {
    let mut t = ToolbarView::new();
    let item = |id, label: &str, selected| ToolbarItem { id, label: label.into(), selected };
    t.set_items(&[item(7, "a", true), item(8, "b", false)]);
    t
}

#[test]
fn toolbars_fit_their_buttons() {
    assert_eq!(toolbar_size(2), Size::new(u(119.0), u(36.0)));
    assert_eq!(toolbar_size(0), Size::new(u(5.0), u(36.0)));
    assert_eq!(toolbar().button_rect(1), rect(62.0, 5.0, 52.0, 26.0));
}

#[test]
fn clicks_on_buttons_are_reported() {
    let mut t = toolbar();
    assert_eq!(t.mouse_down(point(6.0, 6.0)), None, "nobody listens");
    t.set_handler(HandlerId(2));
    assert_eq!(t.mouse_down(point(5.0, 5.0)), Some((HandlerId(2), 7)));
    assert_eq!(t.mouse_down(point(62.0, 30.9)), Some((HandlerId(2), 8)));
    assert_eq!(t.mouse_down(point(57.0, 6.0)), None, "between the buttons");
    assert_eq!(t.mouse_down(point(62.0, 31.0)), None, "above the buttons");
}

#[test]
fn selected_buttons_stand_out() {
    let t = toolbar();
    let sizes = [Size::new(u(12.0), u(16.0)), Size::new(u(12.0), u(16.0))];
    let ops = t.draw(rect(0.0, 0.0, 119.0, 36.0), &sizes);
    assert_eq!(ops.len(), 5);
    assert_eq!(
        ops[2],
        PaintOp::FillRoundRect { rect: rect(5.0, 5.0, 52.0, 26.0), radius: u(5.0), color: accent() }
    );
    assert_eq!(
        ops[3],
        PaintOp::Text { at: point(25.0, 10.0), text: "a".into(), color: white(), size: u(12.0) }
    );
    assert_eq!(
        ops[4],
        PaintOp::Text {
            at: point(82.0, 10.0),
            text: "b".into(),
            color: Rgba::new(u(0.82), u(0.82), u(0.85), u(1.0)),
            size: u(12.0),
        }
    );
    assert!(matches!(ops[1], PaintOp::StrokeRoundRect { radius: 7_000_000, .. }));
}

#[test]
fn numbers_are_at_the_centre_of_their_marks() {
    let mark = rect(10.0, 20.0, 30.0, 20.0);
    assert_eq!(number_size(mark), u(12.0));
    assert_eq!(centre(mark, Size::new(u(10.0), u(14.0))), point(20.0, 23.0));
    assert_eq!(centre(mark, Size::new(u(40.0), u(14.0))), point(5.0, 23.0));
}
