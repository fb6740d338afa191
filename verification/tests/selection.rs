//! Selecting a region, also across displays.

use pinwall::geom::{Point, Rect, Size};
use pinwall::screen::{ScreenId, ScreenInfo};
use pinwall::selection::{Event, Outcome, SelectionMachine, State};

fn u(v: f64) -> i64 {
    (v * 1_000_000.0).round() as i64
}

fn point(x: f64, y: f64) -> Point {
    Point::new(u(x), u(y))
}

fn rect(x: f64, y: f64, w: f64, h: f64) -> Rect {
    Rect::from_xywh(u(x), u(y), u(w), u(h))
}

/// Two displays that meet at x = 0. The left one is taller, so there is no
/// display below the right one.
fn screens() -> Vec<ScreenInfo> {
    vec![
        ScreenInfo {
            id: ScreenId(0),
            name: "Built-in".into(),
            frame: rect(0.0, 0.0, 1470.0, 956.0),
            scale: u(2.0),
            is_primary: true,
        },
        ScreenInfo {
            id: ScreenId(1),
            name: "DELL".into(),
            frame: rect(-1920.0, 0.0, 1920.0, 1080.0),
            scale: u(2.0),
            is_primary: false,
        },
    ]
}

fn machine() -> SelectionMachine {
    SelectionMachine::new(screens())
}

fn drag(m: &mut SelectionMachine, from: Point, to: Point) -> Outcome {
    m.handle(Event::Down(from));
    m.handle(Event::Move(to));
    m.handle(Event::Up(to))
}

#[test]
fn single_screen_selection() {
    let mut m = machine();
    let out = drag(&mut m, point(100.0, 100.0), point(300.0, 250.0));
    let Outcome::Committed(sel) = out else { panic!("not committed: {out:?}") };
    assert_eq!(sel.rect, rect(100.0, 100.0, 200.0, 150.0));
    assert_eq!(sel.parts.len(), 1);
    assert_eq!(sel.parts[0].screen_id, ScreenId(0));
    assert_eq!(sel.parts[0].pixel_size(), (400, 300));
    assert!(!sel.is_cross_screen());
}

#[test]
fn reverse_drag_is_normalized() {
    let mut m = machine();
    let out = drag(&mut m, point(300.0, 250.0), point(100.0, 100.0));
    let Outcome::Committed(sel) = out else { panic!("not committed") };
    assert_eq!(sel.rect, rect(100.0, 100.0, 200.0, 150.0));
    assert!(sel.rect.size.width > 0 && sel.rect.size.height > 0);
}

#[test]
fn cross_screen_selection_splits_by_screen() {
    let mut m = machine();
    let out = drag(&mut m, point(-200.0, 100.0), point(400.0, 500.0));
    let Outcome::Committed(sel) = out else { panic!("not committed") };
    assert!(sel.is_cross_screen());
    assert_eq!(sel.parts.len(), 2);

    let dell = sel.parts.iter().find(|p| p.screen_id == ScreenId(1)).unwrap();
    let builtin = sel.parts.iter().find(|p| p.screen_id == ScreenId(0)).unwrap();
    assert_eq!(dell.rect, rect(-200.0, 100.0, 200.0, 400.0));
    assert_eq!(builtin.rect, rect(0.0, 100.0, 400.0, 400.0));
    assert_eq!(dell.rect.area() + builtin.rect.area(), sel.rect.area());
}

#[test]
fn selection_entirely_in_dead_zone_is_cancelled() {
    let mut m = machine();
    let out = drag(&mut m, point(200.0, 1000.0), point(600.0, 1060.0));
    assert_eq!(out, Outcome::Cancelled, "there is no display");
}

#[test]
fn selection_partially_in_dead_zone_keeps_only_real_parts() {
    let mut m = machine();
    let out = drag(&mut m, point(-100.0, 900.0), point(500.0, 1050.0));
    let Outcome::Committed(sel) = out else { panic!("not committed") };
    assert_eq!(sel.parts.len(), 2);
    let builtin = sel.parts.iter().find(|p| p.screen_id == ScreenId(0)).unwrap();
    assert_eq!(builtin.rect.max_y(), u(956.0), "cut at the lower edge of the display");
    let dell = sel.parts.iter().find(|p| p.screen_id == ScreenId(1)).unwrap();
    assert_eq!(dell.rect.max_y(), u(1050.0), "not cut");
    assert!(dell.rect.area() + builtin.rect.area() < sel.rect.area());
}

#[test]
fn click_without_drag_is_cancelled() {
    let mut m = machine();
    let p = point(100.0, 100.0);
    m.handle(Event::Down(p));
    assert_eq!(m.handle(Event::Up(p)), Outcome::Cancelled, "a click selects nothing");
}

#[test]
fn tiny_drag_is_cancelled() {
    let mut m = machine();
    let out = drag(&mut m, point(100.0, 100.0), point(102.0, 102.0));
    assert_eq!(out, Outcome::Cancelled, "too small");
}

#[test]
fn esc_cancels_mid_drag() {
    let mut m = machine();
    m.handle(Event::Down(point(100.0, 100.0)));
    m.handle(Event::Move(point(300.0, 300.0)));
    assert_eq!(m.handle(Event::Cancel), Outcome::Cancelled);
    assert_eq!(m.state(), State::Cancelled);
}

#[test]
fn events_after_commit_are_ignored() {
    let mut m = machine();
    drag(&mut m, point(100.0, 100.0), point(300.0, 300.0));
    assert_eq!(m.state(), State::Done);
    assert_eq!(m.handle(Event::Down(point(0.0, 0.0))), Outcome::Idle);
    assert_eq!(m.handle(Event::Move(point(50.0, 50.0))), Outcome::Idle);
    assert_eq!(m.state(), State::Done, "nothing changes after the end");
}

#[test]
fn move_without_down_is_ignored() {
    let mut m = machine();
    assert_eq!(m.handle(Event::Move(point(10.0, 10.0))), Outcome::Idle);
    assert_eq!(m.state(), State::Idle);
}

#[test]
fn identical_move_does_not_request_redraw() {
    let mut m = machine();
    m.handle(Event::Down(point(100.0, 100.0)));
    assert_eq!(m.handle(Event::Move(point(150.0, 150.0))), Outcome::Redraw);
    assert_eq!(m.handle(Event::Move(point(150.0, 150.0))), Outcome::Idle);
}

#[test]
fn current_rect_tracks_drag() {
    let mut m = machine();
    assert!(m.current_rect().is_none());
    m.handle(Event::Down(point(100.0, 100.0)));
    m.handle(Event::Move(point(50.0, 300.0)));
    assert_eq!(
        m.current_rect(),
        Some(Rect::new(point(50.0, 100.0), Size::new(u(50.0), u(200.0))))
    );
}

#[test]
fn mixed_dpi_output_uses_max_scale() {
    let mut mixed = screens();
    mixed[1].scale = u(1.0);
    let mut m = SelectionMachine::new(mixed);
    let out = drag(&mut m, point(-200.0, 100.0), point(400.0, 500.0));
    let Outcome::Committed(sel) = out else { panic!("not committed") };
    assert_eq!(sel.output_scale(), u(2.0), "the largest scale factor");
    assert_eq!(sel.output_pixel_size(), (1200, 800));
    let dell = sel.parts.iter().find(|p| p.screen_id == ScreenId(1)).unwrap();
    assert_eq!(dell.pixel_size(), (200, 400), "captured at its own scale factor");
}

#[test]
fn the_smallest_selection_is_committed() {
    let mut m = machine();
    let out = drag(&mut m, point(100.0, 100.0), point(104.0, 104.0));
    assert!(matches!(out, Outcome::Committed(_)));
    m.reset();
    assert_eq!(m.state(), State::Idle);
    let out = drag(&mut m, point(100.0, 100.0), point(104.0, 103.999));
    assert_eq!(out, Outcome::Cancelled);
}

#[test]
fn displays_have_a_size_in_pixels() {
    assert_eq!(screens()[0].pixel_size(), (2940, 1912));
    assert_eq!(screens()[0].clone().name, "Built-in");
}

#[test]
fn a_cancellation_after_the_end_is_ignored() {
    let mut m = machine();
    drag(&mut m, point(100.0, 100.0), point(300.0, 300.0));
    assert_eq!(m.handle(Event::Cancel), Outcome::Idle);
    assert_eq!(m.state(), State::Done);
    let mut m = machine();
    assert_eq!(m.handle(Event::Cancel), Outcome::Cancelled);
    assert_eq!(m.handle(Event::Cancel), Outcome::Idle);
    assert_eq!(m.handle(Event::Down(point(1.0, 1.0))), Outcome::Idle);
    assert_eq!(m.state(), State::Cancelled);
}
