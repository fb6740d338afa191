//! The small programs.

use pinwall::geom::{Point, Rect};
use pinwall::image::CapturedImage;
use pinwall::prototypes::desktop::{
    mixed_density, panel_on, parse_mode, starts_below_zero, union_all, Mode,
};
use pinwall::prototypes::edge_probe::{edge_depth, probe_line, px, reddish, shows_outline, Pixel, Side};
use pinwall::prototypes::latency::{stats, verdict, Verdict};
use pinwall::prototypes::pin_probe::{
    apply_layered, apply_level, describe, draw_test_pattern, level, level_count, print_status,
    PinState, Probe, ProbeEvent, ProbeKey, Reaction, System,
};
use pinwall::prototypes::sketch::{
    blue, font_path, white, Canvas, Drag, Figure, Ink, Keys, Sketch, SketchOp, Tool, ToolRow, Typed,
};

fn u(v: f64) -> i64 {
    (v * 1_000_000.0).round() as i64
}

fn point(x: f64, y: f64) -> Point {
    Point::new(u(x), u(y))
}

fn rect(x: f64, y: f64, w: f64, h: f64) -> Rect {
    Rect::from_xywh(u(x), u(y), u(w), u(h))
}

const RED: Ink = Ink { r: 255, g: 59, b: 48, a: 255 };

fn row(tool: Tool) -> ToolRow {
    ToolRow { tool, ink: RED, width: u(3.0), undo: false, redo: false, delete: false }
}

fn no_keys() -> Keys {
    Keys { command: false, shift: false, z: false, delete: false }
}

fn still() -> Canvas {
    Canvas {
        pointer: None,
        drag_started: false,
        dragged: false,
        drag_stopped: false,
        clicked: false,
        double_clicked: false,
    }
}

fn drag(s: &mut Sketch, tool: Tool, from: Point, to: Point) {
    let start = Canvas { pointer: Some(from), drag_started: true, ..still() };
    let moved = Canvas { pointer: Some(to), dragged: true, ..still() };
    let stop = Canvas { pointer: Some(to), drag_stopped: true, ..still() };
    for canvas in [start, moved, stop] {
        s.ui(row(tool), no_keys(), canvas);
    }
}

#[test]
fn figures_are_drawn_moved_and_resized() {
    let mut s = Sketch::default();
    drag(&mut s, Tool::Rect, point(10.0, 10.0), point(60.0, 40.0));
    assert_eq!(s.doc.objs[0].bounds(), rect(10.0, 10.0, 50.0, 30.0));
    drag(&mut s, Tool::Select, point(30.0, 25.0), point(40.0, 30.0));
    assert_eq!(s.doc.objs[0].bounds(), rect(20.0, 15.0, 50.0, 30.0));
    drag(&mut s, Tool::Select, point(70.0, 45.0), point(80.0, 50.0));
    assert_eq!(s.doc.objs[0].bounds(), rect(20.0, 15.0, 60.0, 35.0));
    assert_eq!(s.hist.stack.len(), 4);
    assert_eq!(s.drag, Drag::Idle);
}

#[test]
fn presses_near_a_figure_hit_it() {
    let mut s = Sketch::default();
    drag(&mut s, Tool::Rect, point(10.0, 10.0), point(60.0, 40.0));
    drag(&mut s, Tool::Arrow, point(0.0, 100.0), point(100.0, 100.0));
    assert!(s.doc.objs[0].hit(point(6.0, 44.0)), "the edges count");
    assert!(!s.doc.objs[0].hit(point(5.9, 20.0)));
    assert!(s.doc.objs[1].hit(point(50.0, 106.0)));
    assert!(!s.doc.objs[1].hit(point(50.0, 106.1)));
}

#[test]
fn changes_are_undone_and_redone() {
    let mut s = Sketch::default();
    drag(&mut s, Tool::Rect, point(10.0, 10.0), point(60.0, 40.0));
    let z = Keys { command: true, z: true, ..no_keys() };
    s.ui(row(Tool::Rect), z, still());
    assert!(s.doc.objs.is_empty());
    s.ui(row(Tool::Rect), Keys { shift: true, ..z }, still());
    assert_eq!(s.doc.objs.len(), 1);
    s.ui(ToolRow { undo: true, ..row(Tool::Rect) }, no_keys(), still());
    assert!(s.doc.objs.is_empty());
    s.ui(ToolRow { redo: true, ..row(Tool::Rect) }, no_keys(), still());
    assert_eq!(s.doc.objs.len(), 1);
}

#[test]
fn objects_are_deleted() {
    let mut s = Sketch::default();
    drag(&mut s, Tool::Rect, point(10.0, 10.0), point(60.0, 40.0));
    s.ui(row(Tool::Select), Keys { delete: true, ..no_keys() }, still());
    assert!(s.doc.objs.is_empty());
    drag(&mut s, Tool::Rect, point(10.0, 10.0), point(60.0, 40.0));
    s.ui(ToolRow { delete: true, ..row(Tool::Select) }, no_keys(), still());
    assert!(s.doc.objs.is_empty());
    assert_eq!(s.doc.sel, None);
}

#[test]
fn texts_are_typed_and_reopened() {
    let mut s = Sketch::default();
    let click = Canvas { pointer: Some(point(5.0, 6.0)), clicked: true, ..still() };
    let shown = s.ui(row(Tool::Text), no_keys(), click);
    let field = shown.field.unwrap();
    assert_eq!((field.at, field.text.as_str(), field.ink), (point(5.0, 6.0), "", RED));
    assert_eq!(s.doc.objs[0].bounds(), rect(5.0, 6.0, 220.0, 34.0));
    s.typing(Typed { text: "中文".into(), lost_focus: false });
    let delete = Keys { delete: true, ..no_keys() };
    assert!(s.ui(row(Tool::Text), delete, still()).field.is_some(), "delete belongs to the text");
    s.typing(Typed { text: "中文".into(), lost_focus: true });
    assert_eq!(s.doc.objs[0].figure, Figure::Text("中文".into()));
    let shown = s.ui(row(Tool::Select), no_keys(), still());
    assert!(shown.field.is_none());
    assert!(matches!(&shown.ops[0], SketchOp::Text { text, .. } if text == "中文"));
    let twice = Canvas { pointer: Some(point(10.0, 10.0)), double_clicked: true, ..still() };
    assert!(s.ui(row(Tool::Select), no_keys(), twice).field.is_some());
}

#[test]
fn texts_left_blank_are_dropped() {
    let mut s = Sketch::default();
    let click = Canvas { pointer: Some(point(5.0, 6.0)), clicked: true, ..still() };
    s.ui(row(Tool::Text), no_keys(), click);
    s.typing(Typed { text: "  ".into(), lost_focus: true });
    assert!(s.doc.objs.is_empty());
    assert_eq!((s.editing, s.doc.sel), (None, None));
}

#[test]
fn the_pad_draws_objects_and_the_selection() {
    let mut s = Sketch::default();
    drag(&mut s, Tool::Arrow, point(0.0, 0.0), point(40.0, 0.0));
    let ops = s.draw();
    assert_eq!(ops.len(), 7);
    assert_eq!(
        ops[1],
        SketchOp::Triangle {
            tip: point(40.0, 0.0),
            left: point(26.0, 7.0),
            right: point(26.0, -7.0),
            ink: RED,
        }
    );
    assert_eq!(
        ops[2],
        SketchOp::StrokeRect {
            rect: rect(-3.0, -3.0, 46.0, 6.0),
            radius: 0,
            width: u(1.0),
            ink: blue(),
        }
    );
    assert_eq!(ops[3], SketchOp::FillCircle { at: point(0.0, 0.0), radius: u(3.5), ink: blue() });
    assert!(matches!(ops[4], SketchOp::StrokeCircle { ink, .. } if ink == white()));
    drag(&mut s, Tool::Rect, point(0.0, 0.0), point(40.0, 20.0));
    assert_eq!(
        s.draw()[2],
        SketchOp::StrokeRect {
            rect: rect(0.0, 0.0, 40.0, 20.0),
            radius: u(2.0),
            width: u(3.0),
            ink: RED,
        }
    );
}

#[test]
fn fonts_are_looked_for_in_order() {
    assert_eq!(font_path(0), Some("/System/Library/Fonts/PingFang.ttc"));
    assert_eq!(font_path(3), Some("C:\\Windows\\Fonts\\msyh.ttc"));
    assert_eq!(font_path(4), None);
}

#[test]
fn probe_keys() {
    let mut p = Probe::new(System::Mac);
    let key = |c| ProbeEvent::KeyPressed(ProbeKey::Character(c));
    assert_eq!(p.window_event(key('l')), Reaction::Apply);
    assert_eq!(p.st.level_idx, 3);
    p.window_event(key('l'));
    p.window_event(key('l'));
    assert_eq!(p.st.level_idx, 0);
    p.window_event(key('s'));
    p.window_event(key('c'));
    assert!(!p.st.join_all_spaces && p.st.click_through);
    for _ in 0..12 {
        p.window_event(key('['));
    }
    assert_eq!(p.st.opacity, u(0.1));
    p.window_event(key(']'));
    assert_eq!(p.st.opacity, u(0.2));
    assert_eq!(p.window_event(key('p')), Reaction::Diagnose);
    assert_eq!(p.window_event(key('q')), Reaction::Nothing);
    assert_eq!(p.window_event(ProbeEvent::KeyPressed(ProbeKey::Escape)), Reaction::Exit);
}

#[test]
fn probe_events() {
    let mut p = Probe::new(System::Windows);
    assert_eq!(p.window_event(ProbeEvent::CloseRequested), Reaction::Exit);
    assert_eq!(p.window_event(ProbeEvent::ScaleFactorChanged(u(1.5))), Reaction::Diagnose);
    assert_eq!(p.last_scale, u(1.5));
    assert_eq!(p.window_event(ProbeEvent::Moved), Reaction::ReportMove);
    assert_eq!(p.window_event(ProbeEvent::RedrawRequested(4, 3)), Reaction::Draw(4, 3));
    assert_eq!(p.window_event(ProbeEvent::RedrawRequested(0, 3)), Reaction::Nothing);
    assert_eq!(p.window_event(ProbeEvent::Other), Reaction::Nothing);
}

#[test]
fn probe_states_are_described() {
    let st = PinState::default();
    assert_eq!(
        print_status(System::Mac, &st),
        "  level=Status (25)(25)  opacity=1.00  穿透=关  跨Space=开"
    );
    let below = PinState { opacity: u(-0.5), ..st };
    assert!(print_status(System::Mac, &below).contains("opacity=-0.50  "));
    let tie = PinState { opacity: u(0.125), ..st };
    assert!(print_status(System::Mac, &tie).contains("opacity=0.12  "));
    assert_eq!(describe(System::Mac), "macOS: NSWindow.level + collectionBehavior");
    assert!(describe(System::Windows).starts_with("Windows: WS_EX_LAYERED"));
    assert!(describe(System::Other).contains("Wayland"));
    assert_eq!((level_count(System::Mac), level_count(System::Windows)), (5, 2));
    assert_eq!(level(System::Other, 1), ("AlwaysOnTop", 1));
    assert_eq!(level(System::Mac, 4), ("ScreenSaver (1000)", 1000));
}

#[test]
fn probe_states_are_applied() {
    let st = PinState { opacity: u(0.5), click_through: true, ..PinState::default() };
    let w = apply_layered(0x1, &st);
    assert_eq!((w.style, w.alpha, w.topmost), (0x8_0021, 127, true));
    let off = PinState { click_through: false, level_idx: 0, opacity: u(7.0), ..st };
    let w = apply_layered(0x21, &off);
    assert_eq!((w.style, w.alpha, w.topmost), (0x8_0001, 255, false));
    let m = apply_level(&st);
    assert_eq!((m.level, m.alpha, m.ignores_mouse, m.join_all_spaces), (25, u(0.5), true, true));
}

#[test]
fn the_test_pattern_has_single_lines() {
    let (w, h) = (40u32, 40u32);
    let mut buf = vec![0xdead; 1601];
    draw_test_pattern(&mut buf, w, h);
    let at = |x: u32, y: u32| buf[(y * w + x) as usize];
    assert_eq!(at(0, 20), 0x00FF3B30);
    assert_eq!(at(39, 5), 0x00FF3B30);
    assert_eq!(at(20, 5), 0x0000C853);
    assert_eq!(at(5, 20), 0x0000C853);
    assert_eq!(at(6, 30), 0x00FFFFFF);
    assert_eq!(at(7, 30), 0x00101010);
    assert_eq!(at(5, 5), 0x00303030);
    assert_eq!(at(17, 5), 0x00202020);
    assert_eq!(buf[1600], 0xdead, "what lies behind the image is left alone");
    draw_test_pattern(&mut buf, 0, 7);
}

#[test]
fn displays_together() {
    let frames = [rect(0.0, 0.0, 1470.0, 956.0), rect(-1920.0, 0.0, 1920.0, 1080.0)];
    let all = union_all(&frames).unwrap();
    assert_eq!(all, rect(-1920.0, 0.0, 3390.0, 1080.0));
    assert!(starts_below_zero(all));
    assert!(!starts_below_zero(frames[0]));
    assert_eq!(union_all(&[]), None);
    assert_eq!(panel_on(frames[0]), rect(555.0, 368.0, 360.0, 220.0));
    assert!(mixed_density(&[u(2.0), u(2.0), u(1.0)]));
    assert!(!mixed_density(&[u(2.0), u(2.0)]));
    assert!(!mixed_density(&[]));
}

#[test]
fn modes() {
    assert_eq!(parse_mode("perscreen"), Mode::PerScreen);
    assert_eq!(parse_mode("union"), Mode::Union);
    assert_eq!(parse_mode("screen12"), Mode::Screen(12));
    assert_eq!(parse_mode("screenscreen+3"), Mode::Screen(3));
    assert_eq!(parse_mode("7"), Mode::Screen(7));
    assert_eq!(parse_mode("screen"), Mode::Screen(0));
    assert_eq!(parse_mode("screen1x"), Mode::Screen(0));
    assert_eq!(parse_mode("18446744073709551615"), Mode::Screen(u64::MAX));
    assert_eq!(parse_mode("18446744073709551616"), Mode::Screen(0));
}

#[test]
fn times_are_summed_up() {
    assert_eq!(stats(vec![5, 1, 9, 3]), (1, 5, 9));
    assert_eq!(stats(vec![4]), (4, 4, 4));
    assert_eq!(stats(vec![2, 2, 1]), (1, 2, 2));
    assert_eq!(verdict(15_999_999), Verdict::WithinFrame);
    assert_eq!(verdict(16_000_000), Verdict::WithinBudget);
    assert_eq!(verdict(50_000_000), Verdict::TooSlow);
}

#[test]
fn outlines_are_found_at_the_edges() {
    let (w, h) = (8u32, 6u32);
    let mut img = CapturedImage {
        width: w,
        height: h,
        scale: u(1.0),
        bgra: vec![100; (w * h * 4) as usize],
    };
    assert_eq!(edge_depth(&img), 3);
    assert!(!shows_outline(&img));
    let paint = |img: &mut CapturedImage, x: u32, y: u32| {
        let i = ((y * w + x) * 4) as usize;
        img.bgra[i..i + 4].copy_from_slice(&[48, 59, 255, 255]);
    };
    paint(&mut img, 4, 4);
    assert_eq!(px(&img, 4, 4), Pixel { r: 255, g: 59, b: 48, a: 255 });
    assert!(reddish(px(&img, 4, 4)));
    assert!(shows_outline(&img), "within the last three rows");
    assert_eq!(probe_line(&img, Side::Bottom, 1), (1, 8, px(&img, 4, 4)));
    assert_eq!(probe_line(&img, Side::Right, 0).0, 0);
    let at_margin = Pixel { r: 90, g: 50, b: 10, a: 0 };
    assert!(!reddish(at_margin));
}
