//! Pins coming and going: capturing, pasting, closing.

use pinwall::capture::{Capturer, Error};
use pinwall::effect::Effect;
use pinwall::geom::{Point, Rect};
use pinwall::image::{CapturedImage, PinImage};
use pinwall::input::{HandlerId, PointerEvent};
use pinwall::overlay::{OverlayAction, OverlaySet};
use pinwall::pin::{make_pin, Pin, PinAction};
use pinwall::pin_window::PinWindow;
use pinwall::platform::{Error as WindowError, PlatformKind};
use pinwall::screen::{ScreenId, ScreenInfo};
use pinwall::selection::{Selection, SelectionMachine, SelectionPart};
use pinwall::session::{
    abandon, annotate_last, capture_and_stage, close_order, is_settling, pin_from_clipboard,
    pump_selection, reap, remove_pins, screen_scale, settled_at, toggle_click_through, Handlers,
    Selecting, StageError,
};

fn u(v: f64) -> i64 {
    (v * 1_000_000.0).round() as i64
}

fn point(x: f64, y: f64) -> Point {
    Point::new(u(x), u(y))
}

fn rect(x: f64, y: f64, w: f64, h: f64) -> Rect {
    Rect::from_xywh(u(x), u(y), u(w), u(h))
}

fn screens() -> Vec<ScreenInfo> {
    vec![
        ScreenInfo {
            id: ScreenId(0),
            name: "Built-in".into(),
            frame: rect(0.0, 0.0, 1470.0, 956.0),
            scale: u(2.0),
            is_primary: true,
        },
        ScreenInfo {
            id: ScreenId(1),
            name: "DELL".into(),
            frame: rect(-1920.0, 0.0, 1920.0, 1080.0),
            scale: u(1.0),
            is_primary: false,
        },
    ]
}

fn overlays() -> OverlaySet {
    OverlaySet::covering_all_screens(PlatformKind::Mac, &screens(), u(956.0)).unwrap().0
}

fn handlers() -> Handlers {
    Handlers { pointer: HandlerId(1), keys: HandlerId(2), toolbar: HandlerId(3) }
}

fn image(width: u32, height: u32, scale: f64) -> CapturedImage {
    let len = (width * height * 4) as usize;
    CapturedImage { width, height, scale: u(scale), bgra: vec![5; len] }
}

fn pin(width: u32) -> Pin {
    let img = image(width, 1, 1.0);
    let mut window = PinWindow::new(0);
    let borrowed = PinImage { width, height: 1, scale: u(1.0), bgra: &img.bgra };
    window.set_image(&borrowed, rect(0.0, 0.0, 1.0, 1.0), &mut Vec::new()).unwrap();
    make_pin(window, img, HandlerId(2), HandlerId(3))
}

fn widths(pins: &[Pin]) -> Vec<u32> {
    pins.iter().map(|p| p.image.width).collect()
}

#[test]
fn closed_pins_are_taken_out() {
    let mut pins = vec![pin(1), pin(2), pin(3), pin(4)];
    for i in [1, 2] {
        pins[i].window.view.as_mut().unwrap().close_self(&mut Vec::new());
    }
    let gone = reap(&mut pins);
    assert_eq!(widths(&pins), vec![1, 4]);
    assert_eq!(gone.iter().map(|(i, p)| (*i, p.image.width)).collect::<Vec<_>>(), vec![(1, 2), (1, 3)]);
    assert!(reap(&mut pins).is_empty());
}

#[test]
fn equal_pins_are_taken_out_in_order() {
    let mut pins = vec![pin(1), pin(2), pin(1)];
    for i in [0, 2] {
        pins[i].window.view.as_mut().unwrap().close_self(&mut Vec::new());
    }
    let positions: Vec<usize> = reap(&mut pins).iter().map(|(i, _)| *i).collect();
    assert_eq!(positions, vec![0, 1]);
    assert_eq!(widths(&pins), vec![2]);
}

#[test]
fn pins_are_closed_from_the_end_and_once() {
    let actions = [
        (0, PinAction::Copy),
        (2, PinAction::Close),
        (0, PinAction::Close),
        (3, PinAction::Keep),
        (2, PinAction::Close),
    ];
    let order = close_order(&actions);
    assert_eq!(order, vec![2, 0]);
    let mut pins = vec![pin(1), pin(2), pin(3), pin(4)];
    let gone = remove_pins(&mut pins, &order);
    assert_eq!(widths(&gone), vec![3, 1]);
    assert_eq!(widths(&pins), vec![2, 4]);
    assert!(close_order(&[]).is_empty());
}

#[test]
fn disposing_closes_overlays_before_the_window() {
    let mut p = pin(1);
    let mut fx = Vec::new();
    p.overlays = Some(overlays());
    p.dispose(&mut fx);
    assert_eq!(
        fx,
        vec![
            Effect::Overlay(ScreenId(0), OverlayAction::Close),
            Effect::Overlay(ScreenId(1), OverlayAction::Close),
            Effect::CloseWindow,
        ]
    );
}

#[test]
fn clicks_go_through_all_pins_or_none() {
    let mut pins = vec![pin(1), pin(2)];
    let mut fx = Vec::new();
    pins[0].window.set_click_through(true, &mut fx);
    fx.clear();
    assert!(toggle_click_through(&mut pins, &mut fx));
    assert!(pins.iter().all(|p| p.window.is_click_through()));
    assert!(!toggle_click_through(&mut pins, &mut fx));
    assert!(pins.iter().all(|p| !p.window.is_click_through()));
    assert_eq!(
        fx,
        vec![
            Effect::SetIgnoresMouse(true),
            Effect::SetIgnoresMouse(true),
            Effect::SetIgnoresMouse(false),
            Effect::SetIgnoresMouse(false),
        ]
    );
    assert!(!toggle_click_through(&mut vec![], &mut fx));
}

#[test]
fn the_last_pin_is_annotated() {
    let mut pins = vec![pin(1), pin(2)];
    let mut fx = Vec::new();
    assert_eq!(annotate_last(&mut pins, None, &mut fx), Some(true));
    assert!(pins[1].window.is_annotation_mode() && !pins[0].window.is_annotation_mode());
    assert_eq!(annotate_last(&mut pins, None, &mut fx), Some(false));
    assert!(!pins[1].window.is_annotation_mode());
    assert_eq!(annotate_last(&mut vec![], None, &mut fx), None);
}

#[test]
fn a_selection_is_shown_on_all_overlays_until_it_ends() {
    let mut machine = SelectionMachine::new(screens());
    let mut set = overlays();
    let events = [PointerEvent::Down(point(-10.0, 10.0)), PointerEvent::Moved(point(10.0, 30.0))];
    assert!(matches!(pump_selection(&mut machine, &mut set, &events), Selecting::Waiting));
    for o in set.iter() {
        assert_eq!(o.view.ivars.selection, Some(rect(-10.0, 10.0, 20.0, 20.0)));
    }
    let rest = [
        PointerEvent::Up(point(10.0, 30.0)),
        PointerEvent::Cancel,
        PointerEvent::Down(point(0.0, 0.0)),
    ];
    let Selecting::Committed(sel) = pump_selection(&mut machine, &mut set, &rest) else {
        panic!("not committed");
    };
    assert_eq!(sel.rect, rect(-10.0, 10.0, 20.0, 20.0));
    assert_eq!(sel.parts.len(), 2);
}

#[test]
fn a_selection_can_be_cancelled() {
    let mut machine = SelectionMachine::new(screens());
    let mut set = overlays();
    let events = [PointerEvent::Down(point(1.0, 1.0)), PointerEvent::Cancel];
    assert!(matches!(pump_selection(&mut machine, &mut set, &events), Selecting::Cancelled));
    let hide = OverlayAction::Hide;
    let close = OverlayAction::Close;
    assert_eq!(
        abandon(set),
        vec![
            (ScreenId(0), hide),
            (ScreenId(1), hide),
            (ScreenId(0), close),
            (ScreenId(1), close),
        ]
    );
}

#[test]
fn overlays_take_time_to_leave() {
    assert_eq!(settled_at(100), 160);
    assert_eq!(settled_at(u64::MAX - 5), u64::MAX);
    assert!(is_settling(159, 160));
    assert!(!is_settling(160, 160));
}

/// Captures plain images, or fails.
struct Camera {
    works: bool,
}

impl Capturer for Camera {
    fn capture_rect(&self, rect: Rect, scale: i64) -> Result<CapturedImage, Error> {
        if !self.works {
            return Err(Error::PermissionDenied);
        }
        let factor = scale as f64 / 1_000_000.0;
        let w = (rect.size.width as f64 / 1_000_000.0 * factor).round() as u32;
        let h = (rect.size.height as f64 / 1_000_000.0 * factor).round() as u32;
        Ok(image(w, h, factor))
    }
}

fn selection() -> Selection {
    let r = rect(100.0, 200.0, 30.0, 20.0);
    Selection {
        rect: r,
        parts: vec![SelectionPart { screen_id: ScreenId(0), rect: r, scale: u(2.0) }],
    }
}

#[test]
fn a_capture_is_pinned_where_it_was() {
    let mut fx = Vec::new();
    let camera = Camera { works: true };
    let (p, bitmap) = capture_and_stage(
        &camera,
        &selection(),
        overlays(),
        u(956.0),
        handlers(),
        Some(false),
        &mut fx,
    )
    .ok()
    .unwrap();
    assert_eq!((p.image.width, p.image.height), (60, 40));
    assert_eq!(bitmap.rgba.len(), 60 * 40 * 4);
    assert_eq!((bitmap.width, bitmap.height), (60, 40));
    assert_eq!(bitmap.logical, rect(0.0, 0.0, 30.0, 20.0).size);
    assert!(p.staging && p.window.is_annotation_mode());
    let set = p.overlays.as_ref().unwrap();
    assert!(set.iter().iter().all(|o| o.view.ivars.selection.is_none()));
    let frame = rect(100.0, 736.0, 30.0, 20.0);
    assert_eq!(fx[0], Effect::CreateWindow(frame));
    assert_eq!(fx[1], Effect::SetFrame(frame));
    assert_eq!(fx[2], Effect::Overlay(ScreenId(0), OverlayAction::Show));
    assert_eq!(fx[3], Effect::Overlay(ScreenId(1), OverlayAction::Show));
    assert_eq!(fx[4..8], [Effect::OrderFront, Effect::Activate, Effect::MakeKey, Effect::FocusView]);
    assert!(matches!(fx[8], Effect::OpenToolbar(_)));
}

#[test]
fn a_capture_that_fails_pins_nothing() {
    let mut fx = Vec::new();
    let camera = Camera { works: false };
    let r = capture_and_stage(
        &camera,
        &selection(),
        overlays(),
        u(956.0),
        handlers(),
        None,
        &mut fx,
    );
    assert_eq!(r.err(), Some(StageError::Capture(Error::PermissionDenied)));
    assert!(fx.is_empty());
}

#[test]
fn a_capture_without_pixels_pins_nothing() {
    let r = rect(0.0, 0.0, 30.0, 0.1);
    let sel = Selection {
        rect: r,
        parts: vec![SelectionPart { screen_id: ScreenId(0), rect: r, scale: u(1.0) }],
    };
    let camera = Camera { works: true };
    let mut fx = Vec::new();
    let out = capture_and_stage(&camera, &sel, overlays(), 0, handlers(), None, &mut fx);
    let empty = WindowError::WindowCreation("图像尺寸为零".into());
    assert_eq!(out.err(), Some(StageError::Window(empty)));
    assert_eq!(fx, vec![Effect::CreateWindow(rect(0.0, -0.1, 30.0, 0.1))]);
}

#[test]
fn kept_images_lose_their_overlays() {
    let mut fx = Vec::new();
    let camera = Camera { works: true };
    let (mut p, _) = capture_and_stage(
        &camera,
        &selection(),
        overlays(),
        u(956.0),
        handlers(),
        None,
        &mut fx,
    )
    .ok()
    .unwrap();
    fx.clear();
    p.keep(None, &mut fx);
    assert!(!p.staging && p.overlays.is_none() && !p.window.is_annotation_mode());
    assert_eq!(
        fx,
        vec![
            Effect::Overlay(ScreenId(0), OverlayAction::Close),
            Effect::Overlay(ScreenId(1), OverlayAction::Close),
            Effect::CloseToolbar,
        ]
    );
}

#[test]
fn an_image_is_pasted_at_the_mouse_and_pixel_by_pixel() {
    let mut fx = Vec::new();
    let (p, bitmap) = pin_from_clipboard(
        Some(image(800, 400, 1.0)),
        Some(point(10.0, 20.0)),
        &screens(),
        u(956.0),
        handlers(),
        &mut fx,
    )
    .unwrap()
    .unwrap();
    assert_eq!(p.image.scale, u(2.0));
    assert_eq!((bitmap.width, bitmap.height), (800, 400));
    assert_eq!(bitmap.logical, rect(0.0, 0.0, 400.0, 200.0).size);
    assert!(!p.staging);
    assert_eq!(fx[0], Effect::CreateWindow(rect(10.0, 736.0, 400.0, 200.0)));
    assert_eq!(fx[2], Effect::OrderFront);
    assert_eq!(fx.len(), 3);
}

#[test]
fn a_scale_that_the_clipboard_reports_counts() {
    let paste = |img, cursor| {
        let mut fx = Vec::new();
        pin_from_clipboard(img, cursor, &screens(), u(956.0), handlers(), &mut fx)
    };
    let (p, _) = paste(Some(image(8, 4, 3.0)), Some(point(-10.0, 0.0))).unwrap().unwrap();
    assert_eq!(p.image.scale, u(3.0));
    let (p, _) = paste(Some(image(8, 4, 1.0)), Some(point(-10.0, 0.0))).unwrap().unwrap();
    assert_eq!(p.image.scale, u(1.0));
    let (p, _) = paste(Some(image(8, 4, 0.5)), None).unwrap().unwrap();
    assert_eq!(p.image.scale, u(2.0));
    assert!(paste(None, None).unwrap().is_none());
    assert!(paste(Some(image(0, 4, 1.0)), None).is_err());
    let mut fx = Vec::new();
    let nothing = Some(image(0, 4, 2.0));
    let out = pin_from_clipboard(nothing, None, &[], u(956.0), handlers(), &mut fx);
    assert_eq!(out.err(), Some(WindowError::WindowCreation("图像尺寸为零".into())));
    assert_eq!(fx, vec![Effect::CreateWindow(rect(100.0, 854.0, 0.0, 2.0))]);
}

#[test]
fn points_beside_the_displays_use_the_first_one() {
    assert_eq!(screen_scale(&screens(), point(-5.0, 5.0)), u(1.0));
    assert_eq!(screen_scale(&screens(), point(5000.0, 5000.0)), u(2.0));
    assert_eq!(screen_scale(&[], point(0.0, 0.0)), u(1.0));
}
