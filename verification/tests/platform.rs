//! Displays, overlays, permissions and what platforms can do.

use pinwall::capture::{
    current_capturer, permission_status, request_permission, wait_pumping, Canvas, Error, Permission,
    Received, Reply, Wait, MacCapturer,
};
use pinwall::draw::Rgba;
use pinwall::file_name::{
    ask_save_path, candidate_name, default_file_name, free_name, save_place, SavePlace,
};
use pinwall::geom::{Point, Rect};
use pinwall::input::HandlerId;
use pinwall::overlay::{OverlayAction, OverlaySet};
use pinwall::platform;
use pinwall::platform::{
    current_platform, current_screen, from_cocoa, primary_height, screens, to_cocoa, Os,
    PlatformKind, RawScreen, StubPlatform,
};
use pinwall::screen::{ScreenId, ScreenInfo};

fn u(v: f64) -> i64 {
    (v * 1_000_000.0).round() as i64
}

fn point(x: f64, y: f64) -> Point {
    Point::new(u(x), u(y))
}

fn rect(x: f64, y: f64, w: f64, h: f64) -> Rect {
    Rect::from_xywh(u(x), u(y), u(w), u(h))
}

fn raw() -> Vec<RawScreen> {
    vec![
        RawScreen {
            name: "Built-in".into(),
            frame: rect(0.0, 0.0, 1470.0, 956.0),
            scale: u(2.0),
        },
        RawScreen {
            name: "DELL".into(),
            frame: rect(-1920.0, -124.0, 1920.0, 1080.0),
            scale: u(1.0),
        },
    ]
}

#[test]
fn displays_are_listed_from_the_top() {
    let list = screens(&raw());
    assert_eq!(primary_height(&raw()), u(956.0));
    assert_eq!(list[0].frame, rect(0.0, 0.0, 1470.0, 956.0));
    assert_eq!(list[1].frame, rect(-1920.0, 0.0, 1920.0, 1080.0));
    assert_eq!((list[0].id, list[1].id), (ScreenId(0), ScreenId(1)));
    assert!(list[0].is_primary && !list[1].is_primary);
    assert_eq!(list[1].name, "DELL");
    assert_eq!(primary_height(&[]), 0);
}

#[test]
fn coordinates_go_there_and_back() {
    let r = rect(-10.0, 20.0, 30.0, 40.0);
    assert_eq!(to_cocoa(r, u(956.0)), rect(-10.0, 896.0, 30.0, 40.0));
    assert_eq!(from_cocoa(to_cocoa(r, u(956.0)), u(956.0)), r);
}

#[test]
fn a_window_is_on_the_first_display_with_its_frame() {
    let frames = [rect(0.0, 0.0, 1.0, 1.0), rect(1.0, 0.0, 1.0, 1.0), rect(1.0, 0.0, 1.0, 1.0)];
    assert_eq!(current_screen(Some(frames[1]), &frames), Some(ScreenId(1)));
    assert_eq!(current_screen(Some(rect(5.0, 0.0, 1.0, 1.0)), &frames), None);
    assert_eq!(current_screen(None, &frames), None);
}

#[test]
fn platforms() {
    assert_eq!(current_platform(Os::Mac, true), Ok(PlatformKind::Mac));
    assert_eq!(current_platform(Os::Mac, false), Err(platform::Error::NotMainThread));
    assert_eq!(current_platform(Os::Other, false), Ok(PlatformKind::Stub));
    let screen = screens(&raw()).remove(0);
    let unsupported = |what| platform::Error::Unsupported(what);
    assert_eq!(StubPlatform.screens().err(), Some(unsupported("screens")));
    assert_eq!(StubPlatform.create_pin(screen.frame).err(), Some(unsupported("create_pin")));
    assert_eq!(StubPlatform.create_overlay(&screen).err(), Some(unsupported("create_overlay")));
    assert_ne!(platform::Error::ScreenNotFound(ScreenId(1)), platform::Error::NotMainThread);
}

fn set() -> OverlaySet {
    let list: Vec<ScreenInfo> = screens(&raw());
    let (set, actions) =
        OverlaySet::covering_all_screens(PlatformKind::Mac, &list, u(956.0)).unwrap();
    assert_eq!(actions[1], (ScreenId(1), OverlayAction::Create(raw()[1].frame)));
    set
}

#[test]
fn every_display_has_an_overlay() {
    let set = set();
    assert_eq!(set.len(), 2);
    assert!(!set.is_empty());
    assert_eq!(set.iter()[1].screen_id, ScreenId(1));
    assert_eq!(set.overlay_at(point(-960.0, 540.0)).unwrap().screen_id, ScreenId(1));
    assert_eq!(set.overlay_at(point(0.0, 0.0)).unwrap().screen_id, ScreenId(0));
    assert!(set.overlay_at(point(100.0, 1000.0)).is_none());
    assert!(OverlaySet::covering_all_screens(PlatformKind::Stub, &[], 0).is_err());
}

#[test]
fn overlays_are_told_together() {
    let mut set = set();
    let all = |action| vec![(ScreenId(0), action), (ScreenId(1), action)];
    assert_eq!(set.show(), all(OverlayAction::Show));
    assert_eq!(set.hide_all(), all(OverlayAction::Hide));
    set.set_pointer_handler(HandlerId(9));
    set.set_selection(Some(rect(1.0, 2.0, 3.0, 4.0)));
    for o in set.iter() {
        assert_eq!(o.view.ivars.handler, Some(HandlerId(9)));
        assert_eq!(o.view.ivars.selection, Some(rect(1.0, 2.0, 3.0, 4.0)));
        assert!(o.view.ivars.needs_display);
    }
    assert_eq!(set.close(), all(OverlayAction::Close));
}

#[test]
fn permissions() {
    assert_eq!(permission_status(Some(true)), Permission::Granted);
    assert_eq!(permission_status(Some(false)), Permission::Denied);
    assert_eq!(permission_status(None), Permission::NotRequired);
    assert!(request_permission(Some(true)));
    assert!(!request_permission(Some(false)));
    assert!(request_permission(None));
}

#[test]
fn captures_are_checked_before_they_are_made() {
    assert!(current_capturer(Os::Mac).is_ok());
    assert_eq!(current_capturer(Os::Other).err(), Some(Error::Unsupported));
    let r = rect(0.0, 0.0, 10.0, 10.0);
    assert_eq!(MacCapturer.check(r, Permission::Granted), Ok(()));
    assert_eq!(MacCapturer.check(r, Permission::Denied), Err(Error::PermissionDenied));
    let flat = rect(0.0, 0.0, 10.0, 0.0);
    assert_eq!(MacCapturer.check(flat, Permission::Denied), Err(Error::EmptyRect(flat)));
}

#[test]
fn replies_are_taken_apart() {
    let failed = |s: &str| Some(Error::CaptureFailed(s.into()));
    assert_eq!(MacCapturer.receive(Reply::Failed("no".into()), u(1.0)).err(), failed("no"));
    assert_eq!(
        MacCapturer.receive(Reply::Nothing, u(1.0)).err(),
        failed("回调返回空图像且无错误信息")
    );
    let image = |width, height, canvas| Reply::Image { width, height, canvas };
    assert_eq!(
        MacCapturer.receive(image(0, 3, Canvas::Pixels(vec![])), u(1.0)).err(),
        failed("图像尺寸非法: 0x3")
    );
    assert_eq!(
        MacCapturer.receive(image(1, 1, Canvas::NoColorSpace), u(1.0)).err(),
        failed("创建色彩空间失败")
    );
    assert_eq!(
        MacCapturer.receive(image(1, 1, Canvas::NoContext), u(1.0)).err(),
        failed("创建位图上下文失败")
    );
    let img = MacCapturer.receive(image(1, 1, Canvas::Pixels(vec![1, 2, 3, 4])), u(2.0)).unwrap();
    assert_eq!((img.width, img.height, img.scale), (1, 1, u(2.0)));
    assert_eq!(img.bgra, vec![1, 2, 3, 4]);
}

#[test]
fn waiting_ends_with_a_reply_or_at_the_deadline() {
    assert!(matches!(wait_pumping(Received::Value(7), 9, 5, 5), Wait::Done(7)));
    assert!(matches!(wait_pumping::<u8>(Received::Empty, 4, 5, 5), Wait::Pump));
    assert!(matches!(
        wait_pumping::<u8>(Received::Empty, 5, 5, 3),
        Wait::Failed(Error::Timeout(3))
    ));
    let Wait::Failed(Error::CaptureFailed(s)) = wait_pumping::<u8>(Received::Disconnected, 0, 5, 5)
    else {
        panic!("did not fail");
    };
    assert_eq!(s, "回调未产生结果即被释放");
}

#[test]
fn file_names_carry_the_time() {
    assert_eq!(default_file_name(Some(1_700_000_000)), "PinWall-1700000000.png");
    assert_eq!(default_file_name(None), "PinWall-0.png");
    assert_eq!(candidate_name(5, 0), "PinWall-5.png");
    assert_eq!(candidate_name(5, 12), "PinWall-5-12.png");
}

#[test]
fn files_of_one_second_do_not_overwrite_each_other() {
    let names = |list: &[&str]| list.iter().map(|s| s.to_string()).collect::<Vec<String>>();
    assert_eq!(free_name(5, &names(&[])), "PinWall-5.png");
    assert_eq!(free_name(5, &names(&["PinWall-5.png"])), "PinWall-5-1.png");
    let taken = names(&["PinWall-5-1.png", "x", "PinWall-5.png", "PinWall-5-3.png"]);
    assert_eq!(free_name(5, &taken), "PinWall-5-2.png");
}

#[test]
fn places_to_save() {
    assert_eq!(save_place(Some(true)), SavePlace::Desktop);
    assert_eq!(save_place(Some(false)), SavePlace::Current);
    assert_eq!(save_place(None), SavePlace::Current);
    let path = || Some(String::from("/tmp/a.png"));
    assert_eq!(ask_save_path(Os::Mac, true, 1, path()), path());
    assert_eq!(ask_save_path(Os::Mac, true, 0, path()), None);
    assert_eq!(ask_save_path(Os::Mac, true, 1, None), None);
    assert_eq!(ask_save_path(Os::Other, true, 1, path()), None);
    assert_eq!(ask_save_path(Os::Mac, false, 1, path()), None);
}

#[test]
fn colours_keep_their_channels() {
    assert_eq!(Rgba::new(1, 2, 3, 4), Rgba { r: 1, g: 2, b: 3, a: 4 });
}
