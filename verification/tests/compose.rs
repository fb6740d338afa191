//! Putting a selection together from what each display shows of it.

use pinwall::capture::{Capturer, Error};
use pinwall::compose::capture_selection;
use pinwall::geom::Rect;
use pinwall::image::CapturedImage;
use pinwall::screen::{ScreenId, ScreenInfo};
use pinwall::selection::{Selection, SelectionPart};

fn u(v: f64) -> i64 {
    (v * 1_000_000.0).round() as i64
}

fn rect(x: f64, y: f64, w: f64, h: f64) -> Rect {
    Rect::from_xywh(u(x), u(y), u(w), u(h))
}

fn part(screen: u32, rect: Rect, scale: f64) -> SelectionPart {
    SelectionPart { screen_id: ScreenId(screen), rect, scale: u(scale) }
}

/// Captures plain red left of x = 0 and plain blue elsewhere.
struct StubCapturer;

impl Capturer for StubCapturer {
    fn capture_rect(&self, rect: Rect, scale: i64) -> Result<CapturedImage, Error> {
        let factor = scale as f64 / 1_000_000.0;
        let w = (rect.size.width as f64 / 1_000_000.0 * factor).round() as u32;
        let h = (rect.size.height as f64 / 1_000_000.0 * factor).round() as u32;
        let color: [u8; 4] = if rect.origin.x < 0 { [0, 0, 255, 255] } else { [255, 0, 0, 255] };
        Ok(CapturedImage {
            width: w,
            height: h,
            scale,
            bgra: color.iter().cycle().take((w * h * 4) as usize).copied().collect(),
        })
    }
}

/// Cannot capture anything left of x = 0.
struct HalfBlind;

impl Capturer for HalfBlind {
    fn capture_rect(&self, rect: Rect, scale: i64) -> Result<CapturedImage, Error> {
        if rect.origin.x < 0 {
            Err(Error::CaptureFailed("out of sight".into()))
        } else {
            StubCapturer.capture_rect(rect, scale)
        }
    }
}

fn px(img: &CapturedImage, x: u32, y: u32) -> [u8; 4] {
    let i = (y as usize * img.width as usize + x as usize) * 4;
    img.bgra[i..i + 4].try_into().unwrap()
}

#[test]
fn cross_screen_parts_land_in_correct_positions() {
    let sel = Selection {
        rect: rect(-200.0, 100.0, 600.0, 400.0),
        parts: vec![
            part(1, rect(-200.0, 100.0, 200.0, 400.0), 2.0),
            part(0, rect(0.0, 100.0, 400.0, 400.0), 2.0),
        ],
    };
    let img = capture_selection(&StubCapturer, &sel).unwrap();
    assert_eq!((img.width, img.height), (1200, 800));
    assert_eq!(px(&img, 10, 10), [0, 0, 255, 255]);
    assert_eq!(px(&img, 399, 400), [0, 0, 255, 255]);
    assert_eq!(px(&img, 400, 10), [255, 0, 0, 255]);
    assert_eq!(px(&img, 1199, 799), [255, 0, 0, 255]);
}

#[test]
fn dead_zone_stays_transparent_not_black() {
    let sel = Selection {
        rect: rect(0.0, 0.0, 100.0, 200.0),
        parts: vec![part(0, rect(0.0, 0.0, 100.0, 100.0), 2.0)],
    };
    let img = capture_selection(&StubCapturer, &sel).unwrap();
    assert_eq!(px(&img, 50, 50)[3], 255, "opaque where there is a display");
    assert_eq!(px(&img, 50, 350), [0, 0, 0, 0], "transparent and not black elsewhere");
}

#[test]
fn mixed_dpi_upscales_low_dpi_part() {
    let sel = Selection {
        rect: rect(-100.0, 0.0, 200.0, 100.0),
        parts: vec![
            part(1, rect(-100.0, 0.0, 100.0, 100.0), 1.0),
            part(0, rect(0.0, 0.0, 100.0, 100.0), 2.0),
        ],
    };
    let img = capture_selection(&StubCapturer, &sel).unwrap();
    assert_eq!(img.scale, u(2.0));
    assert_eq!((img.width, img.height), (400, 200));
    assert_eq!(px(&img, 5, 100), [0, 0, 255, 255]);
    assert_eq!(px(&img, 199, 100), [0, 0, 255, 255]);
    assert_eq!(px(&img, 200, 100), [255, 0, 0, 255]);
}

#[test]
fn single_screen_uses_fast_path() {
    let sel = Selection {
        rect: rect(10.0, 20.0, 100.0, 50.0),
        parts: vec![part(0, rect(10.0, 20.0, 100.0, 50.0), 2.0)],
    };
    let img = capture_selection(&StubCapturer, &sel).unwrap();
    assert_eq!((img.width, img.height), (200, 100));
}

#[test]
fn later_parts_cover_earlier_ones() {
    let sel = Selection {
        rect: rect(-10.0, 0.0, 20.0, 10.0),
        parts: vec![
            part(0, rect(0.0, 0.0, 10.0, 10.0), 1.0),
            part(1, rect(-10.0, 0.0, 15.0, 10.0), 1.0),
        ],
    };
    let img = capture_selection(&StubCapturer, &sel).unwrap();
    assert_eq!(px(&img, 14, 5), [0, 0, 255, 255]);
    assert_eq!(px(&img, 15, 5), [255, 0, 0, 255]);
}

#[test]
fn an_empty_selection_is_refused() {
    let nothing = Selection { rect: rect(1.0, 2.0, 3.0, 4.0), parts: vec![] };
    assert_eq!(
        capture_selection(&StubCapturer, &nothing).err(),
        Some(Error::EmptyRect(rect(1.0, 2.0, 3.0, 4.0)))
    );
    let flat = Selection {
        rect: rect(0.0, 0.0, 10.0, 0.2),
        parts: vec![
            part(0, rect(0.0, 0.0, 5.0, 0.2), 1.0),
            part(1, rect(5.0, 0.0, 5.0, 0.2), 1.0),
        ],
    };
    assert_eq!(
        capture_selection(&StubCapturer, &flat).err(),
        Some(Error::EmptyRect(rect(0.0, 0.0, 10.0, 0.2)))
    );
    let without_scale = Selection {
        rect: rect(0.0, 0.0, 10.0, 10.0),
        parts: vec![part(0, rect(0.0, 0.0, 5.0, 10.0), 0.0)],
    };
    assert_eq!(
        capture_selection(&StubCapturer, &without_scale).err(),
        Some(Error::EmptyRect(rect(0.0, 0.0, 10.0, 10.0)))
    );
}

#[test]
fn a_part_that_cannot_be_captured_ends_it() {
    let sel = Selection {
        rect: rect(-10.0, 0.0, 20.0, 10.0),
        parts: vec![
            part(0, rect(0.0, 0.0, 10.0, 10.0), 1.0),
            part(1, rect(-10.0, 0.0, 10.0, 10.0), 1.0),
        ],
    };
    assert_eq!(
        capture_selection(&HalfBlind, &sel).err(),
        Some(Error::CaptureFailed("out of sight".into()))
    );
}

#[test]
fn a_whole_display_is_captured_at_its_scale() {
    let screen = ScreenInfo {
        id: ScreenId(3),
        name: "Third".into(),
        frame: rect(100.0, 0.0, 40.0, 20.0),
        scale: u(1.5),
        is_primary: false,
    };
    let img = StubCapturer.capture_screen(&screen).unwrap();
    assert_eq!((img.width, img.height, img.scale), (60, 30, u(1.5)));
    assert_eq!(img.bytes_per_row(), 240);
    assert_eq!(img.logical_size(), (u(40.0), u(20.0)));
}
