//! Bitmaps of the windowing system, annotated images and the clipboard.

use pinwall::bitmap::{
    bitmap_from_bgra, copy_image_to_clipboard, finish_read, flatten_annotations, read_back,
    read_image, write_rgba, Flattening, PasteboardImage, Raster,
};
use pinwall::draw::{DrawCommand, Drawing, PaintOp, Rgba};
use pinwall::geom::{Rect, Size};
use pinwall::image::PinImage;
use pinwall::platform::{Error, Os};

fn u(v: f64) -> i64 {
    (v * 1_000_000.0).round() as i64
}

fn rect(x: f64, y: f64, w: f64, h: f64) -> Rect {
    Rect::from_xywh(u(x), u(y), u(w), u(h))
}

/// All channels differ, so no mix-up goes unnoticed.
fn solid(w: u32, h: u32) -> Vec<u8> {
    (0..w * h).flat_map(|_| [10u8, 20, 200, 255]).collect()
}

fn px(buf: &[u8], w: u32, x: u32, y: u32) -> [u8; 4] {
    let i = (y * w + x) as usize * 4;
    [buf[i], buf[i + 1], buf[i + 2], buf[i + 3]]
}

fn byte(v: i64) -> u8 {
    (v as f64 / 1_000_000.0 * 255.0).round() as u8
}

/// Fills rectangles of a padded RGBA bitmap, whose rows start at the top while
/// the coordinates of the operations start at the bottom.
fn paint(data: &mut [u8], stride: usize, w: u32, h: u32, scale: f64, drawing: &Drawing) {
    let factor = scale * drawing.scale as f64 / 1_000_000.0;
    for op in &drawing.ops {
        let PaintOp::FillRect { rect, color } = op else { panic!("not painted here: {op:?}") };
        let Rgba { r, g, b, a } = *color;
        for y in 0..h {
            for x in 0..w {
                let lx = (x as f64 + 0.5) / factor * 1_000_000.0;
                let ly = (h as f64 - y as f64 - 0.5) / factor * 1_000_000.0;
                let inside = lx >= rect.origin.x as f64
                    && lx < rect.max_x() as f64
                    && ly >= rect.origin.y as f64
                    && ly < rect.max_y() as f64;
                if inside {
                    let i = y as usize * stride + x as usize * 4;
                    data[i..i + 4].copy_from_slice(&[byte(r), byte(g), byte(b), byte(a)]);
                }
            }
        }
    }
}

/// Draws annotations into an image, with a bitmap whose rows are padded.
fn flatten(img: &PinImage<'_>, cmds: &[DrawCommand]) -> Vec<u8> {
    match flatten_annotations(Os::Mac, img, cmds).unwrap() {
        Flattening::Ready(bytes) => bytes,
        Flattening::Paint { bitmap, drawing } => {
            let (w, h) = (bitmap.width as usize, bitmap.height as usize);
            let stride = w * 4 + 12;
            let storage = vec![0xee; stride * h];
            let mut data = write_rgba(Some(storage), stride, img.bgra, w, h).unwrap();
            let scale = bitmap.width as f64 / (bitmap.logical.width as f64 / 1_000_000.0);
            paint(&mut data, stride, bitmap.width, bitmap.height, scale, &drawing);
            read_back(Some(&data), stride, w, h).unwrap()
        }
    }
}

#[test]
fn without_annotations_the_image_comes_back_as_it_is() {
    let bgra = solid(4, 4);
    let img = PinImage { width: 4, height: 4, scale: u(1.0), bgra: &bgra };
    assert_eq!(flatten(&img, &[]), bgra);
}

#[test]
fn pixels_without_annotations_keep_their_channels() {
    let (w, h) = (40u32, 40u32);
    let bgra = solid(w, h);
    let img = PinImage { width: w, height: h, scale: u(1.0), bgra: &bgra };
    let cmds = [DrawCommand::Redact { rect: rect(20.0, 20.0, 15.0, 15.0) }];
    let out = flatten(&img, &cmds);
    assert_eq!(out.len(), bgra.len());
    assert_eq!(px(&out, w, 2, 2), [10, 20, 200, 255], "nothing was drawn here");
}

#[test]
fn a_redaction_is_drawn_into_the_pixels() {
    let (w, h) = (40u32, 40u32);
    let bgra = solid(w, h);
    let img = PinImage { width: w, height: h, scale: u(1.0), bgra: &bgra };
    let cmds = [DrawCommand::Redact { rect: rect(20.0, 20.0, 15.0, 15.0) }];
    let out = flatten(&img, &cmds);
    let c = px(&out, w, 27, 27);
    assert_eq!(c[3], 255, "a redaction is opaque");
    for ch in &c[..3] {
        assert!((*ch as i32 - 31).abs() <= 2, "wrong colour: {c:?}");
    }
}

#[test]
fn annotations_are_placed_in_points_and_drawn_in_pixels() {
    let (w, h) = (40u32, 40u32);
    let bgra = solid(w, h);
    let img = PinImage { width: w, height: h, scale: u(2.0), bgra: &bgra };
    let cmds = [DrawCommand::Redact { rect: rect(10.0, 10.0, 8.0, 8.0) }];
    let out = flatten(&img, &cmds);
    assert_eq!(out.len(), (w * h * 4) as usize, "as many pixels as before");
    assert_eq!(px(&out, w, 2, 2), [10, 20, 200, 255], "nothing was drawn here");
    let c = px(&out, w, 28, 28);
    assert!((c[0] as i32 - 31).abs() <= 2, "redacted: {c:?}");
}

#[test]
fn elsewhere_nothing_is_drawn() {
    let bgra = solid(2, 2);
    let img = PinImage { width: 2, height: 2, scale: u(1.0), bgra: &bgra };
    let cmds = [DrawCommand::Redact { rect: rect(0.0, 0.0, 2.0, 2.0) }];
    let Ok(Flattening::Ready(out)) = flatten_annotations(Os::Other, &img, &cmds) else {
        panic!("not ready");
    };
    assert_eq!(out, bgra);
}

#[test]
fn images_that_cannot_be_shown() {
    let bgra = vec![0u8; 15];
    let empty = PinImage { width: 0, height: 3, scale: u(1.0), bgra: &bgra };
    assert_eq!(
        bitmap_from_bgra(&empty).err(),
        Some(Error::WindowCreation("图像尺寸为零".into()))
    );
    let short = PinImage { width: 2, height: 2, scale: u(1.0), bgra: &bgra };
    let message = Error::WindowCreation("像素数据长度不足：需要 16，实得 15".into());
    assert_eq!(bitmap_from_bgra(&short).err(), Some(message));
    let cmds = [DrawCommand::Highlight { rect: rect(0.0, 0.0, 1.0, 1.0) }];
    assert!(flatten_annotations(Os::Mac, &short, &cmds).is_err());
    assert!(flatten_annotations(Os::Mac, &short, &[]).is_ok());
}

#[test]
fn bitmaps_have_the_logical_size() {
    let bgra = solid(4, 2);
    let img = PinImage { width: 4, height: 2, scale: u(2.0), bgra: &bgra };
    let b = bitmap_from_bgra(&img).unwrap();
    assert_eq!(b.logical, Size::new(u(2.0), u(1.0)));
    assert_eq!(&b.rgba[..4], &[200, 20, 10, 255]);
    let copied = copy_image_to_clipboard(Os::Mac, &img).unwrap();
    assert_eq!(copied.rgba, b.rgba);
    assert_eq!(
        copy_image_to_clipboard(Os::Other, &img).err(),
        Some(Error::Unsupported("clipboard"))
    );
}

#[test]
fn padding_is_skipped_and_kept() {
    let bgra = [1, 2, 3, 4, 5, 6, 7, 8];
    let data = write_rgba(Some(vec![9; 12]), 6, &bgra, 1, 2).unwrap();
    assert_eq!(data, vec![3, 2, 1, 4, 9, 9, 7, 6, 5, 8, 9, 9]);
    assert_eq!(read_back(Some(&data), 6, 1, 2).unwrap(), bgra);
}

#[test]
fn bitmaps_without_storage_or_with_short_rows() {
    let message = |s: &str| Some(Error::WindowCreation(s.into()));
    assert_eq!(write_rgba(None, 8, &[0; 8], 2, 1).err(), message("位图表示无后备存储"));
    assert_eq!(write_rgba(Some(vec![0; 7]), 7, &[0; 8], 2, 1).err(), message("位图行距异常"));
    assert_eq!(read_back(None, 8, 2, 1).err(), message("导出位图无数据"));
    assert_eq!(read_back(Some(&[0; 7]), 7, 2, 1).err(), message("导出位图行距异常"));
}

#[test]
fn clipboard_images_keep_their_pixels() {
    let image = PasteboardImage {
        logical: Size::new(u(400.0), u(200.0)),
        representations: vec![(100, 50), (800, 400)],
    };
    let raster = Raster { width: 800, height: 400, scale: u(2.0) };
    assert_eq!(read_image(&image), Some(raster));
    let vector = PasteboardImage {
        logical: Size::new(u(10.4), u(9.5)),
        representations: vec![(0, 0)],
    };
    let r = read_image(&vector).unwrap();
    assert_eq!((r.width, r.height), (10, 10));
    let nothing = PasteboardImage { logical: Size::new(0, 0), representations: vec![] };
    assert_eq!(read_image(&nothing), None);
    let huge = PasteboardImage {
        logical: Size::new(u(1.0), u(1.0)),
        representations: vec![(1 << 40, 1)],
    };
    assert_eq!(read_image(&huge), None);
}

#[test]
fn painted_clipboard_images_are_read_back() {
    let raster = Raster { width: 1, height: 2, scale: u(1.5) };
    let data = [3, 2, 1, 4, 0, 7, 6, 5, 8, 0];
    let img = finish_read(raster, Some(&data), 5).unwrap();
    assert_eq!(img.bgra, vec![1, 2, 3, 4, 5, 6, 7, 8]);
    assert_eq!((img.width, img.height, img.scale), (1, 2, u(1.5)));
    assert!(finish_read(raster, None, 5).is_none());
    assert!(finish_read(raster, Some(&data), 3).is_none());
}
