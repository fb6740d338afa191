//! PNG files.

use pinwall::encode::{encode_png, pixels_per_metre, swap_channels, EncodeError};
use pinwall::image::CapturedImage;

fn u(v: f64) -> i64 {
    (v * 1_000_000.0).round() as i64
}

fn decode(bytes: &[u8]) -> (png::Info<'static>, Vec<u8>) {
    let decoder = png::Decoder::new(std::io::Cursor::new(bytes.to_vec()));
    let mut reader = decoder.read_info().unwrap();
    let mut buf = vec![0; reader.output_buffer_size().unwrap()];
    let frame = reader.next_frame(&mut buf).unwrap();
    buf.truncate(frame.buffer_size());
    (reader.info().clone(), buf)
}

#[test]
fn encodes_valid_png_with_correct_channel_order() {
    let img = CapturedImage { width: 1, height: 1, scale: u(2.0), bgra: vec![0, 0, 255, 255] };
    let bytes = encode_png(&img).unwrap();
    assert_eq!(&bytes[1..4], b"PNG", "a PNG file");

    let decoded = png::Decoder::new(std::io::Cursor::new(&bytes)).read_info().unwrap();
    let mut reader = decoded;
    let mut buf = vec![0; reader.output_buffer_size().unwrap()];
    let info = reader.next_frame(&mut buf).unwrap();
    assert_eq!(&buf[..info.buffer_size()], &[255, 0, 0, 255], "BGRA becomes RGBA");
}

#[test]
fn pixels_come_back_from_a_file() {
    let bgra: Vec<u8> = (0..5 * 3 * 4).map(|i| (i * 7 % 256) as u8).collect();
    let img = CapturedImage { width: 5, height: 3, scale: u(1.0), bgra: bgra.clone() };
    let (info, pixels) = decode(&encode_png(&img).unwrap());
    assert_eq!((info.width, info.height), (5, 3));
    assert_eq!(pixels, swap_channels(&bgra));
    assert_eq!(swap_channels(&pixels), bgra);
}

#[test]
fn files_state_the_density_of_their_pixels() {
    let img = CapturedImage { width: 1, height: 1, scale: u(2.0), bgra: vec![1, 2, 3, 4] };
    let bytes = encode_png(&img).unwrap();
    let (info, _) = decode(&bytes);
    let dims = info.pixel_dims.unwrap();
    assert_eq!((dims.xppu, dims.yppu), (5669, 5669));
    assert_eq!(&bytes[0..8], &[137, 80, 78, 71, 13, 10, 26, 10]);
    assert_eq!(&bytes[16..20], &1u32.to_be_bytes());
    assert_eq!(&bytes[20..24], &1u32.to_be_bytes());
    assert_eq!(&bytes[41..45], &5669u32.to_be_bytes());
    assert_eq!(&bytes[45..49], &5669u32.to_be_bytes());
}

#[test]
fn densities_follow_the_scale() {
    assert_eq!(pixels_per_metre(u(1.0)), 2835);
    assert_eq!(pixels_per_metre(u(2.0)), 5669);
    assert_eq!(pixels_per_metre(0), 0);
    assert_eq!(pixels_per_metre(u(-1.0)), 0);
    assert_eq!(pixels_per_metre(i64::MAX), u32::MAX);
}

#[test]
fn images_without_a_size_have_no_file() {
    let img = |width, height, len| CapturedImage { width, height, scale: u(1.0), bgra: vec![0; len] };
    assert_eq!(encode_png(&img(0, 4, 0)), Err(EncodeError::ZeroWidth));
    assert_eq!(encode_png(&img(0, 0, 0)), Err(EncodeError::ZeroWidth));
    assert_eq!(encode_png(&img(4, 0, 0)), Err(EncodeError::ZeroHeight));
    assert_eq!(encode_png(&img(2, 2, 12)), Err(EncodeError::BufferSize));
    assert_eq!(encode_png(&img(2, 2, 20)), Err(EncodeError::BufferSize));
}

#[test]
fn bytes_behind_the_last_pixel_are_left_out() {
    assert_eq!(swap_channels(&[1, 2, 3, 4, 5, 6, 7]), vec![3, 2, 1, 4]);
    let img = CapturedImage { width: 1, height: 1, scale: u(1.0), bgra: vec![1, 2, 3, 4, 5] };
    let (_, pixels) = decode(&encode_png(&img).unwrap());
    assert_eq!(pixels, vec![3, 2, 1, 4]);
}

#[test]
fn images_are_described_in_short() {
    let img = CapturedImage { width: 2, height: 1, scale: u(2.0), bgra: vec![0; 8] };
    assert_eq!(img.debug_text(), "CapturedImage { width: 2, height: 1, scale: 2.0, bytes: 8 }");
    let img = CapturedImage { width: 0, height: 7, scale: u(1.25), bgra: vec![] };
    assert_eq!(img.debug_text(), "CapturedImage { width: 0, height: 7, scale: 1.25, bytes: 0 }");
    let scale_text = |scale: i64| {
        let img = CapturedImage { width: 0, height: 0, scale, bgra: vec![] };
        let text = img.debug_text();
        text["CapturedImage { width: 0, height: 0, scale: ".len()..]
            .trim_end_matches(", bytes: 0 }")
            .to_string()
    };
    for scale in [0, 1, 9, 10, 12, 50, 99, 100, 101, 123_456, 1_000_000, -2_000_000, -50, -1] {
        assert_eq!(scale_text(scale), format!("{:?}", scale as f64 / 1_000_000.0));
    }
}
