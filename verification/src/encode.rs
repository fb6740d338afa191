//! Encoding images as PNG files.

use vstd::prelude::*;

use crate::fixed;
use crate::fixed::{nearest_quotient, wide_product, UNIT};
use crate::image;
use crate::image::CapturedImage;

verus! {

/// Points per inch.
pub const POINTS_PER_INCH: i64 = 72;

/// Ten thousand times the number of inches per metre.
pub const INCHES_PER_TEN_KILOMETRES: i64 = 393_701;

/// What `INCHES_PER_TEN_KILOMETRES` is divided by to give inches per metre.
pub const METRES: i128 = 10_000;

/// The signature that every PNG file begins with.
pub open spec fn signature() -> Seq<u8> {
    seq![137u8, 80u8, 78u8, 71u8, 13u8, 10u8, 26u8, 10u8]
}

/// A number as four bytes, the most significant one first.
pub open spec fn big_endian(v: u32) -> Seq<u8> {
    seq![
        (v / 0x100_0000) as u8,
        (v / 0x1_0000 % 0x100) as u8,
        (v / 0x100 % 0x100) as u8,
        (v % 0x100) as u8,
    ]
}

/// The pixels with the first and the third channel exchanged. Bytes behind the
/// last whole pixel are left out.
pub open spec fn swapped(pixels: Seq<u8>) -> Seq<u8> {
    Seq::new(
        (pixels.len() / 4 * 4) as nat,
        |i: int|
            if i % 4 == 0 {
                pixels[i + 2]
            } else if i % 4 == 2 {
                pixels[i - 2]
            } else {
                pixels[i]
            },
    )
}

/// The pixels per metre of an image whose logical points are a 72nd of an inch
/// each, with the metre at 39.3701 inches: the nearest `u32`.
pub open spec fn density(scale: i64) -> u32 {
    let n = fixed::nearest(
        scale * (INCHES_PER_TEN_KILOMETRES * POINTS_PER_INCH),
        UNIT * METRES,
    );
    if n < 0 {
        0
    } else if n > u32::MAX {
        u32::MAX
    } else {
        n as u32
    }
}

/// The PNG file that holds the given RGBA pixels, eight bits per channel, and
/// states the given number of pixels per metre.
pub uninterp spec fn png_file(width: u32, height: u32, density: u32, rgba: Seq<u8>) -> Seq<u8>;

/// The encoder takes the pixels.
pub open spec fn encodable(width: u32, height: u32, rgba: Seq<u8>) -> bool {
    width != 0 && height != 0 && rgba.len() == image::byte_count(width, height)
}

#[verifier::external_type_specification]
#[verifier::external_body]
pub struct ExEncodingError(png::EncodingError);

/// Why an image has no PNG file.
#[derive(Debug, Clone, Copy, PartialEq, Eq, Structural)]
pub enum EncodeError {
    ZeroWidth,
    ZeroHeight,
    /// The pixels take another number of bytes than the size of the image asks
    /// for.
    BufferSize,
}

/// Calls `png::Encoder` for an image with colour type RGBA, bit depth eight and
/// the given number of pixels per metre in both directions: `Encoder::new`, the
/// setters, `write_header` and `write_image_data` into a `Vec`.
///
/// The encoder refuses a width or height of zero and pixels of the wrong
/// length, and nothing else, since writing to a `Vec` cannot fail. What it
/// writes depends on its arguments alone. It begins with the signature of the
/// format, the `IHDR` chunk with the size of the image and the `pHYs` chunk
/// with its density.
#[verifier::external_body]
fn write_png(width: u32, height: u32, density: u32, rgba: &[u8]) -> (r: Result<
    Vec<u8>,
    png::EncodingError,
>)
    requires
        width * 4 < usize::MAX,
        image::byte_count(width, height) <= usize::MAX,
    ensures
        r is Ok <==> encodable(width, height, rgba@),
        r matches Ok(file) ==> file@ == png_file(width, height, density, rgba@),
        r matches Ok(file) ==> file@.len() >= 54 && file@.subrange(0, 8) == signature()
            && file@.subrange(16, 20) == big_endian(width) && file@.subrange(20, 24)
            == big_endian(height) && file@.subrange(41, 45) == big_endian(density)
            && file@.subrange(45, 49) == big_endian(density),
{
    let mut out = Vec::new();
    {
        let mut encoder = png::Encoder::new(&mut out, width, height);
        encoder.set_color(png::ColorType::Rgba);
        encoder.set_depth(png::BitDepth::Eight);
        encoder.set_pixel_dims(
            Some(png::PixelDimensions { xppu: density, yppu: density, unit: png::Unit::Meter }),
        );
        encoder.write_header()?.write_image_data(rgba)?;
    }
    Ok(out)
}

/// Exchanges the first and the third channel of every pixel: from BGRA to RGBA
/// and back.
pub fn swap_channels(pixels: &[u8]) -> (r: Vec<u8>)
    ensures
        r@ == swapped(pixels@),
{
    let len: usize = pixels.len();
    let mut out: Vec<u8> = Vec::with_capacity(len);
    let count: usize = len / 4;
    for k in 0..count
        invariant
            len == pixels@.len(),
            count == len / 4,
            out@.len() == 4 * k,
            forall|i: int| 0 <= i < 4 * k ==> #[trigger] out@[i] == swapped(pixels@)[i],
    {
        assert(4 * k + 3 < pixels@.len());
        let ghost before = out@;
        out.push(pixels[4 * k + 2]);
        out.push(pixels[4 * k + 1]);
        out.push(pixels[4 * k]);
        out.push(pixels[4 * k + 3]);
        assert forall|i: int| 0 <= i < 4 * (k + 1) implies #[trigger] out@[i] == swapped(
            pixels@,
        )[i] by {
            if i < 4 * k {
                assert(out@[i] == before[i]);
            } else {
                assert(i == 4 * k || i == 4 * k + 1 || i == 4 * k + 2 || i == 4 * k + 3);
            }
        }
    }
    assert(out@ =~= swapped(pixels@));
    out
}

/// The number of pixels per metre that a scale factor stands for.
pub fn pixels_per_metre(scale: i64) -> (r: u32)
    ensures
        r == density(scale),
{
    let n: i128 = nearest_quotient(
        wide_product(scale, INCHES_PER_TEN_KILOMETRES * POINTS_PER_INCH),
        UNIT as i128 * METRES,
    );
    if n < 0 {
        0
    } else if n > u32::MAX as i128 {
        u32::MAX
    } else {
        n as u32
    }
}

/// What the encoder's refusal means for an image of the given size.
fn refusal(width: u32, height: u32) -> (r: EncodeError)
    ensures
        r == refused(width, height),
{
    if width == 0 {
        EncodeError::ZeroWidth
    } else if height == 0 {
        EncodeError::ZeroHeight
    } else {
        EncodeError::BufferSize
    }
}

/// Why the encoder refused an image of the given size.
pub open spec fn refused(width: u32, height: u32) -> EncodeError {
    if width == 0 {
        EncodeError::ZeroWidth
    } else if height == 0 {
        EncodeError::ZeroHeight
    } else {
        EncodeError::BufferSize
    }
}

/// Encodes a captured image as a PNG file.
///
/// The image is BGRA and the file RGBA, so the channels are exchanged. The file
/// states the density of the pixels, so that other programs show a capture of
/// a dense display at its logical size and not enlarged.
pub fn encode_png(img: &CapturedImage) -> (r: Result<Vec<u8>, EncodeError>)
    requires
        img.width * 4 < usize::MAX,
        image::byte_count(img.width, img.height) <= usize::MAX,
    ensures
        r is Ok <==> encodable(img.width, img.height, swapped(img.bgra@)),
        r matches Ok(file) ==> file@ == png_file(
            img.width,
            img.height,
            density(img.scale),
            swapped(img.bgra@),
        ),
        r matches Ok(file) ==> file@.len() >= 54 && file@.subrange(0, 8) == signature()
            && file@.subrange(16, 20) == big_endian(img.width) && file@.subrange(20, 24)
            == big_endian(img.height) && file@.subrange(41, 45) == big_endian(density(img.scale))
            && file@.subrange(45, 49) == big_endian(density(img.scale)),
        r matches Err(e) ==> e == refused(img.width, img.height),
{
    let rgba = swap_channels(img.bgra.as_slice());
    match write_png(img.width, img.height, pixels_per_metre(img.scale), rgba.as_slice()) {
        Ok(file) => Ok(file),
        Err(_) => Err(refusal(img.width, img.height)),
    }
}

/// Exchanging the channels twice gives back the whole pixels.
pub proof fn law_exchanging_channels_twice(pixels: Seq<u8>)
    ensures
        swapped(swapped(pixels)) == pixels.take((pixels.len() / 4 * 4) as int),
{
    assert(swapped(swapped(pixels)) =~= pixels.take((pixels.len() / 4 * 4) as int));
}

/// Every well-formed image that is not empty has a PNG file.
pub proof fn law_whole_images_are_encodable(img: image::ImageView)
    requires
        img.wf(),
        img.width != 0,
        img.height != 0,
    ensures
        encodable(img.width, img.height, swapped(img.bgra)),
{
    assert(img.width * img.height * 4 / 4 * 4 == img.width * img.height * 4);
}

/// Pixel by pixel, the first and the third channel change places and the second and
/// the fourth stay.
pub proof fn law_channels_change_places(pixels: Seq<u8>, i: int)
    requires
        0 <= i,
        4 * i + 4 <= pixels.len(),
    ensures
        swapped(pixels).len() == pixels.len() - pixels.len() % 4,
        swapped(pixels)[4 * i] == pixels[4 * i + 2],
        swapped(pixels)[4 * i + 1] == pixels[4 * i + 1],
        swapped(pixels)[4 * i + 2] == pixels[4 * i],
        swapped(pixels)[4 * i + 3] == pixels[4 * i + 3],
{
}

/// The pixels per metre are the scale factor times seventy-two points per inch times
/// 39.3701 inches per metre, to the nearest whole number.
pub proof fn law_density_is_in_pixels_per_metre(scale: i64)
    ensures
        0 <= scale <= 1_000_000_000_000 ==> -10_000_000_000 <= 2 * (density(scale) * 10_000_000_000
            - scale * (72 * 393_701)) <= 10_000_000_000,
        scale <= 0 ==> density(scale) == 0,
{
    fixed::law_rounding_error(scale * (393_701 * 72), 10_000_000_000);
}

/// Four bytes say a number, the first of them the most of it.
pub proof fn law_big_endian(v: u32)
    ensures
        big_endian(v).len() == 4,
        big_endian(v)[0] * 0x100_0000 + big_endian(v)[1] * 0x1_0000 + big_endian(v)[2] * 0x100
            + big_endian(v)[3] == v,
{
}

/// An image is refused for the first of its faults.
pub proof fn law_refusals_name_the_fault(img: image::ImageView)
    requires
        !encodable(img.width, img.height, swapped(img.bgra)),
    ensures
        refused(img.width, img.height) is ZeroWidth <==> img.width == 0,
        refused(img.width, img.height) is ZeroHeight <==> img.width != 0 && img.height == 0,
        refused(img.width, img.height) is BufferSize ==> img.bgra.len() / 4 != img.width
            * img.height,
{
}

} // verus!
