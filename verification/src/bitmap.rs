//! Bitmaps of the windowing system, and what goes through them: images to be
//! shown, annotations drawn into an image, and the clipboard.
//!
//! The bitmaps are RGBA and their rows may be padded, while images are BGRA
//! and packed.

use vstd::prelude::*;

use crate::decimal;
use crate::decimal::append_decimal;
use crate::draw;
use crate::draw::{draw, DrawCommand, Drawing};
use crate::encode;
use crate::encode::swap_channels;
use crate::fixed;
use crate::fixed::{nearest_quotient, quotient_of, UNIT};
use crate::geom::Size;
use crate::image;
use crate::image::{CapturedImage, ImageView, PinImage};
use crate::platform::{Error, Os};
use vstd::slice::{slice_subrange, slice_to_vec};

verus! {

/// An image for the windowing system.
pub struct Bitmap {
    pub width: u32,
    pub height: u32,
    /// The size at which it is shown, in logical points.
    pub logical: Size,
    /// The pixels, without padding.
    pub rgba: Vec<u8>,
}

/// The size at which an image is shown.
pub open spec fn logical(width: u32, height: u32, scale: i64) -> Size {
    Size {
        width: fixed::quotient(image::whole(width), scale),
        height: fixed::quotient(image::whole(height), scale),
    }
}

/// Why an image cannot be shown, if it cannot.
pub open spec fn flaw(image: ImageView) -> Option<Seq<char>> {
    let expected = image::byte_count(image.width, image.height);
    if image.width == 0 || image.height == 0 {
        Some("图像尺寸为零"@)
    } else if image.bgra.len() < expected {
        Some(
            "像素数据长度不足：需要 "@ + decimal::decimal(expected as nat) + "，实得 "@
                + decimal::decimal(image.bgra.len()),
        )
    } else {
        None
    }
}

/// The rows of a padded bitmap without their padding, the channels exchanged.
pub open spec fn packed(data: Seq<u8>, stride: int, row: int, height: int) -> Seq<u8>
    decreases height,
{
    if height <= 0 {
        Seq::empty()
    } else {
        packed(data, stride, row, height - 1) + encode::swapped(
            data.subrange((height - 1) * stride, (height - 1) * stride + row),
        )
    }
}

/// A padded bitmap with the rows of a packed image written into it, the channels
/// exchanged. The padding stays as it was.
pub open spec fn written(dst: Seq<u8>, stride: int, pixels: Seq<u8>, row: int, height: int) -> Seq<
    u8,
>
    decreases height,
{
    if height <= 0 {
        dst
    } else {
        let rest = written(dst, stride, pixels, row, height - 1);
        rest.subrange(0, (height - 1) * stride) + encode::swapped(
            pixels.subrange((height - 1) * row, (height - 1) * row + row),
        ) + rest.subrange((height - 1) * stride + row, rest.len() as int)
    }
}

fn failure(message: &str) -> (r: Error)
    ensures
        r.says(message@),
{
    Error::WindowCreation(message.to_owned())
}

proof fn lemma_rows_fit(y: int, height: int, stride: int)
    by (nonlinear_arith)
    requires
        0 <= y < height,
        0 <= stride,
    ensures
        0 <= y * stride,
        y * stride + stride <= height * stride,
        (y + 1) * stride == y * stride + stride,
{
}

/// Turns an image into a bitmap of the windowing system.
///
/// Its logical size is its size in pixels divided by its scale, so a capture of
/// a dense display is shown at its original size.
pub fn bitmap_from_bgra(image: &PinImage<'_>) -> (r: Result<Bitmap, Error>)
    requires
        image.scale != 0,
        image::byte_count(image.width, image.height) <= usize::MAX,
    ensures
        r is Ok <==> flaw(image@) is None,
        r matches Ok(b) ==> b.width == image.width && b.height == image.height && b.logical
            == logical(image.width, image.height, image.scale) && b.rgba@ == encode::swapped(
            image@.bgra.take(image::byte_count(image.width, image.height)),
        ),
        r matches Err(e) ==> e.says(flaw(image@)->0),
{
    if image.width == 0 || image.height == 0 {
        return Err(failure("图像尺寸为零"));
    }
    proof {
        assert(image.width * 4 <= image.width * image.height * 4) by (nonlinear_arith)
            requires
                image.height >= 1,
                image.width >= 1,
        ;
        assert(image.width * 4 * image.height == image.width * image.height * 4)
            by (nonlinear_arith);
    }
    let expected: usize = image.width as usize * 4 * image.height as usize;
    if image.bgra.len() < expected {
        let mut message: String = "像素数据长度不足：需要 ".to_owned();
        append_decimal(&mut message, expected as u64);
        message.append("，实得 ");
        append_decimal(&mut message, image.bgra.len() as u64);
        return Err(Error::WindowCreation(message));
    }
    let pixels: &[u8] = slice_subrange(image.bgra, 0, expected);
    proof {
        assert(pixels@ =~= image@.bgra.take(expected as int));
    }
    Ok(
        Bitmap {
            width: image.width,
            height: image.height,
            logical: Size {
                width: quotient_of(image.width as i64 * UNIT, image.scale),
                height: quotient_of(image.height as i64 * UNIT, image.scale),
            },
            rgba: swap_channels(pixels),
        },
    )
}

/// Copies a packed image into the storage of a bitmap whose rows start `stride`
/// bytes apart. `None` stands for a bitmap without storage.
pub fn write_rgba(dst: Option<Vec<u8>>, stride: usize, bgra: &[u8], width: usize, height: usize)
    -> (r: Result<Vec<u8>, Error>)
    requires
        width * 4 <= usize::MAX,
        bgra@.len() >= width * 4 * height,
        dst matches Some(d) ==> d@.len() >= height * stride,
    ensures
        r is Ok <==> dst is Some && stride >= width * 4,
        dst matches Some(d) ==> (r matches Ok(out) ==> out@ == written(
            d@,
            stride as int,
            bgra@,
            width * 4,
            height as int,
        )),
        r matches Err(e) ==> e.says(
            if dst is None {
                "位图表示无后备存储"@
            } else {
                "位图行距异常"@
            },
        ),
{
    let mut out: Vec<u8> = match dst {
        Some(d) => d,
        None => return Err(failure("位图表示无后备存储")),
    };
    let row: usize = width * 4;
    if stride < row {
        return Err(failure("位图行距异常"));
    }
    let ghost start = out@;
    let mut y: usize = 0;
    let mut to: usize = 0;
    let mut from: usize = 0;
    while y < height
        invariant
            y <= height,
            row == width * 4,
            row <= stride,
            to == y * stride,
            from == y * row,
            start.len() >= height * stride,
            bgra@.len() >= row * height,
            out@.len() == start.len(),
            out@ == written(start, stride as int, bgra@, row as int, y as int),
        decreases height - y,
    {
        proof {
            lemma_rows_fit(y as int, height as int, stride as int);
            lemma_rows_fit(y as int, height as int, row as int);
            assert(row * height == height * row) by (nonlinear_arith);
            assert(bgra.len() == bgra@.len());
        }
        let total: usize = out.len();
        let ghost before = out@;
        let line: Vec<u8> = swap_channels(slice_subrange(bgra, from, from + row));
        proof {
            assert(line@.len() == row);
        }
        let mut x: usize = 0;
        while x < row
            invariant
                x <= row <= stride,
                line@.len() == row,
                to + stride <= total,
                total == out@.len(),
                total == before.len(),
                out@ =~= before.subrange(0, to as int) + line@.take(x as int) + before.subrange(
                    to + x,
                    before.len() as int,
                ),
            decreases row - x,
        {
            out.set(to + x, line[x]);
            x = x + 1;
        }
        proof {
            assert(line@.take(x as int) =~= line@);
            assert(out@ =~= written(start, stride as int, bgra@, row as int, y + 1));
        }
        y = y + 1;
        if y < height {
            proof {
                lemma_rows_fit(y as int, height as int, stride as int);
                lemma_rows_fit(y as int, height as int, row as int);
                assert(row * height == height * row) by (nonlinear_arith);
            }
        }
        to = to + stride;
        from = from + row;
    }
    Ok(out)
}

/// Copies the pixels out of a bitmap whose rows start `stride` bytes apart.
/// `None` stands for a bitmap without storage.
pub fn read_back(data: Option<&[u8]>, stride: usize, width: usize, height: usize) -> (r: Result<
    Vec<u8>,
    Error,
>)
    requires
        width * 4 <= usize::MAX,
        data matches Some(d) ==> d@.len() >= height * stride,
    ensures
        r is Ok <==> data is Some && stride >= width * 4,
        data matches Some(d) ==> (r matches Ok(out) ==> out@ == packed(
            d@,
            stride as int,
            width * 4,
            height as int,
        ) && out@.len() == width * 4 * height),
        r matches Err(e) ==> e.says(
            if data is None {
                "导出位图无数据"@
            } else {
                "导出位图行距异常"@
            },
        ),
{
    let data: &[u8] = match data {
        Some(d) => d,
        None => return Err(failure("导出位图无数据")),
    };
    let row: usize = width * 4;
    if stride < row {
        return Err(failure("导出位图行距异常"));
    }
    let mut out: Vec<u8> = Vec::new();
    let mut y: usize = 0;
    let mut from: usize = 0;
    while y < height
        invariant
            y <= height,
            row == width * 4,
            row <= stride,
            from == y * stride,
            data@.len() >= height * stride,
            out@ == packed(data@, stride as int, row as int, y as int),
            out@.len() == row * y,
        decreases height - y,
    {
        proof {
            lemma_rows_fit(y as int, height as int, stride as int);
            assert(row * (y + 1) == row * y + row) by (nonlinear_arith);
            assert(data.len() == data@.len());
        }
        let mut line: Vec<u8> = swap_channels(slice_subrange(data, from, from + row));
        out.append(&mut line);
        proof {
            assert(out@ =~= packed(data@, stride as int, row as int, y + 1));
        }
        y = y + 1;
        from = from + stride;
    }
    Ok(out)
}

/// How the pixels of an image with annotations come about.
pub enum Flattening {
    /// These are the pixels.
    Ready(Vec<u8>),
    /// The bitmap has to be painted, and then read back.
    Paint { bitmap: Bitmap, drawing: Drawing },
}

/// Draws annotations into an image.
///
/// Without annotations the pixels are those of the image. With annotations, the
/// image is to be painted at its logical size, with the annotations above it,
/// into a bitmap of its size in pixels; what is painted is read back with
/// [`read_back`]. Where nothing can be painted the pixels are those of the
/// image, too.
pub fn flatten_annotations(os: Os, image: &PinImage<'_>, commands: &[DrawCommand]) -> (r: Result<
    Flattening,
    Error,
>)
    requires
        image.scale != 0,
        image::byte_count(image.width, image.height) <= usize::MAX,
    ensures
        r is Ok <==> os == Os::Other || commands@.len() == 0 || flaw(image@) is None,
        r matches Err(e) ==> e.says(flaw(image@)->0),
        os == Os::Other || commands@.len() == 0 ==> (r matches Ok(Flattening::Ready(bytes))
            && bytes@ == image@.bgra),
        os == Os::Mac && commands@.len() > 0 && flaw(image@) is None ==> (r matches Ok(
            Flattening::Paint { bitmap, drawing },
        ) && bitmap.width == image.width && bitmap.height == image.height && bitmap.logical
            == logical(image.width, image.height, image.scale) && bitmap.rgba@ == encode::swapped(
            image@.bgra.take(image::byte_count(image.width, image.height)),
        ) && drawing.scale == UNIT && draw::steps(drawing.ops@) == draw::painting(
            draw::commands(commands@),
            logical(image.width, image.height, image.scale).height,
        )),
{
    match os {
        Os::Other => Ok(Flattening::Ready(slice_to_vec(image.bgra))),
        Os::Mac => {
            if commands.len() == 0 {
                return Ok(Flattening::Ready(slice_to_vec(image.bgra)));
            }
            let bitmap: Bitmap = match bitmap_from_bgra(image) {
                Ok(bitmap) => bitmap,
                Err(e) => return Err(e),
            };
            match draw(commands, bitmap.logical.height, UNIT) {
                Some(drawing) => Ok(Flattening::Paint { bitmap, drawing }),
                None => Ok(Flattening::Ready(slice_to_vec(image.bgra))),
            }
        },
    }
}

/// Prepares an image for the clipboard.
pub fn copy_image_to_clipboard(os: Os, image: &PinImage<'_>) -> (r: Result<Bitmap, Error>)
    requires
        image.scale != 0,
        image::byte_count(image.width, image.height) <= usize::MAX,
    ensures
        r is Ok <==> os == Os::Mac && flaw(image@) is None,
        r matches Ok(b) ==> b.width == image.width && b.height == image.height && b.logical
            == logical(image.width, image.height, image.scale) && b.rgba@ == encode::swapped(
            image@.bgra.take(image::byte_count(image.width, image.height)),
        ),
        r matches Err(e) ==> if os == Os::Mac {
            e.says(flaw(image@)->0)
        } else {
            e matches Error::Unsupported(what) && what@ == "clipboard"@
        },
{
    match os {
        Os::Mac => bitmap_from_bgra(image),
        Os::Other => Err(Error::Unsupported("clipboard")),
    }
}

/// An image on the clipboard: its size in logical points, and the sizes in
/// pixels of its representations.
pub struct PasteboardImage {
    pub logical: Size,
    pub representations: Vec<(i64, i64)>,
}

/// The bitmap into which an image of the clipboard is painted.
#[derive(Debug, Clone, Copy, PartialEq, Eq, Structural)]
pub struct Raster {
    pub width: u32,
    pub height: u32,
    pub scale: i64,
}

/// The largest width or height of the representations, or zero.
pub open spec fn largest(sizes: Seq<(i64, i64)>, width: bool) -> i64
    decreases sizes.len(),
{
    if sizes.len() == 0 {
        0
    } else {
        let v = if width {
            sizes.last().0
        } else {
            sizes.last().1
        };
        fixed::larger(largest(sizes.drop_last(), width) as int, v as int) as i64
    }
}

/// The size in pixels of an image of the clipboard. Vector graphics have no
/// pixels: each logical point becomes one.
pub open spec fn pixel_extent(logical: Size, sizes: Seq<(i64, i64)>) -> (int, int) {
    if largest(sizes, true) > 0 && largest(sizes, false) > 0 {
        (largest(sizes, true) as int, largest(sizes, false) as int)
    } else {
        (
            fixed::nearest(logical.width as int, UNIT as int),
            fixed::nearest(logical.height as int, UNIT as int),
        )
    }
}

/// The bitmap for an image of the clipboard, unless it has no size or is too
/// large.
pub open spec fn raster_for(logical: Size, sizes: Seq<(i64, i64)>) -> Option<Raster> {
    let (w, h) = pixel_extent(logical, sizes);
    if 0 < w <= u32::MAX && 0 < h <= u32::MAX && logical.width > 0 {
        Some(
            Raster {
                width: w as u32,
                height: h as u32,
                scale: fixed::quotient(image::whole(w as u32), logical.width),
            },
        )
    } else {
        None
    }
}

/// Decides into what bitmap an image of the clipboard is painted. Its size in
/// logical points is not enough: a capture of a dense display would lose half
/// of its pixels.
pub fn read_image(image: &PasteboardImage) -> (r: Option<Raster>)
    ensures
        r == raster_for(image.logical, image.representations@),
{
    let mut pw: i64 = 0;
    let mut ph: i64 = 0;
    let mut i: usize = 0;
    let ghost sizes = image.representations@;
    proof {
        assert(sizes.take(0).len() == 0);
    }
    while i < image.representations.len()
        invariant
            i <= image.representations@.len(),
            sizes == image.representations@,
            pw == largest(sizes.take(i as int), true),
            ph == largest(sizes.take(i as int), false),
        decreases image.representations@.len() - i,
    {
        let (w, h): (i64, i64) = image.representations[i];
        proof {
            assert(sizes.take(i + 1).drop_last() =~= sizes.take(i as int));
            assert(sizes.take(i + 1).last() == (w, h));
        }
        pw = fixed::larger_of(pw, w);
        ph = fixed::larger_of(ph, h);
        i = i + 1;
    }
    proof {
        assert(sizes.take(i as int) =~= sizes);
    }
    if pw <= 0 || ph <= 0 {
        pw = nearest_quotient(image.logical.width as i128, UNIT as i128) as i64;
        ph = nearest_quotient(image.logical.height as i128, UNIT as i128) as i64;
    }
    if pw <= 0 || ph <= 0 || image.logical.width <= 0 {
        return None;
    }
    if pw > u32::MAX as i64 || ph > u32::MAX as i64 {
        return None;
    }
    Some(
        Raster {
            width: pw as u32,
            height: ph as u32,
            scale: quotient_of(pw * UNIT, image.logical.width),
        },
    )
}

/// Takes a painted bitmap as an image of the clipboard. `None` stands for a
/// bitmap without storage.
pub fn finish_read(raster: Raster, data: Option<&[u8]>, stride: usize) -> (r: Option<CapturedImage>)
    requires
        raster.width * 4 <= usize::MAX,
        raster.height <= usize::MAX,
        data matches Some(d) ==> d@.len() >= raster.height * stride,
    ensures
        r is Some <==> data is Some && stride >= raster.width * 4,
        r matches Some(image) ==> image@.wf() && image.width == raster.width && image.height
            == raster.height && image.scale == raster.scale && image.bgra@ == packed(
            data->0@,
            stride as int,
            raster.width * 4,
            raster.height as int,
        ),
{
    match read_back(data, stride, raster.width as usize, raster.height as usize) {
        Ok(bgra) => {
            proof {
                assert(raster.width * 4 * raster.height == raster.width * raster.height * 4)
                    by (nonlinear_arith);
            }
            Some(
                CapturedImage {
                    width: raster.width,
                    height: raster.height,
                    scale: raster.scale,
                    bgra,
                },
            )
        },
        Err(_) => None,
    }
}

proof fn lemma_written_row(
    dst: Seq<u8>,
    stride: int,
    pixels: Seq<u8>,
    row: int,
    n: int,
    height: int,
    y: int,
)
    requires
        0 <= y < n <= height,
        0 <= row <= stride,
        row % 4 == 0,
        dst.len() >= height * stride,
        pixels.len() >= height * row,
    ensures
        written(dst, stride, pixels, row, n).len() == dst.len(),
        written(dst, stride, pixels, row, n).subrange(y * stride, y * stride + row)
            == encode::swapped(pixels.subrange(y * row, y * row + row)),
    decreases n,
{
    lemma_rows_fit(n - 1, height, stride);
    lemma_rows_fit(n - 1, height, row);
    lemma_rows_fit(y, height, stride);
    lemma_rows_fit(y, height, row);
    let before = written(dst, stride, pixels, row, n - 1);
    let after = written(dst, stride, pixels, row, n);
    let line = encode::swapped(pixels.subrange((n - 1) * row, (n - 1) * row + row));
    assert(line.len() == row);
    if n > 1 {
        lemma_written_row(dst, stride, pixels, row, n - 1, height, 0);
    }
    if y == n - 1 {
        assert(after.subrange(y * stride, y * stride + row) =~= line);
    } else {
        lemma_written_row(dst, stride, pixels, row, n - 1, height, y);
        assert((y + 1) * stride <= (n - 1) * stride) by (nonlinear_arith)
            requires
                y + 1 <= n - 1,
                0 <= stride,
        ;
        assert(after.subrange(y * stride, y * stride + row) =~= before.subrange(
            y * stride,
            y * stride + row,
        ));
    }
}

/// Reading a bitmap back gives the image that was written into it: padding and
/// the order of the channels make no difference.
pub proof fn law_written_pixels_are_read_back(
    dst: Seq<u8>,
    stride: int,
    pixels: Seq<u8>,
    width: int,
    height: int,
    n: int,
)
    requires
        0 <= width,
        width * 4 <= stride,
        0 <= n <= height,
        dst.len() >= height * stride,
        pixels.len() >= height * (width * 4),
    ensures
        packed(written(dst, stride, pixels, width * 4, height), stride, width * 4, n)
            == pixels.take(n * (width * 4)),
    decreases n,
{
    let row = width * 4;
    let all = written(dst, stride, pixels, row, height);
    if n == 0 {
        assert(n * row == 0) by (nonlinear_arith)
            requires
                n == 0,
        ;
        assert(packed(all, stride, row, n) =~= pixels.take(n * row));
    } else {
        law_written_pixels_are_read_back(dst, stride, pixels, width, height, n - 1);
        lemma_written_row(dst, stride, pixels, row, height, height, n - 1);
        lemma_rows_fit(n - 1, height, row);
        let line = pixels.subrange((n - 1) * row, (n - 1) * row + row);
        encode::law_exchanging_channels_twice(line);
        assert(line.take((line.len() / 4 * 4) as int) =~= line);
        assert(pixels.take((n - 1) * row) + line =~= pixels.take(n * row));
    }
}

/// An image is shown at its size in pixels divided by its scale factor.
pub proof fn law_an_image_is_shown_at_its_logical_size(width: u32, height: u32, scale: i64)
    requires
        scale >= 1_000,
    ensures
        ({
            let size = logical(width, height, scale);
            &&& -scale <= 2 * (size.width * scale - width * 1_000_000_000_000) <= scale
            &&& -scale <= 2 * (size.height * scale - height * 1_000_000_000_000) <= scale
        }),
{
    fixed::law_quotients_are_rounded(image::whole(width), scale);
    fixed::law_quotients_are_rounded(image::whole(height), scale);
}

/// An image can be shown if and only if it has pixels and none of them is missing.
pub proof fn law_complete_images_can_be_shown(image: ImageView)
    ensures
        flaw(image) is None <==> image.width > 0 && image.height > 0 && image.bgra.len()
            >= image.width * image.height * 4,
{
}

proof fn lemma_packed_len(data: Seq<u8>, stride: int, row: int, n: int, height: int)
    requires
        0 <= n <= height,
        0 <= row <= stride,
        row % 4 == 0,
        data.len() >= height * stride,
    ensures
        packed(data, stride, row, n).len() == n * row,
    decreases n,
{
    if n > 0 {
        lemma_packed_len(data, stride, row, n - 1, height);
        lemma_rows_fit(n - 1, height, stride);
        lemma_rows_fit(n - 1, height, row);
        assert(data.subrange((n - 1) * stride, (n - 1) * stride + row).len() == row);
    } else {
        assert(n * row == 0) by (nonlinear_arith)
            requires
                n == 0,
        ;
    }
}

/// Pixel `x` of row `y` of what is read back is that pixel of that row of the bitmap,
/// whatever the rows are padded with, with red and blue exchanged.
pub proof fn law_pixels_are_read_row_by_row(
    data: Seq<u8>,
    stride: int,
    width: int,
    height: int,
    n: int,
    x: int,
    y: int,
)
    requires
        0 <= x < width,
        0 <= y < n <= height,
        width * 4 <= stride,
        data.len() >= height * stride,
    ensures
        ({
            let read = packed(data, stride, width * 4, n);
            let to = y * (width * 4) + x * 4;
            let from = y * stride + x * 4;
            &&& read.len() == n * (width * 4)
            &&& read[to] == data[from + 2]
            &&& read[to + 1] == data[from + 1]
            &&& read[to + 2] == data[from]
            &&& read[to + 3] == data[from + 3]
        }),
    decreases n,
{
    let row = width * 4;
    let before = packed(data, stride, row, n - 1);
    let line = data.subrange((n - 1) * stride, (n - 1) * stride + row);
    lemma_packed_len(data, stride, row, n, height);
    lemma_packed_len(data, stride, row, n - 1, height);
    lemma_rows_fit(n - 1, height, stride);
    lemma_rows_fit(n - 1, height, row);
    assert(line.len() == row);
    if y < n - 1 {
        law_pixels_are_read_row_by_row(data, stride, width, height, n - 1, x, y);
        lemma_rows_fit(y, n - 1, row);
    } else {
        encode::law_channels_change_places(line, x);
        lemma_rows_fit(y, n, row);
    }
}

proof fn lemma_written_keeps_the_rest(
    dst: Seq<u8>,
    stride: int,
    pixels: Seq<u8>,
    row: int,
    n: int,
    height: int,
    k: int,
)
    requires
        0 <= n <= height,
        0 <= row <= stride,
        row % 4 == 0,
        dst.len() >= height * stride,
        pixels.len() >= height * row,
        0 <= k < dst.len(),
        k >= n * stride || (stride > 0 && k % stride >= row),
    ensures
        written(dst, stride, pixels, row, n).len() == dst.len(),
        written(dst, stride, pixels, row, n)[k] == dst[k],
    decreases n,
{
    if n > 0 {
        lemma_rows_fit(n - 1, height, stride);
        lemma_rows_fit(n - 1, height, row);
        lemma_written_keeps_the_rest(dst, stride, pixels, row, n - 1, height, k);
        let line = encode::swapped(pixels.subrange((n - 1) * row, (n - 1) * row + row));
        assert(line.len() == row);
        if k < n * stride && k >= (n - 1) * stride {
            assert(k % stride == k - (n - 1) * stride) by (nonlinear_arith)
                requires
                    (n - 1) * stride <= k < (n - 1) * stride + stride,
                    stride > 0,
            ;
        }
    }
}

/// Writing an image into a bitmap leaves the padding of the rows, and what lies behind
/// the last row, as it was.
pub proof fn law_writing_keeps_the_padding(
    dst: Seq<u8>,
    stride: int,
    pixels: Seq<u8>,
    width: int,
    height: int,
    k: int,
)
    requires
        0 <= width,
        0 <= height,
        width * 4 <= stride,
        dst.len() >= height * stride,
        pixels.len() >= height * (width * 4),
        0 <= k < dst.len(),
        k >= height * stride || (stride > 0 && k % stride >= width * 4),
    ensures
        written(dst, stride, pixels, width * 4, height).len() == dst.len(),
        written(dst, stride, pixels, width * 4, height)[k] == dst[k],
{
    lemma_written_keeps_the_rest(dst, stride, pixels, width * 4, height, height, k);
}

proof fn lemma_largest(sizes: Seq<(i64, i64)>, width: bool)
    ensures
        largest(sizes, width) >= 0,
        forall|i: int|
            0 <= i < sizes.len() ==> (if width {
                (#[trigger] sizes[i]).0
            } else {
                sizes[i].1
            }) <= largest(sizes, width),
        largest(sizes, width) == 0 || exists|i: int|
            0 <= i < sizes.len() && (if width {
                (#[trigger] sizes[i]).0
            } else {
                sizes[i].1
            }) == largest(sizes, width),
    decreases sizes.len(),
{
    if sizes.len() > 0 {
        let init = sizes.drop_last();
        lemma_largest(init, width);
        assert forall|i: int| 0 <= i < sizes.len() implies (if width {
            (#[trigger] sizes[i]).0
        } else {
            sizes[i].1
        }) <= largest(sizes, width) by {
            if i < init.len() {
                assert(init[i] == sizes[i]);
            }
        }
        if largest(sizes, width) != 0 {
            if largest(sizes, width) == largest(init, width) {
                let i = choose|i: int|
                    0 <= i < init.len() && (if width {
                        (#[trigger] init[i]).0
                    } else {
                        init[i].1
                    }) == largest(init, width);
                assert(sizes[i] == init[i]);
            } else {
                assert(sizes[sizes.len() - 1] == sizes.last());
            }
        }
    }
}

/// An image of the clipboard keeps all of its pixels: the bitmap for it is as wide and
/// as high as the largest of its representations, and its scale factor is its width in
/// pixels by its width in logical points.
pub proof fn law_a_clipboard_image_keeps_its_pixels(
    logical: Size,
    sizes: Seq<(i64, i64)>,
    i: int,
    j: int,
)
    requires
        0 <= i < sizes.len(),
        0 <= j < sizes.len(),
        forall|k: int| 0 <= k < sizes.len() ==> (#[trigger] sizes[k]).0 <= sizes[i].0,
        forall|k: int| 0 <= k < sizes.len() ==> (#[trigger] sizes[k]).1 <= sizes[j].1,
        0 < sizes[i].0 <= u32::MAX,
        0 < sizes[j].1 <= u32::MAX,
        logical.width >= 1_000,
    ensures
        raster_for(logical, sizes) matches Some(r) && ({
            &&& r.width == sizes[i].0
            &&& r.height == sizes[j].1
            &&& -logical.width <= 2 * (r.scale * logical.width - r.width * 1_000_000_000_000)
                <= logical.width
        }),
{
    lemma_largest(sizes, true);
    lemma_largest(sizes, false);
    assert(largest(sizes, true) == sizes[i].0);
    assert(largest(sizes, false) == sizes[j].1);
    fixed::law_quotients_are_rounded(image::whole(sizes[i].0 as u32), logical.width);
}

/// Graphics without pixels get one pixel for each logical point, and what has no size
/// gets no bitmap.
pub proof fn law_graphics_get_a_pixel_per_point(logical: Size)
    requires
        logical.width <= 1_000_000_000_000_000,
        logical.height <= 1_000_000_000_000_000,
    ensures
        logical.width <= 0 || logical.height <= 0 ==> raster_for(logical, Seq::empty()) is None,
        logical.width >= 500_000 && logical.height >= 500_000 ==> (raster_for(
            logical,
            Seq::empty(),
        ) matches Some(r) && -1_000_000 <= 2 * (r.width * 1_000_000 - logical.width) <= 1_000_000
            && -1_000_000 <= 2 * (r.height * 1_000_000 - logical.height) <= 1_000_000),
{
    fixed::law_rounding_error(logical.width as int, UNIT as int);
    fixed::law_rounding_error(logical.height as int, UNIT as int);
}

/// Where no representation has both a width and a height, the pixels come from the size
/// in logical points.
pub proof fn law_flat_representations_have_no_pixels(logical: Size, sizes: Seq<(i64, i64)>)
    requires
        (forall|k: int| 0 <= k < sizes.len() ==> (#[trigger] sizes[k]).0 <= 0) || (forall|k: int|
            0 <= k < sizes.len() ==> (#[trigger] sizes[k]).1 <= 0),
    ensures
        raster_for(logical, sizes) == raster_for(logical, Seq::empty()),
{
    lemma_largest(sizes, true);
    lemma_largest(sizes, false);
    assert(largest(Seq::empty(), true) == 0);
}

} // verus!
