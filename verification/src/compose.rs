//! Putting the parts of a selection together to one image.

use vstd::arithmetic::div_mod::lemma_fundamental_div_mod_converse;
use vstd::prelude::*;

use crate::capture::{Capturer, Error};
use crate::fixed;
use crate::fixed::{minus, nearest_quotient, pixels_from};
use crate::image;
use crate::image::{CapturedImage, ImageView};
use crate::selection;
use crate::selection::{Selection, SelectionPart, SelectionView};

verus! {

/// A scale factor without its sign.
pub open spec fn magnitude(scale: i64) -> int {
    if scale < 0 {
        -scale
    } else {
        scale as int
    }
}

/// The ratio of two scale factors is positive.
pub open spec fn same_sign(from: i64, to: i64) -> bool {
    (from > 0 && to > 0) || (from < 0 && to < 0)
}

/// How many pixels of the output `n` pixels of a source become: none, where the
/// ratio of the scale factors is not positive.
pub open spec fn span(n: u32, from: i64, to: i64) -> int {
    if same_sign(from, to) {
        fixed::nearest(n * magnitude(to), magnitude(from))
    } else {
        0
    }
}

/// The source pixel that output pixel `o` of a part shows: the one before it
/// at the scale of the source, or the last one.
pub open spec fn sample(o: int, n: u32, from: i64, to: i64) -> int {
    fixed::smaller(o * magnitude(from) / magnitude(to), n - 1)
}

/// The column of byte `k` in rows of `width` pixels.
pub open spec fn column(k: int, width: u32) -> int {
    (k / 4) % (width as int)
}

/// The row of byte `k` in rows of `width` pixels.
pub open spec fn row(k: int, width: u32) -> int {
    (k / 4) / (width as int)
}

/// Where and at which scale an image goes into an output of `width` pixels per
/// row.
pub struct Placement {
    pub width: u32,
    pub from: i64,
    pub to: i64,
    pub dx: i64,
    pub dy: i64,
}

/// Byte `k` of the output belongs to the image.
pub open spec fn covered(src: ImageView, at: Placement, k: int) -> bool {
    &&& 0 <= column(k, at.width) - at.dx < span(src.width, at.from, at.to)
    &&& 0 <= row(k, at.width) - at.dy < span(src.height, at.from, at.to)
}

/// The byte of the image that byte `k` of the output shows.
pub open spec fn shown(src: ImageView, at: Placement, k: int) -> u8 {
    let x = sample(column(k, at.width) - at.dx, src.width, at.from, at.to);
    let y = sample(row(k, at.width) - at.dy, src.height, at.from, at.to);
    src.bgra[(y * src.width + x) * 4 + k % 4]
}

/// The output after an image was put into it.
pub open spec fn blitted(src: ImageView, at: Placement, dst: Seq<u8>) -> Seq<u8> {
    Seq::new(
        dst.len(),
        |k: int|
            if covered(src, at, k) {
                shown(src, at, k)
            } else {
                dst[k]
            },
    )
}

proof fn lemma_position(x: int, y: int, c: int, width: u32)
    requires
        0 <= x < width,
        0 <= y,
        0 <= c < 4,
    ensures
        column((y * width + x) * 4 + c, width) == x,
        row((y * width + x) * 4 + c, width) == y,
        ((y * width + x) * 4 + c) % 4 == c,
        (y * width + x) * 4 + c >= 0,
{
    let q = y * width + x;
    assert(q >= 0) by (nonlinear_arith)
        requires
            q == y * width + x,
            y >= 0,
            x >= 0,
            width >= 0,
    ;
    lemma_fundamental_div_mod_converse(q, width as int, y, x);
}

proof fn lemma_within(x: int, y: int, width: u32, height: u32)
    by (nonlinear_arith)
    requires
        0 <= x < width,
        0 <= y < height,
    ensures
        0 <= y * width,
        0 <= (y * width + x) * 4,
        (y * width + x) * 4 + 4 <= width * height * 4,
{
}

/// A byte is known by its column, its row and its channel.
proof fn lemma_position_is_unique(k: int, x: int, y: int, width: u32)
    requires
        width > 0,
        k >= 0,
        column(k, width) == x,
        row(k, width) == y,
    ensures
        k == (y * width + x) * 4 + k % 4,
{
    let q = k / 4;
    assert(q == width * (q / (width as int)) + q % (width as int)) by (nonlinear_arith)
        requires
            width > 0,
    ;
    assert(width * y == y * width) by (nonlinear_arith);
}

/// The bytes of an image lie in its rows and columns.
proof fn lemma_inside(k: int, width: u32, height: u32)
    requires
        width > 0,
        0 <= k < image::byte_count(width, height),
    ensures
        0 <= column(k, width) < width,
        0 <= row(k, width) < height,
{
    let q = k / 4;
    assert(q < width * height);
    assert(0 <= q / (width as int) < height) by (nonlinear_arith)
        requires
            0 <= q < width * height,
            width > 0,
    ;
}

fn larger_wide(a: i128, b: i128) -> (r: i128)
    ensures
        r == fixed::larger(a as int, b as int),
{
    if b > a {
        b
    } else {
        a
    }
}

fn smaller_wide(a: i128, b: i128) -> (r: i128)
    ensures
        r == fixed::smaller(a as int, b as int),
{
    if b < a {
        b
    } else {
        a
    }
}

fn magnitude_of(scale: i64) -> (r: i128)
    ensures
        r == magnitude(scale),
{
    if scale < 0 {
        -(scale as i128)
    } else {
        scale as i128
    }
}

fn span_of(n: u32, from: i64, to: i64) -> (r: i128)
    ensures
        r == span(n, from, to),
        -0x4000_0000_0000_0000_0000_0000_0000_0000 <= r
            <= 0x4000_0000_0000_0000_0000_0000_0000_0000,
{
    if !((from > 0 && to > 0) || (from < 0 && to < 0)) {
        return 0;
    }
    let to: i128 = magnitude_of(to);
    proof {
        assert(0 <= n * to <= 0xffff_ffff * 0x8000_0000_0000_0000) by (nonlinear_arith)
            requires
                0 <= n <= 0xffff_ffff,
                0 <= to <= 0x8000_0000_0000_0000,
        ;
    }
    nearest_quotient(n as i128 * to, magnitude_of(from))
}

fn sample_of(o: i128, n: u32, from: i64, to: i64) -> (r: usize)
    requires
        0 <= o <= 0x8000_0001_0000_0000,
        n > 0,
        same_sign(from, to),
    ensures
        r == sample(o as int, n, from, to),
        0 <= r < n,
{
    let from: i128 = magnitude_of(from);
    let to: i128 = magnitude_of(to);
    proof {
        assert(0 <= o * from <= 0x7fff_ffff_ffff_ffff_ffff_ffff_ffff_ffff) by (nonlinear_arith)
            requires
                0 <= o <= 0x8000_0001_0000_0000,
                0 < from <= 0x8000_0000_0000_0000,
        ;
    }
    let m: i128 = o * from;
    proof {
        assert(m >= 0 && m as int / to as int >= 0) by (nonlinear_arith)
            requires
                m == o * from,
                o >= 0,
                from > 0,
                to > 0,
        ;
    }
    let s: i128 = m / to;
    let last: i128 = n as i128 - 1;
    if last < s {
        last as usize
    } else {
        s as usize
    }
}

/// Puts `src` into `dst`, whose size is `dst_w` by `dst_h` pixels, at
/// `(dx, dy)`. Where the scales differ, each output pixel shows the nearest
/// source pixel before it.
fn blit(
    src: &CapturedImage,
    src_scale: i64,
    dst: &mut Vec<u8>,
    dst_w: u32,
    dst_h: u32,
    dst_scale: i64,
    dx: i64,
    dy: i64,
)
    requires
        src@.wf(),
        src_scale != 0,
        old(dst)@.len() == image::byte_count(dst_w, dst_h),
        dst_w > 0,
    ensures
        final(dst)@ == blitted(
            src@,
            Placement { width: dst_w, from: src_scale, to: dst_scale, dx, dy },
            old(dst)@,
        ),
{
    let ghost at = Placement { width: dst_w, from: src_scale, to: dst_scale, dx, dy };
    let ghost before = dst@;
    let ghost after = blitted(src@, at, before);
    let x0: i128 = larger_wide(0, dx as i128);
    let y0: i128 = larger_wide(0, dy as i128);
    let x1: i128 = smaller_wide(
        dst_w as i128,
        dx as i128 + span_of(src.width, src_scale, dst_scale),
    );
    let y1: i128 = smaller_wide(
        dst_h as i128,
        dy as i128 + span_of(src.height, src_scale, dst_scale),
    );
    if x0 >= x1 || y0 >= y1 {
        proof {
            assert forall|k: int| 0 <= k < before.len() implies !covered(src@, at, k) by {
                lemma_inside(k, dst_w, dst_h);
            }
            assert(after =~= before);
        }
        return;
    }
    proof {
        let from = magnitude(src_scale);
        let to = magnitude(dst_scale);
        assert(0 * to == 0) by (nonlinear_arith);
        assert(0int % from == 0 && 0int / from == 0) by (nonlinear_arith)
            requires
                from > 0,
        ;
        assert(span(0, src_scale, dst_scale) == 0);
    }
    let mut y: u32 = y0 as u32;
    while (y as i128) < y1
        invariant
            0 <= y0 <= y <= y1 <= dst_h,
            0 <= x0 < x1 <= dst_w,
            x0 == fixed::larger(0, dx as int),
            y0 == fixed::larger(0, dy as int),
            x1 == fixed::smaller(dst_w as int, dx + span(src.width, src_scale, dst_scale)),
            y1 == fixed::smaller(dst_h as int, dy + span(src.height, src_scale, dst_scale)),
            src@.wf(),
            src.width > 0,
            src.height > 0,
            same_sign(src_scale, dst_scale),
            at == (Placement { width: dst_w, from: src_scale, to: dst_scale, dx, dy }),
            after == blitted(src@, at, before),
            before.len() == image::byte_count(dst_w, dst_h),
            dst@.len() == before.len(),
            forall|k: int|
                0 <= k < before.len() && row(k, dst_w) < y ==> #[trigger] dst@[k] == after[k],
            forall|k: int|
                0 <= k < before.len() && row(k, dst_w) >= y ==> #[trigger] dst@[k] == before[k],
        decreases y1 - y,
    {
        let sy: usize = sample_of(y as i128 - dy as i128, src.height, src_scale, dst_scale);
        let mut x: u32 = x0 as u32;
        while (x as i128) < x1
            invariant
                0 <= y0 <= y < y1 <= dst_h,
                0 <= x0 <= x <= x1 <= dst_w,
                x0 == fixed::larger(0, dx as int),
                y0 == fixed::larger(0, dy as int),
                x1 == fixed::smaller(dst_w as int, dx + span(src.width, src_scale, dst_scale)),
                y1 == fixed::smaller(dst_h as int, dy + span(src.height, src_scale, dst_scale)),
                src@.wf(),
                src.width > 0,
                src.height > 0,
                same_sign(src_scale, dst_scale),
                sy == sample(y - dy, src.height, src_scale, dst_scale),
                sy < src.height,
                at == (Placement { width: dst_w, from: src_scale, to: dst_scale, dx, dy }),
                after == blitted(src@, at, before),
                before.len() == image::byte_count(dst_w, dst_h),
                dst@.len() == before.len(),
                forall|k: int|
                    0 <= k < before.len() && (row(k, dst_w) < y || (row(k, dst_w) == y && column(
                        k,
                        dst_w,
                    ) < x)) ==> #[trigger] dst@[k] == after[k],
                forall|k: int|
                    0 <= k < before.len() && (row(k, dst_w) > y || (row(k, dst_w) == y && column(
                        k,
                        dst_w,
                    ) >= x)) ==> #[trigger] dst@[k] == before[k],
            decreases x1 - x,
        {
            let sx: usize = sample_of(x as i128 - dx as i128, src.width, src_scale, dst_scale);
            proof {
                lemma_within(sx as int, sy as int, src.width, src.height);
                lemma_within(x as int, y as int, dst_w, dst_h);
                assert(src.bgra.len() == src.bgra@.len());
                assert(dst.len() == dst@.len());
            }
            let s: usize = (sy * src.width as usize + sx) * 4;
            let d: usize = (y as usize * dst_w as usize + x as usize) * 4;
            let ghost last = dst@;
            dst.set(d, src.bgra[s]);
            dst.set(d + 1, src.bgra[s + 1]);
            dst.set(d + 2, src.bgra[s + 2]);
            dst.set(d + 3, src.bgra[s + 3]);
            proof {
                lemma_position(x as int, y as int, 0, dst_w);
                lemma_position(x as int, y as int, 1, dst_w);
                lemma_position(x as int, y as int, 2, dst_w);
                lemma_position(x as int, y as int, 3, dst_w);
                assert forall|k: int|
                    0 <= k < before.len() && row(k, dst_w) == y && column(k, dst_w)
                        == x implies #[trigger] dst@[k] == after[k] by {
                    lemma_position_is_unique(k, x as int, y as int, dst_w);
                    assert(dst@[k] == src.bgra@[s + k % 4]);
                }
                assert forall|k: int|
                    0 <= k < before.len() && !(row(k, dst_w) == y && column(k, dst_w)
                        == x) implies #[trigger] dst@[k] == last[k] by {}
            }
            x = x + 1;
        }
        proof {
            assert forall|k: int| 0 <= k < before.len() && row(k, dst_w) == y implies
                #[trigger] dst@[k] == after[k] by {
                lemma_inside(k, dst_w, dst_h);
            }
        }
        y = y + 1;
    }
    proof {
        assert forall|k: int| 0 <= k < before.len() implies #[trigger] dst@[k] == after[k] by {
            lemma_inside(k, dst_w, dst_h);
        }
        assert(dst@ =~= after);
    }
}

/// The size of the composed image in pixels.
pub open spec fn output_size(sel: SelectionView) -> (u32, u32) {
    let scale = selection::max_scale(sel.parts);
    (
        fixed::pixel_count(sel.rect.size.width, scale),
        fixed::pixel_count(sel.rect.size.height, scale),
    )
}

/// Where a part goes in the composed image.
pub open spec fn placement(sel: SelectionView, part: SelectionPart) -> Placement {
    let scale = selection::max_scale(sel.parts);
    Placement {
        width: output_size(sel).0,
        from: part.scale,
        to: scale,
        dx: fixed::pixel_offset(fixed::clamped(part.rect.origin.x - sel.rect.origin.x), scale),
        dy: fixed::pixel_offset(fixed::clamped(part.rect.origin.y - sel.rect.origin.y), scale),
    }
}

/// The composed image after its first `n` parts. It starts out transparent.
pub open spec fn painted(sel: SelectionView, images: Seq<ImageView>, n: int) -> Seq<u8>
    decreases n,
{
    if n <= 0 {
        Seq::new(image::byte_count(output_size(sel).0, output_size(sel).1) as nat, |k: int| 0u8)
    } else {
        blitted(images[n - 1], placement(sel, sel.parts[n - 1]), painted(sel, images, n - 1))
    }
}

pub open spec fn image_views(images: Seq<CapturedImage>) -> Seq<ImageView> {
    images.map_values(|i: CapturedImage| i@)
}

/// The composed image.
pub open spec fn composed(sel: SelectionView, images: Seq<ImageView>) -> ImageView {
    ImageView {
        width: output_size(sel).0,
        height: output_size(sel).1,
        scale: selection::max_scale(sel.parts),
        bgra: painted(sel, images, sel.parts.len() as int),
    }
}

/// The selection can be composed: no part has the scale factor zero, and the
/// bytes of the result can be counted.
pub open spec fn composable(sel: SelectionView) -> bool {
    &&& forall|i: int| 0 <= i < sel.parts.len() ==> (#[trigger] sel.parts[i]).scale != 0
    &&& image::byte_count(output_size(sel).0, output_size(sel).1) <= usize::MAX
}

proof fn lemma_painted_len(sel: SelectionView, images: Seq<ImageView>, n: int)
    ensures
        painted(sel, images, n).len() == image::byte_count(output_size(sel).0, output_size(sel).1),
    decreases n,
{
    if n > 0 {
        lemma_painted_len(sel, images, n - 1);
    } else {
        assert(image::byte_count(output_size(sel).0, output_size(sel).1) >= 0)
            by (nonlinear_arith);
    }
}

/// Puts the images of the parts of a selection together. What no display
/// covers stays transparent: black could be mistaken for contents.
pub fn compose(sel: &Selection, images: &Vec<CapturedImage>) -> (r: CapturedImage)
    requires
        images@.len() == sel@.parts.len(),
        forall|i: int| 0 <= i < images@.len() ==> (#[trigger] images@[i])@.wf(),
        composable(sel@),
        output_size(sel@).0 > 0,
        output_size(sel@).1 > 0,
    ensures
        r@ == composed(sel@, image_views(images@)),
        r@.wf(),
{
    let out_scale: i64 = sel.output_scale();
    let (out_w, out_h): (u32, u32) = sel.output_pixel_size();
    let ghost views = image_views(images@);
    proof {
        selection::law_max_scale(sel@.parts);
        assert(0 <= out_w * out_h) by (nonlinear_arith);
    }
    let mut out: Vec<u8> = vec![0u8; out_w as usize * out_h as usize * 4];
    proof {
        assert(out@ =~= painted(sel@, views, 0));
    }
    let mut i: usize = 0;
    while i < sel.parts.len()
        invariant
            i <= sel.parts@.len(),
            images@.len() == sel@.parts.len(),
            forall|k: int| 0 <= k < images@.len() ==> (#[trigger] images@[k])@.wf(),
            composable(sel@),
            out_w == output_size(sel@).0,
            out_h == output_size(sel@).1,
            out_w > 0,
            out_scale == selection::max_scale(sel@.parts),
            forall|k: int| 0 <= k < sel@.parts.len() ==> (#[trigger] sel@.parts[k]).scale
                <= out_scale,
            views == image_views(images@),
            out@ == painted(sel@, views, i as int),
        decreases sel.parts@.len() - i,
    {
        let part: SelectionPart = sel.parts[i];
        let dx: i64 = pixels_from(minus(part.rect.origin.x, sel.rect.origin.x), out_scale);
        let dy: i64 = pixels_from(minus(part.rect.origin.y, sel.rect.origin.y), out_scale);
        proof {
            assert(sel@.parts[i as int] == part);
            assert(images@[i as int]@.wf());
            assert(views[i as int] == images@[i as int]@);
            lemma_painted_len(sel@, views, i as int);
        }
        blit(&images[i], part.scale, &mut out, out_w, out_h, out_scale, dx, dy);
        i = i + 1;
    }
    proof {
        lemma_painted_len(sel@, views, i as int);
    }
    CapturedImage { width: out_w, height: out_h, scale: out_scale, bgra: out }
}

/// The selection is one part: it lies on one display.
pub open spec fn is_one_part(sel: SelectionView) -> bool {
    sel.parts.len() == 1 && sel.parts[0].rect == sel.rect
}

/// The selection has no pixels.
pub open spec fn is_empty(sel: SelectionView) -> bool {
    sel.parts.len() == 0 || output_size(sel).0 == 0 || output_size(sel).1 == 0
}

/// What capturing the parts one by one up to the first failure came to.
pub open spec fn captured_parts<C: Capturer>(
    capturer: &C,
    parts: Seq<SelectionPart>,
    images: Seq<CapturedImage>,
) -> bool {
    &&& images.len() <= parts.len()
    &&& forall|i: int|
        0 <= i < images.len() ==> call_ensures(
            C::capture_rect,
            (capturer, parts[i].rect, parts[i].scale),
            Ok(#[trigger] images[i]),
        )
}

/// `r` can come of capturing a selection.
pub open spec fn capture_outcome<C: Capturer>(
    capturer: &C,
    sel: SelectionView,
    r: Result<CapturedImage, Error>,
) -> bool {
    if is_one_part(sel) {
        call_ensures(C::capture_rect, (capturer, sel.rect, sel.parts[0].scale), r)
    } else if is_empty(sel) {
        r == Err::<CapturedImage, Error>(Error::EmptyRect(sel.rect))
    } else {
        exists|images: Seq<CapturedImage>| #[trigger]
            captured_parts(capturer, sel.parts, images) && match r {
                Ok(image) => images.len() == sel.parts.len() && image@ == composed(
                    sel,
                    image_views(images),
                ),
                Err(e) => images.len() < sel.parts.len() && call_ensures(
                    C::capture_rect,
                    (
                        capturer,
                        sel.parts[images.len() as int].rect,
                        sel.parts[images.len() as int].scale,
                    ),
                    r,
                ),
            }
    }
}

/// Captures a selection.
///
/// A selection on one display is captured at once. One that crosses displays
/// is captured part by part, each at the scale factor of its display, and put
/// together at the largest of them.
pub fn capture_selection<C: Capturer>(capturer: &C, sel: &Selection) -> (r: Result<
    CapturedImage,
    Error,
>)
    requires
        is_one_part(sel@) || is_empty(sel@) || composable(sel@),
    ensures
        capture_outcome(capturer, sel@, r),
        r matches Ok(image) ==> image@.wf() && image.scale == if is_one_part(sel@) {
            sel@.parts[0].scale
        } else {
            selection::max_scale(sel@.parts)
        },
{
    if sel.parts.len() == 0 {
        return Err(Error::EmptyRect(sel.rect));
    }
    if sel.parts.len() == 1 {
        let part: SelectionPart = sel.parts[0];
        if part.rect == sel.rect {
            return capturer.capture_rect(part.rect, part.scale);
        }
    }
    let (out_w, out_h): (u32, u32) = sel.output_pixel_size();
    if out_w == 0 || out_h == 0 {
        return Err(Error::EmptyRect(sel.rect));
    }
    let mut images: Vec<CapturedImage> = Vec::new();
    let mut i: usize = 0;
    while i < sel.parts.len()
        invariant
            i <= sel.parts@.len(),
            i == images@.len(),
            captured_parts(capturer, sel@.parts, images@),
            forall|k: int| 0 <= k < images@.len() ==> (#[trigger] images@[k])@.wf(),
            !is_one_part(sel@),
            output_size(sel@).0 > 0,
            output_size(sel@).1 > 0,
        decreases sel.parts@.len() - i,
    {
        let part: SelectionPart = sel.parts[i];
        match capturer.capture_rect(part.rect, part.scale) {
            Ok(image) => {
                images.push(image);
            },
            Err(e) => {
                return Err(e);
            },
        }
        i = i + 1;
    }
    Ok(compose(sel, &images))
}

/// What no part covers stays transparent.
pub proof fn law_gaps_stay_transparent(
    sel: SelectionView,
    images: Seq<ImageView>,
    n: int,
    k: int,
)
    requires
        0 <= n <= sel.parts.len(),
        0 <= k < image::byte_count(output_size(sel).0, output_size(sel).1),
        forall|j: int|
            0 <= j < n ==> !covered(images[j], placement(sel, #[trigger] sel.parts[j]), k),
    ensures
        painted(sel, images, n)[k] == 0,
    decreases n,
{
    if n > 0 {
        lemma_painted_len(sel, images, n - 1);
        law_gaps_stay_transparent(sel, images, n - 1, k);
        assert(!covered(images[n - 1], placement(sel, sel.parts[n - 1]), k));
    }
}

/// Where parts cover a pixel, the last of them shows.
pub proof fn law_last_part_shows(
    sel: SelectionView,
    images: Seq<ImageView>,
    n: int,
    j: int,
    k: int,
)
    requires
        0 <= j < n <= sel.parts.len(),
        0 <= k < image::byte_count(output_size(sel).0, output_size(sel).1),
        covered(images[j], placement(sel, sel.parts[j]), k),
        forall|m: int|
            j < m < n ==> !covered(images[m], placement(sel, #[trigger] sel.parts[m]), k),
    ensures
        painted(sel, images, n)[k] == shown(images[j], placement(sel, sel.parts[j]), k),
    decreases n,
{
    lemma_painted_len(sel, images, n - 1);
    if j < n - 1 {
        law_last_part_shows(sel, images, n - 1, j, k);
        assert(!covered(images[n - 1], placement(sel, sel.parts[n - 1]), k));
    }
}

/// At equal scales a pixel is copied as it is.
pub proof fn law_equal_scales_copy_pixels(o: int, n: u32, scale: i64)
    requires
        scale > 0,
        0 <= o < n,
    ensures
        span(n, scale, scale) == n,
        sample(o, n, scale, scale) == o,
{
    assert(o * scale / (scale as int) == o && n * scale / (scale as int) == n && (n * scale) % (
    scale as int) == 0 && n * scale >= 0) by (nonlinear_arith)
        requires
            scale > 0,
            o >= 0,
            n >= 0,
    ;
}

/// A source pixel fits an output pixel: it starts at or before the output pixel
/// and ends after it, in coordinates that are scaled by both factors. The last
/// source pixel also stands for what lies beyond the image.
pub open spec fn fits(s: int, o: int, n: u32, from: int, to: int) -> bool {
    &&& 0 <= s < n
    &&& s * to <= o * from
    &&& s < n - 1 ==> o * from < (s + 1) * to
}

/// The source pixel that is shown is the one that starts at or before the output
/// pixel and ends after it, or the last one. No other pixel does.
pub proof fn law_a_sample_lies_at_its_place(o: int, n: u32, from: i64, to: i64, s: int)
    requires
        0 <= o,
        n > 0,
        from > 0,
        to > 0,
    ensures
        0 <= sample(o, n, from, to) < n,
        sample(o, n, from, to) * to <= o * from,
        sample(o, n, from, to) == n - 1 || o * from < (sample(o, n, from, to) + 1) * to,
        fits(s, o, n, from as int, to as int) ==> s == sample(o, n, from, to),
{
    let q = o * from / (to as int);
    assert(q >= 0 && q * to <= o * from && o * from < (q + 1) * to) by (nonlinear_arith)
        requires
            q == o * from / (to as int),
            o >= 0,
            from > 0,
            to > 0,
    ;
    let last = n - 1;
    assert(last <= q ==> last * to <= q * to) by (nonlinear_arith)
        requires
            to > 0,
    ;
    if fits(s, o, n, from as int, to as int) {
        assert(s <= q) by (nonlinear_arith)
            requires
                s * to <= o * from,
                o * from < (q + 1) * to,
                to > 0,
        ;
        if s < n - 1 {
            assert(q <= s) by (nonlinear_arith)
                requires
                    o * from < (s + 1) * to,
                    q * to <= o * from,
                    to > 0,
            ;
        }
    }
}

/// An image takes as many pixels of the output as its scaled size, rounded, and
/// none where one scale factor is positive and the other is not.
pub proof fn law_a_span_is_the_scaled_size(n: u32, from: i64, to: i64)
    requires
        from > 0,
    ensures
        to > 0 ==> -from <= 2 * (span(n, from, to) * from - n * to) <= from,
        to <= 0 ==> span(n, from, to) == 0,
{
    fixed::law_rounding_error(n * to, from as int);
}

/// Only the ratio of the scale factors matters, not their signs.
pub proof fn law_signs_of_scales_cancel(o: int, n: u32, from: i64, to: i64)
    requires
        from > 0,
        to > 0,
    ensures
        span(n, (-from) as i64, (-to) as i64) == span(n, from, to),
        sample(o, n, (-from) as i64, (-to) as i64) == sample(o, n, from, to),
{
}

/// Later output pixels show later source pixels: an image is never mirrored.
pub proof fn law_samples_are_in_order(o: int, p: int, n: u32, from: i64, to: i64)
    requires
        0 <= o <= p,
        n > 0,
        from > 0,
        to > 0,
    ensures
        sample(o, n, from, to) <= sample(p, n, from, to),
{
    law_a_sample_lies_at_its_place(o, n, from, to, 0);
    law_a_sample_lies_at_its_place(p, n, from, to, 0);
    let s = sample(o, n, from, to);
    let t = sample(p, n, from, to);
    if t < s {
        assert(false) by (nonlinear_arith)
            requires
                t < s,
                s * to <= o * from,
                p * from < (t + 1) * to,
                o <= p,
                from > 0,
                to > 0,
        ;
    }
}

/// An image that is drawn several times as large shows each of its pixels that
/// many times, and nothing else.
pub proof fn law_enlarging_repeats_pixels(s: int, r: int, n: u32, from: i64, to: i64, times: int)
    requires
        from > 0,
        times > 0,
        to == times * from,
        0 <= s < n,
        0 <= r < times,
    ensures
        span(n, from, to) == n * times,
        sample(s * times + r, n, from, to) == s,
{
    assert(to > 0) by (nonlinear_arith)
        requires
            to == times * from,
            times > 0,
            from > 0,
    ;
    let o = s * times + r;
    assert(o >= 0) by (nonlinear_arith)
        requires
            o == s * times + r,
            s >= 0,
            times > 0,
            r >= 0,
    ;
    assert(s * to <= o * from && o * from < (s + 1) * to) by (nonlinear_arith)
        requires
            to == times * from,
            o == s * times + r,
            0 <= r < times,
            from > 0,
    ;
    law_a_sample_lies_at_its_place(o, n, from, to, s);
    assert((n * times) * from == n * to) by (nonlinear_arith)
        requires
            to == times * from,
    ;
    fixed::law_rounding_is_unique(n * to, from as int, n * times);
}

/// The composed image has the size of the selection at the largest scale factor,
/// to the nearest pixel, and that scale factor.
pub proof fn law_the_output_has_the_size_of_the_selection(
    sel: SelectionView,
    images: Seq<ImageView>,
)
    requires
        0 <= sel.rect.size.width * selection::max_scale(sel.parts) <= u32::MAX
            * fixed::UNIT_SQUARED,
        0 <= sel.rect.size.height * selection::max_scale(sel.parts) <= u32::MAX
            * fixed::UNIT_SQUARED,
    ensures
        ({
            let out = composed(sel, images);
            let w = sel.rect.size.width;
            let h = sel.rect.size.height;
            &&& out.scale == selection::max_scale(sel.parts)
            &&& -fixed::UNIT_SQUARED <= 2 * (out.width * fixed::UNIT_SQUARED - w * out.scale)
                <= fixed::UNIT_SQUARED
            &&& -fixed::UNIT_SQUARED <= 2 * (out.height * fixed::UNIT_SQUARED - h * out.scale)
                <= fixed::UNIT_SQUARED
            &&& out.bgra.len() == out.width * out.height * 4
        }),
{
    let scale = selection::max_scale(sel.parts);
    fixed::law_rounding_error(sel.rect.size.width * scale, fixed::UNIT_SQUARED as int);
    fixed::law_rounding_error(sel.rect.size.height * scale, fixed::UNIT_SQUARED as int);
    lemma_painted_len(sel, images, sel.parts.len() as int);
}

/// A part goes as far to the right of and below the corner of the composed image
/// as it lies from the corner of the selection, to the nearest pixel.
pub proof fn law_parts_go_where_they_lie(sel: SelectionView, j: int)
    requires
        0 <= j < sel.parts.len(),
        sel.rect.origin.moderate(),
        sel.parts[j].rect.origin.moderate(),
        selection::max_scale(sel.parts) <= fixed::UNIT_SQUARED,
    ensures
        ({
            let at = placement(sel, sel.parts[j]);
            let right = sel.parts[j].rect.origin.x - sel.rect.origin.x;
            let down = sel.parts[j].rect.origin.y - sel.rect.origin.y;
            let scale = selection::max_scale(sel.parts);
            &&& -fixed::UNIT_SQUARED <= 2 * (at.dx * fixed::UNIT_SQUARED - right * scale)
                <= fixed::UNIT_SQUARED
            &&& -fixed::UNIT_SQUARED <= 2 * (at.dy * fixed::UNIT_SQUARED - down * scale)
                <= fixed::UNIT_SQUARED
            &&& at.from == sel.parts[j].scale
            &&& at.to == scale
        }),
{
    let right = sel.parts[j].rect.origin.x - sel.rect.origin.x;
    let down = sel.parts[j].rect.origin.y - sel.rect.origin.y;
    let scale = selection::max_scale(sel.parts);
    selection::law_max_scale(sel.parts);
    fixed::law_rounding_error(right * scale, fixed::UNIT_SQUARED as int);
    fixed::law_rounding_error(down * scale, fixed::UNIT_SQUARED as int);
    assert(-9_000_000_000_000_000_000 * 1_000_000_000_000 <= right * scale
        <= 9_000_000_000_000_000_000 * 1_000_000_000_000) by (nonlinear_arith)
        requires
            -9_000_000_000_000_000_000 <= right <= 9_000_000_000_000_000_000,
            0 <= scale <= 1_000_000_000_000,
    ;
    assert(-9_000_000_000_000_000_000 * 1_000_000_000_000 <= down * scale
        <= 9_000_000_000_000_000_000 * 1_000_000_000_000) by (nonlinear_arith)
        requires
            -9_000_000_000_000_000_000 <= down <= 9_000_000_000_000_000_000,
            0 <= scale <= 1_000_000_000_000,
    ;
}

/// Pixel `x`, `y` of the output lies in the rectangle that an image takes.
pub open spec fn in_reach(src: ImageView, at: Placement, x: int, y: int) -> bool {
    &&& at.dx <= x
    &&& x < at.dx + span(src.width, at.from, at.to)
    &&& at.dy <= y
    &&& y < at.dy + span(src.height, at.from, at.to)
}

/// A pixel of the composed image, channel by channel: where the last of the parts
/// that reach it is part `j`, it is pixel `sx`, `sy` of that part, the one that
/// fits; where no part reaches it, it is transparent.
pub proof fn law_a_composed_pixel_shows_its_part(
    sel: SelectionView,
    images: Seq<ImageView>,
    j: int,
    x: int,
    y: int,
    c: int,
    sx: int,
    sy: int,
)
    requires
        0 <= x < composed(sel, images).width,
        0 <= y < composed(sel, images).height,
        0 <= c < 4,
        -1 <= j < sel.parts.len(),
        forall|m: int|
            j < m < sel.parts.len() ==> !in_reach(
                images[m],
                placement(sel, #[trigger] sel.parts[m]),
                x,
                y,
            ),
        j >= 0 ==> {
            let at = placement(sel, sel.parts[j]);
            &&& in_reach(images[j], at, x, y)
            &&& at.from > 0
            &&& at.to > 0
            &&& fits(sx, x - at.dx, images[j].width, at.from as int, at.to as int)
            &&& fits(sy, y - at.dy, images[j].height, at.from as int, at.to as int)
        },
    ensures
        composed(sel, images).bgra[(y * composed(sel, images).width + x) * 4 + c] == if j >= 0 {
            images[j].bgra[(sy * images[j].width + sx) * 4 + c]
        } else {
            0
        },
{
    let width = output_size(sel).0;
    let height = output_size(sel).1;
    let k = (y * width + x) * 4 + c;
    let n = sel.parts.len() as int;
    lemma_position(x, y, c, width);
    lemma_within(x, y, width, height);
    assert forall|m: int| j < m < n implies !covered(
        images[m],
        placement(sel, #[trigger] sel.parts[m]),
        k,
    ) by {
        assert(!in_reach(images[m], placement(sel, sel.parts[m]), x, y));
    }
    if j >= 0 {
        let at = placement(sel, sel.parts[j]);
        law_last_part_shows(sel, images, n, j, k);
        law_a_sample_lies_at_its_place(x - at.dx, images[j].width, at.from, at.to, sx);
        law_a_sample_lies_at_its_place(y - at.dy, images[j].height, at.from, at.to, sy);
    } else {
        law_gaps_stay_transparent(sel, images, n, k);
    }
}

/// A selection that is one part of one display is captured with a single request: for
/// the selection, at the scale factor of the display. What comes of it is what is
/// handed on.
pub proof fn law_a_selection_on_one_display_is_captured_at_once<C: Capturer>(
    capturer: &C,
    sel: SelectionView,
    r: Result<CapturedImage, Error>,
)
    requires
        capture_outcome(capturer, sel, r),
        sel.parts.len() == 1,
        sel.parts[0].rect == sel.rect,
    ensures
        call_ensures(C::capture_rect, (capturer, sel.rect, sel.parts[0].scale), r),
{
}

/// Any other selection is captured part by part, each at its own place and at the scale
/// factor of its own display: either every request was answered with an image, and the
/// result is composed of them, or one of them failed, and its failure is the result.
pub proof fn law_each_part_is_captured_at_its_scale<C: Capturer>(
    capturer: &C,
    sel: SelectionView,
    r: Result<CapturedImage, Error>,
)
    requires
        capture_outcome(capturer, sel, r),
        sel.parts.len() > 1,
        output_size(sel).0 > 0,
        output_size(sel).1 > 0,
    ensures
        r matches Ok(image) ==> exists|images: Seq<CapturedImage>|
            images.len() == sel.parts.len() && image@ == #[trigger] composed(
                sel,
                image_views(images),
            ) && forall|i: int|
                0 <= i < images.len() ==> call_ensures(
                    C::capture_rect,
                    (capturer, sel.parts[i].rect, sel.parts[i].scale),
                    Ok(#[trigger] images[i]),
                ),
        r is Err ==> exists|i: int|
            0 <= i < sel.parts.len() && call_ensures(
                C::capture_rect,
                (capturer, (#[trigger] sel.parts[i]).rect, sel.parts[i].scale),
                r,
            ),
{
    let images = choose|images: Seq<CapturedImage>| #[trigger]
        captured_parts(capturer, sel.parts, images) && match r {
            Ok(image) => images.len() == sel.parts.len() && image@ == composed(
                sel,
                image_views(images),
            ),
            Err(e) => images.len() < sel.parts.len() && call_ensures(
                C::capture_rect,
                (
                    capturer,
                    sel.parts[images.len() as int].rect,
                    sel.parts[images.len() as int].scale,
                ),
                r,
            ),
        };
    match r {
        Ok(image) => {
            assert(image@ == composed(sel, image_views(images)));
        },
        Err(e) => {
            let failed = sel.parts[images.len() as int];
            assert(call_ensures(C::capture_rect, (capturer, failed.rect, failed.scale), r));
        },
    }
}

/// A selection without parts, or without a pixel in either direction, is refused, unless
/// it is one part of one display.
pub proof fn law_an_empty_selection_is_refused<C: Capturer>(
    capturer: &C,
    sel: SelectionView,
    r: Result<CapturedImage, Error>,
)
    requires
        capture_outcome(capturer, sel, r),
        sel.parts.len() != 1,
        sel.parts.len() == 0 || output_size(sel).0 == 0 || output_size(sel).1 == 0,
    ensures
        r == Err::<CapturedImage, Error>(Error::EmptyRect(sel.rect)),
{
}

/// The view of a list of images holds the view of each of them, in order.
pub proof fn law_views_of_images_are_in_order(images: Seq<CapturedImage>, i: int)
    requires
        0 <= i < images.len(),
    ensures
        image_views(images).len() == images.len(),
        image_views(images)[i] == images[i]@,
{
}

} // verus!
