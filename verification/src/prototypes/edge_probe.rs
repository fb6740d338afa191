//! Looks for the outline of an overlay in the pixels of a capture: an outline
//! that was captured is red, and lies at the edges.

use vstd::prelude::*;

use crate::fixed;
use crate::image::{CapturedImage, ImageView};

verus! {

/// How many rows and columns at each edge are looked at. A line of one point
/// takes two pixels on a dense display.
pub const EDGE_DEPTH: u32 = 3;

/// By how much red has to exceed the other colours.
pub const RED_MARGIN: i64 = 40;

/// A pixel, in the order red, green, blue, alpha.
#[derive(Debug, Clone, Copy, PartialEq, Eq, Structural)]
pub struct Pixel {
    pub r: u8,
    pub g: u8,
    pub b: u8,
    pub a: u8,
}

#[derive(Debug, Clone, Copy, PartialEq, Eq, Structural)]
pub enum Side {
    Top,
    Bottom,
    Left,
    Right,
}

/// The pixel of an image at a position.
pub open spec fn pixel_at(img: ImageView, x: int, y: int) -> Pixel {
    let i = (y * img.width + x) * 4;
    Pixel { r: img.bgra[i + 2], g: img.bgra[i + 1], b: img.bgra[i], a: img.bgra[i + 3] }
}

/// The pixel is rather red.
pub open spec fn is_reddish(p: Pixel) -> bool {
    p.r - p.g > RED_MARGIN && p.r - p.b > RED_MARGIN
}

/// How many rows and columns at each edge there are to look at.
pub open spec fn depth(img: ImageView) -> u32 {
    fixed::smaller(
        EDGE_DEPTH as int,
        fixed::smaller(img.width as int, img.height as int),
    ) as u32
}

/// How many pixels a side has.
pub open spec fn side_len(img: ImageView, side: Side) -> u32 {
    match side {
        Side::Top | Side::Bottom => img.width,
        Side::Left | Side::Right => img.height,
    }
}

/// The `k`th pixel of the line at a distance of `d` from a side.
pub open spec fn edge_pixel(img: ImageView, side: Side, d: int, k: int) -> Pixel {
    match side {
        Side::Top => pixel_at(img, k, d),
        Side::Bottom => pixel_at(img, k, img.height - 1 - d),
        Side::Left => pixel_at(img, d, k),
        Side::Right => pixel_at(img, img.width - 1 - d, k),
    }
}

/// How many of the first `n` pixels of a line are rather red.
pub open spec fn red_count(img: ImageView, side: Side, d: int, n: int) -> nat
    decreases n,
{
    if n <= 0 {
        0
    } else if is_reddish(edge_pixel(img, side, d, n - 1)) {
        red_count(img, side, d, n - 1) + 1
    } else {
        red_count(img, side, d, n - 1)
    }
}

/// Some pixel of a line is rather red.
pub open spec fn line_is_red(img: ImageView, side: Side, d: int) -> bool {
    exists|k: int|
        0 <= k < side_len(img, side) && is_reddish(#[trigger] edge_pixel(img, side, d, k))
}

/// Some pixel near an edge is rather red.
pub open spec fn edges_are_red(img: ImageView) -> bool {
    exists|side: Side, d: int| 0 <= d < depth(img) && #[trigger] line_is_red(img, side, d)
}

/// The pixel of an image at a position.
pub fn px(img: &CapturedImage, x: u32, y: u32) -> (r: Pixel)
    requires
        img@.wf(),
        x < img.width,
        y < img.height,
    ensures
        r == pixel_at(img@, x as int, y as int),
{
    proof {
        let w = img.width as int;
        let h = img.height as int;
        assert((y * w + x) * 4 + 4 <= w * h * 4 && y * w >= 0 && y * w + x >= 0) by (nonlinear_arith)
            requires
                0 <= x < w,
                0 <= y < h,
        ;
        assert(img.bgra.len() == img.bgra@.len());
    }
    let i: usize = (y as usize * img.width as usize + x as usize) * 4;
    Pixel { r: img.bgra[i + 2], g: img.bgra[i + 1], b: img.bgra[i], a: img.bgra[i + 3] }
}

/// Whether a pixel is rather red.
pub fn reddish(p: Pixel) -> (r: bool)
    ensures
        r == is_reddish(p),
{
    p.r as i64 - p.g as i64 > RED_MARGIN && p.r as i64 - p.b as i64 > RED_MARGIN
}

/// How many rows and columns at each edge there are to look at.
pub fn edge_depth(img: &CapturedImage) -> (r: u32)
    ensures
        r == depth(img@),
{
    if img.width < EDGE_DEPTH && img.width <= img.height {
        img.width
    } else if img.height < EDGE_DEPTH {
        img.height
    } else {
        EDGE_DEPTH
    }
}

fn pixel_of_edge(img: &CapturedImage, side: Side, d: u32, k: u32) -> (r: Pixel)
    requires
        img@.wf(),
        d < depth(img@),
        k < side_len(img@, side),
    ensures
        r == edge_pixel(img@, side, d as int, k as int),
{
    match side {
        Side::Top => px(img, k, d),
        Side::Bottom => px(img, k, img.height - 1 - d),
        Side::Left => px(img, d, k),
        Side::Right => px(img, img.width - 1 - d, k),
    }
}

/// How many pixels of a line are rather red, how many there are, and the one in
/// the middle.
pub fn probe_line(img: &CapturedImage, side: Side, d: u32) -> (r: (u32, u32, Pixel))
    requires
        img@.wf(),
        d < depth(img@),
    ensures
        r.0 == red_count(img@, side, d as int, side_len(img@, side) as int),
        r.1 == side_len(img@, side),
        r.2 == edge_pixel(img@, side, d as int, side_len(img@, side) as int / 2),
{
    let len: u32 = match side {
        Side::Top | Side::Bottom => img.width,
        Side::Left | Side::Right => img.height,
    };
    let mut count: u32 = 0;
    let mut k: u32 = 0;
    while k < len
        invariant
            k <= len,
            len == side_len(img@, side),
            img@.wf(),
            d < depth(img@),
            count <= k,
            count == red_count(img@, side, d as int, k as int),
        decreases len - k,
    {
        if reddish(pixel_of_edge(img, side, d, k)) {
            count = count + 1;
        }
        k = k + 1;
    }
    (count, len, pixel_of_edge(img, side, d, len / 2))
}

/// Whether a capture shows the outline of an overlay.
pub fn shows_outline(img: &CapturedImage) -> (r: bool)
    requires
        img@.wf(),
    ensures
        r == edges_are_red(img@),
{
    let n: u32 = edge_depth(img);
    let mut d: u32 = 0;
    while d < n
        invariant
            d <= n,
            n == depth(img@),
            img@.wf(),
            forall|side: Side, e: int| 0 <= e < d ==> !#[trigger] line_is_red(img@, side, e),
        decreases n - d,
    {
        let top: bool = has_red(img, Side::Top, d);
        let bottom: bool = has_red(img, Side::Bottom, d);
        let left: bool = has_red(img, Side::Left, d);
        let right: bool = has_red(img, Side::Right, d);
        if top || bottom || left || right {
            return true;
        }
        proof {
            assert forall|side: Side, e: int| 0 <= e < d + 1 implies !#[trigger] line_is_red(
                img@,
                side,
                e,
            ) by {
                if e == d {
                    match side {
                        Side::Top => {},
                        Side::Bottom => {},
                        Side::Left => {},
                        Side::Right => {},
                    }
                }
            }
        }
        d = d + 1;
    }
    false
}

fn has_red(img: &CapturedImage, side: Side, d: u32) -> (r: bool)
    requires
        img@.wf(),
        d < depth(img@),
    ensures
        r == line_is_red(img@, side, d as int),
{
    let (count, len, _): (u32, u32, Pixel) = probe_line(img, side, d);
    proof {
        lemma_count_and_existence(img@, side, d as int, len as int);
    }
    count > 0
}

proof fn lemma_count_and_existence(img: ImageView, side: Side, d: int, n: int)
    requires
        0 <= n,
    ensures
        red_count(img, side, d, n) > 0 <==> exists|k: int|
            0 <= k < n && is_reddish(#[trigger] edge_pixel(img, side, d, k)),
    decreases n,
{
    if n > 0 {
        lemma_count_and_existence(img, side, d, n - 1);
        if is_reddish(edge_pixel(img, side, d, n - 1)) {
            assert(is_reddish(edge_pixel(img, side, d, n - 1)));
        }
    }
}

/// A pixel is rather red if its red is more than forty above its green and its blue.
pub open spec fn is_red_at(img: ImageView, x: int, y: int) -> bool {
    let i = (y * img.width + x) * 4;
    &&& img.bgra[i + 2] - img.bgra[i + 1] > 40
    &&& img.bgra[i + 2] - img.bgra[i] > 40
}

/// Less than three pixels lie between a pixel and the nearest edge.
pub open spec fn is_near_edge(img: ImageView, x: int, y: int) -> bool {
    &&& 0 <= x < img.width
    &&& 0 <= y < img.height
    &&& x < 3 || y < 3 || x >= img.width - 3 || y >= img.height - 3
}

/// An outline shows if and only if some pixel near an edge is rather red.
pub proof fn law_an_outline_is_red_near_an_edge(img: ImageView)
    requires
        img.width >= 3,
        img.height >= 3,
    ensures
        edges_are_red(img) <==> exists|x: int, y: int|
            is_near_edge(img, x, y) && #[trigger] is_red_at(img, x, y),
{
    if edges_are_red(img) {
        let (side, d) = choose|side: Side, d: int|
            0 <= d < depth(img) && #[trigger] line_is_red(img, side, d);
        let k = choose|k: int|
            0 <= k < side_len(img, side) && is_reddish(#[trigger] edge_pixel(img, side, d, k));
        match side {
            Side::Top => {
                assert(is_red_at(img, k, d) && is_near_edge(img, k, d));
            },
            Side::Bottom => {
                assert(is_red_at(img, k, img.height - 1 - d) && is_near_edge(
                    img,
                    k,
                    img.height - 1 - d,
                ));
            },
            Side::Left => {
                assert(is_red_at(img, d, k) && is_near_edge(img, d, k));
            },
            Side::Right => {
                assert(is_red_at(img, img.width - 1 - d, k) && is_near_edge(
                    img,
                    img.width - 1 - d,
                    k,
                ));
            },
        }
    }
    if exists|x: int, y: int| is_near_edge(img, x, y) && #[trigger] is_red_at(img, x, y) {
        let (x, y) = choose|x: int, y: int|
            is_near_edge(img, x, y) && #[trigger] is_red_at(img, x, y);
        if y < 3 {
            assert(is_reddish(edge_pixel(img, Side::Top, y, x)));
            assert(line_is_red(img, Side::Top, y));
        } else if y >= img.height - 3 {
            let d = img.height - 1 - y;
            assert(is_reddish(edge_pixel(img, Side::Bottom, d, x)));
            assert(line_is_red(img, Side::Bottom, d));
        } else if x < 3 {
            assert(is_reddish(edge_pixel(img, Side::Left, x, y)));
            assert(line_is_red(img, Side::Left, x));
        } else {
            let d = img.width - 1 - x;
            assert(is_reddish(edge_pixel(img, Side::Right, d, y)));
            assert(line_is_red(img, Side::Right, d));
        }
    }
}

/// The red pixels of a line are counted: none of them twice, and all of them where all
/// are red.
pub proof fn law_red_pixels_are_counted(img: ImageView, side: Side, d: int, n: int)
    requires
        0 <= n,
    ensures
        red_count(img, side, d, n) <= n,
        red_count(img, side, d, n) == n <==> forall|k: int|
            0 <= k < n ==> is_reddish(#[trigger] edge_pixel(img, side, d, k)),
        red_count(img, side, d, n) == 0 <==> forall|k: int|
            0 <= k < n ==> !is_reddish(#[trigger] edge_pixel(img, side, d, k)),
        red_count(img, side, d, n + 1) - red_count(img, side, d, n) == if is_reddish(
            edge_pixel(img, side, d, n),
        ) {
            1int
        } else {
            0int
        },
    decreases n,
{
    if n > 0 {
        law_red_pixels_are_counted(img, side, d, n - 1);
        assert(is_reddish(edge_pixel(img, side, d, n - 1)) || !is_reddish(
            edge_pixel(img, side, d, n - 1),
        ));
    }
}

/// An image is looked at three pixels deep, or as deep as it is.
pub proof fn law_the_depth_fits(img: ImageView)
    ensures
        depth(img) <= 3,
        depth(img) <= img.width,
        depth(img) <= img.height,
        img.width >= 3 && img.height >= 3 ==> depth(img) == 3,
        depth(img) == 3 || depth(img) == img.width || depth(img) == img.height,
{
}

} // verus!
