//! Bitmaps.
//!
//! Images are BGRA with eight bits per channel and rows without padding.

use vstd::prelude::*;

use crate::decimal;
use crate::decimal::append_decimal;
use crate::fixed;
use crate::fixed::{quotient_of, UNIT};

verus! {

/// The number of bytes of an image.
pub open spec fn byte_count(width: u32, height: u32) -> int {
    width * height * 4
}

/// A whole number as a fixed point number.
pub open spec fn whole(n: u32) -> i64 {
    (n * UNIT) as i64
}

/// A captured image.
pub struct CapturedImage {
    /// Physical pixels per row.
    pub width: u32,
    /// Rows.
    pub height: u32,
    /// The physical pixels per logical point at which the image was captured.
    pub scale: i64,
    /// The pixels: `width * height * 4` bytes.
    pub bgra: Vec<u8>,
}

/// The contents of a [`CapturedImage`].
pub struct ImageView {
    pub width: u32,
    pub height: u32,
    pub scale: i64,
    pub bgra: Seq<u8>,
}

impl View for CapturedImage {
    type V = ImageView;

    open spec fn view(&self) -> ImageView {
        ImageView {
            width: self.width,
            height: self.height,
            scale: self.scale,
            bgra: self.bgra@,
        }
    }
}

impl ImageView {
    /// There are as many bytes as the size says.
    pub open spec fn wf(self) -> bool {
        self.bgra.len() == byte_count(self.width, self.height)
    }
}

/// The lowest `count` decimal digits of a number.
pub open spec fn low_digits(n: nat, count: nat) -> Seq<char>
    decreases count,
{
    if count == 0 {
        Seq::empty()
    } else {
        low_digits(n / 10, (count - 1) as nat).push(decimal::digit(n % 10))
    }
}

/// The digits behind the decimal point: at least one, and no zero at the end
/// after that.
pub open spec fn fraction(n: nat, count: nat) -> Seq<char>
    decreases count,
{
    if count > 1 && n % 10 == 0 {
        fraction(n / 10, (count - 1) as nat)
    } else {
        low_digits(n, count)
    }
}

/// Magnitudes below this are written with an exponent, but for zero.
pub const SHORT_LIMIT: u64 = 100;

/// A fixed point number without its sign, in decimal notation.
pub open spec fn magnitude_text(v: nat) -> Seq<char> {
    if v == 0 || v >= SHORT_LIMIT {
        decimal::decimal(v / UNIT as nat) + "."@ + fraction(v % UNIT as nat, 6)
    } else if v < 10 {
        decimal::decimal(v) + "e-6"@
    } else if v % 10 == 0 {
        decimal::decimal(v / 10) + "e-5"@
    } else {
        decimal::decimal(v / 10) + "."@ + decimal::decimal(v % 10) + "e-5"@
    }
}

/// A fixed point number in decimal notation.
pub open spec fn fixed_text(v: int) -> Seq<char> {
    if v < 0 {
        "-"@ + magnitude_text((-v) as nat)
    } else {
        magnitude_text(v as nat)
    }
}

/// An image in short, without its pixels.
pub open spec fn short_text(image: ImageView) -> Seq<char> {
    "CapturedImage { width: "@ + decimal::decimal(image.width as nat) + ", height: "@
        + decimal::decimal(image.height as nat) + ", scale: "@ + fixed_text(image.scale as int)
        + ", bytes: "@ + decimal::decimal(image.bgra.len()) + " }"@
}

fn append_low_digits(out: &mut String, n: u64, count: u64)
    requires
        n < 1_000_000,
    ensures
        final(out)@ == old(out)@ + low_digits(n as nat, count as nat),
    decreases count,
{
    if count > 0 {
        append_low_digits(out, n / 10, count - 1);
        append_decimal(out, n % 10);
    }
    proof {
        assert(out@ =~= old(out)@ + low_digits(n as nat, count as nat));
    }
}

fn append_fraction(out: &mut String, n: u64, count: u64)
    requires
        n < 1_000_000,
    ensures
        final(out)@ == old(out)@ + fraction(n as nat, count as nat),
    decreases count,
{
    if count > 1 && n % 10 == 0 {
        append_fraction(out, n / 10, count - 1);
    } else {
        append_low_digits(out, n, count);
    }
}

fn append_magnitude(out: &mut String, v: u64)
    ensures
        final(out)@ == old(out)@ + magnitude_text(v as nat),
{
    if v == 0 || v >= SHORT_LIMIT {
        append_decimal(out, v / UNIT as u64);
        out.append(".");
        append_fraction(out, v % UNIT as u64, 6);
    } else if v < 10 {
        append_decimal(out, v);
        out.append("e-6");
    } else {
        append_decimal(out, v / 10);
        if v % 10 != 0 {
            out.append(".");
            append_decimal(out, v % 10);
        }
        out.append("e-5");
    }
    proof {
        assert(out@ =~= old(out)@ + magnitude_text(v as nat));
    }
}

fn append_fixed(out: &mut String, v: i64)
    ensures
        final(out)@ == old(out)@ + fixed_text(v as int),
{
    if v < 0 {
        out.append("-");
        append_magnitude(out, (-(v as i128)) as u64);
    } else {
        append_magnitude(out, v as u64);
    }
    proof {
        assert(out@ =~= old(out)@ + fixed_text(v as int));
    }
}

impl CapturedImage {
    /// Describes the image in short: the pixels would fill pages.
    pub fn debug_text(&self) -> (r: String)
        ensures
            r@ == short_text(self@),
    {
        let mut out: String = "CapturedImage { width: ".to_owned();
        append_decimal(&mut out, self.width as u64);
        out.append(", height: ");
        append_decimal(&mut out, self.height as u64);
        out.append(", scale: ");
        append_fixed(&mut out, self.scale);
        out.append(", bytes: ");
        append_decimal(&mut out, self.bgra.len() as u64);
        out.append(" }");
        proof {
            assert(out@ =~= short_text(self@));
        }
        out
    }

    pub fn bytes_per_row(&self) -> (r: usize)
        requires
            self.width * 4 <= usize::MAX,
        ensures
            r == self.width * 4,
    {
        self.width as usize * 4
    }

    /// The size at which the image is shown, in logical points.
    pub fn logical_size(&self) -> (r: (i64, i64))
        requires
            self.scale != 0,
        ensures
            r.0 == fixed::quotient(whole(self.width), self.scale),
            r.1 == fixed::quotient(whole(self.height), self.scale),
    {
        (
            quotient_of(self.width as i64 * UNIT, self.scale),
            quotient_of(self.height as i64 * UNIT, self.scale),
        )
    }
}

/// An image to be pinned, borrowed from where it is kept.
pub struct PinImage<'a> {
    pub width: u32,
    pub height: u32,
    /// Physical pixels per logical point. The pin is shown at the size of the
    /// image divided by it.
    pub scale: i64,
    pub bgra: &'a [u8],
}

impl<'a> View for PinImage<'a> {
    type V = ImageView;

    open spec fn view(&self) -> ImageView {
        ImageView {
            width: self.width,
            height: self.height,
            scale: self.scale,
            bgra: self.bgra@,
        }
    }
}

/// Ten, so many times multiplied with itself.
pub open spec fn power_of_ten(k: nat) -> int
    decreases k,
{
    if k == 0 {
        1
    } else {
        10 * power_of_ten((k - 1) as nat)
    }
}

proof fn lemma_low_digits(n: nat, count: nat)
    requires
        n < power_of_ten(count),
    ensures
        low_digits(n, count).len() == count,
        decimal::said(low_digits(n, count)) == n,
    decreases count,
{
    let s = low_digits(n, count);
    if count > 0 {
        lemma_low_digits(n / 10, (count - 1) as nat);
        assert(s.drop_last() =~= low_digits(n / 10, (count - 1) as nat));
        assert(s.last() as int == 48 + n % 10);
    }
}

/// The digits behind the point say the fraction: with the zeros that were left out they
/// are its digits, and no zero stands at their end, unless it is the only one.
pub proof fn law_the_fraction_says_the_rest(n: nat, count: nat)
    requires
        count >= 1,
        n < power_of_ten(count),
    ensures
        ({
            let f = fraction(n, count);
            &&& 1 <= f.len() <= count
            &&& decimal::said(f) * power_of_ten((count - f.len()) as nat) == n
            &&& f.len() > 1 ==> f.last() != '0'
        }),
    decreases count,
{
    let f = fraction(n, count);
    if count > 1 && n % 10 == 0 {
        law_the_fraction_says_the_rest(n / 10, (count - 1) as nat);
        let k = (count - f.len()) as nat;
        let v = decimal::said(f);
        let p = power_of_ten((k - 1) as nat);
        assert(v * (10 * p) == 10 * (v * p)) by (nonlinear_arith);
    } else {
        lemma_low_digits(n, count);
        assert(decimal::said(f) * 1 == n);
        if count > 1 {
            assert(f.last() == decimal::digit(n % 10));
            assert(f.last() as int == 48 + n % 10);
        }
    }
}

/// A number is written with a minus sign if and only if it is negative. From a ten
/// thousandth on it is its whole part, a point and its fraction; a smaller one, but for
/// zero, has an exponent.
pub proof fn law_a_number_is_its_whole_part_and_its_fraction(v: nat)
    ensures
        v > 0 ==> fixed_text(-(v as int)) == seq!['-'] + fixed_text(v as int),
        v >= 100 || v == 0 ==> fixed_text(v as int) == decimal::decimal(v / 1_000_000) + seq!['.']
            + fraction(v % 1_000_000, 6),
{
    reveal_strlit("-");
    reveal_strlit(".");
    assert("-"@ =~= seq!['-']);
    assert("."@ =~= seq!['.']);
}

/// An image has four bytes for each pixel.
pub proof fn law_four_bytes_make_a_pixel(width: u32, height: u32)
    ensures
        byte_count(width, height) == 4 * (width * height),
        byte_count(width, 0) == 0,
        height < u32::MAX ==> byte_count(width, (height + 1) as u32) == byte_count(width, height)
            + 4 * width,
        whole(width) == width * 1_000_000,
{
    assert(width * (height + 1) == width * height + width) by (nonlinear_arith);
    assert(width * 0 == 0) by (nonlinear_arith);
}

} // verus!
