//! Tries where windows end up on several displays: what all displays cover
//! together, where the middle of one is, and whether they differ in density.

use vstd::prelude::*;

use crate::fixed;
use crate::fixed::{half_of, minus, plus};
use crate::geom;
use crate::geom::{Point, Rect, Size};

verus! {

/// The size of the panel that is shown.
pub const PANEL_WIDTH: i64 = 360_000_000;

pub const PANEL_HEIGHT: i64 = 220_000_000;

/// What the user asks for.
#[derive(Debug, Clone, Copy, PartialEq, Eq, Structural)]
pub enum Mode {
    /// An overlay on every display.
    PerScreen,
    /// One overlay over everything.
    Union,
    /// A panel in the middle of a display.
    Screen(u64),
}

/// The smallest rectangle around all displays, if there are any.
pub open spec fn union_of(frames: Seq<Rect>) -> Option<Rect>
    decreases frames.len(),
{
    if frames.len() == 0 {
        None
    } else {
        match union_of(frames.drop_last()) {
            None => Some(frames.last()),
            Some(r) => Some(r.union(&frames.last())),
        }
    }
}

/// The smallest rectangle around all displays, if there are any.
pub fn union_all(frames: &[Rect]) -> (r: Option<Rect>)
    ensures
        r == union_of(frames@),
{
    let mut all: Option<Rect> = None;
    let mut i: usize = 0;
    proof {
        assert(frames@.take(0).len() == 0);
    }
    while i < frames.len()
        invariant
            i <= frames@.len(),
            all == union_of(frames@.take(i as int)),
        decreases frames@.len() - i,
    {
        proof {
            assert(frames@.take(i + 1).drop_last() =~= frames@.take(i as int));
            assert(frames@.take(i + 1).last() == frames@[i as int]);
        }
        all = match all {
            None => Some(frames[i]),
            Some(r) => Some(r.union(&frames[i])),
        };
        i = i + 1;
    }
    proof {
        assert(frames@.take(i as int) =~= frames@);
    }
    all
}

/// Whether coordinates may be negative: then nothing starts at the origin.
pub fn starts_below_zero(all: Rect) -> (r: bool)
    ensures
        r == (all.origin.x < 0 || all.origin.y < 0),
{
    all.origin.x < 0 || all.origin.y < 0
}

/// The panel in the middle of a display.
pub open spec fn centred_panel(frame: Rect) -> Rect {
    Rect {
        origin: Point {
            x: fixed::clamped(
                fixed::clamped(frame.origin.x + fixed::halved(frame.size.width))
                    - fixed::halved(PANEL_WIDTH),
            ),
            y: fixed::clamped(
                fixed::clamped(frame.origin.y + fixed::halved(frame.size.height))
                    - fixed::halved(PANEL_HEIGHT),
            ),
        },
        size: Size { width: PANEL_WIDTH, height: PANEL_HEIGHT },
    }
}

/// The panel in the middle of a display.
pub fn panel_on(frame: Rect) -> (r: Rect)
    ensures
        r == centred_panel(frame),
{
    Rect {
        origin: Point {
            x: minus(plus(frame.origin.x, half_of(frame.size.width)), half_of(PANEL_WIDTH)),
            y: minus(plus(frame.origin.y, half_of(frame.size.height)), half_of(PANEL_HEIGHT)),
        },
        size: Size { width: PANEL_WIDTH, height: PANEL_HEIGHT },
    }
}

/// Two displays next to each other in the list have different scale factors.
pub open spec fn are_mixed(scales: Seq<i64>) -> bool {
    exists|i: int| 0 <= i < scales.len() - 1 && #[trigger] scales[i] != scales[i + 1]
}

/// Whether the displays differ in density.
pub fn mixed_density(scales: &[i64]) -> (r: bool)
    ensures
        r == are_mixed(scales@),
{
    let mut i: usize = 1;
    while i < scales.len()
        invariant
            1 <= i,
            i <= scales@.len() || scales@.len() == 0,
            forall|k: int| 0 <= k < i - 1 && k < scales@.len() - 1 ==> #[trigger] scales@[k]
                == scales@[k + 1],
        decreases scales@.len() - i,
    {
        if scales[i - 1] != scales[i] {
            proof {
                assert(scales@[i - 1] != scales@[i - 1 + 1]);
            }
            return true;
        }
        i = i + 1;
    }
    false
}

/// The prefix before the number of a display.
pub open spec fn prefix() -> Seq<char> {
    seq!['s', 'c', 'r', 'e', 'e', 'n']
}

/// A text without the prefix, however often it stands there.
pub open spec fn stripped(s: Seq<char>) -> Seq<char>
    decreases s.len(),
{
    if s.len() >= 6 && s.take(6) == prefix() {
        stripped(s.skip(6))
    } else {
        s
    }
}

pub open spec fn is_digit(c: char) -> bool {
    '0' <= c && c <= '9'
}

/// The value of a text of digits.
pub open spec fn value(s: Seq<char>) -> nat
    decreases s.len(),
{
    if s.len() == 0 {
        0
    } else {
        value(s.drop_last()) * 10 + (s.last() as nat - '0' as nat) as nat
    }
}

/// The digits of a number, without a sign that may stand before them.
pub open spec fn unsigned(s: Seq<char>) -> Seq<char> {
    if s.len() > 0 && s[0] == '+' {
        s.skip(1)
    } else {
        s
    }
}

/// The number that a text is, if it is one.
pub open spec fn number(s: Seq<char>) -> Option<u64> {
    let digits = unsigned(s);
    if digits.len() > 0 && (forall|i: int| 0 <= i < digits.len() ==> is_digit(#[trigger] digits[i]))
        && value(digits) <= u64::MAX {
        Some(value(digits) as u64)
    } else {
        None
    }
}

/// The mode that a text asks for. What is no number of a display is the first
/// one.
pub open spec fn mode_of(s: Seq<char>) -> Mode {
    if s == "perscreen"@ {
        Mode::PerScreen
    } else if s == "union"@ {
        Mode::Union
    } else {
        match number(stripped(s)) {
            Some(n) => Mode::Screen(n),
            None => Mode::Screen(0),
        }
    }
}

fn starts_with_prefix(s: &str, from: usize) -> (r: bool)
    requires
        from <= s@.len(),
    ensures
        r == (s@.len() - from >= 6 && s@.skip(from as int).take(6) == prefix()),
{
    let len: usize = s.unicode_len();
    if len - from < 6 {
        return false;
    }
    let r: bool = s.get_char(from) == 's' && s.get_char(from + 1) == 'c' && s.get_char(from + 2)
        == 'r' && s.get_char(from + 3) == 'e' && s.get_char(from + 4) == 'e' && s.get_char(from + 5)
        == 'n';
    proof {
        let head = s@.skip(from as int).take(6);
        if r {
            assert(head =~= prefix());
        } else {
            assert(head[0] == s@[from as int]);
            assert(head[1] == s@[from + 1]);
            assert(head[2] == s@[from + 2]);
            assert(head[3] == s@[from + 3]);
            assert(head[4] == s@[from + 4]);
            assert(head[5] == s@[from + 5]);
        }
    }
    r
}

proof fn lemma_value_grows(s: Seq<char>, n: int)
    requires
        0 <= n <= s.len(),
    ensures
        value(s.take(n)) <= value(s),
    decreases s.len() - n,
{
    if n < s.len() {
        lemma_value_grows(s, n + 1);
        assert(s.take(n + 1).drop_last() =~= s.take(n));
    } else {
        assert(s.take(n) =~= s);
    }
}

fn digit_of(c: char) -> (r: Option<u64>)
    ensures
        r is Some <==> is_digit(c),
        r matches Some(d) ==> d < 10 && d == c as int - '0' as int,
{
    match c {
        '0' => Some(0),
        '1' => Some(1),
        '2' => Some(2),
        '3' => Some(3),
        '4' => Some(4),
        '5' => Some(5),
        '6' => Some(6),
        '7' => Some(7),
        '8' => Some(8),
        '9' => Some(9),
        _ => None,
    }
}

/// The number that a text is from a position on, if it is one.
fn parse_number(s: &str, from: usize) -> (r: Option<u64>)
    requires
        from <= s@.len(),
    ensures
        r == number(s@.skip(from as int)),
{
    let len: usize = s.unicode_len();
    let mut at: usize = from;
    if at < len && s.get_char(at) == '+' {
        at = at + 1;
    }
    let ghost digits = unsigned(s@.skip(from as int));
    proof {
        assert(digits =~= s@.skip(at as int));
    }
    if at == len {
        return None;
    }
    let start: usize = at;
    let mut n: u64 = 0;
    proof {
        assert(digits.take(0).len() == 0);
    }
    while at < len
        invariant
            start <= at <= len,
            len == s@.len(),
            start < len,
            digits == s@.skip(start as int),
            digits == unsigned(s@.skip(from as int)),
            n == value(digits.take(at - start)),
            forall|i: int| 0 <= i < at - start ==> is_digit(#[trigger] digits[i]),
        decreases len - at,
    {
        let c: char = s.get_char(at);
        proof {
            assert(digits[at - start] == c);
            assert(digits.take(at - start + 1).drop_last() =~= digits.take(at - start));
            assert(digits.take(at - start + 1).last() == c);
        }
        let d: u64 = match digit_of(c) {
            Some(d) => d,
            None => return None,
        };
        proof {
            lemma_value_grows(digits, at - start + 1);
        }
        if n > u64::MAX / 10 || n * 10 > u64::MAX - d {
            return None;
        }
        n = n * 10 + d;
        at = at + 1;
    }
    proof {
        assert(digits.take(at - start) =~= digits);
    }
    Some(n)
}

/// Reads the mode.
pub fn parse_mode(s: &str) -> (r: Mode)
    ensures
        r == mode_of(s@),
{
    if same(s, "perscreen") {
        return Mode::PerScreen;
    }
    if same(s, "union") {
        return Mode::Union;
    }
    let len: usize = s.unicode_len();
    let mut from: usize = 0;
    proof {
        assert(s@.skip(0) =~= s@);
    }
    while starts_with_prefix(s, from)
        invariant
            from <= len,
            len == s@.len(),
            stripped(s@.skip(from as int)) == stripped(s@),
        decreases len - from,
    {
        proof {
            assert(s@.skip(from as int).skip(6) =~= s@.skip(from + 6));
        }
        from = from + 6;
    }
    match parse_number(s, from) {
        Some(n) => Mode::Screen(n),
        None => Mode::Screen(0),
    }
}

fn same(a: &str, b: &str) -> (r: bool)
    ensures
        r == (a@ == b@),
{
    let len: usize = a.unicode_len();
    if len != b.unicode_len() {
        return false;
    }
    let mut i: usize = 0;
    while i < len
        invariant
            i <= len,
            len == a@.len(),
            len == b@.len(),
            forall|k: int| 0 <= k < i ==> a@[k] == b@[k],
        decreases len - i,
    {
        if a.get_char(i) != b.get_char(i) {
            return false;
        }
        i = i + 1;
    }
    proof {
        assert(a@ =~= b@);
    }
    true
}

/// What all displays cover together covers each of them.
pub proof fn law_union_covers_every_display(frames: Seq<Rect>, i: int, p: Point)
    requires
        0 <= i < frames.len(),
        forall|k: int| 0 <= k < frames.len() ==> (#[trigger] frames[k]).moderate(),
        frames[i].contains(p),
    ensures
        union_of(frames) matches Some(r) && r.moderate() && r.contains(p),
    decreases frames.len(),
{
    let init = frames.drop_last();
    lemma_union_is_moderate(init);
    if init.len() > 0 {
        if i < init.len() {
            law_union_covers_every_display(init, i, p);
        }
        let r = union_of(init)->0;
        geom::law_union_holds_both(r, frames.last(), p);
    }
    lemma_union_is_moderate(frames);
}

proof fn lemma_union_is_moderate(frames: Seq<Rect>)
    requires
        forall|k: int| 0 <= k < frames.len() ==> (#[trigger] frames[k]).moderate(),
    ensures
        frames.len() == 0 <==> union_of(frames) is None,
        union_of(frames) matches Some(r) ==> r.moderate(),
    decreases frames.len(),
{
    if frames.len() > 0 {
        assert(frames.last().moderate());
        lemma_union_is_moderate(frames.drop_last());
    }
}

/// Where displays do not differ in density, all of them have the scale factor of
/// the first one.
pub proof fn law_uniform_density(scales: Seq<i64>, i: int)
    requires
        !are_mixed(scales),
        0 <= i < scales.len(),
    ensures
        scales[i] == scales[0],
    decreases i,
{
    if i > 0 {
        law_uniform_density(scales, i - 1);
        assert(scales[i - 1] == scales[i - 1 + 1]);
    }
}

/// The rectangle around all displays is the smallest one: none of them reaches beyond
/// it, and each of its sides lies on a side of some display.
pub proof fn law_the_union_is_the_smallest(frames: Seq<Rect>, i: int) -> (r: (int, int, int, int))
    requires
        0 <= i < frames.len(),
        forall|k: int| 0 <= k < frames.len() ==> (#[trigger] frames[k]).moderate(),
    ensures
        0 <= r.0 < frames.len(),
        0 <= r.1 < frames.len(),
        0 <= r.2 < frames.len(),
        0 <= r.3 < frames.len(),
        union_of(frames) matches Some(u) && ({
            &&& u.moderate()
            &&& u.origin.x <= frames[i].origin.x
            &&& u.origin.y <= frames[i].origin.y
            &&& u.origin.x + u.size.width >= frames[i].origin.x + frames[i].size.width
            &&& u.origin.y + u.size.height >= frames[i].origin.y + frames[i].size.height
            &&& u.origin.x == frames[r.0].origin.x
            &&& u.origin.y == frames[r.1].origin.y
            &&& u.origin.x + u.size.width == frames[r.2].origin.x + frames[r.2].size.width
            &&& u.origin.y + u.size.height == frames[r.3].origin.y + frames[r.3].size.height
        }),
    decreases frames.len(),
{
    let init = frames.drop_last();
    let last = frames.len() - 1;
    assert(frames[last].moderate());
    if init.len() == 0 {
        assert(union_of(init) is None);
        (0, 0, 0, 0)
    } else {
        assert forall|k: int| 0 <= k < init.len() implies (#[trigger] init[k]).moderate() by {
            assert(init[k] == frames[k]);
        }
        let j = if i < last {
            i
        } else {
            0
        };
        let r = law_the_union_is_the_smallest(init, j);
        let before = union_of(init)->0;
        geom::law_union_is_the_smallest(before, frames[last]);
        let u = before.union(&frames[last]);
        (
            if u.origin.x == frames[last].origin.x {
                last
            } else {
                r.0
            },
            if u.origin.y == frames[last].origin.y {
                last
            } else {
                r.1
            },
            if u.origin.x + u.size.width == frames[last].origin.x + frames[last].size.width {
                last
            } else {
                r.2
            },
            if u.origin.y + u.size.height == frames[last].origin.y + frames[last].size.height {
                last
            } else {
                r.3
            },
        )
    }
}

/// The panel lies in the middle of its display, up to a millionth, and has its own size
/// on every display.
pub proof fn law_the_panel_is_in_the_middle(frame: Rect)
    requires
        frame.moderate(),
        frame.size.width <= geom::COORDINATE_LIMIT,
        frame.size.height <= geom::COORDINATE_LIMIT,
    ensures
        ({
            let p = centred_panel(frame);
            let left = p.origin.x - frame.origin.x;
            let right = frame.origin.x + frame.size.width - (p.origin.x + p.size.width);
            let above = p.origin.y - frame.origin.y;
            let below = frame.origin.y + frame.size.height - (p.origin.y + p.size.height);
            &&& p.size.width == 360_000_000
            &&& p.size.height == 220_000_000
            &&& -1 <= left - right <= 1
            &&& -1 <= above - below <= 1
        }),
{
    fixed::law_halving(frame.size.width);
    fixed::law_halving(frame.size.height);
    fixed::law_halving(360_000_000);
    fixed::law_halving(220_000_000);
}

/// Displays differ in density if and only if two of them have different scale factors.
pub proof fn law_two_scales_are_mixed(scales: Seq<i64>, i: int, j: int)
    requires
        0 <= i < j < scales.len(),
        scales[i] != scales[j],
    ensures
        are_mixed(scales),
    decreases j - i,
{
    if scales[i] == scales[i + 1] {
        law_two_scales_are_mixed(scales, i + 1, j);
    }
}

/// A number is read back from its decimal notation, with the prefix or without, and
/// however often the prefix stands there.
pub proof fn law_a_display_is_asked_for_by_its_number(n: u64, s: Seq<char>)
    ensures
        number(crate::decimal::decimal(n as nat)) == Some(n),
        stripped(prefix() + s) == stripped(s),
        number(stripped(prefix() + crate::decimal::decimal(n as nat))) == Some(n),
        number(seq!['+'] + crate::decimal::decimal(n as nat)) == Some(n),
{
    let digits = crate::decimal::decimal(n as nat);
    assert forall|i: int| 0 <= i < digits.len() implies is_digit(#[trigger] digits[i]) by {
        crate::decimal::law_decimal_has_only_digits(n as nat, i);
    }
    lemma_value_of_decimal(n as nat);
    crate::decimal::law_decimal_says_the_number(n as nat);
    assert(digits.len() > 0);
    assert(is_digit(digits[0]));
    assert(unsigned(digits) == digits);
    lemma_stripping_once(s);
    lemma_stripping_once(digits);
    assert(stripped(digits) == digits) by {
        if digits.len() >= 6 && digits.take(6) == prefix() {
            assert(digits.take(6)[0] == digits[0]);
            assert(prefix()[0] == 's');
        }
    }
    let signed = seq!['+'] + digits;
    assert(signed.skip(1) =~= digits);
}

proof fn lemma_stripping_once(s: Seq<char>)
    ensures
        stripped(prefix() + s) == stripped(s),
{
    let t = prefix() + s;
    assert(t.take(6) =~= prefix());
    assert(t.skip(6) =~= s);
}

proof fn lemma_value_of_decimal(n: nat)
    ensures
        value(crate::decimal::decimal(n)) == n,
    decreases n,
{
    let s = crate::decimal::decimal(n);
    if n < 10 {
        assert(s.drop_last() =~= Seq::empty());
        assert(value(s.drop_last()) == 0);
        assert(s.last() as nat == 48 + n);
    } else {
        lemma_value_of_decimal(n / 10);
        assert(s.drop_last() =~= crate::decimal::decimal(n / 10));
        assert(s.last() as nat == 48 + n % 10);
    }
}

/// What holds anything but digits, or nothing, is no number.
pub proof fn law_other_texts_are_no_numbers(s: Seq<char>, i: int)
    requires
        0 <= i < s.len(),
        !('0' <= s[i] && s[i] <= '9'),
        i > 0 || s[i] != '+',
    ensures
        number(s) is None,
        number(Seq::empty()) is None,
{
    let digits = unsigned(s);
    if s[0] == '+' {
        assert(digits[i - 1] == s[i]);
    } else {
        assert(digits[i] == s[i]);
    }
}

} // verus!
