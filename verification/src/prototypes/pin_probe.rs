//! Tries how a window stays above others: window levels, transparency, and what
//! becomes of single pixels when displays differ in density.

use vstd::prelude::*;

use crate::decimal;
use crate::decimal::{append_decimal, hundredths_of};
use crate::fixed;
use crate::fixed::{larger_of, limit, minus, plus, smaller_of, UNIT};

verus! {

/// The operating system, as far as it makes a difference here.
#[derive(Debug, Clone, Copy, PartialEq, Eq, Structural)]
pub enum System {
    Mac,
    Windows,
    Other,
}

/// How far a key changes the opacity.
pub const OPACITY_STEP: i64 = 100_000;

pub const OPACITY_MIN: i64 = 100_000;

/// The extended window style of a window that can be transparent.
pub const STYLE_LAYERED: u32 = 0x0008_0000;

/// The extended window style of a window that lets clicks through.
pub const STYLE_TRANSPARENT: u32 = 0x0000_0020;

pub const RED: u32 = 0x00ff_3b30;

pub const GREEN: u32 = 0x0000_c853;

pub const WHITE: u32 = 0x00ff_ffff;

pub const BLACK: u32 = 0x0010_1010;

pub const LIGHT: u32 = 0x0030_3030;

pub const DARK: u32 = 0x0020_2020;

/// The window levels to try, with their names.
pub open spec fn levels(system: System) -> Seq<(Seq<char>, i64)> {
    if system == System::Mac {
        seq![
            ("Normal (0)"@, 0),
            ("Floating (3)"@, 3),
            ("Status (25)"@, 25),
            ("PopUpMenu (101)"@, 101),
            ("ScreenSaver (1000)"@, 1000),
        ]
    } else {
        seq![("Normal"@, 0), ("AlwaysOnTop"@, 1)]
    }
}

/// What sets the window apart on a system.
pub open spec fn description(system: System) -> Seq<char> {
    match system {
        System::Mac => "macOS: NSWindow.level + collectionBehavior"@,
        System::Windows =>
            "Windows: WS_EX_LAYERED/TRANSPARENT + HWND_TOPMOST（未实机验证）"@,
        System::Other =>
            "此平台无特化实现（Wayland 下贴图无法定位，见 docs/mvp-risks.md R1）"@,
    }
}

/// What sets the window apart on a system.
pub fn describe(system: System) -> (r: &'static str)
    ensures
        r@ == description(system),
{
    match system {
        System::Mac => "macOS: NSWindow.level + collectionBehavior",
        System::Windows => "Windows: WS_EX_LAYERED/TRANSPARENT + HWND_TOPMOST（未实机验证）",
        System::Other => "此平台无特化实现（Wayland 下贴图无法定位，见 docs/mvp-risks.md R1）",
    }
}

pub fn level_count(system: System) -> (r: usize)
    ensures
        r == levels(system).len(),
{
    match system {
        System::Mac => 5,
        _ => 2,
    }
}

/// The name and the value of a level.
pub fn level(system: System, index: usize) -> (r: (&'static str, i64))
    requires
        index < levels(system).len(),
    ensures
        (r.0@, r.1) == levels(system)[index as int],
{
    match system {
        System::Mac => match index {
            0 => ("Normal (0)", 0),
            1 => ("Floating (3)", 3),
            2 => ("Status (25)", 25),
            3 => ("PopUpMenu (101)", 101),
            _ => ("ScreenSaver (1000)", 1000),
        },
        _ => match index {
            0 => ("Normal", 0),
            _ => ("AlwaysOnTop", 1),
        },
    }
}

/// The state of the window.
#[derive(Debug, Clone, Copy, PartialEq, Eq, Structural)]
pub struct PinState {
    pub opacity: i64,
    pub click_through: bool,
    /// Which window level is tried.
    pub level_idx: usize,
    /// The window is on every space, and beside programs that fill the screen.
    pub join_all_spaces: bool,
}

impl Default for PinState {
    fn default() -> (r: PinState)
        ensures
            r == (PinState {
                opacity: UNIT,
                click_through: false,
                level_idx: 2,
                join_all_spaces: true,
            }),
    {
        PinState { opacity: UNIT, click_through: false, level_idx: 2, join_all_spaces: true }
    }
}

/// A key of the probe.
#[derive(Debug, Clone, Copy, PartialEq, Eq, Structural)]
pub enum ProbeKey {
    Escape,
    Character(char),
    Other,
}

/// What happens to the window.
#[derive(Debug, Clone, Copy, PartialEq, Eq, Structural)]
pub enum ProbeEvent {
    CloseRequested,
    ScaleFactorChanged(i64),
    Moved,
    KeyPressed(ProbeKey),
    /// It has to be drawn, at this size in pixels.
    RedrawRequested(u32, u32),
    Other,
}

/// What an event leads to.
#[derive(Debug, Clone, Copy, PartialEq, Eq, Structural)]
pub enum Reaction {
    Nothing,
    Exit,
    /// The window takes on the state.
    Apply,
    /// Prints where the window is and what displays there are.
    Diagnose,
    ReportMove,
    /// Draws the test pattern at this size.
    Draw(u32, u32),
}

/// The probe.
#[derive(Debug, Clone, Copy, PartialEq, Eq, Structural)]
pub struct Probe {
    pub system: System,
    pub st: PinState,
    pub last_scale: i64,
}

impl PinState {
    pub open spec fn after_key(self, system: System, c: char) -> (PinState, Reaction) {
        if c == 'l' {
            (
                PinState {
                    level_idx: ((self.level_idx + 1) % levels(system).len() as int) as usize,
                    ..self
                },
                Reaction::Apply,
            )
        } else if c == 's' {
            (PinState { join_all_spaces: !self.join_all_spaces, ..self }, Reaction::Apply)
        } else if c == 'c' {
            (PinState { click_through: !self.click_through, ..self }, Reaction::Apply)
        } else if c == '[' {
            (
                PinState {
                    opacity: fixed::larger(
                        fixed::clamped(self.opacity - OPACITY_STEP) as int,
                        OPACITY_MIN as int,
                    ) as i64,
                    ..self
                },
                Reaction::Apply,
            )
        } else if c == ']' {
            (
                PinState {
                    opacity: fixed::smaller(
                        fixed::clamped(self.opacity + OPACITY_STEP) as int,
                        UNIT as int,
                    ) as i64,
                    ..self
                },
                Reaction::Apply,
            )
        } else if c == 'p' {
            (self, Reaction::Diagnose)
        } else {
            (self, Reaction::Nothing)
        }
    }
}

impl Probe {
    pub open spec fn after(self, event: ProbeEvent) -> (Probe, Reaction) {
        match event {
            ProbeEvent::CloseRequested => (self, Reaction::Exit),
            ProbeEvent::ScaleFactorChanged(scale) => (
                Probe { last_scale: scale, ..self },
                Reaction::Diagnose,
            ),
            ProbeEvent::Moved => (self, Reaction::ReportMove),
            ProbeEvent::KeyPressed(ProbeKey::Escape) => (self, Reaction::Exit),
            ProbeEvent::KeyPressed(ProbeKey::Character(c)) => {
                let (st, reaction) = self.st.after_key(self.system, c);
                (Probe { st, ..self }, reaction)
            },
            ProbeEvent::RedrawRequested(w, h) => if w == 0 || h == 0 {
                (self, Reaction::Nothing)
            } else {
                (self, Reaction::Draw(w, h))
            },
            _ => (self, Reaction::Nothing),
        }
    }

    pub fn new(system: System) -> (r: Probe)
        ensures
            r.system == system,
            r.st == (PinState {
                opacity: UNIT,
                click_through: false,
                level_idx: 2,
                join_all_spaces: true,
            }),
            r.last_scale == 0,
    {
        Probe { system, st: PinState::default(), last_scale: 0 }
    }

    /// Takes note of an event and says what it leads to.
    pub fn window_event(&mut self, event: ProbeEvent) -> (r: Reaction)
        requires
            old(self).st.level_idx < usize::MAX,
        ensures
            (*final(self), r) == old(self).after(event),
    {
        match event {
            ProbeEvent::CloseRequested => Reaction::Exit,
            ProbeEvent::ScaleFactorChanged(scale) => {
                self.last_scale = scale;
                Reaction::Diagnose
            },
            ProbeEvent::Moved => Reaction::ReportMove,
            ProbeEvent::KeyPressed(ProbeKey::Escape) => Reaction::Exit,
            ProbeEvent::KeyPressed(ProbeKey::Character(c)) => self.key(c),
            ProbeEvent::RedrawRequested(w, h) => if w == 0 || h == 0 {
                Reaction::Nothing
            } else {
                Reaction::Draw(w, h)
            },
            _ => Reaction::Nothing,
        }
    }

    fn key(&mut self, c: char) -> (r: Reaction)
        requires
            old(self).st.level_idx < usize::MAX,
        ensures
            (final(self).st, r) == old(self).st.after_key(old(self).system, c),
            final(self).system == old(self).system,
            final(self).last_scale == old(self).last_scale,
    {
        match c {
            'l' => {
                self.st.level_idx = (self.st.level_idx + 1) % level_count(self.system);
                Reaction::Apply
            },
            's' => {
                self.st.join_all_spaces = !self.st.join_all_spaces;
                Reaction::Apply
            },
            'c' => {
                self.st.click_through = !self.st.click_through;
                Reaction::Apply
            },
            '[' => {
                self.st.opacity = larger_of(minus(self.st.opacity, OPACITY_STEP), OPACITY_MIN);
                Reaction::Apply
            },
            ']' => {
                self.st.opacity = smaller_of(plus(self.st.opacity, OPACITY_STEP), UNIT);
                Reaction::Apply
            },
            'p' => Reaction::Diagnose,
            _ => Reaction::Nothing,
        }
    }
}

/// `on` or `off`, in words.
pub open spec fn switch(on: bool) -> Seq<char> {
    if on {
        "开"@
    } else {
        "关"@
    }
}

/// A number of hundredths with two decimals.
pub open spec fn two_decimals(hundredths: nat) -> Seq<char> {
    decimal::decimal(hundredths / 100) + "."@ + decimal::decimal(hundredths / 10 % 10)
        + decimal::decimal(hundredths % 10)
}

/// A fixed point number, rounded to two decimals.
pub open spec fn rounded_text(v: i64) -> Seq<char> {
    if v < 0 {
        "-"@ + two_decimals(decimal::hundredths((-v) as nat))
    } else {
        two_decimals(decimal::hundredths(v as nat))
    }
}

fn append_two_decimals(out: &mut String, hundredths: u64)
    ensures
        final(out)@ == old(out)@ + two_decimals(hundredths as nat),
{
    append_decimal(out, hundredths / 100);
    out.append(".");
    append_decimal(out, hundredths / 10 % 10);
    append_decimal(out, hundredths % 10);
    proof {
        assert(out@ =~= old(out)@ + two_decimals(hundredths as nat));
    }
}

fn append_rounded(out: &mut String, v: i64)
    ensures
        final(out)@ == old(out)@ + rounded_text(v),
{
    if v < 0 {
        out.append("-");
        append_two_decimals(out, hundredths_of((-(v as i128)) as u64));
    } else {
        append_two_decimals(out, hundredths_of(v as u64));
    }
    proof {
        assert(out@ =~= old(out)@ + rounded_text(v));
    }
}

/// The state in one line.
pub open spec fn status(system: System, st: PinState) -> Seq<char> {
    let (name, value) = levels(system)[st.level_idx as int];
    "  level="@ + name + "("@ + decimal::decimal(value as nat) + ")  opacity="@ + rounded_text(
        st.opacity,
    ) + "  穿透="@ + switch(st.click_through) + "  跨Space="@ + switch(st.join_all_spaces)
}

fn switch_text(on: bool) -> (r: &'static str)
    ensures
        r@ == switch(on),
{
    if on {
        "开"
    } else {
        "关"
    }
}

/// Describes the state in one line.
pub fn print_status(system: System, st: &PinState) -> (r: String)
    requires
        st.level_idx < levels(system).len(),
    ensures
        r@ == status(system, *st),
{
    let (name, value): (&'static str, i64) = level(system, st.level_idx);
    proof {
        assert(0 <= value <= 1000);
    }
    let mut line: String = "  level=".to_owned();
    line.append(name);
    line.append("(");
    append_decimal(&mut line, value as u64);
    line.append(")  opacity=");
    append_rounded(&mut line, st.opacity);
    line.append("  穿透=");
    line.append(switch_text(st.click_through));
    line.append("  跨Space=");
    line.append(switch_text(st.join_all_spaces));
    proof {
        assert(line@ =~= status(system, *st));
    }
    line
}

/// The extended style of a window on Windows.
pub open spec fn style(ex: u32, click_through: bool) -> u32 {
    if click_through {
        ex | STYLE_LAYERED | STYLE_TRANSPARENT
    } else {
        (ex | STYLE_LAYERED) & !STYLE_TRANSPARENT
    }
}

/// The opacity as a byte, rounded down.
pub open spec fn alpha(opacity: i64) -> u8 {
    (fixed::limited(opacity, 0, UNIT) * 255 / UNIT as int) as u8
}

/// What a window on Windows is given.
#[derive(Debug, Clone, Copy, PartialEq, Eq, Structural)]
pub struct LayeredWindow {
    pub style: u32,
    pub alpha: u8,
    /// The window goes above all others.
    pub topmost: bool,
}

/// What a window on a Mac is given.
#[derive(Debug, Clone, Copy, PartialEq, Eq, Structural)]
pub struct LevelWindow {
    pub level: i64,
    pub alpha: i64,
    pub ignores_mouse: bool,
    pub join_all_spaces: bool,
}

/// What the state means for a window on Windows that has the style `ex`.
pub fn apply_layered(ex: u32, st: &PinState) -> (r: LayeredWindow)
    ensures
        r == (LayeredWindow {
            style: style(ex, st.click_through),
            alpha: alpha(st.opacity),
            topmost: st.level_idx > 0,
        }),
{
    let layered: u32 = ex | STYLE_LAYERED;
    let style: u32 = if st.click_through {
        layered | STYLE_TRANSPARENT
    } else {
        layered & !STYLE_TRANSPARENT
    };
    let opacity: i64 = limit(st.opacity, 0, UNIT);
    LayeredWindow { style, alpha: (opacity * 255 / UNIT) as u8, topmost: st.level_idx > 0 }
}

/// What the state means for a window on a Mac.
pub fn apply_level(st: &PinState) -> (r: LevelWindow)
    requires
        st.level_idx < levels(System::Mac).len(),
    ensures
        r == (LevelWindow {
            level: levels(System::Mac)[st.level_idx as int].1,
            alpha: st.opacity,
            ignores_mouse: st.click_through,
            join_all_spaces: st.join_all_spaces,
        }),
{
    let (_, value): (&'static str, i64) = level(System::Mac, st.level_idx);
    LevelWindow {
        level: value,
        alpha: st.opacity,
        ignores_mouse: st.click_through,
        join_all_spaces: st.join_all_spaces,
    }
}

/// One pixel of the test pattern: a border, a cross, single white lines below and
/// a chess board above. Lines of one pixel turn grey when a window is scaled.
pub open spec fn pattern(x: int, y: int, w: int, h: int) -> u32 {
    if x < 3 || y < 3 || x >= w - 3 || y >= h - 3 {
        RED
    } else if x == w / 2 || y == h / 2 {
        GREEN
    } else if x % 2 == 0 && y > h / 2 {
        WHITE
    } else if y > h / 2 {
        BLACK
    } else if (x / 16 + y / 16) % 2 == 0 {
        LIGHT
    } else {
        DARK
    }
}

/// The buffer with the test pattern in it.
pub open spec fn patterned(buf: Seq<u32>, w: u32, h: u32) -> Seq<u32> {
    Seq::new(
        buf.len(),
        |i: int|
            if i < w * h {
                pattern(i % (w as int), i / (w as int), w as int, h as int)
            } else {
                buf[i]
            },
    )
}

fn pixel(x: u32, y: u32, w: u32, h: u32) -> (r: u32)
    requires
        x < w,
        y < h,
    ensures
        r == pattern(x as int, y as int, w as int, h as int),
{
    if x < 3 || y < 3 || x >= w - 3 || y >= h - 3 {
        RED
    } else if x == w / 2 || y == h / 2 {
        GREEN
    } else if x % 2 == 0 && y > h / 2 {
        WHITE
    } else if y > h / 2 {
        BLACK
    } else if (x / 16 + y / 16) % 2 == 0 {
        LIGHT
    } else {
        DARK
    }
}

/// Draws the test pattern.
pub fn draw_test_pattern(buf: &mut Vec<u32>, w: u32, h: u32)
    requires
        w * h <= u32::MAX,
        old(buf)@.len() >= w * h,
    ensures
        final(buf)@ == patterned(old(buf)@, w, h),
{
    let ghost start = buf@;
    let mut y: u32 = 0;
    let mut i: usize = 0;
    proof {
        if w == 0 || h == 0 {
            assert(w * h == 0) by (nonlinear_arith)
                requires
                    w == 0 || h == 0,
            ;
        }
        assert(buf.len() == buf@.len());
        assert(0 * w == 0) by (nonlinear_arith);
    }
    while y < h
        invariant
            y <= h,
            i == y * w,
            w * h <= u32::MAX,
            start.len() >= w * h,
            start.len() <= usize::MAX,
            buf@.len() == start.len(),
            forall|k: int| 0 <= k < i ==> #[trigger] buf@[k] == patterned(start, w, h)[k],
            forall|k: int| i <= k < start.len() ==> #[trigger] buf@[k] == start[k],
        decreases h - y,
    {
        let mut x: u32 = 0;
        proof {
            assert((y + 1) * w == y * w + w && (y + 1) * w <= h * w && h * w == w * h)
                by (nonlinear_arith)
                requires
                    y + 1 <= h,
            ;
        }
        while x < w
            invariant
                x <= w,
                y < h,
                i == y * w + x,
                y * w + w <= w * h,
                w * h <= u32::MAX,
                start.len() >= w * h,
                start.len() <= usize::MAX,
                buf@.len() == start.len(),
                forall|k: int| 0 <= k < i ==> #[trigger] buf@[k] == patterned(start, w, h)[k],
                forall|k: int| i <= k < start.len() ==> #[trigger] buf@[k] == start[k],
            decreases w - x,
        {
            proof {
                vstd::arithmetic::div_mod::lemma_fundamental_div_mod_converse(
                    i as int,
                    w as int,
                    y as int,
                    x as int,
                );
            }
            buf.set(i, pixel(x, y, w, h));
            x = x + 1;
            i = i + 1;
        }
        y = y + 1;
    }
    proof {
        assert(w * h == h * w) by (nonlinear_arith);
        assert(buf@ =~= patterned(start, w, h));
    }
}

/// The opacity stays in its range, and the level one that exists, whatever keys
/// are pressed.
pub proof fn law_keys_keep_the_ranges(system: System, st: PinState, c: char)
    requires
        OPACITY_MIN <= st.opacity <= UNIT,
        st.level_idx < levels(system).len(),
    ensures
        OPACITY_MIN <= st.after_key(system, c).0.opacity <= UNIT,
        st.after_key(system, c).0.level_idx < levels(system).len(),
{
}

/// Pressing a switch twice changes nothing.
pub proof fn law_switches_are_undone(system: System, st: PinState)
    ensures
        st.after_key(system, 's').0.after_key(system, 's').0 == st,
        st.after_key(system, 'c').0.after_key(system, 'c').0 == st,
{
}

/// Applying a state to a window twice is as good as once, and the styles that do
/// not matter here stay as they were.
pub proof fn law_styles_are_stable(ex: u32, click_through: bool)
    ensures
        style(style(ex, click_through), click_through) == style(ex, click_through),
        style(ex, click_through) & !(STYLE_LAYERED | STYLE_TRANSPARENT) == ex & !(STYLE_LAYERED
            | STYLE_TRANSPARENT),
{
    assert((((ex | 0x0008_0000u32) | 0x0000_0020u32) | 0x0008_0000u32) | 0x0000_0020u32 == (ex
        | 0x0008_0000u32) | 0x0000_0020u32) by (bit_vector);
    assert(((((ex | 0x0008_0000u32) & !0x0000_0020u32) | 0x0008_0000u32) & !0x0000_0020u32) == ((ex
        | 0x0008_0000u32) & !0x0000_0020u32)) by (bit_vector);
    assert(((ex | 0x0008_0000u32) | 0x0000_0020u32) & !(0x0008_0000u32 | 0x0000_0020u32) == ex
        & !(0x0008_0000u32 | 0x0000_0020u32)) by (bit_vector);
    assert(((ex | 0x0008_0000u32) & !0x0000_0020u32) & !(0x0008_0000u32 | 0x0000_0020u32) == ex
        & !(0x0008_0000u32 | 0x0000_0020u32)) by (bit_vector);
}

/// Each press of the level key goes on to the next level, and from the last one back to
/// the first.
pub proof fn law_the_level_key_goes_round(system: System, st: PinState)
    requires
        st.level_idx < levels(system).len(),
    ensures
        ({
            let (next, reaction) = st.after_key(system, 'l');
            &&& st.level_idx + 1 < levels(system).len() ==> next.level_idx == st.level_idx + 1
            &&& st.level_idx + 1 == levels(system).len() ==> next.level_idx == 0
            &&& next == (PinState { level_idx: next.level_idx, ..st })
            &&& reaction is Apply
        }),
{
    let n = levels(system).len() as int;
    let i = st.level_idx as int;
    assert(i + 1 < n ==> (i + 1) % n == i + 1) by (nonlinear_arith)
        requires
            0 <= i,
    ;
    assert(i + 1 == n ==> (i + 1) % n == 0) by (nonlinear_arith)
        requires
            0 <= i,
    ;
}

/// The bracket keys change the opacity by a tenth, down to a tenth and up to one, and
/// nothing else.
pub proof fn law_brackets_change_the_opacity(system: System, st: PinState)
    requires
        100_000 <= st.opacity <= 1_000_000,
    ensures
        ({
            let less = st.after_key(system, '[').0;
            let more = st.after_key(system, ']').0;
            &&& less.opacity == if st.opacity >= 200_000 {
                st.opacity - 100_000
            } else {
                100_000
            }
            &&& more.opacity == if st.opacity <= 900_000 {
                st.opacity + 100_000
            } else {
                1_000_000
            }
            &&& less == (PinState { opacity: less.opacity, ..st })
            &&& more == (PinState { opacity: more.opacity, ..st })
            &&& st.after_key(system, '[').1 is Apply
            &&& st.after_key(system, ']').1 is Apply
        }),
{
}

/// The switches change what they are named after and nothing else. Other keys change
/// nothing.
pub proof fn law_switches_and_other_keys(system: System, st: PinState, c: char)
    ensures
        ({
            let s = st.after_key(system, 's');
            let t = st.after_key(system, 'c');
            &&& s == (PinState { join_all_spaces: !st.join_all_spaces, ..st }, Reaction::Apply)
            &&& t == (PinState { click_through: !st.click_through, ..st }, Reaction::Apply)
            &&& st.after_key(system, 'p') == (st, Reaction::Diagnose)
            &&& c != 'l' && c != 's' && c != 'c' && c != '[' && c != ']' && c != 'p'
                ==> st.after_key(system, c) == (st, Reaction::Nothing)
        }),
{
}

/// The probe ends when its window is closed or escape is pressed, and at no other event.
/// It draws where there is something to draw on, and keeps its state unless a key is
/// pressed.
pub proof fn law_events_of_the_probe(p: Probe, event: ProbeEvent)
    ensures
        p.after(event).1 is Exit <==> event is CloseRequested || event == ProbeEvent::KeyPressed(
            ProbeKey::Escape,
        ),
        event matches ProbeEvent::RedrawRequested(w, h) ==> (if w > 0 && h > 0 {
            p.after(event).1 == Reaction::Draw(w, h)
        } else {
            p.after(event).1 is Nothing
        }),
        !(event is KeyPressed) ==> p.after(event).0.st == p.st,
        event matches ProbeEvent::ScaleFactorChanged(scale) ==> p.after(event).0.last_scale == scale
            && p.after(event).1 is Diagnose,
        !(event is ScaleFactorChanged) ==> p.after(event).0.last_scale == p.last_scale,
        event is Moved ==> p.after(event).1 is ReportMove,
        p.after(event).0.system == p.system,
{
}

/// A window can always be transparent, and lets clicks through if and only if it should.
pub proof fn law_styles_say_where_clicks_go(ex: u32, click_through: bool)
    ensures
        style(ex, click_through) & 0x0008_0000u32 == 0x0008_0000u32,
        (style(ex, click_through) & 0x0000_0020u32 == 0x0000_0020u32) == click_through,
{
    assert(((ex | 0x0008_0000u32) | 0x0000_0020u32) & 0x0008_0000u32 == 0x0008_0000u32)
        by (bit_vector);
    assert(((ex | 0x0008_0000u32) | 0x0000_0020u32) & 0x0000_0020u32 == 0x0000_0020u32)
        by (bit_vector);
    assert(((ex | 0x0008_0000u32) & !0x0000_0020u32) & 0x0008_0000u32 == 0x0008_0000u32)
        by (bit_vector);
    assert(((ex | 0x0008_0000u32) & !0x0000_0020u32) & 0x0000_0020u32 == 0u32) by (bit_vector);
}

/// The opacity as a byte is its part of 255, rounded down.
pub proof fn law_opacity_as_a_byte(opacity: i64)
    ensures
        0 <= opacity <= 1_000_000 ==> alpha(opacity) * 1_000_000 <= opacity * 255 < (alpha(opacity)
            + 1) * 1_000_000,
        opacity <= 0 ==> alpha(opacity) == 0,
        opacity >= 1_000_000 ==> alpha(opacity) == 255,
{
}

/// The test pattern has a border of three pixels all around and a cross of single lines
/// through its middle. Below the middle single columns of white and black take turns,
/// above it squares of sixteen pixels.
pub proof fn law_the_pattern_has_a_border_and_a_cross(x: int, y: int, w: int, h: int)
    requires
        0 <= x < w,
        0 <= y < h,
        w > 40,
        h > 40,
    ensures
        pattern(x, y, w, h) == RED <==> x < 3 || y < 3 || x > w - 4 || y > h - 4,
        3 <= x <= w - 4 && 3 <= y <= h - 4 ==> (pattern(x, y, w, h) == GREEN <==> x == w / 2 || y
            == h / 2),
        3 <= x < w - 4 && h / 2 < y <= h - 4 && x != w / 2 && x + 1 != w / 2 ==> (pattern(
            x,
            y,
            w,
            h,
        ) == WHITE) != (pattern(x + 1, y, w, h) == WHITE),
        3 <= x < w - 19 && 3 <= y < h / 2 && x != w / 2 && x + 16 != w / 2 ==> pattern(x, y, w, h)
            != pattern(x + 16, y, w, h),
{
}

/// The pattern fills the buffer row by row, and leaves alone what lies behind it.
pub proof fn law_the_pattern_fills_the_buffer(buf: Seq<u32>, w: u32, h: u32, x: int, y: int)
    requires
        0 <= x < w,
        0 <= y < h,
        buf.len() >= w * h,
    ensures
        patterned(buf, w, h).len() == buf.len(),
        patterned(buf, w, h)[y * w + x] == pattern(x, y, w as int, h as int),
        buf.len() > w * h ==> patterned(buf, w, h)[w * h] == buf[w * h],
{
    let i = y * w + x;
    assert(0 <= i < w * h) by (nonlinear_arith)
        requires
            i == y * w + x,
            0 <= x < w,
            0 <= y < h,
    ;
    vstd::arithmetic::div_mod::lemma_fundamental_div_mod_converse(i, w as int, y, x);
    assert(w * h >= 0) by (nonlinear_arith);
}

/// A number of hundredths has two digits behind its point, and all of its digits together
/// say it.
pub proof fn law_two_decimals_say_the_hundredths(h: nat)
    ensures
        ({
            let s = two_decimals(h);
            let n = s.len() as int;
            &&& n >= 4
            &&& s[n - 3] == '.'
            &&& decimal::said(s.take(n - 3)) == h / 100
            &&& decimal::said(s.skip(n - 2)) == h % 100
        }),
{
    reveal_strlit(".");
    let s = two_decimals(h);
    let n = s.len() as int;
    let front = decimal::decimal(h / 100);
    decimal::law_decimal_says_the_number(h / 100);
    assert(front.len() > 0) by {
        if front.len() == 0 {
            assert(decimal::said(front) == 0);
        }
    }
    let tens = h / 10 % 10;
    let ones = h % 10;
    assert(decimal::decimal(tens) =~= seq![decimal::digit(tens)]);
    assert(decimal::decimal(ones) =~= seq![decimal::digit(ones)]);
    assert(s.take(n - 3) =~= front);
    let tail = s.skip(n - 2);
    assert(tail =~= seq![decimal::digit(tens), decimal::digit(ones)]);
    assert(tail.drop_last() =~= seq![decimal::digit(tens)]);
    assert(tail.drop_last().drop_last() =~= Seq::empty());
    assert(decimal::said(tail.drop_last().drop_last()) == 0);
    assert(tail.drop_last().last() as int == 48 + tens);
    assert(decimal::said(tail.drop_last()) == tens);
    assert(tail.last() as int == 48 + ones);
    assert(decimal::said(tail) == 10 * tens + ones);
}

/// A number is printed with a minus sign if and only if it is negative, and otherwise as
/// its opposite is.
pub proof fn law_a_sign_says_what_is_negative(v: i64)
    requires
        v > i64::MIN,
    ensures
        v < 0 ==> rounded_text(v) == seq!['-'] + rounded_text((-v) as i64),
        v >= 0 ==> rounded_text(v)[0] != '-',
        v >= 0 ==> rounded_text(v) == two_decimals(decimal::hundredths(v as nat)),
{
    reveal_strlit("-");
    assert("-"@ =~= seq!['-']);
    if v >= 0 {
        let h = decimal::hundredths(v as nat);
        let front = decimal::decimal(h / 100);
        decimal::law_decimal_says_the_number(h / 100);
        assert(front.len() > 0) by {
            if front.len() == 0 {
                assert(decimal::said(front) == 0);
            }
        }
        decimal::law_decimal_has_only_digits(h / 100, 0);
        assert(rounded_text(v)[0] == front[0]);
    }
}

/// The levels rise from the one of ordinary windows.
pub proof fn law_levels_rise(system: System, i: int)
    requires
        0 <= i < levels(system).len() - 1,
    ensures
        levels(system)[0].1 == 0,
        levels(system)[i].1 < levels(system)[i + 1].1,
        levels(system).len() == if system is Mac {
            5int
        } else {
            2int
        },
{
}

} // verus!
