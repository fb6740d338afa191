//! The keyboard shortcuts that work everywhere.
//!
//! There are few of them: a shortcut like this takes its key away from every
//! other program.

use vstd::prelude::*;

verus! {

/// What a shortcut does.
#[derive(Debug, Clone, Copy, PartialEq, Eq, Structural)]
pub enum HotkeyCommand {
    /// Captures a region of the screen.
    Capture,
    /// Pins the image on the clipboard.
    Paste,
    /// Closes all pins.
    Clear,
    /// Turns annotation mode of the last pin on or off.
    Annotate,
    /// Lets clicks through all pins, or no longer. A pin that lets clicks
    /// through gets neither clicks nor keys, so only this can change it back.
    ClickThrough,
}

/// The keys that are held.
#[derive(Debug, Clone, Copy, PartialEq, Eq, Structural)]
pub enum Held {
    Nothing,
    CommandShift,
}

/// The key that is pressed.
#[derive(Debug, Clone, Copy, PartialEq, Eq, Structural)]
pub enum Key {
    F1,
    F3,
    X,
    T,
    E,
}

/// The shortcut of a command.
pub open spec fn shortcut(command: HotkeyCommand) -> (Held, Key) {
    match command {
        HotkeyCommand::Capture => (Held::Nothing, Key::F1),
        HotkeyCommand::Paste => (Held::Nothing, Key::F3),
        HotkeyCommand::Clear => (Held::CommandShift, Key::X),
        HotkeyCommand::Annotate => (Held::CommandShift, Key::E),
        HotkeyCommand::ClickThrough => (Held::CommandShift, Key::T),
    }
}

/// The modifier bits of the keys that are held: `META` and `SHIFT` of
/// `keyboard_types::Modifiers`.
pub open spec fn modifier_bits(held: Held) -> u32 {
    match held {
        Held::Nothing => 0,
        Held::CommandShift => 0x240,
    }
}

/// The position of a key among the variants of `keyboard_types::Code`.
pub open spec fn key_code(key: Key) -> u32 {
    match key {
        Key::F1 => 160,
        Key::F3 => 162,
        Key::X => 42,
        Key::T => 38,
        Key::E => 23,
    }
}

/// The identifier that the system reports for a shortcut: the modifier bits in
/// the upper half, the key in the lower half.
pub open spec fn shortcut_id(held: Held, key: Key) -> u32 {
    (modifier_bits(held) * 0x1_0000 + key_code(key)) as u32
}

/// The identifier of the shortcut of a command.
pub open spec fn command_id(command: HotkeyCommand) -> u32 {
    let (held, key) = shortcut(command);
    shortcut_id(held, key)
}

/// The identifiers of all commands.
#[derive(Debug, Clone, Copy, PartialEq, Eq, Structural)]
pub struct HotkeyIds {
    pub capture: u32,
    pub paste: u32,
    pub clear: u32,
    pub annotate: u32,
    pub click_through: u32,
}

impl HotkeyIds {
    pub open spec fn of(self, command: HotkeyCommand) -> u32 {
        match command {
            HotkeyCommand::Capture => self.capture,
            HotkeyCommand::Paste => self.paste,
            HotkeyCommand::Clear => self.clear,
            HotkeyCommand::Annotate => self.annotate,
            HotkeyCommand::ClickThrough => self.click_through,
        }
    }

    /// No two commands share an identifier.
    pub open spec fn distinct(self) -> bool {
        forall|a: HotkeyCommand, b: HotkeyCommand| #[trigger]
            self.of(a) == #[trigger] self.of(b) ==> a == b
    }

    /// The command for an event: the first one with its identifier, if the key
    /// went down.
    pub open spec fn command(self, id: u32, pressed: bool) -> Option<HotkeyCommand> {
        if !pressed {
            None
        } else if id == self.capture {
            Some(HotkeyCommand::Capture)
        } else if id == self.paste {
            Some(HotkeyCommand::Paste)
        } else if id == self.clear {
            Some(HotkeyCommand::Clear)
        } else if id == self.annotate {
            Some(HotkeyCommand::Annotate)
        } else if id == self.click_through {
            Some(HotkeyCommand::ClickThrough)
        } else {
            None
        }
    }
}

/// The identifiers that the system reports for the shortcuts.
pub open spec fn system_ids() -> HotkeyIds {
    HotkeyIds {
        capture: command_id(HotkeyCommand::Capture),
        paste: command_id(HotkeyCommand::Paste),
        clear: command_id(HotkeyCommand::Clear),
        annotate: command_id(HotkeyCommand::Annotate),
        click_through: command_id(HotkeyCommand::ClickThrough),
    }
}

/// Calls `global_hotkey::hotkey::HotKey::new` and `HotKey::id`.
///
/// `new` writes `META` for `SUPER` and makes the identifier of the modifier bits,
/// shifted up by sixteen, and the number of the key code. `id` returns it.
#[verifier::external_body]
#[allow(deprecated)]
fn hotkey_id(held: Held, key: Key) -> (r: u32)
    ensures
        r == shortcut_id(held, key),
{
    let mods = match held {
        Held::Nothing => None,
        Held::CommandShift => Some(
            global_hotkey::hotkey::Modifiers::SUPER | global_hotkey::hotkey::Modifiers::SHIFT,
        ),
    };
    let code = match key {
        Key::F1 => global_hotkey::hotkey::Code::F1,
        Key::F3 => global_hotkey::hotkey::Code::F3,
        Key::X => global_hotkey::hotkey::Code::KeyX,
        Key::T => global_hotkey::hotkey::Code::KeyT,
        Key::E => global_hotkey::hotkey::Code::KeyE,
    };
    global_hotkey::hotkey::HotKey::new(mods, code).id()
}

/// The shortcut of a command.
pub fn shortcut_of(command: HotkeyCommand) -> (r: (Held, Key))
    ensures
        r == shortcut(command),
{
    match command {
        HotkeyCommand::Capture => (Held::Nothing, Key::F1),
        HotkeyCommand::Paste => (Held::Nothing, Key::F3),
        HotkeyCommand::Clear => (Held::CommandShift, Key::X),
        HotkeyCommand::Annotate => (Held::CommandShift, Key::E),
        HotkeyCommand::ClickThrough => (Held::CommandShift, Key::T),
    }
}

/// The identifier that the system reports for a command.
fn id_of(command: HotkeyCommand) -> (r: u32)
    ensures
        r == command_id(command),
{
    let (held, key): (Held, Key) = shortcut_of(command);
    hotkey_id(held, key)
}

/// The identifiers that the system reports for the shortcuts.
pub fn hotkey_ids() -> (r: HotkeyIds)
    ensures
        r == system_ids(),
        r.distinct(),
{
    let r: HotkeyIds = HotkeyIds {
        capture: id_of(HotkeyCommand::Capture),
        paste: id_of(HotkeyCommand::Paste),
        clear: id_of(HotkeyCommand::Clear),
        annotate: id_of(HotkeyCommand::Annotate),
        click_through: id_of(HotkeyCommand::ClickThrough),
    };
    proof {
        assert forall|a: HotkeyCommand, b: HotkeyCommand| #[trigger] r.of(a) == #[trigger] r.of(
            b,
        ) implies a == b by {
            law_shortcuts_are_distinct(a, b);
        }
    }
    r
}

/// The command for an event, given the identifiers of the commands. Letting a
/// key go does nothing.
pub fn dispatch(ids: &HotkeyIds, id: u32, pressed: bool) -> (r: Option<HotkeyCommand>)
    ensures
        r == ids.command(id, pressed),
{
    if !pressed {
        None
    } else if id == ids.capture {
        Some(HotkeyCommand::Capture)
    } else if id == ids.paste {
        Some(HotkeyCommand::Paste)
    } else if id == ids.clear {
        Some(HotkeyCommand::Clear)
    } else if id == ids.annotate {
        Some(HotkeyCommand::Annotate)
    } else if id == ids.click_through {
        Some(HotkeyCommand::ClickThrough)
    } else {
        None
    }
}

/// No two commands have the same identifier.
pub proof fn law_shortcuts_are_distinct(a: HotkeyCommand, b: HotkeyCommand)
    requires
        command_id(a) == command_id(b),
    ensures
        a == b,
{
}

/// Where no two commands share an identifier, every command answers to its own.
pub proof fn law_every_command_has_its_shortcut(ids: HotkeyIds, command: HotkeyCommand)
    requires
        ids.distinct(),
    ensures
        ids.command(ids.of(command), true) == Some(command),
        ids.command(ids.of(command), false) is None,
{
    assert forall|other: HotkeyCommand| #[trigger] ids.of(other) == ids.of(
        command,
    ) implies other == command by {}
    assert(ids.of(HotkeyCommand::Capture) == ids.capture);
    assert(ids.of(HotkeyCommand::Paste) == ids.paste);
    assert(ids.of(HotkeyCommand::Clear) == ids.clear);
    assert(ids.of(HotkeyCommand::Annotate) == ids.annotate);
}

/// An identifier that belongs to no command means nothing, and neither does letting a
/// key go.
pub proof fn law_other_identifiers_mean_nothing(ids: HotkeyIds, id: u32, pressed: bool)
    requires
        forall|command: HotkeyCommand| #[trigger] ids.of(command) != id,
    ensures
        ids.command(id, pressed) is None,
        ids.command(id, false) is None,
{
    assert(ids.of(HotkeyCommand::Capture) == ids.capture);
    assert(ids.of(HotkeyCommand::Paste) == ids.paste);
    assert(ids.of(HotkeyCommand::Clear) == ids.clear);
    assert(ids.of(HotkeyCommand::Annotate) == ids.annotate);
    assert(ids.of(HotkeyCommand::ClickThrough) == ids.click_through);
}

/// Every command answers to its own shortcut and to no other.
pub proof fn law_a_command_answers_to_its_shortcut(command: HotkeyCommand, id: u32)
    ensures
        system_ids().command(id, true) == Some(command) <==> id == command_id(command),
{
}

/// A command is given with a function key alone, or with a letter while command and
/// shift are held: no letter is taken away from other programs.
pub proof fn law_letters_need_modifiers(command: HotkeyCommand)
    ensures
        ({
            let (held, key) = shortcut(command);
            held is Nothing <==> key is F1 || key is F3
        }),
{
}

} // verus!
