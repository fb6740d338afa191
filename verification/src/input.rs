//! What the user does: pointer events, key presses and typed text.

use vstd::prelude::*;

use crate::geom::{Point, Size};

verus! {

/// What the pointer does on an overlay or on a pinned image.
#[derive(Debug, Clone, Copy, PartialEq, Eq, Structural)]
pub enum PointerEvent {
    Down(Point),
    Moved(Point),
    Up(Point),
    /// The right button, or escape.
    Cancel,
}

/// Names a callback that the windowing code keeps.
#[derive(Debug, Clone, Copy, PartialEq, Eq, Structural, Hash)]
pub struct HandlerId(pub u32);

/// A key that a pinned image reacts to.
#[derive(Debug, Clone, Copy, PartialEq, Eq, Structural)]
pub enum KeyPress {
    /// A character without the command key.
    Plain(char),
    Command(char),
    CommandShift(char),
    Enter { shift: bool },
    Escape,
}

/// What has been typed into a text field.
#[derive(Debug, PartialEq)]
pub struct TextInput {
    pub text: String,
    /// The size of the text in logical points.
    pub extent: Size,
    /// The user is done typing.
    pub finished: bool,
}

/// The contents of a [`TextInput`].
pub struct TextInputView {
    pub text: Seq<char>,
    pub extent: Size,
    pub finished: bool,
}

impl View for TextInput {
    type V = TextInputView;

    open spec fn view(&self) -> TextInputView {
        TextInputView { text: self.text@, extent: self.extent, finished: self.finished }
    }
}

impl Clone for TextInput {
    fn clone(&self) -> (r: TextInput)
        ensures
            r == *self,
    {
        TextInput { text: self.text.clone(), extent: self.extent, finished: self.finished }
    }
}

/// The virtual key code of the escape key, which has no printable character.
pub const KEYCODE_ESCAPE: u16 = 53;

/// The virtual key code of the return key.
pub const KEYCODE_RETURN: u16 = 36;

/// The virtual key code of the enter key of the number pad.
pub const KEYCODE_ENTER: u16 = 76;

/// A key event as the system reports it.
pub struct KeyEvent<'a> {
    pub code: u16,
    pub shift: bool,
    pub control: bool,
    pub option: bool,
    pub command: bool,
    /// The characters of the key, whatever modifiers are held. With an input
    /// method in use, the characters as typed would be others.
    pub characters: Option<&'a str>,
}

/// An ASCII letter in lower case, any other character as it is.
pub open spec fn lower_case(c: char) -> char {
    if 'A' <= c && c <= 'Z' {
        (c as u32 + 32) as char
    } else {
        c
    }
}

/// A control character.
pub open spec fn is_control(c: char) -> bool {
    c as u32 <= 0x1f || 0x7f <= c as u32 <= 0x9f
}

/// The first character of a key, in lower case.
pub open spec fn key_character(characters: Option<&str>) -> Option<char> {
    match characters {
        Some(s) => if s@.len() > 0 {
            Some(lower_case(s@[0]))
        } else {
            None
        },
        None => None,
    }
}

/// The key press that an event stands for. Combinations with the control or
/// the option key belong to the system and to input methods.
pub open spec fn key_press(event: KeyEvent<'_>) -> Option<KeyPress> {
    if event.code == KEYCODE_ESCAPE {
        Some(KeyPress::Escape)
    } else if event.control || event.option {
        None
    } else if !event.command && (event.code == KEYCODE_RETURN || event.code == KEYCODE_ENTER) {
        Some(KeyPress::Enter { shift: event.shift })
    } else {
        match key_character(event.characters) {
            None => None,
            Some(c) => if event.command {
                if event.shift {
                    Some(KeyPress::CommandShift(c))
                } else {
                    Some(KeyPress::Command(c))
                }
            } else if is_control(c) {
                None
            } else {
                Some(KeyPress::Plain(c))
            },
        }
    }
}

fn to_lower_case(c: char) -> (r: char)
    ensures
        r == lower_case(c),
{
    match c {
        'A' => 'a',
        'B' => 'b',
        'C' => 'c',
        'D' => 'd',
        'E' => 'e',
        'F' => 'f',
        'G' => 'g',
        'H' => 'h',
        'I' => 'i',
        'J' => 'j',
        'K' => 'k',
        'L' => 'l',
        'M' => 'm',
        'N' => 'n',
        'O' => 'o',
        'P' => 'p',
        'Q' => 'q',
        'R' => 'r',
        'S' => 's',
        'T' => 't',
        'U' => 'u',
        'V' => 'v',
        'W' => 'w',
        'X' => 'x',
        'Y' => 'y',
        'Z' => 'z',
        _ => c,
    }
}

/// Turns a key event into a key press, or into nothing where the combination
/// means nothing here.
pub fn key_press_from(event: &KeyEvent<'_>) -> (r: Option<KeyPress>)
    ensures
        r == key_press(*event),
{
    if event.code == KEYCODE_ESCAPE {
        return Some(KeyPress::Escape);
    }
    if event.control || event.option {
        return None;
    }
    if !event.command && (event.code == KEYCODE_RETURN || event.code == KEYCODE_ENTER) {
        return Some(KeyPress::Enter { shift: event.shift });
    }
    let characters: &str = match event.characters {
        Some(s) => s,
        None => return None,
    };
    if characters.unicode_len() == 0 {
        return None;
    }
    let c: char = to_lower_case(characters.get_char(0));
    if event.command {
        if event.shift {
            Some(KeyPress::CommandShift(c))
        } else {
            Some(KeyPress::Command(c))
        }
    } else if c <= '\u{1f}' || ('\u{7f}' <= c && c <= '\u{9f}') {
        None
    } else {
        Some(KeyPress::Plain(c))
    }
}

/// Shift makes no difference to a plain key, and combinations with the control
/// or the option key are left to the system, except for escape.
pub proof fn law_modifiers(event: KeyEvent<'_>)
    ensures
        event.code != KEYCODE_ESCAPE && (event.control || event.option) ==> key_press(event)
            is None,
        key_press(event) matches Some(KeyPress::Plain(_)) ==> key_press(KeyEvent { shift: !event.shift, ..event })
            == key_press(event),
{
}

/// Escape is known by its key code, whatever else is held. The return key and the
/// enter key mean the same without the command key, unless control or option is held.
pub proof fn law_named_keys_are_known_by_their_codes(event: KeyEvent<'_>)
    ensures
        event.code == 53 ==> key_press(event) == Some(KeyPress::Escape),
        event.code != 53 ==> key_press(event) != Some(KeyPress::Escape),
        (event.code == 36 || event.code == 76) && !event.command && !event.control
            && !event.option ==> key_press(event) == Some(KeyPress::Enter { shift: event.shift }),
        event.code != 36 && event.code != 76 ==> !(key_press(event) matches Some(
            KeyPress::Enter { .. },
        )),
{
}

/// Any other key stands for the first of its characters, a letter in lower case: with
/// the command key, with command and shift, or alone. Alone, control characters stand
/// for nothing.
pub proof fn law_other_keys_are_known_by_their_characters(event: KeyEvent<'_>, s: &str)
    requires
        event.code != 53,
        event.code != 36,
        event.code != 76,
        !event.control,
        !event.option,
        event.characters == Some(s),
        s@.len() > 0,
    ensures
        ({
            let c = lower_case(s@[0]);
            &&& event.command && event.shift ==> key_press(event) == Some(
                KeyPress::CommandShift(c),
            )
            &&& event.command && !event.shift ==> key_press(event) == Some(KeyPress::Command(c))
            &&& !event.command && (s@[0] as u32 <= 31 || 127 <= s@[0] as u32 <= 159)
                ==> key_press(event) is None
            &&& !event.command && !(s@[0] as u32 <= 31 || 127 <= s@[0] as u32 <= 159)
                ==> key_press(event) == Some(KeyPress::Plain(c))
        }),
{
}

/// A key without characters stands for nothing.
pub proof fn law_keys_without_characters_mean_nothing(event: KeyEvent<'_>)
    requires
        event.code != 53,
        event.code != 36,
        event.code != 76,
        event.characters matches Some(s) ==> s@.len() == 0,
    ensures
        key_press(event) is None,
{
}

/// Capital letters become small ones, thirty-two code points further, and nothing
/// else changes.
pub proof fn law_lower_case(c: char)
    ensures
        65 <= c as u32 <= 90 ==> lower_case(c) as u32 == c as u32 + 32,
        !(65 <= c as u32 <= 90) ==> lower_case(c) == c,
{
}

} // verus!
