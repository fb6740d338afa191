//! Keys, shortcuts and tools.

use pinwall::annotation::Tool;
use pinwall::hotkeys::{dispatch, hotkey_ids, shortcut_of, Held, HotkeyCommand, HotkeyIds, Key};
use pinwall::input::{key_press_from, KeyEvent, KeyPress};
use pinwall::tools::{items_for, tool_from_id, tool_from_key};

fn key(characters: &str) -> KeyEvent<'_> {
    KeyEvent {
        code: 0,
        shift: false,
        control: false,
        option: false,
        command: false,
        characters: Some(characters),
    }
}

#[test]
fn plain_keys() {
    assert_eq!(key_press_from(&key("a")), Some(KeyPress::Plain('a')));
    assert_eq!(key_press_from(&KeyEvent { shift: true, ..key("R") }), Some(KeyPress::Plain('r')));
    assert_eq!(key_press_from(&key("字")), Some(KeyPress::Plain('字')));
    assert_eq!(key_press_from(&key("\u{7f}")), None);
    assert_eq!(key_press_from(&key("\t")), None);
    assert_eq!(key_press_from(&key("")), None);
    assert_eq!(key_press_from(&KeyEvent { characters: None, ..key("") }), None);
}

#[test]
fn keys_with_modifiers() {
    let with_command = KeyEvent { command: true, ..key("S") };
    assert_eq!(key_press_from(&with_command), Some(KeyPress::Command('s')));
    let with_both = KeyEvent { command: true, shift: true, ..key("S") };
    assert_eq!(key_press_from(&with_both), Some(KeyPress::CommandShift('s')));
    assert_eq!(key_press_from(&KeyEvent { control: true, ..key("s") }), None);
    assert_eq!(key_press_from(&KeyEvent { option: true, command: true, ..key("s") }), None);
}

#[test]
fn keys_without_characters() {
    let escape = KeyEvent { code: 53, control: true, characters: None, ..key("") };
    assert_eq!(key_press_from(&escape), Some(KeyPress::Escape));
    let enter = KeyEvent { code: 36, ..key("\r") };
    assert_eq!(key_press_from(&enter), Some(KeyPress::Enter { shift: false }));
    let keypad = KeyEvent { code: 76, shift: true, ..key("\u{3}") };
    assert_eq!(key_press_from(&keypad), Some(KeyPress::Enter { shift: true }));
    let with_command = KeyEvent { code: 36, command: true, ..key("\r") };
    assert_eq!(key_press_from(&with_command), Some(KeyPress::Command('\r')));
}

#[test]
fn shortcuts_have_identifiers_of_their_own() {
    let ids = hotkey_ids();
    let all = [ids.capture, ids.paste, ids.clear, ids.annotate, ids.click_through];
    for i in 0..all.len() {
        for j in 0..i {
            assert_ne!(all[i], all[j]);
        }
    }
    let f1 = global_hotkey::hotkey::HotKey::new(None, global_hotkey::hotkey::Code::F1);
    assert_eq!(ids.capture, f1.id());
    let mods = global_hotkey::hotkey::Modifiers::META | global_hotkey::hotkey::Modifiers::SHIFT;
    let x = global_hotkey::hotkey::HotKey::new(Some(mods), global_hotkey::hotkey::Code::KeyX);
    assert_eq!(ids.clear, x.id());
    assert_eq!(dispatch(&ids, x.id(), true), Some(HotkeyCommand::Clear));
}

#[test]
fn shortcuts_work_when_they_are_pressed() {
    let ids = HotkeyIds { capture: 1, paste: 2, clear: 3, annotate: 4, click_through: 5 };
    assert_eq!(dispatch(&ids, 1, true), Some(HotkeyCommand::Capture));
    assert_eq!(dispatch(&ids, 2, true), Some(HotkeyCommand::Paste));
    assert_eq!(dispatch(&ids, 3, true), Some(HotkeyCommand::Clear));
    assert_eq!(dispatch(&ids, 4, true), Some(HotkeyCommand::Annotate));
    assert_eq!(dispatch(&ids, 5, true), Some(HotkeyCommand::ClickThrough));
    assert_eq!(dispatch(&ids, 6, true), None);
    assert_eq!(dispatch(&ids, 1, false), None);
    assert_eq!(shortcut_of(HotkeyCommand::Paste), (Held::Nothing, Key::F3));
    assert_eq!(shortcut_of(HotkeyCommand::ClickThrough), (Held::CommandShift, Key::T));
}

#[test]
fn every_tool_has_a_button_and_a_key() {
    let tools = [
        (Tool::Select, 'v', "选择"),
        (Tool::Rect, 'r', "矩形"),
        (Tool::Ellipse, 'o', "椭圆"),
        (Tool::Line, 'l', "直线"),
        (Tool::Arrow, 'a', "箭头"),
        (Tool::Highlight, 'h', "高亮"),
        (Tool::Redact, 'b', "打码"),
        (Tool::Number, 'n', "序号"),
        (Tool::Text, 't', "文字"),
    ];
    for (i, (tool, c, label)) in tools.iter().enumerate() {
        assert_eq!(tool_from_id(i as u32), Some(*tool));
        assert_eq!(tool_from_key(*c), Some(*tool));
        let items = items_for(*tool);
        assert_eq!(items.len(), 9);
        assert_eq!(items[i].label, *label);
        assert_eq!(items[i].id, i as u32);
        assert_eq!(items.iter().filter(|item| item.selected).count(), 1);
        assert!(items[i].selected);
    }
    assert_eq!(tool_from_id(9), None);
    assert_eq!(tool_from_key('x'), None);
    assert_eq!(tool_from_key('V'), None);
}

#[test]
fn identifiers_hold_the_modifiers_and_the_key() {
    let ids = hotkey_ids();
    assert_eq!(ids.capture, 160);
    assert_eq!(ids.paste, 162);
    assert_eq!(ids.clear, 0x0240_0000 + 42);
    assert_eq!(ids.annotate, 0x0240_0000 + 23);
    assert_eq!(ids.click_through, 0x0240_0000 + 38);
}
