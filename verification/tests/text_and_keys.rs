//! Token reading, number reading and writing, and key resolution.

use keymacro::keycodes::{KeyCode, KeyUpDown};
use keymacro::macro_events::KeyboardEvent;
use keymacro::keycodes::MouseFlags;
use keymacro::macro_events::MouseButtonEvent;
use keymacro::recorder::{HeldKeys, MacroRecorder};
use keymacro::text;

#[test]
fn str_match_names_keys() {
    assert_eq!(KeyCode::str_match("VK_CONTROL"), KeyCode::VK_CONTROL);
    assert_eq!(KeyCode::str_match("VK_OEM_CLEAR"), KeyCode::VK_OEM_CLEAR);
    assert_eq!(KeyCode::str_match("VK_NOSUCH"), KeyCode::VK_NONE);
}

#[test]
fn key_names_match_back() {
    let keys = [KeyCode::VK_A, KeyCode::VK_LWIN, KeyCode::VK_F24, KeyCode::VK_OEM_PERIOD];
    for k in keys {
        assert_eq!(KeyCode::str_match(k.name().as_str()), k);
    }
}

#[test]
fn codes_round_trip() {
    assert_eq!(KeyCode::VK_A.code(), 0x41);
    assert_eq!(KeyCode::from_code(0x41), KeyCode::VK_A);
    assert_eq!(KeyCode::from_code(0x07), KeyCode::VK_NONE);
}

#[test]
fn single_characters_map_directly() {
    assert_eq!(KeyCode::from_char('b'), Some(KeyCode::VK_B));
    assert_eq!(KeyCode::from_char('B'), Some(KeyCode::VK_B));
    assert_eq!(KeyCode::from_char('7'), Some(KeyCode::VK_7));
    assert_eq!(KeyCode::from_char(' '), Some(KeyCode::VK_SPACE));
    assert_eq!(KeyCode::from_char(';'), None);
}

#[test]
fn resolve_handles_names_chars_and_function_keys() {
    let resolve = |s: &str| {
        let cs: Vec<char> = s.chars().collect();
        KeyCode::resolve(&cs)
    };
    assert_eq!(resolve("VK_SHIFT"), Some(KeyCode::VK_SHIFT));
    assert_eq!(resolve("a"), Some(KeyCode::VK_A));
    assert_eq!(resolve("F1"), Some(KeyCode::VK_F1));
    assert_eq!(resolve("F24"), Some(KeyCode::VK_F24));
    assert_eq!(resolve("F25"), None);
    assert_eq!(resolve("F0"), None);
    assert_eq!(resolve("zz"), None);
    assert_eq!(resolve(""), None);
}

#[test]
fn numbers_read_and_write_exactly() {
    let chars = |s: &str| -> Vec<char> { s.chars().collect() };
    assert_eq!(text::parse_u64_chars(&chars("0")), Some(0));
    assert_eq!(text::parse_u64_chars(&chars("18446744073709551615")), Some(u64::MAX));
    assert_eq!(text::parse_u64_chars(&chars("18446744073709551616")), None);
    assert_eq!(text::parse_u64_chars(&chars("12a")), None);
    assert_eq!(text::parse_u64_chars(&chars("")), None);
    assert_eq!(text::parse_i32_chars(&chars("-2147483648")), Some(i32::MIN));
    assert_eq!(text::parse_i32_chars(&chars("2147483647")), Some(i32::MAX));
    assert_eq!(text::parse_i32_chars(&chars("-2147483649")), None);
    let printed: String = text::i32_to_chars(-300).into_iter().collect();
    assert_eq!(printed, "-300");
    let printed: String = text::u64_to_chars(0).into_iter().collect();
    assert_eq!(printed, "0");
    let printed: String = text::u64_to_chars(907).into_iter().collect();
    assert_eq!(printed, "907");
}

#[test]
fn recorder_tracks_transitions_and_records_them() {
    let mut held = HeldKeys::new();
    let mut rec = MacroRecorder::new();
    assert!(held.observe(KeyCode::VK_A, true));
    rec.record_transition(KeyCode::VK_A, true, 15);
    // still held: no transition
    assert!(!held.observe(KeyCode::VK_A, true));
    assert!(held.observe(KeyCode::VK_A, false));
    rec.record_transition(KeyCode::VK_A, false, 40);
    assert!(!held.observe(KeyCode::VK_A, false));
    assert_eq!(
        rec.events,
        vec![
            keymacro::macro_events::MacroEvent::SleepMs(15),
            keymacro::macro_events::MacroEvent::Keybd(KeyboardEvent {
                key: Some(KeyCode::VK_A),
                key_up_down: Some(KeyUpDown::Down),
                custom_flags: None,
            }),
            keymacro::macro_events::MacroEvent::SleepMs(40),
            keymacro::macro_events::MacroEvent::Keybd(KeyboardEvent {
                key: Some(KeyCode::VK_A),
                key_up_down: Some(KeyUpDown::Up),
                custom_flags: None,
            }),
        ]
    );
    let m = rec.finish("test", vec![KeyCode::VK_F5]);
    assert_eq!(m.name, "test");
    assert_eq!(m.blocks.len(), 1);
    assert_eq!(m.blocks[0].hotkey, Some(vec![KeyCode::VK_F5]));
    assert_eq!(m.blocks[0].events, rec.events);
}

#[test]
fn key_tap_injects_press_then_release() {
    let tap = KeyboardEvent {
        key: Some(KeyCode::VK_B),
        key_up_down: None,
        custom_flags: None,
    };
    let ins = tap.injections();
    assert_eq!(ins.len(), 2);
    assert_eq!(ins[0].vk, 0x42);
    assert_eq!(ins[0].flags, 0);
    assert_eq!(ins[1].vk, 0x42);
    assert_eq!(ins[1].flags, 0x02);
}

#[test]
fn key_release_injects_one_half() {
    let up = KeyboardEvent {
        key: Some(KeyCode::VK_B),
        key_up_down: Some(KeyUpDown::Up),
        custom_flags: None,
    };
    let ins = up.injections();
    assert_eq!(ins.len(), 1);
    assert_eq!(ins[0].flags, 0x02);
}

#[test]
fn mouse_button_tap_completes_the_press() {
    let left_tap = MouseButtonEvent { flags: MouseFlags::MOUSEEVENTF_LEFTDOWN, up_down: None };
    assert_eq!(left_tap.injection_flags(), 0x02 | 0x04);
    let right_tap = MouseButtonEvent { flags: MouseFlags::MOUSEEVENTF_RIGHTDOWN, up_down: None };
    assert_eq!(right_tap.injection_flags(), 0x08 | 0x10);
    let explicit = MouseButtonEvent {
        flags: MouseFlags::MOUSEEVENTF_LEFTDOWN,
        up_down: Some(KeyUpDown::Down),
    };
    assert_eq!(explicit.injection_flags(), 0x02);
}
