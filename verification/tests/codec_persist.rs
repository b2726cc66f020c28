//! The persisted encoding and its round trip.

use keymacro::keycodes::{KeyCode, KeyUpDown, KeyboardFlags, MouseFlags};
use keymacro::macro_events::{
    KeyboardEvent, LoopEvent, MacroEvent, MouseButtonEvent, MouseMoveEvent,
};
use keymacro::macro_ir::{Macro, MacroBlock};

fn full_macro() -> Macro {
    Macro {
        name: String::from("all kinds"),
        blocks: vec![
            MacroBlock {
                hotkey: Some(vec![KeyCode::VK_CONTROL, KeyCode::VK_F12]),
                events: vec![
                    MacroEvent::SleepMs(250),
                    MacroEvent::Keybd(KeyboardEvent {
                        key: Some(KeyCode::VK_Q),
                        key_up_down: Some(KeyUpDown::Up),
                        custom_flags: Some(KeyboardFlags::KEYEVENTF_EXTENDEDKEY),
                    }),
                    MacroEvent::MouseMove(MouseMoveEvent { x: -300, y: 200, absolute: true }),
                    MacroEvent::MouseBtn(MouseButtonEvent {
                        flags: MouseFlags::MOUSEEVENTF_RIGHTDOWN,
                        up_down: None,
                    }),
                    MacroEvent::Run(String::from("notepad.exe notes.txt")),
                ],
                running: false,
            },
            MacroBlock {
                hotkey: None,
                events: vec![
                    MacroEvent::Loop(LoopEvent {
                        count: 4,
                        events: vec![
                            MacroEvent::SleepMs(1),
                            MacroEvent::Loop(LoopEvent {
                                count: 2,
                                events: vec![MacroEvent::ExitApp],
                            }),
                        ],
                    }),
                    MacroEvent::ExitApp,
                ],
                running: true,
            },
        ],
    }
}

#[test]
fn encode_then_decode_is_identity_for_all_event_kinds() {
    let m = full_macro();
    let words = m.encode();
    let back = Macro::decode(&words).expect("a fresh encoding must decode");
    assert_eq!(back, m);
}

#[test]
fn empty_macro_round_trips() {
    let m = Macro { name: String::new(), blocks: Vec::new() };
    let back = Macro::decode(&m.encode()).unwrap();
    assert_eq!(back, m);
}

#[test]
fn unicode_names_round_trip() {
    let m = Macro { name: String::from("marché 🗝"), blocks: Vec::new() };
    let back = Macro::decode(&m.encode()).unwrap();
    assert_eq!(back, m);
}

#[test]
fn trailing_words_are_rejected() {
    let m = Macro { name: String::from("m"), blocks: Vec::new() };
    let mut words = m.encode();
    words.push(0);
    assert!(Macro::decode(&words).is_none());
}

#[test]
fn truncated_words_are_rejected() {
    let m = full_macro();
    let mut words = m.encode();
    words.pop();
    assert!(Macro::decode(&words).is_none());
}

#[test]
fn empty_input_is_rejected() {
    let words: Vec<u64> = Vec::new();
    assert!(Macro::decode(&words).is_none());
}
