//! Compiling scripts line by line into the macro representation.

use keymacro::ahk::{AhkFile, CompileError, Diagnostic};
use keymacro::keycodes::{KeyCode, KeyUpDown, MouseFlags};
use keymacro::macro_events::MacroEvent;
use keymacro::macro_ir::Macro;

fn compile(lines: &[&str]) -> (Result<Macro, CompileError>, Vec<Diagnostic>) {
    let mut file = AhkFile { path: String::from("test.ahk"), blocks: Vec::new() };
    let owned: Vec<String> = lines.iter().map(|l| String::from(*l)).collect();
    let mut diagnostics = Vec::new();
    let r = file.parse(&owned, &mut diagnostics);
    (r, diagnostics)
}

#[test]
fn hotkey_and_send_compile_to_guarded_key_tap() {
    let (r, diags) = compile(&["a::", "Send {b}", "}"]);
    let m = r.unwrap();
    assert!(diags.is_empty());
    assert_eq!(m.name, "test.ahk");
    // one guarded block, then the trailing flushed block
    assert_eq!(m.blocks.len(), 2);
    let block = &m.blocks[0];
    assert_eq!(block.hotkey, Some(vec![KeyCode::VK_A]));
    assert_eq!(block.events.len(), 1);
    match &block.events[0] {
        MacroEvent::Keybd(k) => {
            assert_eq!(k.key, Some(KeyCode::VK_B));
            assert_eq!(k.key_up_down, None);
            assert_eq!(k.custom_flags, None);
        }
        other => panic!("expected a key event, got {:?}", other),
    }
    assert_eq!(m.blocks[1].hotkey, None);
    assert!(m.blocks[1].events.is_empty());
}

#[test]
fn modifier_hotkey_composes_modifier_then_key() {
    let (r, _) = compile(&["^a::", "}"]);
    let m = r.unwrap();
    assert_eq!(m.blocks[0].hotkey, Some(vec![KeyCode::VK_CONTROL, KeyCode::VK_A]));
}

#[test]
fn hotkey_special_exit_directive_appends_exit_event() {
    let (r, _) = compile(&["a::exitapp", "}"]);
    let m = r.unwrap();
    let block = &m.blocks[0];
    assert_eq!(block.hotkey, Some(vec![KeyCode::VK_A]));
    assert_eq!(block.events, vec![MacroEvent::ExitApp]);
}

#[test]
fn loop_block_compiles_to_single_counted_loop_event() {
    let (r, diags) = compile(&["Loop 3", "Sleep 10", "}"]);
    let m = r.unwrap();
    assert!(diags.is_empty());
    // the empty block flushed by the loop opener, the loop block, the trailing block
    assert_eq!(m.blocks.len(), 3);
    let block = &m.blocks[1];
    assert_eq!(block.hotkey, None);
    assert_eq!(block.events.len(), 1);
    match &block.events[0] {
        MacroEvent::Loop(l) => {
            assert_eq!(l.count, 3);
            assert_eq!(l.events, vec![MacroEvent::SleepMs(10)]);
        }
        other => panic!("expected a loop event, got {:?}", other),
    }
}

#[test]
fn native_mouse_call_with_move_and_absolute_bits() {
    let (r, diags) = compile(&["DllCall(\"mouse_event\",0,32769,0,100,0,200)"]);
    let m = r.unwrap();
    assert!(diags.is_empty());
    let block = &m.blocks[0];
    assert_eq!(block.events.len(), 1);
    match &block.events[0] {
        MacroEvent::MouseMove(mm) => {
            assert_eq!(mm.x, 100);
            assert_eq!(mm.y, 200);
            assert!(mm.absolute);
        }
        other => panic!("expected a mouse move, got {:?}", other),
    }
}

#[test]
fn native_mouse_call_relative_move() {
    let (r, _) = compile(&["DllCall(\"mouse_event\",0,1,0,-5,0,7)"]);
    let m = r.unwrap();
    match &m.blocks[0].events[0] {
        MacroEvent::MouseMove(mm) => {
            assert_eq!(mm.x, -5);
            assert_eq!(mm.y, 7);
            assert!(!mm.absolute);
        }
        other => panic!("expected a mouse move, got {:?}", other),
    }
}

#[test]
fn unknown_native_call_target_is_dropped_with_diagnostic() {
    let (r, diags) = compile(&["DllCall(\"beep\",1,2)", "Sleep 5"]);
    let m = r.unwrap();
    assert_eq!(diags.len(), 1);
    assert!(matches!(diags[0], Diagnostic::UnknownNativeCall(_)));
    assert_eq!(m.blocks[0].events, vec![MacroEvent::SleepMs(5)]);
}

#[test]
fn unknown_directive_is_nonfatal_and_named() {
    let (r, diags) = compile(&["Foobar arg1 arg2", "Sleep 5"]);
    let m = r.unwrap();
    assert_eq!(diags, vec![Diagnostic::UnknownDirective(String::from("foobar"))]);
    assert_eq!(m.blocks.len(), 1);
    assert_eq!(m.blocks[0].events, vec![MacroEvent::SleepMs(5)]);
}

#[test]
fn comments_and_blank_lines_are_skipped() {
    let (r, diags) = compile(&["; a comment", "", "   ", "Sleep 1"]);
    let m = r.unwrap();
    assert!(diags.is_empty());
    assert_eq!(m.blocks[0].events, vec![MacroEvent::SleepMs(1)]);
}

#[test]
fn click_without_arguments_is_left_button_tap() {
    let (r, diags) = compile(&["Click"]);
    let m = r.unwrap();
    assert!(diags.is_empty());
    match &m.blocks[0].events[0] {
        MacroEvent::MouseBtn(b) => {
            assert_eq!(b.flags, MouseFlags::MOUSEEVENTF_LEFTDOWN);
            assert_eq!(b.up_down, None);
        }
        other => panic!("expected a mouse button event, got {:?}", other),
    }
}

#[test]
fn click_with_arguments_is_dropped_with_diagnostic() {
    let (r, diags) = compile(&["Click 5 6"]);
    let m = r.unwrap();
    assert_eq!(diags, vec![Diagnostic::UnsupportedArguments]);
    assert!(m.blocks[0].events.is_empty());
}

#[test]
fn run_joins_command_and_drops_hide_marker() {
    let (r, _) = compile(&["Run \\notepad.exe file.txt, hide"]);
    let m = r.unwrap();
    match &m.blocks[0].events[0] {
        MacroEvent::Run(cmd) => assert_eq!(cmd, "notepad.exe file.txt"),
        other => panic!("expected a run event, got {:?}", other),
    }
}

#[test]
fn send_with_direction_word() {
    let (r, _) = compile(&["Send {ctrl down}"]);
    let m = r.unwrap();
    match &m.blocks[0].events[0] {
        MacroEvent::Keybd(k) => {
            assert_eq!(k.key, Some(KeyCode::VK_CONTROL));
            assert_eq!(k.key_up_down, Some(KeyUpDown::Down));
        }
        other => panic!("expected a key event, got {:?}", other),
    }
}

#[test]
fn send_up_direction() {
    let (r, _) = compile(&["Send {shift up}"]);
    let m = r.unwrap();
    match &m.blocks[0].events[0] {
        MacroEvent::Keybd(k) => {
            assert_eq!(k.key, Some(KeyCode::VK_SHIFT));
            assert_eq!(k.key_up_down, Some(KeyUpDown::Up));
        }
        other => panic!("expected a key event, got {:?}", other),
    }
}

#[test]
fn bad_sleep_count_is_fatal() {
    let (r, _) = compile(&["Sleep soon"]);
    assert_eq!(r, Err(CompileError::BadNumber(String::from("soon"))));
}

#[test]
fn bad_loop_count_is_fatal() {
    let (r, _) = compile(&["Loop many", "Sleep 1", "}"]);
    assert_eq!(r, Err(CompileError::BadNumber(String::from("many"))));
}

#[test]
fn missing_sleep_argument_is_fatal() {
    let (r, _) = compile(&["Sleep"]);
    assert_eq!(r, Err(CompileError::MissingArgument));
}

#[test]
fn unresolvable_hotkey_symbol_is_fatal() {
    let (r, _) = compile(&["zz::"]);
    assert_eq!(r, Err(CompileError::UnknownSymbol(String::from("ZZ"))));
}

#[test]
fn function_key_hotkey_resolves() {
    let (r, _) = compile(&["F2::", "}"]);
    let m = r.unwrap();
    assert_eq!(m.blocks[0].hotkey, Some(vec![KeyCode::VK_F2]));
}
