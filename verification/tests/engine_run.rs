//! Stepping the execution engine over compiled macros.

use keymacro::engine::{Action, HotkeyWait, MacroRun, Step};
use keymacro::keycodes::KeyCode;
use keymacro::macro_events::{LoopEvent, MacroEvent};
use keymacro::macro_ir::{Macro, MacroBlock};

/// Drives a run to its end, collecting actions; hotkeys are noted and skipped.
fn drive(m: &Macro) -> (Vec<Vec<KeyCode>>, Vec<Action>) {
    let mut run: MacroRun = m.run();
    let mut hotkeys = Vec::new();
    let mut actions = Vec::new();
    let mut steps = 0u64;
    loop {
        steps += 1;
        assert!(steps < 1_000_000, "the run did not finish");
        match run.step() {
            Step::Done => break,
            Step::Wait(keys) => hotkeys.push(keys),
            Step::Act(a) => actions.push(a),
            Step::Nothing => {}
        }
    }
    (hotkeys, actions)
}

fn block(hotkey: Option<Vec<KeyCode>>, events: Vec<MacroEvent>) -> MacroBlock {
    MacroBlock { hotkey, events, running: false }
}

#[test]
fn events_run_strictly_in_order() {
    let m = Macro {
        name: String::from("m"),
        blocks: vec![block(
            None,
            vec![
                MacroEvent::SleepMs(1),
                MacroEvent::Run(String::from("job")),
                MacroEvent::SleepMs(2),
            ],
        )],
    };
    let (hotkeys, actions) = drive(&m);
    assert!(hotkeys.is_empty());
    assert_eq!(
        actions,
        vec![
            Action::Sleep(1),
            Action::RunProcess(String::from("job")),
            Action::Sleep(2),
        ]
    );
}

#[test]
fn loop_count_zero_performs_nothing() {
    let m = Macro {
        name: String::from("m"),
        blocks: vec![block(
            None,
            vec![MacroEvent::Loop(LoopEvent {
                count: 0,
                events: vec![MacroEvent::SleepMs(9), MacroEvent::ExitApp],
            })],
        )],
    };
    let (_, actions) = drive(&m);
    assert!(actions.is_empty());
}

#[test]
fn loop_repeats_its_body_in_full() {
    let m = Macro {
        name: String::from("m"),
        blocks: vec![block(
            None,
            vec![MacroEvent::Loop(LoopEvent {
                count: 3,
                events: vec![MacroEvent::SleepMs(1), MacroEvent::SleepMs(2)],
            })],
        )],
    };
    let (_, actions) = drive(&m);
    assert_eq!(
        actions,
        vec![
            Action::Sleep(1),
            Action::Sleep(2),
            Action::Sleep(1),
            Action::Sleep(2),
            Action::Sleep(1),
            Action::Sleep(2),
        ]
    );
}

#[test]
fn exit_inside_a_loop_halts_the_entire_run() {
    let m = Macro {
        name: String::from("m"),
        blocks: vec![
            block(
                None,
                vec![
                    MacroEvent::SleepMs(1),
                    MacroEvent::Loop(LoopEvent {
                        count: 5,
                        events: vec![MacroEvent::SleepMs(2), MacroEvent::ExitApp],
                    }),
                    MacroEvent::SleepMs(3),
                ],
            ),
            block(None, vec![MacroEvent::SleepMs(4)]),
        ],
    };
    let (_, actions) = drive(&m);
    // the first loop iteration reaches the exit; nothing after it runs
    assert_eq!(actions, vec![Action::Sleep(1), Action::Sleep(2), Action::Exit]);
}

#[test]
fn hotkeys_are_yielded_before_their_blocks() {
    let m = Macro {
        name: String::from("m"),
        blocks: vec![
            block(Some(vec![KeyCode::VK_CONTROL, KeyCode::VK_A]), vec![MacroEvent::SleepMs(1)]),
            block(None, vec![MacroEvent::SleepMs(2)]),
        ],
    };
    let (hotkeys, actions) = drive(&m);
    assert_eq!(hotkeys, vec![vec![KeyCode::VK_CONTROL, KeyCode::VK_A]]);
    assert_eq!(actions, vec![Action::Sleep(1), Action::Sleep(2)]);
}

#[test]
fn nested_loops_multiply() {
    let m = Macro {
        name: String::from("m"),
        blocks: vec![block(
            None,
            vec![MacroEvent::Loop(LoopEvent {
                count: 2,
                events: vec![MacroEvent::Loop(LoopEvent {
                    count: 2,
                    events: vec![MacroEvent::SleepMs(7)],
                })],
            })],
        )],
    };
    let (_, actions) = drive(&m);
    assert_eq!(actions, vec![Action::Sleep(7); 4]);
}

#[test]
fn hotkey_wait_completes_only_with_all_keys_down_at_once() {
    let mut w = HotkeyWait::new(vec![KeyCode::VK_CONTROL, KeyCode::VK_A]);
    assert!(!w.satisfied());
    w.observe(KeyCode::VK_CONTROL, true);
    assert!(!w.satisfied());
    // a key outside the hotkey changes nothing
    w.observe(KeyCode::VK_B, true);
    assert!(!w.satisfied());
    w.observe(KeyCode::VK_A, true);
    assert!(w.satisfied());
    // holding both, repeated samples do not change the outcome
    w.observe(KeyCode::VK_CONTROL, true);
    w.observe(KeyCode::VK_A, true);
    assert!(w.satisfied());
    // releasing one breaks the hotkey again
    w.observe(KeyCode::VK_A, false);
    assert!(!w.satisfied());
}
