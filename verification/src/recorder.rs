//! The recorder: turns sampled key-state transitions into macro events.  The
//! driver polls the physical key state; this module decides which samples are
//! transitions, what each transition records, and how the recording becomes a
//! macro.

use vstd::prelude::*;

use crate::keycodes::{KeyCode, KeyUpDown};
use crate::macro_events::{EventModel, KeyboardEvent, MacroEvent};
use crate::macro_ir::{Macro, MacroBlock};
use vstd::string::StringExecFns;

verus! {

/// The keys currently observed held down while recording.
pub struct HeldKeys {
    keys: Vec<KeyCode>,
}

impl HeldKeys {
    /// Each key is held at most once.
    pub closed spec fn wf(self) -> bool {
        self.keys@.no_duplicates()
    }

    /// The set of keys currently held.
    pub closed spec fn held(self) -> Set<KeyCode> {
        self.keys@.to_set()
    }

    /// Begins with nothing held.
    pub fn new() -> (r: Self)
        ensures
            r.wf(),
            r.held() == Set::<KeyCode>::empty(),
    {
        let r = HeldKeys { keys: Vec::new() };
        proof {
            assert(r.keys@.to_set() =~= Set::<KeyCode>::empty());
        }
        r
    }

    /// Feeds one sampled key state; the result says whether the sample was a
    /// transition: a key going down that was not held, or a held key going
    /// up.  A key that stays held or stays released is no transition.
    pub fn observe(&mut self, key: KeyCode, down: bool) -> (transition: bool)
        requires
            old(self).wf(),
        ensures
            final(self).wf(),
            transition == (down != old(self).held().contains(key)),
            down ==> final(self).held() == old(self).held().insert(key),
            !down ==> final(self).held() == old(self).held().remove(key),
    {
        let mut i: usize = 0;
        let mut found = false;
        let mut at: usize = 0;
        while i < self.keys.len()
            invariant
                i <= self.keys@.len(),
                !found ==> forall|j: int| 0 <= j < i ==> self.keys@[j] != key,
                found ==> at < self.keys@.len() && self.keys@[at as int] == key,
            decreases self.keys@.len() - i,
        {
            if self.keys[i] == key {
                found = true;
                at = i;
                i = self.keys.len();
            } else {
                i = i + 1;
            }
        }
        proof {
            if !found {
                assert(!self.keys@.contains(key));
            }
            assert(found == self.held().contains(key));
        }
        if down {
            if found {
                proof {
                    assert(self.held().insert(key) =~= self.held());
                }
                false
            } else {
                let ghost p0 = self.keys@;
                self.keys.push(key);
                proof {
                    assert(self.keys@.drop_last() =~= p0);
                    assert forall|x: KeyCode| self.keys@.to_set().contains(x) implies p0.to_set().insert(
                        key,
                    ).contains(x) by {
                        let j = choose|j: int| 0 <= j < self.keys@.len() && self.keys@[j] == x;
                        if j < p0.len() {
                            assert(p0[j] == x);
                        }
                    }
                    assert forall|x: KeyCode| p0.to_set().insert(key).contains(x) implies self.keys@.to_set().contains(
                        x,
                    ) by {
                        if x == key {
                            assert(self.keys@.last() == key);
                        } else {
                            let j = choose|j: int| 0 <= j < p0.len() && p0[j] == x;
                            assert(self.keys@[j] == x);
                        }
                    }
                    assert(self.keys@.to_set() =~= p0.to_set().insert(key));
                }
                true
            }
        } else {
            if found {
                let ghost p0 = self.keys@;
                let ghost ati = at as int;
                self.keys.remove(at);
                proof {
                    assert(self.keys@ =~= p0.subrange(0, ati) + p0.subrange(
                        ati + 1,
                        p0.len() as int,
                    ));
                    assert forall|x: KeyCode| self.keys@.to_set().contains(x) implies p0.to_set().remove(
                        key,
                    ).contains(x) by {
                        let jx = choose|j: int| 0 <= j < self.keys@.len() && self.keys@[j] == x;
                        if jx < ati {
                            assert(p0[jx] == x);
                        } else {
                            assert(p0[jx + 1] == x);
                        }
                    }
                    assert forall|x: KeyCode| p0.to_set().remove(key).contains(x) implies self.keys@.to_set().contains(
                        x,
                    ) by {
                        let jx = choose|j: int| 0 <= j < p0.len() && p0[j] == x;
                        if jx < ati {
                            assert(self.keys@[jx] == x);
                        } else {
                            assert(jx != ati);
                            assert(self.keys@[jx - 1] == x);
                        }
                    }
                    assert(self.keys@.to_set() =~= p0.to_set().remove(key));
                    assert forall|a: int, b: int|
                        0 <= a < b < self.keys@.len() implies self.keys@[a] != self.keys@[b] by {
                        if b < ati {
                        } else if a < ati {
                            assert(self.keys@[b] == p0[b + 1]);
                        } else {
                            assert(self.keys@[a] == p0[a + 1]);
                            assert(self.keys@[b] == p0[b + 1]);
                        }
                    }
                    assert(self.keys@.no_duplicates());
                }
                true
            } else {
                proof {
                    assert(self.held().remove(key) =~= self.held());
                }
                false
            }
        }
    }
}

/// A recording in progress: the events captured so far.
#[derive(Debug, PartialEq, Eq)]
pub struct MacroRecorder {
    pub events: Vec<MacroEvent>,
}

impl MacroRecorder {
    /// Begins an empty recording.
    pub fn new() -> (r: Self)
        ensures
            r.events@.len() == 0,
    {
        MacroRecorder { events: Vec::new() }
    }

    /// Records one key transition: the time slept since the previous
    /// transition, then the key's half-press, in that order.
    pub fn record_transition(&mut self, key: KeyCode, down: bool, elapsed_ms: u64)
        ensures
            final(self).events.deep_view() == old(self).events.deep_view() + seq![
                EventModel::SleepMs(elapsed_ms),
                EventModel::Keybd(
                    KeyboardEvent {
                        key: Some(key),
                        key_up_down: Some(
                            if down {
                                KeyUpDown::Down
                            } else {
                                KeyUpDown::Up
                            },
                        ),
                        custom_flags: None,
                    },
                ),
            ],
    {
        let dir = if down {
            KeyUpDown::Down
        } else {
            KeyUpDown::Up
        };
        let ghost e0 = self.events.deep_view();
        self.events.push(MacroEvent::SleepMs(elapsed_ms));
        proof {
            assert(self.events.deep_view() =~= e0.push(EventModel::SleepMs(elapsed_ms)));
        }
        let ghost e1 = self.events.deep_view();
        self.events.push(
            MacroEvent::Keybd(
                KeyboardEvent { key: Some(key), key_up_down: Some(dir), custom_flags: None },
            ),
        );
        proof {
            assert(self.events.deep_view() =~= e1.push(
                EventModel::Keybd(
                    KeyboardEvent { key: Some(key), key_up_down: Some(dir), custom_flags: None },
                ),
            ));
            assert(self.events.deep_view() =~= e0 + seq![
                EventModel::SleepMs(elapsed_ms),
                EventModel::Keybd(
                    KeyboardEvent { key: Some(key), key_up_down: Some(dir), custom_flags: None },
                ),
            ]);
        }
    }

    /// Whether a sampled key may serve as the hotkey that starts the saved
    /// macro: the unmapped code and the keys that drive the capture loop
    /// itself are not accepted.
    pub fn accepts_hotkey_key(key: KeyCode) -> (r: bool)
        ensures
            r == (key != KeyCode::VK_NONE && key != KeyCode::VK_RETURN && key
                != KeyCode::VK_LBUTTON && key != KeyCode::VK_RBUTTON),
    {
        key != KeyCode::VK_NONE && key != KeyCode::VK_RETURN && key != KeyCode::VK_LBUTTON && key
            != KeyCode::VK_RBUTTON
    }

    /// Packs the recording into a macro of one block, guarded by the given
    /// hotkey, holding exactly the recorded events in order.
    pub fn finish(&self, name: &str, hotkey: Vec<KeyCode>) -> (r: Macro)
        ensures
            r.deep_view().name == name@,
            r.deep_view().blocks.len() == 1,
            r.deep_view().blocks[0].hotkey == Some(hotkey@),
            r.deep_view().blocks[0].events == self.events.deep_view(),
            r.deep_view().blocks[0].running == false,
    {
        let mut events: Vec<MacroEvent> = Vec::new();
        let mut i: usize = 0;
        while i < self.events.len()
            invariant
                i <= self.events@.len(),
                events@.len() == i,
                forall|j: int|
                    0 <= j < i ==> crate::macro_events::event_model(events@[j])
                        == crate::macro_events::event_model(self.events@[j]),
            decreases self.events@.len() - i,
        {
            events.push(self.events[i].clone());
            i = i + 1;
        }
        proof {
            assert(events.deep_view() =~= self.events.deep_view());
        }
        let block = MacroBlock { hotkey: Some(hotkey), events, running: false };
        let mut blocks: Vec<MacroBlock> = Vec::new();
        let ghost bm = block.deep_view();
        blocks.push(block);
        let r = Macro { name: String::from_str(name), blocks };
        proof {
            assert(r.blocks.deep_view() =~= seq![bm]);
            assert(bm.hotkey->0 =~= bm.hotkey->0);
        }
        r
    }
}

} // verus!
