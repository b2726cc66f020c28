//! The executable events of the macro intermediate representation, and the
//! per-event decisions of the execution engine: which synthetic inputs a key
//! or mouse event issues, with a tap expanding to a press immediately
//! followed by a release.

use vstd::prelude::*;

use crate::keycodes::{KeyCode, KeyUpDown, KeyboardFlags, MouseFlags};

verus! {

/// One executable unit of the compiled representation.
#[derive(Debug, PartialEq, Eq)]
pub enum MacroEvent {
    SleepMs(u64),
    Keybd(KeyboardEvent),
    MouseMove(MouseMoveEvent),
    MouseBtn(MouseButtonEvent),
    Run(String),
    Loop(LoopEvent),
    ExitApp,
}

/// A counted repetition of an inner event list; a count of zero means the
/// inner events never execute.
#[derive(Debug, PartialEq, Eq)]
pub struct LoopEvent {
    pub count: u32,
    pub events: Vec<MacroEvent>,
}

/// A synthetic keyboard event: a tap when `key_up_down` is absent, otherwise
/// only the requested half of the press.
#[derive(Copy, Clone, Debug, PartialEq, Eq)]
pub struct KeyboardEvent {
    pub key: Option<KeyCode>,
    pub key_up_down: Option<KeyUpDown>,
    pub custom_flags: Option<KeyboardFlags>,
}

/// A synthetic mouse movement, absolute or relative.
#[derive(Copy, Clone, Debug, PartialEq, Eq)]
pub struct MouseMoveEvent {
    pub x: i32,
    pub y: i32,
    pub absolute: bool,
}

/// A synthetic mouse button event: the flags name the button and half; a tap
/// when `up_down` is absent.
#[derive(Copy, Clone, Debug, PartialEq, Eq)]
pub struct MouseButtonEvent {
    pub flags: MouseFlags,
    pub up_down: Option<KeyUpDown>,
}

/// The mathematical model of a [`MacroEvent`], with lists as sequences.
pub enum EventModel {
    SleepMs(u64),
    Keybd(KeyboardEvent),
    MouseMove(MouseMoveEvent),
    MouseBtn(MouseButtonEvent),
    Run(Seq<char>),
    Loop(u32, Seq<EventModel>),
    ExitApp,
}

/// The model of one event.
pub open spec fn event_model(e: MacroEvent) -> EventModel
    decreases e,
    via event_model_decreases
{
    match e {
        MacroEvent::SleepMs(ms) => EventModel::SleepMs(ms),
        MacroEvent::Keybd(k) => EventModel::Keybd(k),
        MacroEvent::MouseMove(m) => EventModel::MouseMove(m),
        MacroEvent::MouseBtn(b) => EventModel::MouseBtn(b),
        MacroEvent::Run(cmd) => EventModel::Run(cmd@),
        MacroEvent::Loop(l) => EventModel::Loop(l.count, events_model(l.events@)),
        MacroEvent::ExitApp => EventModel::ExitApp,
    }
}

#[via_fn]
proof fn event_model_decreases(e: MacroEvent) {
    broadcast use vstd::std_specs::vec::group_vec_axioms;

    if let MacroEvent::Loop(l) = e {
        assert(decreases_to!(e => l.events));
        assert(decreases_to!(l.events => l.events@));
    }
}

/// The model of an event list, element by element.
pub open spec fn events_model(evs: Seq<MacroEvent>) -> Seq<EventModel>
    decreases evs,
{
    if evs.len() == 0 {
        Seq::empty()
    } else {
        seq![event_model(evs[0])] + events_model(evs.drop_first())
    }
}

/// The model of an event list is the pointwise model of its elements.
pub proof fn lemma_events_model(evs: Seq<MacroEvent>)
    ensures
        events_model(evs).len() == evs.len(),
        forall|i: int| 0 <= i < evs.len() ==> events_model(evs)[i] == event_model(evs[i]),
    decreases evs.len(),
{
    if evs.len() > 0 {
        lemma_events_model(evs.drop_first());
    }
}

/// On a vector of events, the model and the deep view agree.
pub broadcast proof fn lemma_events_model_is_deep_view(v: Vec<MacroEvent>)
    ensures
        #[trigger] v.deep_view() == events_model(v@),
{
    lemma_events_model(v@);
    assert(v.deep_view() =~= events_model(v@));
}

impl DeepView for MacroEvent {
    type V = EventModel;

    open spec fn deep_view(&self) -> EventModel {
        event_model(*self)
    }
}

impl Clone for MacroEvent {
    /// A clone is structurally identical to the original.
    fn clone(&self) -> (r: Self)
        ensures
            r.deep_view() == self.deep_view(),
        decreases self,
    {
        broadcast use lemma_events_model_is_deep_view;

        match self {
            MacroEvent::SleepMs(ms) => MacroEvent::SleepMs(*ms),
            MacroEvent::Keybd(k) => MacroEvent::Keybd(*k),
            MacroEvent::MouseMove(m) => MacroEvent::MouseMove(*m),
            MacroEvent::MouseBtn(b) => MacroEvent::MouseBtn(*b),
            MacroEvent::Run(cmd) => MacroEvent::Run(cmd.clone()),
            MacroEvent::Loop(l) => MacroEvent::Loop(l.clone()),
            MacroEvent::ExitApp => MacroEvent::ExitApp,
        }
    }
}

impl Clone for LoopEvent {
    /// A clone repeats a structurally identical event list as often.
    #[verifier::loop_isolation(false)]
    fn clone(&self) -> (r: Self)
        ensures
            r.count == self.count,
            r.events.deep_view() == self.events.deep_view(),
        decreases self,
    {
        let mut events: Vec<MacroEvent> = Vec::new();
        let mut i: usize = 0;
        while i < self.events.len()
            invariant
                i <= self.events.len(),
                events.len() == i,
                forall|j: int|
                    0 <= j < i ==> event_model(events@[j]) == event_model(self.events@[j]),
            decreases self.events.len() - i,
        {
            events.push(self.events[i].clone());
            i = i + 1;
        }
        proof {
            assert(events.deep_view() =~= self.events.deep_view());
        }
        LoopEvent { count: self.count, events }
    }
}

/// One synthetic input for the platform injector: a virtual-key code with
/// keyboard flag bits, or mouse fields.
pub struct KeyInput {
    pub vk: u16,
    pub flags: u16,
}

impl KeyboardEvent {
    /// The keyboard flag bits this event sends with its press half: the
    /// custom flags, with the key-up bit folded in when the event releases.
    pub open spec fn spec_flags(self) -> u16 {
        let base = match self.custom_flags {
            Some(f) => f.spec_bits(),
            None => 0,
        };
        if self.key_up_down == Some(KeyUpDown::Up) {
            base | 0x02
        } else {
            base
        }
    }

    /// The virtual-key code this event sends.
    pub open spec fn spec_vk(self) -> u16 {
        (match self.key {
            Some(k) => k.spec_code(),
            None => 0,
        }) as u16
    }

    /// The synthetic inputs this event issues, in order: one half when a
    /// direction is given; a press immediately followed by a release when the
    /// event is a tap.
    pub open spec fn spec_injections(self) -> Seq<KeyInput> {
        if self.key_up_down is Some {
            seq![KeyInput { vk: self.spec_vk(), flags: self.spec_flags() }]
        } else {
            seq![
                KeyInput { vk: self.spec_vk(), flags: self.spec_flags() },
                KeyInput { vk: self.spec_vk(), flags: self.spec_flags() | 0x02 },
            ]
        }
    }

    /// The synthetic inputs this event issues, as [`Self::spec_injections`]
    /// describes.
    pub fn injections(&self) -> (r: Vec<KeyInput>)
        ensures
            r@ == self.spec_injections(),
    {
        let base = match self.custom_flags {
            Some(f) => f.bits(),
            None => 0,
        };
        let up = match self.key_up_down {
            Some(KeyUpDown::Up) => true,
            _ => false,
        };
        let flags = if up {
            base | 0x02
        } else {
            base
        };
        let vk_code = match self.key {
            Some(k) => k.code(),
            None => 0,
        };
        let vk = vk_code as u16;
        proof {
            assert(self.spec_vk() == vk) by {
                if self.key is Some {
                    assert(self.key->0.spec_code() <= 0xfe);
                }
            };
        }
        let mut r: Vec<KeyInput> = Vec::new();
        r.push(KeyInput { vk, flags });
        if self.key_up_down.is_none() {
            r.push(KeyInput { vk, flags: flags | 0x02 });
            proof {
                assert(r@ =~= self.spec_injections());
            }
        } else {
            proof {
                assert(r@ =~= self.spec_injections());
            }
        }
        r
    }
}

impl MouseMoveEvent {
    /// The mouse flag word this movement sends: the move bit, with the
    /// absolute bit folded in when coordinates are absolute.
    pub open spec fn spec_flags(self) -> u16 {
        if self.absolute {
            0x01u16 | 0x8000u16
        } else {
            0x01u16
        }
    }

    /// The mouse flag word this movement sends, as [`Self::spec_flags`]
    /// describes.
    pub fn injection_flags(&self) -> (r: u16)
        ensures
            r == self.spec_flags(),
    {
        if self.absolute {
            0x01u16 | 0x8000u16
        } else {
            0x01u16
        }
    }
}

impl MouseButtonEvent {
    /// The mouse flag word this event sends.  With an explicit half, the
    /// stored flags go out as they are; a tap completes the press by folding
    /// in the matching release bit, the right button's when the stored flags
    /// name the right button, else the left button's.
    pub open spec fn spec_injection_flags(self) -> u16 {
        if self.up_down is Some {
            self.flags.spec_bits()
        } else {
            let right = self.flags.spec_bits() & 0x08 == 0x08 || self.flags.spec_bits() & 0x10
                == 0x10;
            if right {
                self.flags.spec_bits() | 0x10
            } else {
                self.flags.spec_bits() | 0x04
            }
        }
    }

    /// The mouse flag word this event sends, as
    /// [`Self::spec_injection_flags`] describes.
    pub fn injection_flags(&self) -> (r: u16)
        ensures
            r == self.spec_injection_flags(),
    {
        let bits = self.flags.bits();
        if self.up_down.is_some() {
            bits
        } else {
            let right = bits & 0x08 == 0x08 || bits & 0x10 == 0x10;
            if right {
                bits | 0x10
            } else {
                bits | 0x04
            }
        }
    }
}

} // verus!
