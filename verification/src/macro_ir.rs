//! The macro intermediate representation: a named, ordered list of blocks,
//! each holding an optional hotkey and an ordered list of events.

use vstd::prelude::*;

use crate::keycodes::KeyCode;
use crate::macro_events::{EventModel, MacroEvent};

verus! {

/// The persisted macro artifact: the compiled form of one script.
#[derive(Debug, PartialEq, Eq)]
pub struct Macro {
    pub name: String,
    pub blocks: Vec<MacroBlock>,
}

/// One block of the representation: events that run strictly in order once
/// the optional hotkey is observed fully pressed.
#[derive(Debug, PartialEq, Eq)]
pub struct MacroBlock {
    pub hotkey: Option<Vec<KeyCode>>,
    pub events: Vec<MacroEvent>,
    pub running: bool,
}

/// The mathematical model of a [`MacroBlock`].
pub struct BlockModel {
    pub hotkey: Option<Seq<KeyCode>>,
    pub events: Seq<EventModel>,
    pub running: bool,
}

/// The mathematical model of a [`Macro`].
pub struct MacroModel {
    pub name: Seq<char>,
    pub blocks: Seq<BlockModel>,
}

impl DeepView for MacroBlock {
    type V = BlockModel;

    open spec fn deep_view(&self) -> BlockModel {
        BlockModel {
            hotkey: match self.hotkey {
                Some(keys) => Some(keys.deep_view()),
                None => None,
            },
            events: self.events.deep_view(),
            running: self.running,
        }
    }
}

impl DeepView for Macro {
    type V = MacroModel;

    open spec fn deep_view(&self) -> MacroModel {
        MacroModel { name: self.name@, blocks: self.blocks.deep_view() }
    }
}

impl Clone for MacroBlock {
    /// A clone is structurally identical to the original.
    fn clone(&self) -> (r: Self)
        ensures
            r.deep_view() == self.deep_view(),
    {
        let r = MacroBlock {
            hotkey: match &self.hotkey {
                Some(keys) => Some(keys.clone()),
                None => None,
            },
            events: self.events.clone(),
            running: self.running,
        };
        proof {
            assert(r.events.deep_view() =~= self.events.deep_view());
            if self.hotkey is Some {
                assert(r.hotkey->0.deep_view() =~= self.hotkey->0.deep_view());
            }
        }
        r
    }
}

impl Clone for Macro {
    /// A clone is structurally identical to the original.
    fn clone(&self) -> (r: Self)
        ensures
            r.deep_view() == self.deep_view(),
    {
        let r = Macro { name: self.name.clone(), blocks: self.blocks.clone() };
        proof {
            assert(r.blocks.deep_view() =~= self.blocks.deep_view());
        }
        r
    }
}

} // verus!
