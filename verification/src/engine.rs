//! The execution engine: a step-wise interpreter over the macro
//! representation.  Each step yields one item of the run — a hotkey to
//! wait on, or one primitive action for the driver to perform — strictly in
//! order: blocks in list order, events in list order, loop bodies repeated in
//! full, and an exit action cutting off everything scheduled after it.

use vstd::prelude::*;

use crate::keycodes::KeyCode;
use crate::macro_events::{
    event_model, events_model, lemma_events_model, EventModel, KeyboardEvent, MacroEvent, MouseButtonEvent,
    MouseMoveEvent,
};
use crate::macro_ir::{BlockModel, Macro, MacroBlock};

verus! {

broadcast use crate::macro_events::lemma_events_model_is_deep_view;

/// One primitive effect for the driver to perform.
#[derive(Clone, Debug, PartialEq, Eq)]
pub enum Action {
    /// Block the calling thread for at least this many milliseconds.
    Sleep(u64),
    /// Inject the synthetic keyboard event.
    Key(KeyboardEvent),
    /// Inject the synthetic mouse movement.
    MouseMove(MouseMoveEvent),
    /// Inject the synthetic mouse button event.
    MouseButton(MouseButtonEvent),
    /// Launch the command line and wait for it to complete.
    RunProcess(String),
    /// Terminate the whole run immediately.
    Exit,
}

/// The mathematical model of an [`Action`].
pub enum ActionModel {
    Sleep(u64),
    Key(KeyboardEvent),
    MouseMove(MouseMoveEvent),
    MouseButton(MouseButtonEvent),
    RunProcess(Seq<char>),
    Exit,
}

impl DeepView for Action {
    type V = ActionModel;

    open spec fn deep_view(&self) -> ActionModel {
        match self {
            Action::Sleep(ms) => ActionModel::Sleep(*ms),
            Action::Key(k) => ActionModel::Key(*k),
            Action::MouseMove(m) => ActionModel::MouseMove(*m),
            Action::MouseButton(b) => ActionModel::MouseButton(*b),
            Action::RunProcess(cmd) => ActionModel::RunProcess(cmd@),
            Action::Exit => ActionModel::Exit,
        }
    }
}

/// One item of a run: a hotkey to satisfy, or an action to perform.
pub enum RunItem {
    Chord(Seq<KeyCode>),
    Act(ActionModel),
}

/// A list of actions repeated a number of times.
pub open spec fn repeat_actions(acts: Seq<ActionModel>, n: nat) -> Seq<ActionModel>
    decreases n,
{
    if n == 0 {
        seq![]
    } else {
        acts + repeat_actions(acts, (n - 1) as nat)
    }
}

/// The actions one event performs: a loop's body expands in full once per
/// iteration, and a count of zero expands to nothing.
pub open spec fn expand_event(e: EventModel) -> Seq<ActionModel>
    decreases e, 1int,
{
    match e {
        EventModel::SleepMs(ms) => seq![ActionModel::Sleep(ms)],
        EventModel::Keybd(k) => seq![ActionModel::Key(k)],
        EventModel::MouseMove(m) => seq![ActionModel::MouseMove(m)],
        EventModel::MouseBtn(b) => seq![ActionModel::MouseButton(b)],
        EventModel::Run(cmd) => seq![ActionModel::RunProcess(cmd)],
        EventModel::Loop(count, evs) => repeat_actions(expand_events(evs), count as nat),
        EventModel::ExitApp => seq![ActionModel::Exit],
    }
}

/// The actions an event list performs, strictly in list order.
pub open spec fn expand_events(evs: Seq<EventModel>) -> Seq<ActionModel>
    decreases evs, 0int,
{
    if evs.len() == 0 {
        seq![]
    } else {
        expand_event(evs[0]) + expand_events(evs.drop_first())
    }
}

/// Actions as run items.
pub open spec fn acts_items(acts: Seq<ActionModel>) -> Seq<RunItem> {
    acts.map_values(|a: ActionModel| RunItem::Act(a))
}

/// The items one block schedules: its hotkey, if any, then its events'
/// actions.
pub open spec fn block_items(b: BlockModel) -> Seq<RunItem> {
    (match b.hotkey {
        Some(keys) => seq![RunItem::Chord(keys)],
        None => Seq::empty(),
    }) + acts_items(expand_events(b.events))
}

/// The items a block list schedules, strictly in list order.
pub open spec fn blocks_items(bs: Seq<BlockModel>) -> Seq<RunItem>
    decreases bs.len(),
{
    if bs.len() == 0 {
        seq![]
    } else {
        block_items(bs[0]) + blocks_items(bs.drop_first())
    }
}

/// A schedule cut at its first exit action: the exit is kept, everything
/// after it — remaining events, loop iterations and blocks alike — is
/// discarded.
pub open spec fn cut_items(items: Seq<RunItem>) -> Seq<RunItem>
    decreases items.len(),
{
    if items.len() == 0 {
        seq![]
    } else if items[0] == RunItem::Act(ActionModel::Exit) {
        seq![RunItem::Act(ActionModel::Exit)]
    } else {
        seq![items[0]] + cut_items(items.drop_first())
    }
}

/// Everything a whole macro performs, in order, cut at the first exit.
pub open spec fn macro_items(blocks: Seq<BlockModel>) -> Seq<RunItem> {
    cut_items(blocks_items(blocks))
}

/// One execution frame: an event list being run, the index of the next event,
/// and how many full passes over the list are still owed.
pub struct Frame {
    pub events: Vec<MacroEvent>,
    pub idx: usize,
    pub remaining: u32,
}

/// The model of a frame.
pub struct FrameModel {
    pub events: Seq<EventModel>,
    pub idx: int,
    pub remaining: u32,
}

impl DeepView for Frame {
    type V = FrameModel;

    open spec fn deep_view(&self) -> FrameModel {
        FrameModel { events: self.events.deep_view(), idx: self.idx as int, remaining: self.remaining }
    }
}

/// The actions a frame still performs: the rest of the current pass, then
/// the owed full passes.
pub open spec fn frame_raw(f: FrameModel) -> Seq<ActionModel> {
    expand_events(f.events.skip(f.idx)) + repeat_actions(
        expand_events(f.events),
        (f.remaining - 1) as nat,
    )
}

/// The actions a frame stack still performs, innermost frame first.
pub open spec fn frames_raw(frames: Seq<FrameModel>) -> Seq<ActionModel>
    decreases frames.len(),
{
    if frames.len() == 0 {
        seq![]
    } else {
        frame_raw(frames.last()) + frames_raw(frames.drop_last())
    }
}

/// The structural size of one event, counting a loop body once per owed
/// iteration; every event weighs at least one.
pub open spec fn event_size(e: EventModel) -> nat
    decreases e, 2int,
{
    match e {
        EventModel::Loop(count, evs) => (1 + (count + 1) * (events_size(evs) + 1)) as nat,
        _ => 1,
    }
}

/// The structural size of an event list.
pub open spec fn events_size(evs: Seq<EventModel>) -> nat
    decreases evs, 0int,
{
    if evs.len() == 0 {
        0
    } else {
        event_size(evs[0]) + events_size(evs.drop_first())
    }
}

/// The work a frame still owes.
pub open spec fn frame_size(f: FrameModel) -> nat {
    (events_size(f.events.skip(f.idx)) + (f.remaining - 1) * (events_size(f.events) + 1) + 1) as nat
}

/// The work a frame stack still owes.
pub open spec fn frames_size(frames: Seq<FrameModel>) -> nat
    decreases frames.len(),
{
    if frames.len() == 0 {
        0
    } else {
        frame_size(frames.last()) + frames_size(frames.drop_last())
    }
}

/// The work a block list still owes.
pub open spec fn blocks_size(bs: Seq<BlockModel>) -> nat
    decreases bs.len(),
{
    if bs.len() == 0 {
        0
    } else {
        events_size(bs[0].events) + 2 + blocks_size(bs.drop_first())
    }
}

/// What one step of a run yields: a hotkey to wait on until all of its keys
/// are observed simultaneously pressed, an action to perform, an internal
/// bookkeeping step with nothing to do, or the end of the run.
#[derive(Clone, Debug, PartialEq, Eq)]
pub enum Step {
    Wait(Vec<KeyCode>),
    Act(Action),
    Nothing,
    Done,
}

/// The state of one macro run.
pub struct MacroRun {
    /// The blocks of the macro being run.
    blocks: Vec<MacroBlock>,
    /// The index of the next block not yet started.
    bi: usize,
    /// Whether the next block's hotkey has already been yielded.
    chord_done: bool,
    /// The execution stack for the block being run.
    frames: Vec<Frame>,
    /// Whether the run has ended, by exhaustion or by an exit action.
    done: bool,
}

impl MacroRun {
    /// The state is internally consistent.
    pub closed spec fn wf(self) -> bool {
        &&& self.bi <= self.blocks@.len()
        &&& self.chord_done ==> self.frames@.len() == 0 && self.bi < self.blocks@.len()
        &&& forall|j: int|
            0 <= j < self.frames@.len() ==> (#[trigger] self.frames@[j]).idx
                <= self.frames@[j].events@.len() && self.frames@[j].remaining >= 1
    }

    /// The items this run still yields, in order, cut at the first exit.
    pub closed spec fn pending(self) -> Seq<RunItem> {
        cut_items(self.raw_pending())
    }

    /// The bookkeeping work this run still owes; every internal step with
    /// nothing to yield strictly reduces it.
    pub closed spec fn size(self) -> nat {
        frames_size(self.frames.deep_view()) + blocks_size(
            self.blocks.deep_view().skip(self.bi as int),
        )
    }

    /// The items this run still yields, before cutting at an exit.
    closed spec fn raw_pending(self) -> Seq<RunItem> {
        if self.done {
            seq![]
        } else {
            acts_items(frames_raw(self.frames.deep_view())) + (if self.bi < self.blocks@.len() {
                (if self.chord_done {
                    acts_items(expand_events(self.blocks.deep_view()[self.bi as int].events))
                } else {
                    block_items(self.blocks.deep_view()[self.bi as int])
                }) + blocks_items(self.blocks.deep_view().skip(self.bi + 1))
            } else {
                Seq::empty()
            })
        }
    }
}

proof fn lemma_cut_prepend(item: RunItem, rest: Seq<RunItem>)
    requires
        item != RunItem::Act(ActionModel::Exit),
    ensures
        cut_items(seq![item] + rest) == seq![item] + cut_items(rest),
{
    assert((seq![item] + rest)[0] == item);
    assert((seq![item] + rest).drop_first() =~= rest);
}

proof fn lemma_cut_exit(rest: Seq<RunItem>)
    ensures
        cut_items(seq![RunItem::Act(ActionModel::Exit)] + rest) == seq![
            RunItem::Act(ActionModel::Exit),
        ],
{
    assert((seq![RunItem::Act(ActionModel::Exit)] + rest)[0] == RunItem::Act(ActionModel::Exit));
}

proof fn lemma_acts_items_add(a: Seq<ActionModel>, b: Seq<ActionModel>)
    ensures
        acts_items(a + b) == acts_items(a) + acts_items(b),
{
    assert(acts_items(a + b) =~= acts_items(a) + acts_items(b));
}

proof fn lemma_events_size_at(evs: Seq<EventModel>, idx: int)
    requires
        0 <= idx < evs.len(),
    ensures
        events_size(evs.skip(idx)) == event_size(evs[idx]) + events_size(evs.skip(idx + 1)),
{
    assert(evs.skip(idx)[0] == evs[idx]);
    assert(evs.skip(idx).drop_first() =~= evs.skip(idx + 1));
}

proof fn lemma_expand_events_at(evs: Seq<EventModel>, idx: int)
    requires
        0 <= idx < evs.len(),
    ensures
        expand_events(evs.skip(idx)) == expand_event(evs[idx]) + expand_events(evs.skip(idx + 1)),
{
    assert(evs.skip(idx)[0] == evs[idx]);
    assert(evs.skip(idx).drop_first() =~= evs.skip(idx + 1));
}

impl Macro {
    /// Begins a run of this macro.  The returned interpreter yields, step by
    /// step, exactly the macro's schedule: every block in list order — its
    /// hotkey first, then its events' actions strictly in order — cut at
    /// the first exit action.
    pub fn run(&self) -> (r: MacroRun)
        ensures
            r.wf(),
            r.pending() == macro_items(self.deep_view().blocks),
    {
        let r = MacroRun {
            blocks: self.blocks.clone(),
            bi: 0,
            chord_done: false,
            frames: Vec::new(),
            done: false,
        };
        proof {
            assert(r.blocks.deep_view() =~= self.blocks.deep_view());
            assert(r.frames.deep_view() =~= Seq::<FrameModel>::empty());
            assert(acts_items(seq![]) =~= Seq::<RunItem>::empty());
            let bs = self.blocks.deep_view();
            if bs.len() == 0 {
                assert(r.raw_pending() =~= blocks_items(bs));
            } else {
                assert(bs.skip(1) =~= bs.drop_first());
                assert(r.raw_pending() =~= blocks_items(bs));
            }
        }
        r
    }
}

impl MacroRun {
    /// Yields the next item of the run: a hotkey to satisfy, one action
    /// to perform, an internal bookkeeping step, or the end of the run.  Over
    /// a whole run the hotkeys and actions yielded are exactly what was pending
    /// at the start, in order; an exit action ends the run with nothing left;
    /// a bookkeeping step leaves the schedule untouched and strictly reduces
    /// the bookkeeping work owed, so the run always makes progress.
    pub fn step(&mut self) -> (s: Step)
        requires
            old(self).wf(),
        ensures
            final(self).wf(),
            match s {
                Step::Done => old(self).pending() == Seq::<RunItem>::empty() && final(self).pending() == Seq::<RunItem>::empty(),
                Step::Wait(keys) => old(self).pending() == seq![RunItem::Chord(keys@)] + final(self).pending(),
                Step::Act(a) => old(self).pending() == seq![RunItem::Act(a.deep_view())] + final(self).pending() && (a is Exit ==> final(self).pending() == Seq::<RunItem>::empty()),
                Step::Nothing => old(self).pending() == final(self).pending() && final(self).size() < old(self).size(),
            },
    {
        if self.done {
            return Step::Done;
        }
        if self.frames.len() == 0 {
            proof {
                assert(self.frames.deep_view() =~= Seq::<FrameModel>::empty());
                assert(acts_items(seq![]) =~= Seq::<RunItem>::empty());
            }
            if self.bi == self.blocks.len() {
                self.done = true;
                proof {
                    assert(old(self).raw_pending() =~= Seq::<RunItem>::empty());
                }
                return Step::Done;
            }
            return self.step_enter_block();
        }
        self.step_frame()
    }

    /// Starts the next block: yields its hotkey when one is still owed, else
    /// moves its events onto the execution stack.
    #[verifier::rlimit(100)]
    #[verifier::spinoff_prover]
    fn step_enter_block(&mut self) -> (s: Step)
        requires
            old(self).wf(),
            !old(self).done,
            old(self).frames@.len() == 0,
            old(self).bi < old(self).blocks@.len(),
        ensures
            final(self).wf(),
            match s {
                Step::Done => old(self).pending() == Seq::<RunItem>::empty() && final(self).pending() == Seq::<RunItem>::empty(),
                Step::Wait(keys) => old(self).pending() == seq![RunItem::Chord(keys@)] + final(self).pending(),
                Step::Act(a) => old(self).pending() == seq![RunItem::Act(a.deep_view())] + final(self).pending() && (a is Exit ==> final(self).pending() == Seq::<RunItem>::empty()),
                Step::Nothing => old(self).pending() == final(self).pending() && final(self).size() < old(self).size(),
            },
    {
        proof {
            assert(self.frames.deep_view() =~= Seq::<FrameModel>::empty());
            assert(acts_items(seq![]) =~= Seq::<RunItem>::empty());
        }
            let ghost bs = self.blocks.deep_view();
            let ghost b = bs[self.bi as int];
            if !self.chord_done {
                let hotkey = match &self.blocks[self.bi].hotkey {
                    Some(keys) => {
                        let kc = keys.clone();
                        proof {
                            assert(kc@ =~= keys@);
                        }
                        Some(kc)
                    },
                    None => None,
                };
                match hotkey {
                    Some(kc) => {
                        self.chord_done = true;
                        proof {
                            assert(kc.deep_view() =~= kc@);
                            assert(b.hotkey == Some(kc@));
                            assert(old(self).raw_pending() =~= seq![RunItem::Chord(kc@)]
                                + self.raw_pending());
                            lemma_cut_prepend(RunItem::Chord(kc@), self.raw_pending());
                        }
                        return Step::Wait(kc);
                    },
                    None => {},
                }
            }
            let ghost was_chord_done = self.chord_done;
            let ghost bi0 = self.bi as int;
            let events = self.blocks[self.bi].events.clone();
            proof {
                assert(events.deep_view() =~= b.events);
            }
            let total = self.blocks.len();
            proof {
                assert(self.bi < total);
            }
            self.bi = self.bi + 1;
            self.chord_done = false;
            let nonempty = events.len() > 0;
            let ghost fm = FrameModel { events: events.deep_view(), idx: 0, remaining: 1 };
            if nonempty {
                let ghost fs0 = self.frames.deep_view();
                self.frames.push(Frame { events, idx: 0, remaining: 1 });
                proof {
                    assert forall|j: int| 0 <= j < self.frames@.len() implies self.frames.deep_view()[j]
                        == fs0.push(fm)[j] by {
                        assert(self.frames.deep_view()[j] == self.frames@[j].deep_view());
                    }
                    assert(self.frames.deep_view() =~= fs0.push(fm));
                    assert(self.frames.deep_view().drop_last() =~= fs0);
                }
            }
            proof {
                if nonempty {
                    assert(fm.events.skip(0) =~= fm.events);
                    assert(frame_raw(fm) =~= expand_events(b.events));
                    assert(frames_raw(self.frames.deep_view()) =~= frame_raw(fm) + frames_raw(
                        self.frames.deep_view().drop_last(),
                    ));
                    assert(frame_raw(fm) + frames_raw(self.frames.deep_view().drop_last())
                        =~= frame_raw(fm));
                    assert(frames_raw(self.frames.deep_view()) =~= expand_events(b.events));
                } else {
                    assert(b.events.len() == 0);
                    assert(frames_raw(self.frames.deep_view()) =~= expand_events(b.events));
                }
                if !was_chord_done {
                    assert(b.hotkey is None);
                    assert(block_items(b) =~= acts_items(expand_events(b.events)));
                }
                assert(bs.skip(bi0)[0] == bs[bi0]);
                assert(bs.skip(bi0).drop_first() =~= bs.skip(bi0 + 1));
                assert(blocks_size(bs.skip(bi0)) == events_size(b.events) + 2 + blocks_size(
                    bs.skip(bi0 + 1),
                ));
                if nonempty {
                    assert(frames_size(self.frames.deep_view()) == frame_size(fm) + frames_size(
                        self.frames.deep_view().drop_last(),
                    ));
                    assert(fm.events.skip(0) =~= fm.events);
                    assert((fm.remaining - 1) * (events_size(fm.events) + 1) == 0)
                        by (nonlinear_arith)
                        requires fm.remaining == 1;
                    assert(frame_size(fm) == events_size(b.events) + 1);
                } else {
                    assert(self.frames.deep_view() =~= Seq::<FrameModel>::empty());
                    assert(events_size(b.events) == 0);
                }
                assert(final(self).size() < old(self).size());
                let tail = bs.skip(bi0 + 1);
                if bi0 + 1 < bs.len() {
                    assert(tail[0] == bs[bi0 + 1]);
                    assert(tail.drop_first() =~= bs.skip(bi0 + 2));
                    assert(blocks_items(tail) == block_items(bs[bi0 + 1]) + blocks_items(
                        bs.skip(bi0 + 2),
                    ));
                } else {
                    assert(tail =~= Seq::<BlockModel>::empty());
                }
                assert(old(self).raw_pending() =~= self.raw_pending());
            }
            return Step::Nothing;
    }

    /// Works off the top execution frame: one primitive action, a loop
    /// entered or wound, or an exhausted frame discarded.
    fn step_frame(&mut self) -> (s: Step)
        requires
            old(self).wf(),
            !old(self).done,
            old(self).frames@.len() > 0,
        ensures
            final(self).wf(),
            match s {
                Step::Done => old(self).pending() == Seq::<RunItem>::empty() && final(self).pending() == Seq::<RunItem>::empty(),
                Step::Wait(keys) => old(self).pending() == seq![RunItem::Chord(keys@)] + final(self).pending(),
                Step::Act(a) => old(self).pending() == seq![RunItem::Act(a.deep_view())] + final(self).pending() && (a is Exit ==> final(self).pending() == Seq::<RunItem>::empty()),
                Step::Nothing => old(self).pending() == final(self).pending() && final(self).size() < old(self).size(),
            },
    {
        let fi = self.frames.len() - 1;
        if self.frames[fi].idx == self.frames[fi].events.len() {
            proof {
                assert(self.frames@.last() == self.frames@[fi as int]);
            }
            return self.step_wind_frame();
        }
        proof {
            assert(self.frames@.last() == self.frames@[fi as int]);
        }
        self.step_event()
    }

    /// Winds an exhausted frame: back to the list's start when a pass is
    /// still owed, else off the stack.
    #[verifier::rlimit(100)]
    #[verifier::spinoff_prover]
    fn step_wind_frame(&mut self) -> (s: Step)
        requires
            old(self).wf(),
            !old(self).done,
            old(self).frames@.len() > 0,
            old(self).frames@.last().idx == old(self).frames@.last().events@.len(),
        ensures
            final(self).wf(),
            match s {
                Step::Done => old(self).pending() == Seq::<RunItem>::empty() && final(self).pending() == Seq::<RunItem>::empty(),
                Step::Wait(keys) => old(self).pending() == seq![RunItem::Chord(keys@)] + final(self).pending(),
                Step::Act(a) => old(self).pending() == seq![RunItem::Act(a.deep_view())] + final(self).pending() && (a is Exit ==> final(self).pending() == Seq::<RunItem>::empty()),
                Step::Nothing => old(self).pending() == final(self).pending() && final(self).size() < old(self).size(),
            },
    {
        let ghost fs_old = self.frames.deep_view();
        let ghost top = fs_old.last();
        let mut f = match self.frames.pop() {
            Some(fr) => fr,
            None => {
                return Step::Nothing;
            },
        };
        proof {
            assert(self.frames.deep_view() =~= fs_old.drop_last());
            assert(f.deep_view() == top);
        }
        {
            proof {
                assert(top.events.skip(top.idx) =~= Seq::<EventModel>::empty());
            }
            if f.remaining > 1 {
                f.remaining = f.remaining - 1;
                f.idx = 0;
                let ghost fm = f.deep_view();
                let ghost fs1 = self.frames.deep_view();
                self.frames.push(f);
                proof {
                    assert forall|j: int| 0 <= j < self.frames@.len() implies self.frames.deep_view()[j]
                        == fs1.push(fm)[j] by {
                        assert(self.frames.deep_view()[j] == self.frames@[j].deep_view());
                    }
                    assert(self.frames.deep_view() =~= fs1.push(fm));
                    assert(self.frames.deep_view().drop_last() =~= fs1);
                    assert(fm.events.skip(0) =~= fm.events);
                    assert(frame_raw(top) =~= frame_raw(fm));
                    assert(old(self).raw_pending() =~= self.raw_pending());
                    let es = events_size(top.events) as int;
                    let r = top.remaining as int;
                    assert(events_size(top.events.skip(top.idx)) == 0);
                    assert((r - 1) * (es + 1) == (r - 2) * (es + 1) + (es + 1))
                        by (nonlinear_arith);
                    assert(frame_size(fm) < frame_size(top));
                    assert(final(self).size() < old(self).size());
                }
            } else {
                proof {
                    assert(frame_raw(top) =~= Seq::<ActionModel>::empty());
                    assert(frames_raw(fs_old) =~= frames_raw(self.frames.deep_view()));
                    assert(old(self).raw_pending() =~= self.raw_pending());
                    assert(events_size(top.events.skip(top.idx)) == 0);
                    assert(top.remaining == 1);
                    assert((top.remaining - 1) * (events_size(top.events) + 1) == 0)
                        by (nonlinear_arith)
                        requires top.remaining == 1;
                    assert(frame_size(top) == 1);
                    assert(frames_size(fs_old) == frame_size(top) + frames_size(
                        self.frames.deep_view(),
                    ));
                    assert(final(self).size() < old(self).size());
                }
            }
        }
        return Step::Nothing;
    }

    /// Performs the event the top frame stands at.
    #[verifier::rlimit(100)]
    #[verifier::spinoff_prover]
    fn step_event(&mut self) -> (s: Step)
        requires
            old(self).wf(),
            !old(self).done,
            old(self).frames@.len() > 0,
            old(self).frames@.last().idx < old(self).frames@.last().events@.len(),
        ensures
            final(self).wf(),
            match s {
                Step::Done => old(self).pending() == Seq::<RunItem>::empty() && final(self).pending() == Seq::<RunItem>::empty(),
                Step::Wait(keys) => old(self).pending() == seq![RunItem::Chord(keys@)] + final(self).pending(),
                Step::Act(a) => old(self).pending() == seq![RunItem::Act(a.deep_view())] + final(self).pending() && (a is Exit ==> final(self).pending() == Seq::<RunItem>::empty()),
                Step::Nothing => old(self).pending() == final(self).pending() && final(self).size() < old(self).size(),
            },
    {
        let ghost fs_old = self.frames.deep_view();
        let ghost top = fs_old.last();
        let mut f = match self.frames.pop() {
            Some(fr) => fr,
            None => {
                return Step::Nothing;
            },
        };
        proof {
            assert(self.frames.deep_view() =~= fs_old.drop_last());
            assert(f.deep_view() == top);
        }
        let elen = f.events.len();
        proof {
            assert(f.idx < elen);
        }
        let e = f.events[f.idx].clone();
        let ghost em = crate::macro_events::event_model(e);
        let ghost idx0 = f.idx as int;
        f.idx = f.idx + 1;
        proof {
            lemma_events_model(f.events@);
            lemma_expand_events_at(top.events, idx0);
            assert(em == top.events[idx0]);
        }
        match e {
            MacroEvent::ExitApp => {
                self.frames = Vec::new();
                self.done = true;
                proof {
                    assert(frame_raw(top) =~= seq![ActionModel::Exit] + (expand_events(
                        top.events.skip(idx0 + 1),
                    ) + repeat_actions(expand_events(top.events), (top.remaining - 1) as nat)));
                    lemma_acts_items_add(
                        seq![ActionModel::Exit],
                        expand_events(top.events.skip(idx0 + 1)) + repeat_actions(
                            expand_events(top.events),
                            (top.remaining - 1) as nat,
                        ),
                    );
                    lemma_acts_items_add(frame_raw(top), frames_raw(fs_old.drop_last()));
                    assert(acts_items(seq![ActionModel::Exit])
                        =~= seq![RunItem::Act(ActionModel::Exit)]);
                    assert(old(self).raw_pending() =~= seq![RunItem::Act(ActionModel::Exit)]
                        + (old(self).raw_pending().drop_first()));
                    lemma_cut_exit(old(self).raw_pending().drop_first());
                    assert(self.frames.deep_view() =~= Seq::<FrameModel>::empty());
                }
                return Step::Act(Action::Exit);
            },
            MacroEvent::Loop(l) => {
                let ghost fm = f.deep_view();
                let ghost fs1 = self.frames.deep_view();
                self.frames.push(f);
                proof {
                    assert forall|j: int| 0 <= j < self.frames@.len() implies self.frames.deep_view()[j]
                        == fs1.push(fm)[j] by {
                        assert(self.frames.deep_view()[j] == self.frames@[j].deep_view());
                    }
                    assert(self.frames.deep_view() =~= fs1.push(fm));
                    assert(self.frames.deep_view().drop_last() =~= fs1);
                }
                let ghost lm_events = l.events.deep_view();
                let ghost lcount = l.count;
                proof {
                    assert(em == EventModel::Loop(lcount, lm_events));
                }
                if l.count > 0 && l.events.len() > 0 {
                    let ghost gm = FrameModel { events: lm_events, idx: 0, remaining: lcount };
                    let ghost fs2 = self.frames.deep_view();
                    self.frames.push(Frame { events: l.events, idx: 0, remaining: l.count });
                    proof {
                        assert forall|j: int| 0 <= j < self.frames@.len() implies self.frames.deep_view()[j]
                            == fs2.push(gm)[j] by {
                            assert(self.frames.deep_view()[j] == self.frames@[j].deep_view());
                        }
                        assert(self.frames.deep_view() =~= fs2.push(gm));
                        assert(self.frames.deep_view().drop_last() =~= fs2);
                        assert(gm.events.skip(0) =~= gm.events);
                        assert(frame_raw(gm) =~= expand_events(lm_events) + repeat_actions(
                            expand_events(lm_events),
                            (lcount - 1) as nat,
                        ));
                        assert(expand_event(em) == repeat_actions(
                            expand_events(lm_events),
                            lcount as nat,
                        ));
                        assert(repeat_actions(expand_events(lm_events), lcount as nat)
                            == expand_events(lm_events) + repeat_actions(
                            expand_events(lm_events),
                            (lcount - 1) as nat,
                        ));
                        assert(frame_raw(top) =~= frame_raw(gm) + frame_raw(fm));
                        lemma_events_size_at(top.events, idx0);
                        assert(gm.events.skip(0) =~= gm.events);
                        let s = events_size(lm_events) as int;
                        let n = lcount as int;
                        assert(frame_size(gm) == s + (n - 1) * (s + 1) + 1);
                        assert(event_size(em) == 1 + (n + 1) * (s + 1));
                        assert(s + (n - 1) * (s + 1) + 1 < 1 + (n + 1) * (s + 1))
                            by (nonlinear_arith)
                            requires n >= 1 && s >= 0;
                        assert(frame_size(top) == event_size(em) + frame_size(fm));
                        assert(frame_size(gm) + frame_size(fm) < frame_size(top));
                        assert(frames_size(fs2) == frame_size(fm) + frames_size(fs1));
                        assert(frames_size(self.frames.deep_view()) == frame_size(gm) + (
                        frame_size(fm) + frames_size(fs1)));
                        assert(frames_size(fs_old) == frame_size(top) + frames_size(fs1));
                        assert(final(self).size() < old(self).size());
                        assert(fs_old.drop_last() == fs1);
                        assert(frames_raw(fs_old) =~= frame_raw(top) + frames_raw(fs1));
                        assert(frames_raw(fs2) =~= frame_raw(fm) + frames_raw(fs1));
                        assert(frames_raw(self.frames.deep_view()) =~= frame_raw(gm) + (
                        frame_raw(fm) + frames_raw(fs1)));
                        assert(frames_raw(fs_old) =~= frames_raw(self.frames.deep_view()));
                        assert(old(self).raw_pending() =~= self.raw_pending());
                    }
                } else {
                    proof {
                        lemma_events_model(l.events@);
                        assert(expand_event(em) =~= Seq::<ActionModel>::empty()) by {
                            if lcount == 0 {
                            } else {
                                assert(lm_events.len() == 0);
                                lemma_repeat_empty(lcount as nat);
                            }
                        }
                        assert(frame_raw(top) =~= frame_raw(fm));
                        assert(frames_raw(fs_old) =~= frame_raw(top) + frames_raw(fs1));
                        assert(frames_raw(self.frames.deep_view()) =~= frame_raw(fm) + frames_raw(
                            fs1,
                        ));
                        assert(old(self).raw_pending() =~= self.raw_pending());
                        lemma_events_size_at(top.events, idx0);
                        assert(event_size(em) >= 1);
                        assert(frame_size(top) == event_size(em) + frame_size(fm));
                        assert(frames_size(fs_old) == frame_size(top) + frames_size(fs1));
                        assert(frames_size(self.frames.deep_view()) == frame_size(fm)
                            + frames_size(fs1));
                        assert(final(self).size() < old(self).size());
                    }
                }
                return Step::Nothing;
            },
            _ => {
                let ghost fm = f.deep_view();
                let ghost fs1 = self.frames.deep_view();
                self.frames.push(f);
                proof {
                    assert forall|j: int| 0 <= j < self.frames@.len() implies self.frames.deep_view()[j]
                        == fs1.push(fm)[j] by {
                        assert(self.frames.deep_view()[j] == self.frames@[j].deep_view());
                    }
                    assert(self.frames.deep_view() =~= fs1.push(fm));
                    assert(self.frames.deep_view().drop_last() =~= fs1);
                }
                let a = match e {
                    MacroEvent::SleepMs(ms) => Action::Sleep(ms),
                    MacroEvent::Keybd(k) => Action::Key(k),
                    MacroEvent::MouseMove(m) => Action::MouseMove(m),
                    MacroEvent::MouseBtn(b) => Action::MouseButton(b),
                    MacroEvent::Run(cmd) => Action::RunProcess(cmd),
                    _ => Action::Sleep(0),
                };
                proof {
                    assert(expand_event(em) =~= seq![a.deep_view()]);
                    assert(frame_raw(top) =~= seq![a.deep_view()] + frame_raw(fm));
                    lemma_acts_items_add(frame_raw(top), frames_raw(fs_old.drop_last()));
                    lemma_acts_items_add(seq![a.deep_view()], frame_raw(fm));
                    lemma_acts_items_add(seq![a.deep_view()] + frame_raw(fm), frames_raw(fs1));
                    lemma_acts_items_add(frame_raw(fm), frames_raw(fs1));
                    assert(acts_items(seq![a.deep_view()]) =~= seq![RunItem::Act(a.deep_view())]);
                    assert(old(self).raw_pending() =~= seq![RunItem::Act(a.deep_view())]
                        + self.raw_pending());
                    assert(a.deep_view() != ActionModel::Exit);
                    lemma_cut_prepend(RunItem::Act(a.deep_view()), self.raw_pending());
                }
                return Step::Act(a);
            },
        }
    }
}

proof fn lemma_repeat_empty(n: nat)
    ensures
        repeat_actions(Seq::<ActionModel>::empty(), n) == Seq::<ActionModel>::empty(),
    decreases n,
{
    if n > 0 {
        lemma_repeat_empty((n - 1) as nat);
        assert(Seq::<ActionModel>::empty() + Seq::<ActionModel>::empty()
            =~= Seq::<ActionModel>::empty());
    }
}

/// Running a counted loop with a count of zero performs nothing at all: its
/// body expands to no actions, whatever it holds.
pub proof fn lemma_loop_zero_performs_nothing(evs: Seq<EventModel>)
    ensures
        expand_event(EventModel::Loop(0, evs)) == Seq::<ActionModel>::empty(),
{
}

/// An exit action halts the entire run: in a cut schedule it can stand only
/// as the very last item, so no later event, loop iteration or block follows
/// it.
pub proof fn lemma_exit_halts(items: Seq<RunItem>, i: int)
    requires
        0 <= i < cut_items(items).len(),
        cut_items(items)[i] == RunItem::Act(ActionModel::Exit),
    ensures
        i == cut_items(items).len() - 1,
    decreases items.len(),
{
    if items.len() == 0 {
    } else if items[0] == RunItem::Act(ActionModel::Exit) {
    } else {
        if i > 0 {
            lemma_exit_halts(items.drop_first(), i - 1);
        }
    }
}

/// An exit action anywhere in a macro's schedule is its last item.
pub proof fn lemma_exit_ends_macro(blocks: Seq<BlockModel>, i: int)
    requires
        0 <= i < macro_items(blocks).len(),
        macro_items(blocks)[i] == RunItem::Act(ActionModel::Exit),
    ensures
        i == macro_items(blocks).len() - 1,
{
    lemma_exit_halts(blocks_items(blocks), i);
}

/// The state of one hotkey wait: the key chord waited on, and which of its keys are
/// currently observed pressed.  The observed set is scoped to this one wait
/// and discarded once the wait completes.
pub struct HotkeyWait {
    chord: Vec<KeyCode>,
    pressed: Vec<KeyCode>,
}

impl HotkeyWait {
    /// The pressed list holds each hotkey key at most once, and nothing else.
    pub closed spec fn wf(self) -> bool {
        &&& self.pressed@.no_duplicates()
        &&& forall|i: int| 0 <= i < self.pressed@.len() ==> self.chord@.contains(
            #[trigger] self.pressed@[i],
        )
    }

    /// The hotkey being waited on.
    pub closed spec fn spec_chord(self) -> Seq<KeyCode> {
        self.chord@
    }

    /// The set of hotkey keys currently observed pressed.
    pub closed spec fn observed(self) -> Set<KeyCode> {
        self.pressed@.to_set()
    }

    /// Begins a wait on a hotkey, with nothing observed pressed yet.
    pub fn new(chord: Vec<KeyCode>) -> (r: Self)
        ensures
            r.wf(),
            r.spec_chord() == chord@,
            r.observed() == Set::<KeyCode>::empty(),
    {
        let r = HotkeyWait { chord, pressed: Vec::new() };
        proof {
            assert(r.pressed@.to_set() =~= Set::<KeyCode>::empty());
        }
        r
    }

    /// Whether a hotkey key is currently observed pressed.
    fn holds(&self, key: KeyCode) -> (r: bool)
        ensures
            r == self.observed().contains(key),
    {
        let mut i: usize = 0;
        while i < self.pressed.len()
            invariant
                i <= self.pressed@.len(),
                forall|j: int| 0 <= j < i ==> self.pressed@[j] != key,
            decreases self.pressed@.len() - i,
        {
            if self.pressed[i] == key {
                return true;
            }
            i = i + 1;
        }
        proof {
            assert(!self.pressed@.contains(key));
        }
        false
    }

    /// Feeds one sampled key state into the wait.  A hotkey key sampled down
    /// joins the observed set — idempotently, so a key that stays held is not
    /// re-added; a key sampled up leaves it.  Keys outside the hotkey change
    /// nothing.
    pub fn observe(&mut self, key: KeyCode, down: bool)
        requires
            old(self).wf(),
        ensures
            final(self).wf(),
            final(self).spec_chord() == old(self).spec_chord(),
            down && old(self).spec_chord().contains(key) ==> final(self).observed() == old(
                self,
            ).observed().insert(key),
            down && !old(self).spec_chord().contains(key) ==> final(self).observed() == old(
                self,
            ).observed(),
            !down ==> final(self).observed() == old(self).observed().remove(key),
    {
        if down {
            if self.holds(key) {
                proof {
                    assert(self.observed().insert(key) =~= self.observed());
                }
                return;
            }
            let mut in_chord = false;
            let mut i: usize = 0;
            while i < self.chord.len()
                invariant
                    i <= self.chord@.len(),
                    in_chord == exists|j: int| 0 <= j < i && self.chord@[j] == key,
                decreases self.chord@.len() - i,
            {
                if self.chord[i] == key {
                    in_chord = true;
                    proof {
                        assert(self.chord@[i as int] == key);
                    }
                    i = self.chord.len();
                } else {
                    i = i + 1;
                }
            }
            if in_chord {
                let ghost p0 = self.pressed@;
                self.pressed.push(key);
                proof {
                    assert(self.pressed@.drop_last() =~= p0);
                    assert forall|x: KeyCode| self.pressed@.to_set().contains(x) implies p0.to_set().insert(
                        key,
                    ).contains(x) by {
                        let j = choose|j: int|
                            0 <= j < self.pressed@.len() && self.pressed@[j] == x;
                        if j < p0.len() {
                            assert(p0[j] == x);
                        }
                    }
                    assert forall|x: KeyCode| p0.to_set().insert(key).contains(x) implies self.pressed@.to_set().contains(
                        x,
                    ) by {
                        if x == key {
                            assert(self.pressed@.last() == key);
                        } else {
                            let j = choose|j: int| 0 <= j < p0.len() && p0[j] == x;
                            assert(self.pressed@[j] == x);
                        }
                    }
                    assert(self.pressed@.to_set() =~= p0.to_set().insert(key));
                }
            } else {
                proof {
                    assert(!self.chord@.contains(key));
                }
            }
        } else {
            let mut i: usize = 0;
            while i < self.pressed.len()
                invariant
                    !down,
                    i <= self.pressed@.len(),
                    old(self).wf(),
                    self.pressed@ == old(self).pressed@,
                    self.chord@ == old(self).chord@,
                    forall|j: int| 0 <= j < i ==> self.pressed@[j] != key,
                decreases self.pressed@.len() - i,
            {
                if self.pressed[i] == key {
                    let ghost p0 = self.pressed@;
                    self.pressed.remove(i);
                    proof {
                        assert(p0.no_duplicates());
                        assert(self.pressed@ =~= p0.subrange(0, i as int) + p0.subrange(
                            i + 1,
                            p0.len() as int,
                        ));
                        assert forall|x: KeyCode| self.pressed@.to_set().contains(x) implies
                            p0.to_set().remove(key).contains(x) by {
                            let jx = choose|j: int|
                                0 <= j < self.pressed@.len() && self.pressed@[j] == x;
                            if jx < i {
                                assert(p0[jx] == x);
                            } else {
                                assert(p0[jx + 1] == x);
                            }
                        }
                        assert forall|x: KeyCode| p0.to_set().remove(key).contains(x) implies
                            self.pressed@.to_set().contains(x) by {
                            let jx = choose|j: int| 0 <= j < p0.len() && p0[j] == x;
                            if jx < i {
                                assert(self.pressed@[jx] == x);
                            } else {
                                assert(jx != i);
                                assert(self.pressed@[jx - 1] == x);
                            }
                        }
                        assert(self.pressed@.to_set() =~= p0.to_set().remove(key));
                        assert forall|a: int, b: int|
                            0 <= a < b < self.pressed@.len() implies self.pressed@[a]
                            != self.pressed@[b] by {
                            if b < i {
                            } else if a < i {
                                assert(self.pressed@[b] == p0[b + 1]);
                            } else {
                                assert(self.pressed@[a] == p0[a + 1]);
                                assert(self.pressed@[b] == p0[b + 1]);
                            }
                        }
                        assert(self.pressed@.no_duplicates());
                        assert forall|ii: int| 0 <= ii < self.pressed@.len() implies self.chord@.contains(
                            #[trigger] self.pressed@[ii],
                        ) by {
                            if ii < i {
                                assert(self.pressed@[ii] == p0[ii]);
                            } else {
                                assert(self.pressed@[ii] == p0[ii + 1]);
                            }
                        }
                    }
                    return;
                }
                i = i + 1;
            }
            proof {
                assert(!self.pressed@.contains(key));
                assert(!self.observed().contains(key));
                assert(self.observed().remove(key) =~= self.observed());
            }
        }
    }

    /// Whether the wait has completed: as many distinct hotkey keys are
    /// observed pressed as the hotkey lists keys.
    pub fn satisfied(&self) -> (r: bool)
        requires
            self.wf(),
        ensures
            r == (self.observed().len() == self.spec_chord().len()),
    {
        proof {
            self.pressed@.unique_seq_to_set();
        }
        self.pressed.len() == self.chord.len()
    }
}

/// A key that stays held does not re-trigger: once a key is observed
/// pressed, observing it pressed again leaves the wait exactly as it was.
pub proof fn lemma_held_key_observed_again(w: HotkeyWait, key: KeyCode)
    requires
        w.observed().contains(key),
    ensures
        w.observed().insert(key) == w.observed(),
{
    assert(w.observed().insert(key) =~= w.observed());
}

/// A hotkey wait on a chord of distinct keys completes exactly when every key
/// of the hotkey is observed pressed at the same time — and not before.
pub proof fn lemma_chord_completion(w: HotkeyWait)
    requires
        w.wf(),
        w.spec_chord().no_duplicates(),
    ensures
        (w.observed().len() == w.spec_chord().len()) <==> (forall|k: KeyCode|
            w.spec_chord().contains(k) ==> w.observed().contains(k)),
{
    broadcast use vstd::set_lib::group_set_lib_default, vstd::set::group_set_axioms;

    w.spec_chord().unique_seq_to_set();
    w.pressed@.unique_seq_to_set();
    let gset = w.spec_chord().to_set();
    let oset = w.observed();
    assert(oset.subset_of(gset)) by {
        assert forall|x: KeyCode| oset.contains(x) implies gset.contains(x) by {
            assert(w.pressed@.contains(x));
        }
    }
    vstd::set_lib::lemma_len_subset(oset, gset);
    if oset.len() == w.spec_chord().len() {
        vstd::set_lib::lemma_subset_equality(oset, gset);
        assert forall|k: KeyCode| w.spec_chord().contains(k) implies oset.contains(k) by {
            assert(gset.contains(k));
        }
    }
    if forall|k: KeyCode| w.spec_chord().contains(k) ==> oset.contains(k) {
        assert(gset.subset_of(oset)) by {
            assert forall|x: KeyCode| gset.contains(x) implies oset.contains(x) by {
                assert(w.spec_chord().contains(x));
            }
        }
        vstd::set_lib::lemma_len_subset(gset, oset);
    }
}

} // verus!
