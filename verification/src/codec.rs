//! The persisted encoding of the macro representation: a lossless structural
//! encoding into a flat word list, and its decoder.  Decoding an encoded
//! macro yields a structurally identical macro — the round-trip law
//! [`lemma_codec_round_trip`] — and the decoder rejects anything malformed.

use vstd::prelude::*;

use crate::keycodes::{KeyCode, KeyUpDown, KeyboardFlags, MouseFlags};
use crate::macro_events::{
    event_model, EventModel, KeyboardEvent, LoopEvent, MacroEvent, MouseButtonEvent,
    MouseMoveEvent,
};
use crate::macro_ir::{BlockModel, Macro, MacroBlock, MacroModel};

verus! {

broadcast use crate::macro_events::lemma_events_model_is_deep_view;

/// Relies on `char::from_u32`: the result is the character with the given
/// scalar value, and nothing when the value is a surrohotkey or past the
/// largest scalar.
pub assume_specification[ char::from_u32 ](u: u32) -> (r: Option<char>)
    ensures
        r is Some <==> vstd::utf8::is_scalar(u),
        r is Some ==> r->0 as u32 == u,
;

/// The encoding of a character list: its length, then one word per
/// character.
pub open spec fn enc_chars(s: Seq<char>) -> Seq<u64> {
    seq![s.len() as u64] + s.map_values(|c: char| (c as u32) as u64)
}

/// The encoding of a key list: its length, then one code per key.
pub open spec fn enc_keys(ks: Seq<KeyCode>) -> Seq<u64> {
    seq![ks.len() as u64] + ks.map_values(|k: KeyCode| k.spec_code() as u64)
}

/// An optional direction as two words.
pub open spec fn enc_ud(ud: Option<KeyUpDown>) -> Seq<u64> {
    match ud {
        None => seq![0u64, 0u64],
        Some(KeyUpDown::Down) => seq![1u64, 0u64],
        Some(KeyUpDown::Up) => seq![1u64, 1u64],
    }
}

/// A signed coordinate as a sign word and a magnitude word.
pub open spec fn enc_i32(v: int) -> Seq<u64> {
    if v < 0 {
        seq![1u64, (-v) as u64]
    } else {
        seq![0u64, v as u64]
    }
}

/// The encoding of one event, led by a tag word.
pub open spec fn enc_event(e: EventModel) -> Seq<u64>
    decreases e, 2int,
{
    match e {
        EventModel::SleepMs(ms) => seq![0u64, ms],
        EventModel::Keybd(k) => seq![1u64] + (match k.key {
            Some(kc) => seq![1u64, kc.spec_code() as u64],
            None => seq![0u64, 0u64],
        }) + enc_ud(k.key_up_down) + (match k.custom_flags {
            Some(f) => seq![1u64, f.spec_bits() as u64],
            None => seq![0u64, 0u64],
        }),
        EventModel::MouseMove(m) => seq![2u64] + enc_i32(m.x as int) + enc_i32(m.y as int) + seq![
            if m.absolute {
                1u64
            } else {
                0u64
            },
        ],
        EventModel::MouseBtn(b) => seq![3u64, b.flags.spec_bits() as u64] + enc_ud(b.up_down),
        EventModel::Run(cmd) => seq![4u64] + enc_chars(cmd),
        EventModel::Loop(count, evs) => seq![5u64, count as u64] + enc_events(evs),
        EventModel::ExitApp => seq![6u64],
    }
}

/// The encoding of an event list: its length, then each event in order.
pub open spec fn enc_events(evs: Seq<EventModel>) -> Seq<u64>
    decreases evs, 1int,
{
    seq![evs.len() as u64] + enc_list(evs)
}

/// The encodings of a list's events, concatenated in order.
pub open spec fn enc_list(evs: Seq<EventModel>) -> Seq<u64>
    decreases evs, 0int,
{
    if evs.len() == 0 {
        seq![]
    } else {
        enc_event(evs[0]) + enc_list(evs.drop_first())
    }
}

/// The encoding of one block: its optional hotkey, its running mark, and its
/// events.
pub open spec fn enc_block(b: BlockModel) -> Seq<u64> {
    (match b.hotkey {
        Some(ks) => seq![1u64] + enc_keys(ks),
        None => seq![0u64],
    }) + seq![
        if b.running {
            1u64
        } else {
            0u64
        },
    ] + enc_events(b.events)
}

/// The encodings of a list's blocks, concatenated in order.
pub open spec fn enc_block_list(bs: Seq<BlockModel>) -> Seq<u64>
    decreases bs.len(),
{
    if bs.len() == 0 {
        seq![]
    } else {
        enc_block(bs[0]) + enc_block_list(bs.drop_first())
    }
}

/// The encoding of a whole macro: its name, its block count, its blocks.
pub open spec fn enc_macro(m: MacroModel) -> Seq<u64> {
    enc_chars(m.name) + seq![m.blocks.len() as u64] + enc_block_list(m.blocks)
}

/// Whether an event's lists are short enough for their lengths to encode.
pub open spec fn event_bounded(e: EventModel) -> bool
    decreases e, 1int,
{
    match e {
        EventModel::Run(cmd) => cmd.len() <= u64::MAX,
        EventModel::Loop(count, evs) => events_bounded(evs),
        _ => true,
    }
}

/// Whether every event of a list, and the list itself, is short enough.
pub open spec fn events_bounded(evs: Seq<EventModel>) -> bool
    decreases evs, 0int,
{
    &&& evs.len() <= u64::MAX
    &&& (forall|i: int| 0 <= i < evs.len() ==> event_bounded(#[trigger] evs[i]))
}

/// Whether a block's lists are short enough for their lengths to encode.
pub open spec fn block_bounded(b: BlockModel) -> bool {
    &&& (match b.hotkey {
        Some(ks) => ks.len() <= u64::MAX,
        None => true,
    })
    &&& events_bounded(b.events)
}

/// Whether a macro's lists are short enough for their lengths to encode.
pub open spec fn macro_bounded(m: MacroModel) -> bool {
    &&& m.name.len() <= u64::MAX
    &&& m.blocks.len() <= u64::MAX
    &&& (forall|i: int| 0 <= i < m.blocks.len() ==> block_bounded(#[trigger] m.blocks[i]))
}

/// Whether a word holds a character's scalar value.
pub open spec fn word_is_char(w: u64) -> bool {
    w <= u32::MAX && vstd::utf8::is_scalar(w as u32)
}

/// The character a word holds.
pub open spec fn word_char(w: u64) -> char {
    (w as u32) as char
}

/// The decoded character list at a position: its characters and the position
/// after it.
pub open spec fn dec_chars(ws: Seq<u64>, i: int) -> Option<(Seq<char>, int)> {
    if !(0 <= i < ws.len()) {
        None
    } else {
        let n = ws[i] as int;
        if i + 1 + n > ws.len() {
            None
        } else if exists|j: int| 0 <= j < n && !word_is_char(#[trigger] ws[i + 1 + j]) {
            None
        } else {
            Some((Seq::new(n as nat, |j: int| word_char(ws[i + 1 + j])), i + 1 + n))
        }
    }
}

/// The decoded key list at a position.
pub open spec fn dec_keys(ws: Seq<u64>, i: int) -> Option<(Seq<KeyCode>, int)> {
    if !(0 <= i < ws.len()) {
        None
    } else {
        let n = ws[i] as int;
        if i + 1 + n > ws.len() {
            None
        } else if exists|j: int| 0 <= j < n && #[trigger] ws[i + 1 + j] > u32::MAX {
            None
        } else {
            Some(
                (
                    Seq::new(n as nat, |j: int| KeyCode::spec_from_code(ws[i + 1 + j] as u32)),
                    i + 1 + n,
                ),
            )
        }
    }
}

/// The decoded optional direction held in two words.
pub open spec fn dec_ud(f: u64, v: u64) -> Option<Option<KeyUpDown>> {
    if f == 0 && v == 0 {
        Some(None)
    } else if f == 1 && v == 0 {
        Some(Some(KeyUpDown::Down))
    } else if f == 1 && v == 1 {
        Some(Some(KeyUpDown::Up))
    } else {
        None
    }
}

/// The decoded signed coordinate held in two words.
pub open spec fn dec_i32(s: u64, m: u64) -> Option<int> {
    if s == 0 && m <= i32::MAX {
        Some(m as int)
    } else if s == 1 && 1 <= m <= 0x8000_0000 {
        Some(-(m as int))
    } else {
        None
    }
}

/// The decoded event at a position, given decoding fuel.
pub open spec fn dec_event(ws: Seq<u64>, i: int, fuel: nat) -> Option<(EventModel, int)>
    decreases fuel,
{
    if fuel == 0 || !(0 <= i < ws.len()) {
        None
    } else {
        let tag = ws[i];
        if tag == 0 {
            if i + 2 <= ws.len() {
                Some((EventModel::SleepMs(ws[i + 1]), i + 2))
            } else {
                None
            }
        } else if tag == 1 {
            if i + 7 <= ws.len() {
                let kf = ws[i + 1];
                let kv = ws[i + 2];
                let key: Option<Option<KeyCode>> = if kf == 0 && kv == 0 {
                    Some(None)
                } else if kf == 1 && kv <= u32::MAX {
                    Some(Some(KeyCode::spec_from_code(kv as u32)))
                } else {
                    None
                };
                let ud = dec_ud(ws[i + 3], ws[i + 4]);
                let ff = ws[i + 5];
                let fv = ws[i + 6];
                let fl: Option<Option<KeyboardFlags>> = if ff == 0 && fv == 0 {
                    Some(None)
                } else if ff == 1 && fv <= u16::MAX {
                    Some(Some(KeyboardFlags::spec_from_bits(fv as u16)))
                } else {
                    None
                };
                if key is Some && ud is Some && fl is Some {
                    Some(
                        (
                            EventModel::Keybd(
                                KeyboardEvent {
                                    key: key->0,
                                    key_up_down: ud->0,
                                    custom_flags: fl->0,
                                },
                            ),
                            i + 7,
                        ),
                    )
                } else {
                    None
                }
            } else {
                None
            }
        } else if tag == 2 {
            if i + 6 <= ws.len() {
                let x = dec_i32(ws[i + 1], ws[i + 2]);
                let y = dec_i32(ws[i + 3], ws[i + 4]);
                let ab = ws[i + 5];
                if x is Some && y is Some && ab <= 1 {
                    Some(
                        (
                            EventModel::MouseMove(
                                MouseMoveEvent {
                                    x: x->0 as i32,
                                    y: y->0 as i32,
                                    absolute: ab == 1,
                                },
                            ),
                            i + 6,
                        ),
                    )
                } else {
                    None
                }
            } else {
                None
            }
        } else if tag == 3 {
            if i + 4 <= ws.len() {
                let bits = ws[i + 1];
                let ud = dec_ud(ws[i + 2], ws[i + 3]);
                if bits <= u16::MAX && ud is Some {
                    Some(
                        (
                            EventModel::MouseBtn(
                                MouseButtonEvent {
                                    flags: MouseFlags::spec_from_bits(bits as u16),
                                    up_down: ud->0,
                                },
                            ),
                            i + 4,
                        ),
                    )
                } else {
                    None
                }
            } else {
                None
            }
        } else if tag == 4 {
            match dec_chars(ws, i + 1) {
                Some((s, j)) => Some((EventModel::Run(s), j)),
                None => None,
            }
        } else if tag == 5 {
            if i + 2 <= ws.len() && ws[i + 1] <= u32::MAX {
                match dec_events(ws, i + 2, (fuel - 1) as nat) {
                    Some((evs, j)) => Some((EventModel::Loop(ws[i + 1] as u32, evs), j)),
                    None => None,
                }
            } else {
                None
            }
        } else if tag == 6 {
            Some((EventModel::ExitApp, i + 1))
        } else {
            None
        }
    }
}

/// The decoded event list at a position: a count word, then that many events.
pub open spec fn dec_events(ws: Seq<u64>, i: int, fuel: nat) -> Option<(Seq<EventModel>, int)>
    decreases fuel,
{
    if fuel == 0 || !(0 <= i < ws.len()) {
        None
    } else {
        dec_evlist(ws, i + 1, ws[i], (fuel - 1) as nat)
    }
}

/// The decoded run of `n` events at a position.
pub open spec fn dec_evlist(ws: Seq<u64>, i: int, n: u64, fuel: nat) -> Option<
    (Seq<EventModel>, int),
>
    decreases fuel,
{
    if n == 0 {
        Some((seq![], i))
    } else if fuel == 0 {
        None
    } else {
        match dec_event(ws, i, (fuel - 1) as nat) {
            Some((e, j)) => match dec_evlist(ws, j, (n - 1) as u64, (fuel - 1) as nat) {
                Some((es, k)) => Some((seq![e] + es, k)),
                None => None,
            },
            None => None,
        }
    }
}

/// The decoded block at a position.
pub open spec fn dec_block(ws: Seq<u64>, i: int, fuel: nat) -> Option<(BlockModel, int)> {
    if !(0 <= i < ws.len()) {
        None
    } else {
        let hotkey: Option<(Option<Seq<KeyCode>>, int)> = if ws[i] == 0 {
            Some((None, i + 1))
        } else if ws[i] == 1 {
            match dec_keys(ws, i + 1) {
                Some((ks, j)) => Some((Some(ks), j)),
                None => None,
            }
        } else {
            None
        };
        match hotkey {
            Some((hotkey, j)) => {
                if 0 <= j < ws.len() && ws[j] <= 1 {
                    match dec_events(ws, j + 1, fuel) {
                        Some((evs, k)) => Some(
                            (BlockModel { hotkey, events: evs, running: ws[j] == 1 }, k),
                        ),
                        None => None,
                    }
                } else {
                    None
                }
            },
            None => None,
        }
    }
}

/// The decoded run of `n` blocks at a position.
pub open spec fn dec_blist(ws: Seq<u64>, i: int, n: u64, fuel: nat) -> Option<
    (Seq<BlockModel>, int),
>
    decreases n,
{
    if n == 0 {
        Some((seq![], i))
    } else {
        match dec_block(ws, i, fuel) {
            Some((b, j)) => match dec_blist(ws, j, (n - 1) as u64, fuel) {
                Some((bs, k)) => Some((seq![b] + bs, k)),
                None => None,
            },
            None => None,
        }
    }
}

/// The macro a word list decodes to: its name, then its blocks, consuming
/// the words exactly; anything malformed decodes to nothing.
pub open spec fn spec_decode(ws: Seq<u64>) -> Option<MacroModel> {
    match dec_chars(ws, 0) {
        Some((name, i)) => {
            if 0 <= i < ws.len() {
                match dec_blist(ws, i + 1, ws[i], (ws.len() + 2) as nat) {
                    Some((bs, j)) => {
                        if j == ws.len() {
                            Some(MacroModel { name, blocks: bs })
                        } else {
                            None
                        }
                    },
                    None => None,
                }
            } else {
                None
            }
        },
        None => None,
    }
}

proof fn lemma_enc_event_len(e: EventModel)
    ensures
        enc_event(e).len() >= 1,
{
}

proof fn lemma_dec_enc_chars(ws: Seq<u64>, i: int, s: Seq<char>)
    requires
        s.len() <= u64::MAX,
        0 <= i,
        i + enc_chars(s).len() <= ws.len(),
        ws.subrange(i, i + enc_chars(s).len()) == enc_chars(s),
    ensures
        dec_chars(ws, i) == Some((s, i + enc_chars(s).len())),
{
    broadcast use vstd::utf8::char_is_scalar, vstd::utf8::char_u32_cast;

    let e = enc_chars(s);
    let n = s.len() as int;
    assert(ws[i] == e[0]);
    assert(e[0] == s.len() as u64);
    assert forall|j: int| 0 <= j < n implies #[trigger] ws[i + 1 + j] == (s[j] as u32) as u64 by {
        assert(ws[i + 1 + j] == e[1 + j]);
        assert(e[1 + j] == s.map_values(|c: char| (c as u32) as u64)[j]);
    }
    assert forall|j: int| 0 <= j < n implies word_is_char(#[trigger] ws[i + 1 + j]) by {
        vstd::utf8::char_is_scalar(s[j]);
        assert(((s[j] as u32) as u64) as u32 == s[j] as u32);
    }
    let got = Seq::new(n as nat, |j: int| word_char(ws[i + 1 + j]));
    assert forall|j: int| 0 <= j < n implies got[j] == s[j] by {
        vstd::utf8::char_is_scalar(s[j]);
        assert(((s[j] as u32) as u64) as u32 == s[j] as u32);
        vstd::utf8::char_u32_cast(s[j], s[j] as u32);
    }
    assert(got =~= s);
}

proof fn lemma_dec_enc_keys(ws: Seq<u64>, i: int, ks: Seq<KeyCode>)
    requires
        ks.len() <= u64::MAX,
        0 <= i,
        i + enc_keys(ks).len() <= ws.len(),
        ws.subrange(i, i + enc_keys(ks).len()) == enc_keys(ks),
    ensures
        dec_keys(ws, i) == Some((ks, i + enc_keys(ks).len())),
{
    let e = enc_keys(ks);
    let n = ks.len() as int;
    assert(ws[i] == e[0]);
    assert forall|j: int| 0 <= j < n implies #[trigger] ws[i + 1 + j] == ks[j].spec_code()
        as u64 by {
        assert(ws[i + 1 + j] == e[1 + j]);
        assert(e[1 + j] == ks.map_values(|k: KeyCode| k.spec_code() as u64)[j]);
    }
    assert forall|j: int| 0 <= j < n implies #[trigger] ws[i + 1 + j] <= u32::MAX by {
        assert(ks[j].spec_code() <= 0xfe);
    }
    let got = Seq::new(n as nat, |j: int| KeyCode::spec_from_code(ws[i + 1 + j] as u32));
    assert forall|j: int| 0 <= j < n implies got[j] == ks[j] by {
        assert(ks[j].spec_code() <= 0xfe);
        assert((ks[j].spec_code() as u64) as u32 == ks[j].spec_code());
        crate::keycodes::lemma_code_round_trip(ks[j]);
    }
    assert(got =~= ks);
}

#[verifier::rlimit(100)]
#[verifier::spinoff_prover]
proof fn lemma_dec_enc_event(ws: Seq<u64>, i: int, e: EventModel, fuel: nat)
    requires
        event_bounded(e),
        0 <= i,
        i + enc_event(e).len() <= ws.len(),
        ws.subrange(i, i + enc_event(e).len()) == enc_event(e),
        fuel >= enc_event(e).len(),
    ensures
        dec_event(ws, i, fuel) == Some((e, i + enc_event(e).len())),
    decreases e, 2int,
{
    let enc = enc_event(e);
    let sub = ws.subrange(i, i + enc.len());
    assert forall|k: int| 0 <= k < enc.len() implies #[trigger] ws[i + k] == enc[k] by {
        assert(sub[k] == ws[i + k]);
    }
    assert(enc.len() >= 1);
    assert(sub[0] == ws[i]);
    match e {
        EventModel::SleepMs(ms) => {
            assert(ws[i] == 0u64);
            assert(ws[i + 1] == ms);
        },
        EventModel::Keybd(k) => {
            assert(ws[i] == 1u64);
            match k.key {
                Some(kc) => {
                    assert(ws[i + 1] == 1u64 && ws[i + 2] == kc.spec_code() as u64);
                    assert(kc.spec_code() <= 0xfe);
                    assert((kc.spec_code() as u64) as u32 == kc.spec_code());
                    crate::keycodes::lemma_code_round_trip(kc);
                },
                None => {
                    assert(ws[i + 1] == 0u64 && ws[i + 2] == 0u64);
                },
            }
            match k.key_up_down {
                Some(KeyUpDown::Down) => {
                    assert(ws[i + 3] == 1u64 && ws[i + 4] == 0u64);
                },
                Some(KeyUpDown::Up) => {
                    assert(ws[i + 3] == 1u64 && ws[i + 4] == 1u64);
                },
                None => {
                    assert(ws[i + 3] == 0u64 && ws[i + 4] == 0u64);
                },
            }
            match k.custom_flags {
                Some(f) => {
                    assert(ws[i + 5] == 1u64 && ws[i + 6] == f.spec_bits() as u64);
                    assert((f.spec_bits() as u64) as u16 == f.spec_bits());
                    crate::keycodes::lemma_keyboard_flags_round_trip(f);
                },
                None => {
                    assert(ws[i + 5] == 0u64 && ws[i + 6] == 0u64);
                },
            }
        },
        EventModel::MouseMove(m) => {
            assert(ws[i] == 2u64);
            if m.x < 0 {
                assert(ws[i + 1] == 1u64 && ws[i + 2] == (-(m.x as int)) as u64);
            } else {
                assert(ws[i + 1] == 0u64 && ws[i + 2] == m.x as u64);
            }
            if m.y < 0 {
                assert(ws[i + 3] == 1u64 && ws[i + 4] == (-(m.y as int)) as u64);
            } else {
                assert(ws[i + 3] == 0u64 && ws[i + 4] == m.y as u64);
            }
            assert(dec_i32(ws[i + 1], ws[i + 2]) == Some(m.x as int));
            assert(dec_i32(ws[i + 3], ws[i + 4]) == Some(m.y as int));
        },
        EventModel::MouseBtn(b) => {
            assert(ws[i] == 3u64);
            assert(ws[i + 1] == b.flags.spec_bits() as u64);
            assert((b.flags.spec_bits() as u64) as u16 == b.flags.spec_bits());
            crate::keycodes::lemma_mouse_flags_round_trip(b.flags);
            match b.up_down {
                Some(KeyUpDown::Down) => {
                    assert(ws[i + 2] == 1u64 && ws[i + 3] == 0u64);
                },
                Some(KeyUpDown::Up) => {
                    assert(ws[i + 2] == 1u64 && ws[i + 3] == 1u64);
                },
                None => {
                    assert(ws[i + 2] == 0u64 && ws[i + 3] == 0u64);
                },
            }
        },
        EventModel::Run(cmd) => {
            assert(ws[i] == 4u64);
            assert(ws.subrange(i + 1, i + 1 + enc_chars(cmd).len()) =~= enc_chars(cmd)) by {
                assert forall|k: int| 0 <= k < enc_chars(cmd).len() implies ws.subrange(
                    i + 1,
                    i + 1 + enc_chars(cmd).len(),
                )[k] == enc_chars(cmd)[k] by {
                    assert(ws[i + 1 + k] == enc[1 + k]);
                    assert(enc[1 + k] == enc_chars(cmd)[k]);
                }
            }
            lemma_dec_enc_chars(ws, i + 1, cmd);
        },
        EventModel::Loop(count, evs) => {
            assert(ws[i] == 5u64);
            assert(ws[i + 1] == count as u64);
            assert(ws.subrange(i + 2, i + 2 + enc_events(evs).len()) =~= enc_events(evs)) by {
                assert forall|k: int| 0 <= k < enc_events(evs).len() implies ws.subrange(
                    i + 2,
                    i + 2 + enc_events(evs).len(),
                )[k] == enc_events(evs)[k] by {
                    assert(ws[i + 2 + k] == enc[2 + k]);
                    assert(enc[2 + k] == enc_events(evs)[k]);
                }
            }
            lemma_dec_enc_events(ws, i + 2, evs, (fuel - 1) as nat);
        },
        EventModel::ExitApp => {
            assert(ws[i] == 6u64);
        },
    }
}

proof fn lemma_dec_enc_events(ws: Seq<u64>, i: int, evs: Seq<EventModel>, fuel: nat)
    requires
        events_bounded(evs),
        0 <= i,
        i + enc_events(evs).len() <= ws.len(),
        ws.subrange(i, i + enc_events(evs).len()) == enc_events(evs),
        fuel >= enc_events(evs).len() + 1,
    ensures
        dec_events(ws, i, fuel) == Some((evs, i + enc_events(evs).len())),
    decreases evs, 1int,
{
    let enc = enc_events(evs);
    assert(ws.subrange(i, i + enc.len())[0] == ws[i]);
    assert(ws[i] == enc[0]);
    assert(enc[0] == evs.len() as u64);
    assert(ws.subrange(i + 1, i + 1 + enc_list(evs).len()) =~= enc_list(evs)) by {
        assert forall|k: int| 0 <= k < enc_list(evs).len() implies ws.subrange(
            i + 1,
            i + 1 + enc_list(evs).len(),
        )[k] == enc_list(evs)[k] by {
            assert(ws.subrange(i, i + enc.len())[1 + k] == ws[i + 1 + k]);
            assert(enc[1 + k] == enc_list(evs)[k]);
        }
    }
    lemma_dec_enc_evlist(ws, i + 1, evs, (fuel - 1) as nat);
}

proof fn lemma_dec_enc_evlist(ws: Seq<u64>, i: int, evs: Seq<EventModel>, fuel: nat)
    requires
        evs.len() <= u64::MAX,
        forall|k: int| 0 <= k < evs.len() ==> event_bounded(#[trigger] evs[k]),
        0 <= i,
        i + enc_list(evs).len() <= ws.len(),
        ws.subrange(i, i + enc_list(evs).len()) == enc_list(evs),
        fuel >= enc_list(evs).len() + 1,
    ensures
        dec_evlist(ws, i, evs.len() as u64, fuel) == Some((evs, i + enc_list(evs).len())),
    decreases evs, 0int,
{
    if evs.len() == 0 {
    } else {
        let e0 = evs[0];
        let rest = evs.drop_first();
        let l0 = enc_event(e0).len() as int;
        lemma_enc_event_len(e0);
        assert(enc_list(evs) == enc_event(e0) + enc_list(rest));
        assert forall|k: int| 0 <= k < enc_list(evs).len() implies #[trigger] ws[i + k]
            == enc_list(evs)[k] by {
            assert(ws.subrange(i, i + enc_list(evs).len())[k] == ws[i + k]);
        }
        assert(ws.subrange(i, i + l0) =~= enc_event(e0)) by {
            assert forall|k: int| 0 <= k < l0 implies ws.subrange(i, i + l0)[k] == enc_event(
                e0,
            )[k] by {
                assert(ws[i + k] == enc_list(evs)[k]);
            }
        }
        lemma_dec_enc_event(ws, i, e0, (fuel - 1) as nat);
        assert(ws.subrange(i + l0, i + l0 + enc_list(rest).len()) =~= enc_list(rest)) by {
            assert forall|k: int| 0 <= k < enc_list(rest).len() implies ws.subrange(
                i + l0,
                i + l0 + enc_list(rest).len(),
            )[k] == enc_list(rest)[k] by {
                assert(ws[i + l0 + k] == enc_list(evs)[l0 + k]);
            }
        }
        assert forall|k: int| 0 <= k < rest.len() implies event_bounded(#[trigger] rest[k]) by {
            assert(rest[k] == evs[k + 1]);
        }
        lemma_dec_enc_evlist(ws, i + l0, rest, (fuel - 1) as nat);
        assert((evs.len() as u64 - 1) as u64 == rest.len() as u64);
        assert(seq![e0] + rest =~= evs);
    }
}

proof fn lemma_dec_enc_block(ws: Seq<u64>, i: int, b: BlockModel, fuel: nat)
    requires
        block_bounded(b),
        0 <= i,
        i + enc_block(b).len() <= ws.len(),
        ws.subrange(i, i + enc_block(b).len()) == enc_block(b),
        fuel >= enc_block(b).len() + 1,
    ensures
        dec_block(ws, i, fuel) == Some((b, i + enc_block(b).len())),
{
    let enc = enc_block(b);
    let sub = ws.subrange(i, i + enc.len());
    assert forall|k: int| 0 <= k < enc.len() implies #[trigger] ws[i + k] == enc[k] by {
        assert(sub[k] == ws[i + k]);
    }
    assert(sub[0] == ws[i]);
    match b.hotkey {
        Some(ks) => {
            assert(ws[i] == 1u64);
            assert(ws.subrange(i + 1, i + 1 + enc_keys(ks).len()) =~= enc_keys(ks)) by {
                assert forall|k: int| 0 <= k < enc_keys(ks).len() implies ws.subrange(
                    i + 1,
                    i + 1 + enc_keys(ks).len(),
                )[k] == enc_keys(ks)[k] by {
                    assert(ws[i + 1 + k] == enc[1 + k]);
                }
            }
            lemma_dec_enc_keys(ws, i + 1, ks);
            let j = i + 1 + enc_keys(ks).len() as int;
            assert(ws[j] == enc[1 + enc_keys(ks).len() as int]);
            assert(ws.subrange(j + 1, j + 1 + enc_events(b.events).len()) =~= enc_events(
                b.events,
            )) by {
                assert forall|k: int| 0 <= k < enc_events(b.events).len() implies ws.subrange(
                    j + 1,
                    j + 1 + enc_events(b.events).len(),
                )[k] == enc_events(b.events)[k] by {
                    assert(ws[j + 1 + k] == enc[2 + enc_keys(ks).len() as int + k]);
                }
            }
            lemma_dec_enc_events(ws, j + 1, b.events, fuel);
        },
        None => {
            assert(ws[i] == 0u64);
            assert(ws[i + 1] == enc[1]);
            assert(ws.subrange(i + 2, i + 2 + enc_events(b.events).len()) =~= enc_events(
                b.events,
            )) by {
                assert forall|k: int| 0 <= k < enc_events(b.events).len() implies ws.subrange(
                    i + 2,
                    i + 2 + enc_events(b.events).len(),
                )[k] == enc_events(b.events)[k] by {
                    assert(ws[i + 2 + k] == enc[2 + k]);
                }
            }
            lemma_dec_enc_events(ws, i + 2, b.events, fuel);
        },
    }
}

proof fn lemma_dec_enc_blist(ws: Seq<u64>, i: int, bs: Seq<BlockModel>, fuel: nat)
    requires
        bs.len() <= u64::MAX,
        forall|k: int| 0 <= k < bs.len() ==> block_bounded(#[trigger] bs[k]),
        0 <= i,
        i + enc_block_list(bs).len() <= ws.len(),
        ws.subrange(i, i + enc_block_list(bs).len()) == enc_block_list(bs),
        fuel >= enc_block_list(bs).len() + 1,
    ensures
        dec_blist(ws, i, bs.len() as u64, fuel) == Some((bs, i + enc_block_list(bs).len())),
    decreases bs.len(),
{
    if bs.len() == 0 {
    } else {
        let b0 = bs[0];
        let rest = bs.drop_first();
        let l0 = enc_block(b0).len() as int;
        assert(enc_block_list(bs) == enc_block(b0) + enc_block_list(rest));
        assert forall|k: int| 0 <= k < enc_block_list(bs).len() implies #[trigger] ws[i + k]
            == enc_block_list(bs)[k] by {
            assert(ws.subrange(i, i + enc_block_list(bs).len())[k] == ws[i + k]);
        }
        assert(ws.subrange(i, i + l0) =~= enc_block(b0)) by {
            assert forall|k: int| 0 <= k < l0 implies ws.subrange(i, i + l0)[k] == enc_block(
                b0,
            )[k] by {
                assert(ws[i + k] == enc_block_list(bs)[k]);
            }
        }
        lemma_dec_enc_block(ws, i, b0, fuel);
        assert(ws.subrange(i + l0, i + l0 + enc_block_list(rest).len()) =~= enc_block_list(
            rest,
        )) by {
            assert forall|k: int| 0 <= k < enc_block_list(rest).len() implies ws.subrange(
                i + l0,
                i + l0 + enc_block_list(rest).len(),
            )[k] == enc_block_list(rest)[k] by {
                assert(ws[i + l0 + k] == enc_block_list(bs)[l0 + k]);
            }
        }
        assert forall|k: int| 0 <= k < rest.len() implies block_bounded(#[trigger] rest[k]) by {
            assert(rest[k] == bs[k + 1]);
        }
        lemma_dec_enc_blist(ws, i + l0, rest, fuel);
        assert((bs.len() as u64 - 1) as u64 == rest.len() as u64);
        assert(seq![b0] + rest =~= bs);
    }
}

/// The round-trip law: decoding an encoded macro yields a structurally
/// identical macro, whatever its blocks and events hold.
pub proof fn lemma_codec_round_trip(m: MacroModel)
    requires
        macro_bounded(m),
    ensures
        spec_decode(enc_macro(m)) == Some(m),
{
    let ws = enc_macro(m);
    let lc = enc_chars(m.name).len() as int;
    assert(ws.subrange(0, lc) =~= enc_chars(m.name)) by {
        assert forall|k: int| 0 <= k < lc implies ws.subrange(0, lc)[k] == enc_chars(
            m.name,
        )[k] by {
            assert(ws[k] == enc_chars(m.name)[k]);
        }
    }
    lemma_dec_enc_chars(ws, 0, m.name);
    assert(ws[lc] == m.blocks.len() as u64);
    assert(ws.subrange(lc + 1, lc + 1 + enc_block_list(m.blocks).len()) =~= enc_block_list(
        m.blocks,
    )) by {
        assert forall|k: int| 0 <= k < enc_block_list(m.blocks).len() implies ws.subrange(
            lc + 1,
            lc + 1 + enc_block_list(m.blocks).len(),
        )[k] == enc_block_list(m.blocks)[k] by {
            assert(ws[lc + 1 + k] == (seq![m.blocks.len() as u64] + enc_block_list(m.blocks))[1
                + k]);
        }
    }
    lemma_dec_enc_blist(ws, lc + 1, m.blocks, (ws.len() + 2) as nat);
}

proof fn lemma_enc_list_snoc(evs: Seq<EventModel>, e: EventModel)
    ensures
        enc_list(evs.push(e)) == enc_list(evs) + enc_event(e),
    decreases evs.len(),
{
    if evs.len() == 0 {
        assert(evs.push(e)[0] == e);
        assert(evs.push(e).drop_first() =~= Seq::<EventModel>::empty());
        assert(enc_event(e) + enc_list(Seq::<EventModel>::empty()) =~= enc_event(e));
        assert(enc_list(evs) + enc_event(e) =~= enc_event(e));
    } else {
        lemma_enc_list_snoc(evs.drop_first(), e);
        assert(evs.push(e)[0] == evs[0]);
        assert(evs.push(e).drop_first() =~= evs.drop_first().push(e));
        assert(enc_event(evs[0]) + (enc_list(evs.drop_first()) + enc_event(e)) =~= (enc_event(
            evs[0],
        ) + enc_list(evs.drop_first())) + enc_event(e));
    }
}

proof fn lemma_enc_block_list_snoc(bs: Seq<BlockModel>, b: BlockModel)
    ensures
        enc_block_list(bs.push(b)) == enc_block_list(bs) + enc_block(b),
    decreases bs.len(),
{
    if bs.len() == 0 {
        assert(bs.push(b)[0] == b);
        assert(bs.push(b).drop_first() =~= Seq::<BlockModel>::empty());
        assert(enc_block(b) + enc_block_list(Seq::<BlockModel>::empty()) =~= enc_block(b));
        assert(enc_block_list(bs) + enc_block(b) =~= enc_block(b));
    } else {
        lemma_enc_block_list_snoc(bs.drop_first(), b);
        assert(bs.push(b)[0] == bs[0]);
        assert(bs.push(b).drop_first() =~= bs.drop_first().push(b));
        assert(enc_block(bs[0]) + (enc_block_list(bs.drop_first()) + enc_block(b)) =~= (enc_block(
            bs[0],
        ) + enc_block_list(bs.drop_first())) + enc_block(b));
    }
}

/// Appends the encoding of a character list.
fn encode_chars(s: &Vec<char>, out: &mut Vec<u64>)
    ensures
        final(out)@ == old(out)@ + enc_chars(s@),
{
    let ghost base = out@;
    out.push(s.len() as u64);
    let mut i: usize = 0;
    while i < s.len()
        invariant
            i <= s@.len(),
            out@ =~= base + seq![s@.len() as u64] + s@.subrange(0, i as int).map_values(
                |c: char| (c as u32) as u64,
            ),
        decreases s@.len() - i,
    {
        out.push((s[i] as u32) as u64);
        proof {
            assert(s@.subrange(0, i + 1).map_values(|c: char| (c as u32) as u64) =~= s@.subrange(
                0,
                i as int,
            ).map_values(|c: char| (c as u32) as u64).push((s@[i as int] as u32) as u64));
        }
        i = i + 1;
    }
    proof {
        assert(s@.subrange(0, s@.len() as int) =~= s@);
        assert(base + seq![s@.len() as u64] + s@.map_values(|c: char| (c as u32) as u64) =~= base
            + enc_chars(s@));
    }
}

/// Appends the encoding of a key list.
fn encode_keys(ks: &Vec<KeyCode>, out: &mut Vec<u64>)
    ensures
        final(out)@ == old(out)@ + enc_keys(ks@),
{
    let ghost base = out@;
    out.push(ks.len() as u64);
    let mut i: usize = 0;
    while i < ks.len()
        invariant
            i <= ks@.len(),
            out@ =~= base + seq![ks@.len() as u64] + ks@.subrange(0, i as int).map_values(
                |k: KeyCode| k.spec_code() as u64,
            ),
        decreases ks@.len() - i,
    {
        out.push(ks[i].code() as u64);
        proof {
            assert(ks@.subrange(0, i + 1).map_values(|k: KeyCode| k.spec_code() as u64)
                =~= ks@.subrange(0, i as int).map_values(|k: KeyCode| k.spec_code() as u64).push(
                ks@[i as int].spec_code() as u64,
            ));
        }
        i = i + 1;
    }
    proof {
        assert(ks@.subrange(0, ks@.len() as int) =~= ks@);
        assert(base + seq![ks@.len() as u64] + ks@.map_values(|k: KeyCode| k.spec_code() as u64)
            =~= base + enc_keys(ks@));
    }
}

/// Appends the two words of an optional direction.
fn encode_ud(ud: &Option<KeyUpDown>, out: &mut Vec<u64>)
    ensures
        final(out)@ == old(out)@ + enc_ud(*ud),
{
    let ghost base = out@;
    match ud {
        None => {
            out.push(0);
            out.push(0);
        },
        Some(KeyUpDown::Down) => {
            out.push(1);
            out.push(0);
        },
        Some(KeyUpDown::Up) => {
            out.push(1);
            out.push(1);
        },
    }
    proof {
        assert(out@ =~= base + enc_ud(*ud));
    }
}

/// Appends the two words of a signed coordinate.
fn encode_i32(v: i32, out: &mut Vec<u64>)
    ensures
        final(out)@ == old(out)@ + enc_i32(v as int),
{
    let ghost base = out@;
    if v < 0 {
        out.push(1);
        let mag: i64 = -(v as i64);
        out.push(mag as u64);
    } else {
        out.push(0);
        out.push(v as u64);
    }
    proof {
        assert(out@ =~= base + enc_i32(v as int));
    }
}

/// Appends the encoding of one event.
#[verifier::loop_isolation(false)]
#[verifier::rlimit(100)]
#[verifier::spinoff_prover]
fn encode_event(e: &MacroEvent, out: &mut Vec<u64>)
    ensures
        final(out)@ == old(out)@ + enc_event(event_model(*e)),
    decreases e,
{
    let ghost base = out@;
    match e {
        MacroEvent::SleepMs(ms) => {
            out.push(0);
            out.push(*ms);
            proof {
                assert(out@ =~= base + enc_event(event_model(*e)));
            }
        },
        MacroEvent::Keybd(k) => {
            out.push(1);
            match k.key {
                Some(kc) => {
                    out.push(1);
                    out.push(kc.code() as u64);
                },
                None => {
                    out.push(0);
                    out.push(0);
                },
            }
            encode_ud(&k.key_up_down, out);
            match k.custom_flags {
                Some(f) => {
                    out.push(1);
                    out.push(f.bits() as u64);
                },
                None => {
                    out.push(0);
                    out.push(0);
                },
            }
            proof {
                assert(out@ =~= base + enc_event(event_model(*e)));
            }
        },
        MacroEvent::MouseMove(m) => {
            out.push(2);
            encode_i32(m.x, out);
            encode_i32(m.y, out);
            out.push(
                if m.absolute {
                    1
                } else {
                    0
                },
            );
            proof {
                assert(out@ =~= base + enc_event(event_model(*e)));
            }
        },
        MacroEvent::MouseBtn(b) => {
            out.push(3);
            out.push(b.flags.bits() as u64);
            encode_ud(&b.up_down, out);
            proof {
                assert(out@ =~= base + enc_event(event_model(*e)));
            }
        },
        MacroEvent::Run(cmd) => {
            out.push(4);
            let cs = crate::text::string_to_chars(cmd.as_str());
            encode_chars(&cs, out);
            proof {
                assert(out@ =~= base + enc_event(event_model(*e)));
            }
        },
        MacroEvent::Loop(l) => {
            out.push(5);
            out.push(l.count as u64);
            out.push(l.events.len() as u64);
            let ghost evm = l.events.deep_view();
            let mut i: usize = 0;
            proof {
                assert(evm.subrange(0, 0) =~= Seq::<EventModel>::empty());
                assert(out@ =~= base + seq![5u64, l.count as u64, l.events@.len() as u64]
                    + enc_list(evm.subrange(0, 0)));
            }
            while i < l.events.len()
                invariant
                    i <= l.events@.len(),
                    out@ == base + seq![5u64, l.count as u64, l.events@.len() as u64] + enc_list(
                        evm.subrange(0, i as int),
                    ),
                decreases l.events@.len() - i,
            {
                encode_event(&l.events[i], out);
                proof {
                    lemma_events_model_index(l.events, i as int);
                    lemma_enc_list_snoc(evm.subrange(0, i as int), evm[i as int]);
                    assert(evm.subrange(0, i + 1) =~= evm.subrange(0, i as int).push(
                        evm[i as int],
                    ));
                    assert((base + seq![5u64, l.count as u64, l.events@.len() as u64] + enc_list(
                        evm.subrange(0, i as int),
                    )) + enc_event(evm[i as int]) =~= base + seq![
                        5u64,
                        l.count as u64,
                        l.events@.len() as u64,
                    ] + enc_list(evm.subrange(0, i + 1)));
                }
                i = i + 1;
            }
            proof {
                assert(evm.subrange(0, evm.len() as int) =~= evm);
                assert(event_model(*e) == EventModel::Loop(l.count, evm));
                assert(seq![5u64, l.count as u64, l.events@.len() as u64] + enc_list(evm)
                    =~= enc_event(event_model(*e)));
                assert(base + seq![5u64, l.count as u64, l.events@.len() as u64] + enc_list(evm)
                    =~= base + enc_event(event_model(*e)));
            }
        },
        MacroEvent::ExitApp => {
            out.push(6);
            proof {
                assert(out@ =~= base + enc_event(event_model(*e)));
            }
        },
    }
}

proof fn lemma_events_model_index(v: Vec<MacroEvent>, i: int)
    requires
        0 <= i < v@.len(),
    ensures
        v.deep_view().len() == v@.len(),
        v.deep_view()[i] == event_model(v@[i]),
{
    crate::macro_events::lemma_events_model(v@);
}

/// Appends the encoding of one block.
fn encode_block(b: &MacroBlock, out: &mut Vec<u64>)
    ensures
        final(out)@ == old(out)@ + enc_block(b.deep_view()),
{
    let ghost base = out@;
    match &b.hotkey {
        Some(ks) => {
            out.push(1);
            encode_keys(ks, out);
            proof {
                assert(ks.deep_view() =~= ks@);
            }
        },
        None => {
            out.push(0);
        },
    }
    out.push(
        if b.running {
            1
        } else {
            0
        },
    );
    let ghost mid = out@;
    out.push(b.events.len() as u64);
    let ghost evm = b.events.deep_view();
    let mut i: usize = 0;
    proof {
        assert(evm.subrange(0, 0) =~= Seq::<EventModel>::empty());
        assert(out@ =~= mid + seq![b.events@.len() as u64] + enc_list(evm.subrange(0, 0)));
    }
    while i < b.events.len()
        invariant
            i <= b.events@.len(),
            evm == b.events.deep_view(),
            evm.len() == b.events@.len(),
            out@ == mid + seq![b.events@.len() as u64] + enc_list(evm.subrange(0, i as int)),
        decreases b.events@.len() - i,
    {
        encode_event(&b.events[i], out);
        proof {
            lemma_events_model_index(b.events, i as int);
            lemma_enc_list_snoc(evm.subrange(0, i as int), evm[i as int]);
            assert(evm.subrange(0, i + 1) =~= evm.subrange(0, i as int).push(evm[i as int]));
            assert((mid + seq![b.events@.len() as u64] + enc_list(evm.subrange(0, i as int)))
                + enc_event(evm[i as int]) =~= mid + seq![b.events@.len() as u64] + enc_list(
                evm.subrange(0, i + 1),
            ));
        }
        i = i + 1;
    }
    proof {
        assert(evm.subrange(0, evm.len() as int) =~= evm);
        assert(out@ =~= base + enc_block(b.deep_view()));
    }
}

impl Macro {
    /// The persisted encoding of this macro: a lossless structural encoding
    /// of its name, blocks and events.
    pub fn encode(&self) -> (r: Vec<u64>)
        ensures
            r@ == enc_macro(self.deep_view()),
    {
        let mut out: Vec<u64> = Vec::new();
        let name = crate::text::string_to_chars(self.name.as_str());
        encode_chars(&name, &mut out);
        let ghost mid = out@;
        out.push(self.blocks.len() as u64);
        let ghost bm = self.blocks.deep_view();
        let mut i: usize = 0;
        proof {
            assert(bm.subrange(0, 0) =~= Seq::<BlockModel>::empty());
            assert(out@ =~= mid + seq![self.blocks@.len() as u64] + enc_block_list(
                bm.subrange(0, 0),
            ));
        }
        while i < self.blocks.len()
            invariant
                i <= self.blocks@.len(),
                bm == self.blocks.deep_view(),
                bm.len() == self.blocks@.len(),
                out@ == mid + seq![self.blocks@.len() as u64] + enc_block_list(
                    bm.subrange(0, i as int),
                ),
            decreases self.blocks@.len() - i,
        {
            encode_block(&self.blocks[i], &mut out);
            proof {
                assert(bm[i as int] == self.blocks@[i as int].deep_view());
                lemma_enc_block_list_snoc(bm.subrange(0, i as int), bm[i as int]);
                assert(bm.subrange(0, i + 1) =~= bm.subrange(0, i as int).push(bm[i as int]));
                assert((mid + seq![self.blocks@.len() as u64] + enc_block_list(
                    bm.subrange(0, i as int),
                )) + enc_block(bm[i as int]) =~= mid + seq![self.blocks@.len() as u64]
                    + enc_block_list(bm.subrange(0, i + 1)));
            }
            i = i + 1;
        }
        proof {
            assert(bm.subrange(0, bm.len() as int) =~= bm);
            assert(out@ =~= enc_macro(self.deep_view()));
        }
        out
    }
}

/// Reads back a character list.
fn decode_chars(w: &Vec<u64>, i: usize) -> (r: Option<(Vec<char>, usize)>)
    ensures
        r is Some <==> dec_chars(w@, i as int) is Some,
        r is Some ==> (r->0).0@ == (dec_chars(w@, i as int)->0).0 && (r->0).1 as int == (dec_chars(
            w@,
            i as int,
        )->0).1,
{
    if i >= w.len() {
        return None;
    }
    let n64 = w[i];
    let avail = w.len() - (i + 1);
    if n64 > avail as u64 {
        return None;
    }
    let n = n64 as usize;
    let mut v: Vec<char> = Vec::new();
    let mut j: usize = 0;
    while j < n
        invariant
            j <= n,
            i < w@.len(),
            n64 == w@[i as int],
            n == n64 as int,
            i + 1 + n <= w@.len(),
            w@.len() <= usize::MAX,
            v@.len() == j,
            forall|m: int| 0 <= m < j ==> word_is_char(#[trigger] w@[i + 1 + m]),
            forall|m: int| 0 <= m < j ==> v@[m] == word_char(w@[i + 1 + m]),
        decreases n - j,
    {
        let word = w[i + 1 + j];
        if word > 0xffff_ffff {
            proof {
                assert(!word_is_char(w@[i as int + 1 + j as int]));
            }
            return None;
        }
        match char::from_u32(word as u32) {
            Some(c) => {
                proof {
                    vstd::utf8::char_u32_cast(c, word as u32);
                }
                v.push(c);
            },
            None => {
                proof {
                    assert(!word_is_char(w@[i as int + 1 + j as int]));
                }
                return None;
            },
        }
        j = j + 1;
    }
    proof {
        assert(v@ =~= Seq::new(n64 as nat, |m: int| word_char(w@[i + 1 + m])));
    }
    Some((v, i + 1 + n))
}

/// Reads back a key list.
fn decode_keys(w: &Vec<u64>, i: usize) -> (r: Option<(Vec<KeyCode>, usize)>)
    ensures
        r is Some <==> dec_keys(w@, i as int) is Some,
        r is Some ==> (r->0).0@ == (dec_keys(w@, i as int)->0).0 && (r->0).1 as int == (dec_keys(
            w@,
            i as int,
        )->0).1,
{
    if i >= w.len() {
        return None;
    }
    let n64 = w[i];
    let avail = w.len() - (i + 1);
    if n64 > avail as u64 {
        return None;
    }
    let n = n64 as usize;
    let mut v: Vec<KeyCode> = Vec::new();
    let mut j: usize = 0;
    while j < n
        invariant
            j <= n,
            i < w@.len(),
            n64 == w@[i as int],
            n == n64 as int,
            i + 1 + n <= w@.len(),
            w@.len() <= usize::MAX,
            v@.len() == j,
            forall|m: int| 0 <= m < j ==> #[trigger] w@[i + 1 + m] <= u32::MAX,
            forall|m: int|
                0 <= m < j ==> v@[m] == KeyCode::spec_from_code(w@[i + 1 + m] as u32),
        decreases n - j,
    {
        let word = w[i + 1 + j];
        if word > 0xffff_ffff {
            proof {
                assert(w@[i as int + 1 + j as int] > u32::MAX);
            }
            return None;
        }
        v.push(KeyCode::from_code(word as u32));
        j = j + 1;
    }
    proof {
        assert(v@ =~= Seq::new(
            n64 as nat,
            |m: int| KeyCode::spec_from_code(w@[i + 1 + m] as u32),
        ));
    }
    Some((v, i + 1 + n))
}

/// Reads back an optional direction from two words.
fn decode_ud(f: u64, v: u64) -> (r: Option<Option<KeyUpDown>>)
    ensures
        r == dec_ud(f, v),
{
    if f == 0 && v == 0 {
        Some(None)
    } else if f == 1 && v == 0 {
        Some(Some(KeyUpDown::Down))
    } else if f == 1 && v == 1 {
        Some(Some(KeyUpDown::Up))
    } else {
        None
    }
}

/// Reads back a signed coordinate from two words.
fn decode_i32(s: u64, m: u64) -> (r: Option<i32>)
    ensures
        r is Some <==> dec_i32(s, m) is Some,
        r is Some ==> r->0 as int == dec_i32(s, m)->0,
{
    if s == 0 && m <= 0x7fff_ffff {
        Some(m as i32)
    } else if s == 1 && 1 <= m && m <= 0x8000_0000 {
        let neg: i64 = -(m as i64);
        Some(neg as i32)
    } else {
        None
    }
}

/// Reads back one event.
fn decode_event(w: &Vec<u64>, i: usize, fuel: u128) -> (r: Option<(MacroEvent, usize)>)
    ensures
        r is Some <==> dec_event(w@, i as int, fuel as nat) is Some,
        r is Some ==> event_model((r->0).0) == (dec_event(w@, i as int, fuel as nat)->0).0 && (r->0).1
            as int == (dec_event(w@, i as int, fuel as nat)->0).1,
    decreases fuel,
{
    if fuel == 0 || i >= w.len() {
        return None;
    }
    let tag = w[i];
    if tag == 0 {
        if w.len() - i >= 2 {
            Some((MacroEvent::SleepMs(w[i + 1]), i + 2))
        } else {
            None
        }
    } else if tag == 1 {
        if w.len() - i >= 7 {
            let kf = w[i + 1];
            let kv = w[i + 2];
            let key: Option<KeyCode> = if kf == 0 && kv == 0 {
                None
            } else if kf == 1 && kv <= 0xffff_ffff {
                Some(KeyCode::from_code(kv as u32))
            } else {
                return None;
            };
            let ud = match decode_ud(w[i + 3], w[i + 4]) {
                Some(u) => u,
                None => {
                    return None;
                },
            };
            let ff = w[i + 5];
            let fv = w[i + 6];
            let fl: Option<KeyboardFlags> = if ff == 0 && fv == 0 {
                None
            } else if ff == 1 && fv <= 0xffff {
                Some(KeyboardFlags::from_bits(fv as u16))
            } else {
                return None;
            };
            Some(
                (
                    MacroEvent::Keybd(
                        KeyboardEvent { key, key_up_down: ud, custom_flags: fl },
                    ),
                    i + 7,
                ),
            )
        } else {
            None
        }
    } else if tag == 2 {
        if w.len() - i >= 6 {
            let x = match decode_i32(w[i + 1], w[i + 2]) {
                Some(v) => v,
                None => {
                    return None;
                },
            };
            let y = match decode_i32(w[i + 3], w[i + 4]) {
                Some(v) => v,
                None => {
                    return None;
                },
            };
            let ab = w[i + 5];
            if ab <= 1 {
                Some((MacroEvent::MouseMove(MouseMoveEvent { x, y, absolute: ab == 1 }), i + 6))
            } else {
                None
            }
        } else {
            None
        }
    } else if tag == 3 {
        if w.len() - i >= 4 {
            let bits = w[i + 1];
            let ud = match decode_ud(w[i + 2], w[i + 3]) {
                Some(u) => u,
                None => {
                    return None;
                },
            };
            if bits <= 0xffff {
                Some(
                    (
                        MacroEvent::MouseBtn(
                            MouseButtonEvent {
                                flags: MouseFlags::from_bits(bits as u16),
                                up_down: ud,
                            },
                        ),
                        i + 4,
                    ),
                )
            } else {
                None
            }
        } else {
            None
        }
    } else if tag == 4 {
        match decode_chars(w, i + 1) {
            Some((s, j)) => Some((MacroEvent::Run(crate::text::chars_to_string(&s)), j)),
            None => None,
        }
    } else if tag == 5 {
        if w.len() - i >= 2 && w[i + 1] <= 0xffff_ffff {
            match decode_events(w, i + 2, fuel - 1) {
                Some((evs, j)) => Some(
                    (MacroEvent::Loop(LoopEvent { count: w[i + 1] as u32, events: evs }), j),
                ),
                None => None,
            }
        } else {
            None
        }
    } else if tag == 6 {
        Some((MacroEvent::ExitApp, i + 1))
    } else {
        None
    }
}

/// Reads back an event list: a count word, then that many events.
fn decode_events(w: &Vec<u64>, i: usize, fuel: u128) -> (r: Option<(Vec<MacroEvent>, usize)>)
    ensures
        r is Some <==> dec_events(w@, i as int, fuel as nat) is Some,
        r is Some ==> (r->0).0.deep_view() == (dec_events(w@, i as int, fuel as nat)->0).0 && (r->0).1
            as int == (dec_events(w@, i as int, fuel as nat)->0).1,
    decreases fuel,
{
    if fuel == 0 || i >= w.len() {
        return None;
    }
    decode_evlist(w, i + 1, w[i], fuel - 1)
}

/// Reads back a run of `n` events.
fn decode_evlist(w: &Vec<u64>, i: usize, n: u64, fuel: u128) -> (r: Option<
    (Vec<MacroEvent>, usize),
>)
    ensures
        r is Some <==> dec_evlist(w@, i as int, n, fuel as nat) is Some,
        r is Some ==> (r->0).0.deep_view() == (dec_evlist(w@, i as int, n, fuel as nat)->0).0 && (r->0).1
            as int == (dec_evlist(w@, i as int, n, fuel as nat)->0).1,
    decreases fuel,
{
    if n == 0 {
        let v: Vec<MacroEvent> = Vec::new();
        proof {
            assert(v.deep_view() =~= Seq::<EventModel>::empty());
        }
        return Some((v, i));
    }
    if fuel == 0 {
        return None;
    }
    match decode_event(w, i, fuel - 1) {
        Some((e, j)) => {
            match decode_evlist(w, j, n - 1, fuel - 1) {
                Some((mut es, k)) => {
                    let ghost esm = es.deep_view();
                    es.insert(0, e);
                    proof {
                        assert forall|m: int| 0 <= m < es@.len() implies es.deep_view()[m] == (
                        seq![event_model(e)] + esm)[m] by {
                            assert(es.deep_view()[m] == es@[m].deep_view());
                        }
                        assert(es.deep_view() =~= seq![event_model(e)] + esm);
                    }
                    Some((es, k))
                },
                None => None,
            }
        },
        None => None,
    }
}


/// Reads back one block.
fn decode_block(w: &Vec<u64>, i: usize, fuel: u128) -> (r: Option<(MacroBlock, usize)>)
    ensures
        r is Some <==> dec_block(w@, i as int, fuel as nat) is Some,
        r is Some ==> (r->0).0.deep_view() == (dec_block(w@, i as int, fuel as nat)->0).0 && (r->0).1
            as int == (dec_block(w@, i as int, fuel as nat)->0).1,
{
    if i >= w.len() {
        return None;
    }
    let (hotkey, j) = if w[i] == 0 {
        (None, i + 1)
    } else if w[i] == 1 {
        match decode_keys(w, i + 1) {
            Some((ks, j)) => (Some(ks), j),
            None => {
                return None;
            },
        }
    } else {
        return None;
    };
    if j >= w.len() || w[j] > 1 {
        return None;
    }
    let running = w[j] == 1;
    match decode_events(w, j + 1, fuel) {
        Some((evs, k)) => {
            let b = MacroBlock { hotkey, events: evs, running };
            proof {
                if b.hotkey is Some {
                    assert(b.hotkey->0.deep_view() =~= b.hotkey->0@);
                }
            }
            Some((b, k))
        },
        None => None,
    }
}

/// Reads back a run of `n` blocks.
fn decode_blist(w: &Vec<u64>, i: usize, n: u64, fuel: u128) -> (r: Option<
    (Vec<MacroBlock>, usize),
>)
    ensures
        r is Some <==> dec_blist(w@, i as int, n, fuel as nat) is Some,
        r is Some ==> (r->0).0.deep_view() == (dec_blist(w@, i as int, n, fuel as nat)->0).0 && (r->0).1
            as int == (dec_blist(w@, i as int, n, fuel as nat)->0).1,
    decreases n,
{
    if n == 0 {
        let v: Vec<MacroBlock> = Vec::new();
        proof {
            assert(v.deep_view() =~= Seq::<BlockModel>::empty());
        }
        return Some((v, i));
    }
    match decode_block(w, i, fuel) {
        Some((b, j)) => {
            match decode_blist(w, j, n - 1, fuel) {
                Some((mut bs, k)) => {
                    let ghost bsm = bs.deep_view();
                    let ghost bm = b.deep_view();
                    bs.insert(0, b);
                    proof {
                        assert forall|m: int| 0 <= m < bs@.len() implies bs.deep_view()[m] == (
                        seq![bm] + bsm)[m] by {
                            assert(bs.deep_view()[m] == bs@[m].deep_view());
                        }
                        assert(bs.deep_view() =~= seq![bm] + bsm);
                    }
                    Some((bs, k))
                },
                None => None,
            }
        },
        None => None,
    }
}

impl Macro {
    /// Reads a macro back from its persisted encoding; anything malformed,
    /// or trailing words, reads as nothing.
    pub fn decode(w: &Vec<u64>) -> (r: Option<Macro>)
        ensures
            r is Some <==> spec_decode(w@) is Some,
            r is Some ==> r->0.deep_view() == spec_decode(w@)->0,
    {
        let (name, i) = match decode_chars(w, 0) {
            Some(p) => p,
            None => {
                return None;
            },
        };
        if i >= w.len() {
            return None;
        }
        let fuel: u128 = (w.len() as u128) + 2;
        match decode_blist(w, i + 1, w[i], fuel) {
            Some((bs, j)) => {
                if j == w.len() {
                    Some(Macro { name: crate::text::chars_to_string(&name), blocks: bs })
                } else {
                    None
                }
            },
            None => None,
        }
    }
}

} // verus!
