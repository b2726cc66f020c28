//! A compiler and interpreter for a small line-oriented keyboard/mouse
//! automation language.
//!
//! Script lines (hotkey declarations, sleeps, key sends, mouse moves and
//! clicks, process launches, counted loops) are grouped into blocks,
//! recognized as functions, and lowered into a macro intermediate
//! representation: an ordered list of blocks, each with an optional hotkey
//! and an ordered list of events.  A step-wise execution engine walks
//! that representation; the driver performs each primitive action (key or
//! mouse injection, sleeping, launching a process) and polls physical key
//! state for hotkeys.

pub mod ahk;
pub mod codec;
pub mod engine;
pub mod keycodes;
pub mod macro_events;
pub mod macro_ir;
pub mod recorder;
pub mod text;
