//! The script front end: the line reader, the block compiler that groups
//! directives into blocks, the recognizer that maps each line to a function
//! kind with positional arguments, and the lowering of compiled blocks into
//! the macro intermediate representation.
//!
//! An unrecognized directive or native-call target is non-fatal: a diagnostic
//! is recorded and compilation continues.  A malformed numeric argument or an
//! unresolvable key token is fatal: compilation aborts with an error and no
//! partial representation is produced.

use vstd::prelude::*;

use crate::keycodes::KeyCode;
use crate::macro_events::{EventModel, KeyboardEvent, LoopEvent, MacroEvent, MouseButtonEvent, MouseMoveEvent};
use crate::macro_ir::{BlockModel, Macro, MacroBlock, MacroModel};
use crate::text::{
    all_digits, bool_to_chars, chars_eq_str, chars_to_string, contains_str, dec_signed, digits_val,
    i32_to_chars, is_signed_digits, join_chars, join_with, lower, lower_chars, parse_bool_chars,
    parse_i32_chars, parse_u16_chars, parse_u32_chars, parse_u64_chars, signed_val, slice_chars,
    spec_trim, split_char, split_char_chars, split_list, split_list_chars, split_whitespace_chars,
    split_ws, string_to_chars, trim_chars, upper, upper_chars, TrimSet,
};

verus! {

broadcast use crate::text::lemma_charvec_deep;

/// The function kinds the recognizer knows.
#[derive(Copy, Clone, Debug, PartialEq, Eq, Structural)]
pub enum AhkFunctions {
    Hotkey,
    Send,
    Sleep,
    Click,
    MouseMove,
    DllCall,
    ExitApp,
    Loop,
    Run,
}

/// One recognized line: a function kind with its positional arguments and any
/// special directives a hotkey declaration carried.
#[derive(Debug, PartialEq, Eq)]
pub struct AhkFunction {
    pub func: Option<AhkFunctions>,
    pub args: Vec<String>,
    pub special_args: Vec<String>,
}

/// A source-level grouping of directives, delimited by loop openers, braces,
/// and hotkey declarations; the condition holds the block's hotkey or loop
/// declaration, never both.
#[derive(Debug, PartialEq, Eq)]
pub struct AhkBlock {
    pub condition: Option<AhkFunction>,
    pub functions: Vec<AhkFunction>,
}

/// A script and its compiled blocks.
#[derive(Debug, PartialEq, Eq)]
pub struct AhkFile {
    pub path: String,
    pub blocks: Vec<AhkBlock>,
}

/// The mathematical model of an [`AhkFunction`].
pub struct FunctionModel {
    pub func: Option<AhkFunctions>,
    pub args: Seq<Seq<char>>,
    pub special_args: Seq<Seq<char>>,
}

/// The mathematical model of an [`AhkBlock`].
pub struct AhkBlockModel {
    pub condition: Option<FunctionModel>,
    pub functions: Seq<FunctionModel>,
}

impl DeepView for AhkFunction {
    type V = FunctionModel;

    open spec fn deep_view(&self) -> FunctionModel {
        FunctionModel {
            func: self.func,
            args: self.args.deep_view(),
            special_args: self.special_args.deep_view(),
        }
    }
}

impl DeepView for AhkBlock {
    type V = AhkBlockModel;

    open spec fn deep_view(&self) -> AhkBlockModel {
        AhkBlockModel {
            condition: match self.condition {
                Some(f) => Some(f.deep_view()),
                None => None,
            },
            functions: self.functions.deep_view(),
        }
    }
}

impl Clone for AhkFunction {
    /// A clone is structurally identical to the original.
    fn clone(&self) -> (r: Self)
        ensures
            r.deep_view() == self.deep_view(),
    {
        let r = AhkFunction {
            func: self.func,
            args: self.args.clone(),
            special_args: self.special_args.clone(),
        };
        proof {
            assert(r.args.deep_view() =~= self.args.deep_view());
            assert(r.special_args.deep_view() =~= self.special_args.deep_view());
        }
        r
    }
}

/// A fatal compile error: compilation aborts with no partial representation.
#[derive(Clone, Debug, PartialEq, Eq)]
pub enum CompileError {
    /// A numeric argument did not read as a number of the required range.
    BadNumber(String),
    /// A key token could not be resolved to a supported key.
    UnknownSymbol(String),
    /// A directive was missing a required argument.
    MissingArgument,
}

/// The mathematical model of a [`CompileError`].
pub enum ErrorModel {
    BadNumber(Seq<char>),
    UnknownSymbol(Seq<char>),
    MissingArgument,
}

impl DeepView for CompileError {
    type V = ErrorModel;

    open spec fn deep_view(&self) -> ErrorModel {
        match self {
            CompileError::BadNumber(s) => ErrorModel::BadNumber(s@),
            CompileError::UnknownSymbol(s) => ErrorModel::UnknownSymbol(s@),
            CompileError::MissingArgument => ErrorModel::MissingArgument,
        }
    }
}

/// A non-fatal condition surfaced to the operator; compilation continues.
#[derive(Clone, Debug, PartialEq, Eq)]
pub enum Diagnostic {
    /// A directive with an unrecognized leading token.
    UnknownDirective(String),
    /// A native call to anything but the supported mouse target.
    UnknownNativeCall(String),
    /// A click with arguments, which has no supported form.
    UnsupportedArguments,
    /// A recognized function with no lowering rule.
    Unlowerable,
    /// A block condition with no lowering rule.
    UnknownCondition,
}

/// The mathematical model of a [`Diagnostic`].
pub enum DiagModel {
    UnknownDirective(Seq<char>),
    UnknownNativeCall(Seq<char>),
    UnsupportedArguments,
    Unlowerable,
    UnknownCondition,
}

impl DeepView for Diagnostic {
    type V = DiagModel;

    open spec fn deep_view(&self) -> DiagModel {
        match self {
            Diagnostic::UnknownDirective(s) => DiagModel::UnknownDirective(s@),
            Diagnostic::UnknownNativeCall(s) => DiagModel::UnknownNativeCall(s@),
            Diagnostic::UnsupportedArguments => DiagModel::UnsupportedArguments,
            Diagnostic::Unlowerable => DiagModel::Unlowerable,
            Diagnostic::UnknownCondition => DiagModel::UnknownCondition,
        }
    }
}

/// The pass-one compiler state: finished blocks, the one in-progress block,
/// and the diagnostics recorded so far.
pub struct CompState {
    pub blocks: Seq<AhkBlockModel>,
    pub cur: AhkBlockModel,
    pub diags: Seq<DiagModel>,
}

/// A block with no condition and no functions.
pub open spec fn empty_block_model() -> AhkBlockModel {
    AhkBlockModel { condition: None, functions: seq![] }
}

/// The line reader: the leading token lower-cased and stripped of commas,
/// and the remaining tokens as written.
pub open spec fn read_line(line: Seq<char>) -> (Seq<char>, Seq<Seq<char>>) {
    let toks = split_ws(line);
    if toks.len() == 0 {
        (Seq::empty(), Seq::empty())
    } else {
        (spec_trim(lower(toks[0]), TrimSet::Comma), toks.drop_first())
    }
}

/// The argument list of a native-call token: everything after the first
/// opening parenthesis, with the trailing character removed, stripped of
/// outer parentheses, split on commas.
pub open spec fn dllcall_args_of(func: Seq<char>) -> Seq<Seq<char>> {
    let parts = split_char(func, '(');
    let joined = join_with(parts.drop_first(), seq!['(']);
    let popped = if joined.len() > 0 {
        joined.drop_last()
    } else {
        joined
    };
    split_char(spec_trim(popped, TrimSet::Paren), ',')
}

/// Appends a recognized function to the in-progress block.
pub open spec fn with_function(st: CompState, f: FunctionModel) -> CompState {
    CompState {
        blocks: st.blocks,
        cur: AhkBlockModel { condition: st.cur.condition, functions: st.cur.functions.push(f) },
        diags: st.diags,
    }
}

/// Records a diagnostic; the line contributes nothing else.
pub open spec fn with_diag(st: CompState, d: DiagModel) -> CompState {
    CompState { blocks: st.blocks, cur: st.cur, diags: st.diags.push(d) }
}

/// Flushes the in-progress block and starts a fresh one.
pub open spec fn flushed(st: CompState) -> CompState {
    CompState { blocks: st.blocks.push(st.cur), cur: empty_block_model(), diags: st.diags }
}

/// The block compiler's step for a native-call line.  Only the mouse target
/// is supported: its flags word selects a mouse move and whether coordinates
/// are absolute; the coordinates come from fixed argument positions.  Any
/// other target is a diagnostic and the line is dropped.
pub open spec fn step_dllcall(st: CompState, func: Seq<char>) -> Result<CompState, ErrorModel> {
    let cargs = dllcall_args_of(func);
    if cargs[0] == "\"mouse_event\""@ {
        if cargs.len() <= 2 {
            Err(ErrorModel::MissingArgument)
        } else if !(all_digits(cargs[2]) && digits_val(cargs[2]) <= u16::MAX) {
            Err(ErrorModel::BadNumber(cargs[2]))
        } else {
            let flags = digits_val(cargs[2]) as u16;
            if cargs.len() <= 6 {
                Err(ErrorModel::MissingArgument)
            } else if !(is_signed_digits(cargs[4]) && i32::MIN <= signed_val(cargs[4])
                && signed_val(cargs[4]) <= i32::MAX) {
                Err(ErrorModel::BadNumber(cargs[4]))
            } else if !(is_signed_digits(cargs[6]) && i32::MIN <= signed_val(cargs[6])
                && signed_val(cargs[6]) <= i32::MAX) {
                Err(ErrorModel::BadNumber(cargs[6]))
            } else {
                let kind = if flags & 0x01 != 0 {
                    AhkFunctions::MouseMove
                } else {
                    AhkFunctions::DllCall
                };
                let absolute = flags & 0x8000 != 0;
                let f = FunctionModel {
                    func: Some(kind),
                    args: seq![
                        dec_signed(signed_val(cargs[4])),
                        dec_signed(signed_val(cargs[6])),
                        if absolute {
                            "true"@
                        } else {
                            "false"@
                        },
                    ],
                    special_args: seq![],
                };
                Ok(with_function(st, f))
            }
        }
    } else {
        Ok(with_diag(st, DiagModel::UnknownNativeCall(cargs[0])))
    }
}

/// The modifier keys named by the marker characters of a hotkey token, in
/// the order scanned.
pub open spec fn modifiers_of(s: Seq<char>) -> Seq<KeyCode>
    decreases s.len(),
{
    if s.len() == 0 {
        seq![]
    } else {
        let head: Seq<KeyCode> = if s[0] == '^' {
            seq![KeyCode::VK_CONTROL]
        } else if s[0] == '!' {
            seq![KeyCode::VK_MENU]
        } else if s[0] == '+' {
            seq![KeyCode::VK_SHIFT]
        } else if s[0] == '#' {
            seq![KeyCode::VK_LWIN]
        } else {
            seq![]
        };
        head + modifiers_of(s.drop_first())
    }
}

/// The textual names of a key sequence.
pub open spec fn names_of(keys: Seq<KeyCode>) -> Seq<Seq<char>> {
    keys.map_values(|k: KeyCode| k.spec_name())
}

/// The non-empty pieces of a token list.
pub open spec fn nonempty_of(ts: Seq<Seq<char>>) -> Seq<Seq<char>>
    decreases ts.len(),
{
    if ts.len() == 0 {
        seq![]
    } else {
        (if ts[0].len() > 0 {
            seq![ts[0]]
        } else {
            Seq::empty()
        }) + nonempty_of(ts.drop_first())
    }
}

/// The recognizer for a hotkey declaration: modifier markers scanned from
/// the token, the remaining text upper-cased as the base key, any further
/// colon-delimited non-empty segments as special directives.  The composed
/// modifier-and-key sequence becomes the condition's single space-joined
/// argument.
pub open spec fn parse_hotkey(func: Seq<char>) -> Result<FunctionModel, ErrorModel> {
    let mods = modifiers_of(spec_trim(func, TrimSet::Colon));
    let base = upper(spec_trim(func, TrimSet::HotkeyPunct));
    let parts = split_char(base, ':');
    let key_tok = parts[0];
    match KeyCode::spec_resolve(key_tok) {
        Some(k) => Ok(
            FunctionModel {
                func: Some(AhkFunctions::Hotkey),
                args: seq![join_with(names_of(mods.push(k)), seq![' '])],
                special_args: nonempty_of(parts.drop_first()),
            },
        ),
        None => Err(ErrorModel::UnknownSymbol(key_tok)),
    }
}

/// The block compiler's step for a recognized keyword line.
pub open spec fn step_keyword(st: CompState, func: Seq<char>, args: Seq<Seq<char>>) -> Result<
    CompState,
    ErrorModel,
> {
    if func == "sleep"@ {
        if args.len() == 0 {
            Err(ErrorModel::MissingArgument)
        } else {
            Ok(
                with_function(
                    st,
                    FunctionModel {
                        func: Some(AhkFunctions::Sleep),
                        args: seq![args[0]],
                        special_args: seq![],
                    },
                ),
            )
        }
    } else if func == "send"@ {
        Ok(
            with_function(
                st,
                FunctionModel {
                    func: Some(AhkFunctions::Send),
                    args: seq![spec_trim(join_with(args, seq![' ']), TrimSet::Brace)],
                    special_args: seq![],
                },
            ),
        )
    } else if func == "loop"@ {
        if args.len() == 0 {
            Err(ErrorModel::MissingArgument)
        } else {
            Ok(
                CompState {
                    blocks: st.blocks.push(st.cur),
                    cur: AhkBlockModel {
                        condition: Some(
                            FunctionModel {
                                func: Some(AhkFunctions::Loop),
                                args: seq![args[0]],
                                special_args: seq![],
                            },
                        ),
                        functions: seq![],
                    },
                    diags: st.diags,
                },
            )
        }
    } else if func == "{"@ {
        Ok(st)
    } else if func == "}"@ {
        Ok(flushed(st))
    } else if func == "click"@ {
        Ok(
            with_function(
                st,
                FunctionModel { func: Some(AhkFunctions::Click), args: args, special_args: seq![] },
            ),
        )
    } else if func == "run"@ {
        Ok(
            with_function(
                st,
                FunctionModel {
                    func: Some(AhkFunctions::Run),
                    args: seq![join_with(args, seq![' '])],
                    special_args: seq![],
                },
            ),
        )
    } else {
        Ok(with_diag(st, DiagModel::UnknownDirective(func)))
    }
}

/// The block compiler's step for one line.
pub open spec fn step_line(st: CompState, line: Seq<char>) -> Result<CompState, ErrorModel> {
    let (func, args) = read_line(line);
    if func.len() == 0 || func[0] == ';' {
        Ok(st)
    } else if crate::text::has_sub(func, "dllcall"@) {
        step_dllcall(st, func)
    } else if crate::text::has_sub(func, "::"@) {
        match parse_hotkey(func) {
            Ok(f) => Ok(
                CompState {
                    blocks: st.blocks,
                    cur: AhkBlockModel { condition: Some(f), functions: st.cur.functions },
                    diags: st.diags,
                },
            ),
            Err(e) => Err(e),
        }
    } else {
        step_keyword(st, func, args)
    }
}

/// The block compiler folded over the remaining lines.
pub open spec fn fold_lines(st: CompState, lines: Seq<Seq<char>>) -> Result<CompState, ErrorModel>
    decreases lines.len(),
{
    if lines.len() == 0 {
        Ok(st)
    } else {
        match step_line(st, lines[0]) {
            Ok(st2) => fold_lines(st2, lines.drop_first()),
            Err(e) => Err(e),
        }
    }
}

/// The state the first pass starts from.
pub open spec fn pass_one_state() -> CompState {
    CompState { blocks: seq![], cur: empty_block_model(), diags: seq![] }
}

/// The whole first pass: every line folded in, then the final unterminated
/// block flushed.
pub open spec fn pass_one(lines: Seq<Seq<char>>) -> Result<CompState, ErrorModel> {
    match fold_lines(pass_one_state(), lines) {
        Ok(st) => Ok(flushed(st)),
        Err(e) => Err(e),
    }
}

/// The outcome of lowering one recognized function: at most one event, and
/// any diagnostics recorded.
pub struct LowerOut {
    pub event: Option<EventModel>,
    pub diags: Seq<DiagModel>,
}

/// The outcome of lowering a function list: the events in order, and the
/// diagnostics recorded.
pub struct LoweredList {
    pub events: Seq<EventModel>,
    pub diags: Seq<DiagModel>,
}

/// The outcome of lowering one block.
pub struct LoweredBlock {
    pub block: BlockModel,
    pub diags: Seq<DiagModel>,
}

/// The outcome of lowering a block list.
pub struct LoweredBlocks {
    pub blocks: Seq<BlockModel>,
    pub diags: Seq<DiagModel>,
}

/// The outcome of a whole compilation.
pub struct CompiledMacro {
    pub m: MacroModel,
    pub diags: Seq<DiagModel>,
}

/// The keys named by a space-joined key list, each resolved in turn; an
/// unresolvable token is fatal.
pub open spec fn resolve_all(toks: Seq<Seq<char>>) -> Result<Seq<KeyCode>, ErrorModel>
    decreases toks.len(),
{
    if toks.len() == 0 {
        Ok(seq![])
    } else {
        match KeyCode::spec_resolve(toks[0]) {
            Some(k) => match resolve_all(toks.drop_first()) {
                Ok(ks) => Ok(seq![k] + ks),
                Err(e) => Err(e),
            },
            None => Err(ErrorModel::UnknownSymbol(toks[0])),
        }
    }
}

/// One exit event for each special directive that reads as the exit word.
pub open spec fn exit_events(specials: Seq<Seq<char>>) -> Seq<EventModel>
    decreases specials.len(),
{
    if specials.len() == 0 {
        seq![]
    } else {
        (if lower(specials[0]) == "exitapp"@ {
            seq![EventModel::ExitApp]
        } else {
            Seq::empty()
        }) + exit_events(specials.drop_first())
    }
}

/// The lowering of one recognized function to at most one event.
///
/// A sleep takes its millisecond count; a send resolves its first token to a
/// key (a few fixed names map to modifier and space keys directly) with an
/// optional trailing direction word; a click is a left-button tap and admits
/// no arguments; a run splits its joined text on commas and spaces, drops a
/// trailing piece naming the hide word, strips a leading path separator from
/// the executable and rejoins the rest; a mouse move reads back its fixed
/// coordinate and absoluteness arguments; an exit lowers to the exit event.
/// Kinds with no lowering rule are dropped with a diagnostic.
pub open spec fn lower_function(f: FunctionModel) -> Result<LowerOut, ErrorModel> {
    match f.func {
        None => Ok(LowerOut { event: None, diags: seq![] }),
        Some(kind) => match kind {
            AhkFunctions::Sleep => {
                if f.args.len() == 0 {
                    Err(ErrorModel::MissingArgument)
                } else if !(all_digits(f.args[0]) && digits_val(f.args[0]) <= u64::MAX) {
                    Err(ErrorModel::BadNumber(f.args[0]))
                } else {
                    Ok(
                        LowerOut {
                            event: Some(EventModel::SleepMs(digits_val(f.args[0]) as u64)),
                            diags: seq![],
                        },
                    )
                }
            },
            AhkFunctions::Send => {
                let iv = split_char(join_with(f.args, seq![' ']), ' ');
                let first = iv[0];
                let vk = if lower(first) == "shift"@ {
                    Some(KeyCode::VK_SHIFT)
                } else if lower(first) == "ctrl"@ {
                    Some(KeyCode::VK_CONTROL)
                } else if lower(first) == "alt"@ {
                    Some(KeyCode::VK_MENU)
                } else if lower(first) == "space"@ {
                    Some(KeyCode::VK_SPACE)
                } else {
                    KeyCode::spec_resolve(first)
                };
                match vk {
                    Some(key) => {
                        let ud = if iv.len() > 1 {
                            Some(
                                if lower(iv[1]) == "up"@ {
                                    crate::keycodes::KeyUpDown::Up
                                } else {
                                    crate::keycodes::KeyUpDown::Down
                                },
                            )
                        } else {
                            None
                        };
                        Ok(
                            LowerOut {
                                event: Some(
                                    EventModel::Keybd(
                                        KeyboardEvent {
                                            key: Some(key),
                                            key_up_down: ud,
                                            custom_flags: None,
                                        },
                                    ),
                                ),
                                diags: seq![],
                            },
                        )
                    },
                    None => Err(ErrorModel::UnknownSymbol(first)),
                }
            },
            AhkFunctions::MouseMove => {
                if f.args.len() < 3 {
                    Err(ErrorModel::MissingArgument)
                } else if !(is_signed_digits(f.args[0]) && i32::MIN <= signed_val(f.args[0])
                    && signed_val(f.args[0]) <= i32::MAX) {
                    Err(ErrorModel::BadNumber(f.args[0]))
                } else if !(is_signed_digits(f.args[1]) && i32::MIN <= signed_val(f.args[1])
                    && signed_val(f.args[1]) <= i32::MAX) {
                    Err(ErrorModel::BadNumber(f.args[1]))
                } else if !(f.args[2] == "true"@ || f.args[2] == "false"@) {
                    Err(ErrorModel::BadNumber(f.args[2]))
                } else {
                    Ok(
                        LowerOut {
                            event: Some(
                                EventModel::MouseMove(
                                    MouseMoveEvent {
                                        x: signed_val(f.args[0]) as i32,
                                        y: signed_val(f.args[1]) as i32,
                                        absolute: f.args[2] == "true"@,
                                    },
                                ),
                            ),
                            diags: seq![],
                        },
                    )
                }
            },
            AhkFunctions::Click => {
                if f.args.len() > 0 {
                    Ok(LowerOut { event: None, diags: seq![DiagModel::UnsupportedArguments] })
                } else {
                    Ok(
                        LowerOut {
                            event: Some(
                                EventModel::MouseBtn(
                                    MouseButtonEvent {
                                        flags: crate::keycodes::MouseFlags::MOUSEEVENTF_LEFTDOWN,
                                        up_down: None,
                                    },
                                ),
                            ),
                            diags: seq![],
                        },
                    )
                }
            },
            AhkFunctions::Run => {
                let toks = split_list(join_with(f.args, seq![' ']));
                let kept = if toks.len() > 0 && crate::text::has_sub(lower(toks.last()), "hide"@) {
                    toks.drop_last()
                } else {
                    toks
                };
                if kept.len() == 0 {
                    Err(ErrorModel::MissingArgument)
                } else {
                    let cmd = spec_trim(kept[0], TrimSet::Backslash) + seq![' '] + join_with(
                        kept.drop_first(),
                        seq![' '],
                    );
                    Ok(LowerOut { event: Some(EventModel::Run(cmd)), diags: seq![] })
                }
            },
            AhkFunctions::ExitApp => Ok(
                LowerOut { event: Some(EventModel::ExitApp), diags: seq![] },
            ),
            _ => Ok(LowerOut { event: None, diags: seq![DiagModel::Unlowerable] }),
        },
    }
}

/// The lowering of a function list, in order; functions that fail to lower
/// are dropped with their diagnostics.
pub open spec fn lower_functions(fs: Seq<FunctionModel>) -> Result<LoweredList, ErrorModel>
    decreases fs.len(),
{
    if fs.len() == 0 {
        Ok(LoweredList { events: seq![], diags: seq![] })
    } else {
        match lower_function(fs[0]) {
            Ok(out) => match lower_functions(fs.drop_first()) {
                Ok(rest) => Ok(
                    LoweredList {
                        events: (match out.event {
                            Some(e) => seq![e],
                            None => Seq::empty(),
                        }) + rest.events,
                        diags: out.diags + rest.diags,
                    },
                ),
                Err(e) => Err(e),
            },
            Err(e) => Err(e),
        }
    }
}

/// The lowering of one compiled block.
///
/// A loop condition wraps the block's lowered functions in a single counted
/// loop event, the sole event of a block with no hotkey.  A hotkey condition
/// resolves its space-joined key list into the block's hotkey, prepends one
/// exit event per special exit directive, then the lowered functions.  A
/// block with neither holds just its lowered functions.
pub open spec fn lower_block(b: AhkBlockModel) -> Result<LoweredBlock, ErrorModel> {
    if b.condition is Some && b.condition->0.func is Some {
        let cond = b.condition->0;
        match cond.func->0 {
            AhkFunctions::Loop => {
                if cond.args.len() == 0 {
                    Err(ErrorModel::MissingArgument)
                } else if !(all_digits(cond.args[0]) && digits_val(cond.args[0]) <= u32::MAX) {
                    Err(ErrorModel::BadNumber(cond.args[0]))
                } else {
                    match lower_functions(b.functions) {
                        Ok(body) => Ok(
                            LoweredBlock {
                                block: BlockModel {
                                    hotkey: None,
                                    events: seq![
                                        EventModel::Loop(
                                            digits_val(cond.args[0]) as u32,
                                            body.events,
                                        ),
                                    ],
                                    running: false,
                                },
                                diags: body.diags,
                            },
                        ),
                        Err(e) => Err(e),
                    }
                }
            },
            AhkFunctions::Hotkey => {
                if cond.args.len() == 0 {
                    Err(ErrorModel::MissingArgument)
                } else {
                    match resolve_all(split_char(cond.args[0], ' ')) {
                        Ok(keys) => match lower_functions(b.functions) {
                            Ok(body) => Ok(
                                LoweredBlock {
                                    block: BlockModel {
                                        hotkey: Some(keys),
                                        events: exit_events(cond.special_args) + body.events,
                                        running: false,
                                    },
                                    diags: body.diags,
                                },
                            ),
                            Err(e) => Err(e),
                        },
                        Err(e) => Err(e),
                    }
                }
            },
            _ => {
                match lower_functions(b.functions) {
                    Ok(body) => Ok(
                        LoweredBlock {
                            block: BlockModel {
                                hotkey: None,
                                events: body.events,
                                running: false,
                            },
                            diags: seq![DiagModel::UnknownCondition] + body.diags,
                        },
                    ),
                    Err(e) => Err(e),
                }
            },
        }
    } else {
        match lower_functions(b.functions) {
            Ok(body) => Ok(
                LoweredBlock {
                    block: BlockModel { hotkey: None, events: body.events, running: false },
                    diags: body.diags,
                },
            ),
            Err(e) => Err(e),
        }
    }
}

/// The lowering of every compiled block, in order.
pub open spec fn lower_blocks(bs: Seq<AhkBlockModel>) -> Result<LoweredBlocks, ErrorModel>
    decreases bs.len(),
{
    if bs.len() == 0 {
        Ok(LoweredBlocks { blocks: seq![], diags: seq![] })
    } else {
        match lower_block(bs[0]) {
            Ok(first) => match lower_blocks(bs.drop_first()) {
                Ok(rest) => Ok(
                    LoweredBlocks {
                        blocks: seq![first.block] + rest.blocks,
                        diags: first.diags + rest.diags,
                    },
                ),
                Err(e) => Err(e),
            },
            Err(e) => Err(e),
        }
    }
}

/// The whole compilation into a file that already holds `pre` compiled
/// blocks: the first pass groups the lines into blocks, the second lowers
/// every block held, the earlier ones first; the result is named after the
/// script.  Blocks map one to one onto source blocks, and diagnostics from
/// both passes are kept in order.
pub open spec fn spec_compile_into(
    pre: Seq<AhkBlockModel>,
    path: Seq<char>,
    lines: Seq<Seq<char>>,
) -> Result<CompiledMacro, ErrorModel> {
    match pass_one(lines) {
        Ok(st) => match lower_blocks(pre + st.blocks) {
            Ok(lowered) => Ok(
                CompiledMacro {
                    m: MacroModel { name: path, blocks: lowered.blocks },
                    diags: st.diags + lowered.diags,
                },
            ),
            Err(e) => Err(e),
        },
        Err(e) => Err(e),
    }
}

/// The whole compilation of a script from its lines alone.
pub open spec fn spec_compile(path: Seq<char>, lines: Seq<Seq<char>>) -> Result<
    CompiledMacro,
    ErrorModel,
> {
    spec_compile_into(Seq::empty(), path, lines)
}

/// The characters of each argument string.
fn args_chars(v: &Vec<String>) -> (r: Vec<Vec<char>>)
    ensures
        r.deep_view() == v.deep_view(),
{
    let mut r: Vec<Vec<char>> = Vec::new();
    let mut i: usize = 0;
    while i < v.len()
        invariant
            i <= v@.len(),
            r@.len() == i,
            r.deep_view() =~= v.deep_view().take(i as int),
        decreases v@.len() - i,
    {
        r.push(string_to_chars(v[i].as_str()));
        proof {
            assert forall|j: int| 0 <= j < i + 1 implies r.deep_view()[j] == v.deep_view().take(
                i + 1,
            )[j] by {
                assert(r.deep_view()[j] == r@[j].deep_view());
            }
            assert(r.deep_view() =~= v.deep_view().take(i + 1));
        }
        i = i + 1;
    }
    proof {
        assert(v.deep_view().take(v@.len() as int) =~= v.deep_view());
    }
    r
}

/// A one-character token.
fn one_char(c: char) -> (r: Vec<char>)
    ensures
        r@ == seq![c],
{
    let mut r: Vec<char> = Vec::new();
    r.push(c);
    proof {
        assert(r@ =~= seq![c]);
    }
    r
}

impl AhkFunction {
    /// Lowers this recognized function to at most one macro event, as
    /// [`lower_function`] describes; diagnostics for dropped functions are
    /// appended to `diagnostics`.
    pub fn parse(&self, diagnostics: &mut Vec<Diagnostic>) -> (r: Result<
        Option<MacroEvent>,
        CompileError,
    >)
        ensures
            r is Ok <==> lower_function(self.deep_view()) is Ok,
            r is Ok ==> {
                let out = lower_function(self.deep_view())->Ok_0;
                &&& (r->Ok_0 is Some <==> out.event is Some)
                &&& (r->Ok_0 is Some ==> crate::macro_events::event_model(r->Ok_0->0)
                    == out.event->0)
                &&& final(diagnostics).deep_view() == old(diagnostics).deep_view() + out.diags
            },
            r is Err ==> r->Err_0.deep_view() == lower_function(self.deep_view())->Err_0
                && final(diagnostics).deep_view() == old(diagnostics).deep_view(),
    {
        proof {
            assert(old(diagnostics).deep_view() + Seq::<DiagModel>::empty() =~= old(
                diagnostics,
            ).deep_view());
        }
        let kind = match self.func {
            Some(k) => k,
            None => {
                return Ok(None);
            },
        };
        match kind {
            AhkFunctions::Sleep => {
                if self.args.len() == 0 {
                    return Err(CompileError::MissingArgument);
                }
                let digits = string_to_chars(self.args[0].as_str());
                match parse_u64_chars(&digits) {
                    Some(ms) => Ok(Some(MacroEvent::SleepMs(ms))),
                    None => Err(CompileError::BadNumber(self.args[0].clone())),
                }
            },
            AhkFunctions::Send => {
                let ac = args_chars(&self.args);
                let sp = one_char(' ');
                let joined = join_chars(&ac, &sp);
                let iv = split_char_chars(&joined, ' ');
                proof {
                    crate::text::lemma_split_char_len(joined@, ' ');
                    crate::text::lemma_token_view(&iv, 0);
                }
                let low = lower_chars(&iv[0]);
                let vk = if chars_eq_str(&low, "shift") {
                    Some(KeyCode::VK_SHIFT)
                } else if chars_eq_str(&low, "ctrl") {
                    Some(KeyCode::VK_CONTROL)
                } else if chars_eq_str(&low, "alt") {
                    Some(KeyCode::VK_MENU)
                } else if chars_eq_str(&low, "space") {
                    Some(KeyCode::VK_SPACE)
                } else {
                    KeyCode::resolve(&iv[0])
                };
                let key = match vk {
                    Some(k) => k,
                    None => {
                        return Err(CompileError::UnknownSymbol(chars_to_string(&iv[0])));
                    },
                };
                let ud = if iv.len() > 1 {
                    proof {
                        crate::text::lemma_token_view(&iv, 1);
                    }
                    let low2 = lower_chars(&iv[1]);
                    if chars_eq_str(&low2, "up") {
                        Some(crate::keycodes::KeyUpDown::Up)
                    } else {
                        Some(crate::keycodes::KeyUpDown::Down)
                    }
                } else {
                    None
                };
                Ok(
                    Some(
                        MacroEvent::Keybd(
                            KeyboardEvent { key: Some(key), key_up_down: ud, custom_flags: None },
                        ),
                    ),
                )
            },
            AhkFunctions::MouseMove => {
                if self.args.len() < 3 {
                    return Err(CompileError::MissingArgument);
                }
                let xs = string_to_chars(self.args[0].as_str());
                let x = match parse_i32_chars(&xs) {
                    Some(v) => v,
                    None => {
                        return Err(CompileError::BadNumber(self.args[0].clone()));
                    },
                };
                let ys = string_to_chars(self.args[1].as_str());
                let y = match parse_i32_chars(&ys) {
                    Some(v) => v,
                    None => {
                        return Err(CompileError::BadNumber(self.args[1].clone()));
                    },
                };
                let bs = string_to_chars(self.args[2].as_str());
                let absolute = match parse_bool_chars(&bs) {
                    Some(b) => b,
                    None => {
                        return Err(CompileError::BadNumber(self.args[2].clone()));
                    },
                };
                Ok(Some(MacroEvent::MouseMove(MouseMoveEvent { x, y, absolute })))
            },
            AhkFunctions::Click => {
                if self.args.len() > 0 {
                    let ghost d0 = diagnostics.deep_view();
                    diagnostics.push(Diagnostic::UnsupportedArguments);
                    proof {
                        assert(diagnostics.deep_view() =~= d0.push(
                            DiagModel::UnsupportedArguments,
                        ));
                    }
                    return Ok(None);
                }
                Ok(
                    Some(
                        MacroEvent::MouseBtn(
                            MouseButtonEvent {
                                flags: crate::keycodes::MouseFlags::MOUSEEVENTF_LEFTDOWN,
                                up_down: None,
                            },
                        ),
                    ),
                )
            },
            AhkFunctions::Run => {
                let ac = args_chars(&self.args);
                let sp = one_char(' ');
                let joined = join_chars(&ac, &sp);
                let toks = split_list_chars(&joined);
                let hide = if toks.len() > 0 {
                    proof {
                        crate::text::lemma_token_view(&toks, toks@.len() - 1);
                    }
                    let low = lower_chars(&toks[toks.len() - 1]);
                    contains_str(&low, "hide")
                } else {
                    false
                };
                let kept_len = if hide {
                    toks.len() - 1
                } else {
                    toks.len()
                };
                proof {
                    let toks_m = toks.deep_view();
                    let kept = if toks_m.len() > 0 && crate::text::has_sub(
                        lower(toks_m.last()),
                        "hide"@,
                    ) {
                        toks_m.drop_last()
                    } else {
                        toks_m
                    };
                    assert(kept.len() == kept_len);
                    assert(forall|j: int| 0 <= j < kept.len() ==> kept[j] == toks_m[j]);
                }
                if kept_len == 0 {
                    return Err(CompileError::MissingArgument);
                }
                proof {
                    crate::text::lemma_token_view(&toks, 0);
                }
                let mut cmd = trim_chars(&toks[0], TrimSet::Backslash);
                cmd.push(' ');
                let mut rest: Vec<Vec<char>> = Vec::new();
                let mut i: usize = 1;
                while i < kept_len
                    invariant
                        1 <= i <= kept_len <= toks@.len(),
                        rest@.len() == i - 1,
                        rest.deep_view() =~= toks.deep_view().subrange(1, i as int),
                    decreases kept_len - i,
                {
                    rest.push(toks[i].clone());
                    proof {
                        assert(rest@[i - 1]@ =~= toks@[i as int]@);
                        assert forall|j: int| 0 <= j < i implies rest.deep_view()[j]
                            == toks.deep_view().subrange(1, i + 1)[j] by {
                            assert(rest.deep_view()[j] == rest@[j].deep_view());
                            assert(toks.deep_view()[j + 1] == toks@[j + 1].deep_view());
                        }
                        assert(rest.deep_view() =~= toks.deep_view().subrange(1, i + 1));
                    }
                    i = i + 1;
                }
                let tail = join_chars(&rest, &sp);
                crate::text::append_chars(&mut cmd, &tail);
                proof {
                    let toks_m = toks.deep_view();
                    let kept = if toks_m.len() > 0 && crate::text::has_sub(
                        lower(toks_m.last()),
                        "hide"@,
                    ) {
                        toks_m.drop_last()
                    } else {
                        toks_m
                    };
                    assert(toks_m.subrange(1, kept_len as int) =~~= kept.drop_first());
                    assert(cmd@ =~= spec_trim(kept[0], TrimSet::Backslash) + seq![' ']
                        + join_with(kept.drop_first(), seq![' ']));
                }
                Ok(Some(MacroEvent::Run(chars_to_string(&cmd))))
            },
            AhkFunctions::ExitApp => Ok(Some(MacroEvent::ExitApp)),
            _ => {
                let ghost d0 = diagnostics.deep_view();
                diagnostics.push(Diagnostic::Unlowerable);
                proof {
                    assert(diagnostics.deep_view() =~= d0.push(DiagModel::Unlowerable));
                }
                Ok(None)
            },
        }
    }
}

/// Each token as an argument string.
fn strings_of(v: &Vec<Vec<char>>) -> (r: Vec<String>)
    ensures
        r.deep_view() == v.deep_view(),
{
    let mut r: Vec<String> = Vec::new();
    let mut i: usize = 0;
    while i < v.len()
        invariant
            i <= v@.len(),
            r@.len() == i,
            r.deep_view() =~= v.deep_view().take(i as int),
        decreases v@.len() - i,
    {
        r.push(chars_to_string(&v[i]));
        proof {
            assert forall|j: int| 0 <= j < i + 1 implies r.deep_view()[j] == v.deep_view().take(
                i + 1,
            )[j] by {
                assert(r.deep_view()[j] == r@[j].deep_view());
                assert(v.deep_view()[j] == v@[j].deep_view());
            }
            assert(r.deep_view() =~= v.deep_view().take(i + 1));
        }
        i = i + 1;
    }
    proof {
        assert(v.deep_view().take(v@.len() as int) =~= v.deep_view());
    }
    r
}

/// The tokens after the first.
fn tail_tokens(toks: &Vec<Vec<char>>) -> (r: Vec<Vec<char>>)
    requires
        toks@.len() >= 1,
    ensures
        r.deep_view() == toks.deep_view().drop_first(),
{
    let mut r: Vec<Vec<char>> = Vec::new();
    let mut i: usize = 1;
    while i < toks.len()
        invariant
            1 <= i <= toks@.len(),
            r@.len() == i - 1,
            r.deep_view() =~= toks.deep_view().subrange(1, i as int),
        decreases toks@.len() - i,
    {
        r.push(toks[i].clone());
        proof {
            assert(r@[i - 1]@ =~= toks@[i as int]@);
            assert forall|j: int| 0 <= j < i implies r.deep_view()[j] == toks.deep_view().subrange(
                1,
                i + 1,
            )[j] by {
                assert(r.deep_view()[j] == r@[j].deep_view());
                assert(toks.deep_view()[j + 1] == toks@[j + 1].deep_view());
            }
            assert(r.deep_view() =~= toks.deep_view().subrange(1, i + 1));
        }
        i = i + 1;
    }
    proof {
        assert(toks.deep_view().subrange(1, toks@.len() as int) =~= toks.deep_view().drop_first());
    }
    r
}

/// Resolves each token of a key list in turn, as [`resolve_all`] describes.
fn resolve_keys(toks: &Vec<Vec<char>>) -> (r: Result<Vec<KeyCode>, CompileError>)
    ensures
        r is Ok <==> resolve_all(toks.deep_view()) is Ok,
        r is Ok ==> r->Ok_0@ == resolve_all(toks.deep_view())->Ok_0,
        r is Err ==> r->Err_0.deep_view() == resolve_all(toks.deep_view())->Err_0,
{
    let ghost tm = toks.deep_view();
    let mut keys: Vec<KeyCode> = Vec::new();
    let mut i: usize = 0;
    proof {
        assert(tm.skip(0) =~= tm);
        if resolve_all(tm) is Ok {
            assert(keys@ + resolve_all(tm)->Ok_0 =~= resolve_all(tm)->Ok_0);
        }
    }
    while i < toks.len()
        invariant
            i <= toks@.len(),
            tm == toks.deep_view(),
            tm.len() == toks@.len(),
            resolve_all(tm.skip(i as int)) is Ok ==> resolve_all(tm) is Ok && resolve_all(tm)->Ok_0
                == keys@ + resolve_all(tm.skip(i as int))->Ok_0,
            resolve_all(tm.skip(i as int)) is Err ==> resolve_all(tm) == resolve_all(
                tm.skip(i as int),
            ),
        decreases toks@.len() - i,
    {
        proof {
            crate::text::lemma_token_view(toks, i as int);
            assert(tm.skip(i as int)[0] == tm[i as int]);
            assert(tm.skip(i as int).drop_first() =~= tm.skip(i + 1));
        }
        match KeyCode::resolve(&toks[i]) {
            Some(k) => {
                let ghost pre = keys@;
                keys.push(k);
                proof {
                    if resolve_all(tm.skip(i + 1)) is Ok {
                        assert(pre + (seq![k] + resolve_all(tm.skip(i + 1))->Ok_0) =~= keys@
                            + resolve_all(tm.skip(i + 1))->Ok_0);
                    }
                }
            },
            None => {
                return Err(CompileError::UnknownSymbol(chars_to_string(&toks[i])));
            },
        }
        i = i + 1;
    }
    proof {
        assert(tm.skip(tm.len() as int) =~= Seq::<Seq<char>>::empty());
        assert(keys@ + resolve_all(tm.skip(tm.len() as int))->Ok_0 =~= keys@);
    }
    Ok(keys)
}

/// Recognizes a hotkey declaration token, as [`parse_hotkey`] describes.
fn hotkey_function(func: &Vec<char>) -> (r: Result<AhkFunction, CompileError>)
    ensures
        r is Ok <==> parse_hotkey(func@) is Ok,
        r is Ok ==> r->Ok_0.deep_view() == parse_hotkey(func@)->Ok_0,
        r is Err ==> r->Err_0.deep_view() == parse_hotkey(func@)->Err_0,
{
    let scanned = trim_chars(func, TrimSet::Colon);
    let mut mods: Vec<KeyCode> = Vec::new();
    let mut i: usize = 0;
    proof {
        assert(scanned@.skip(0) =~= scanned@);
        assert(mods@ + modifiers_of(scanned@) =~= modifiers_of(scanned@));
    }
    while i < scanned.len()
        invariant
            i <= scanned@.len(),
            modifiers_of(scanned@) == mods@ + modifiers_of(scanned@.skip(i as int)),
        decreases scanned@.len() - i,
    {
        let c = scanned[i];
        let ghost pre = mods@;
        let ghost rest = modifiers_of(scanned@.skip(i + 1));
        proof {
            assert(scanned@.skip(i as int)[0] == scanned@[i as int]);
            assert(scanned@.skip(i as int).drop_first() =~= scanned@.skip(i + 1));
        }
        if c == '^' {
            mods.push(KeyCode::VK_CONTROL);
            proof {
                assert(pre + (seq![KeyCode::VK_CONTROL] + rest) =~= mods@ + rest);
            }
        } else if c == '!' {
            mods.push(KeyCode::VK_MENU);
            proof {
                assert(pre + (seq![KeyCode::VK_MENU] + rest) =~= mods@ + rest);
            }
        } else if c == '+' {
            mods.push(KeyCode::VK_SHIFT);
            proof {
                assert(pre + (seq![KeyCode::VK_SHIFT] + rest) =~= mods@ + rest);
            }
        } else if c == '#' {
            mods.push(KeyCode::VK_LWIN);
            proof {
                assert(pre + (seq![KeyCode::VK_LWIN] + rest) =~= mods@ + rest);
            }
        } else {
            proof {
                assert(pre + (Seq::<KeyCode>::empty() + rest) =~= pre + rest);
            }
        }
        i = i + 1;
    }
    proof {
        assert(scanned@.skip(scanned@.len() as int) =~= Seq::<char>::empty());
        assert(mods@ + modifiers_of(scanned@.skip(scanned@.len() as int)) =~= mods@);
    }
    let trimmed = trim_chars(func, TrimSet::HotkeyPunct);
    let base = upper_chars(&trimmed);
    let parts = split_char_chars(&base, ':');
    proof {
        crate::text::lemma_split_char_len(base@, ':');
        crate::text::lemma_token_view(&parts, 0);
    }
    let key = match KeyCode::resolve(&parts[0]) {
        Some(k) => k,
        None => {
            return Err(CompileError::UnknownSymbol(chars_to_string(&parts[0])));
        },
    };
    mods.push(key);
    let mut names: Vec<Vec<char>> = Vec::new();
    let mut k: usize = 0;
    while k < mods.len()
        invariant
            k <= mods@.len(),
            names@.len() == k,
            forall|j: int| 0 <= j < k ==> names@[j]@ == mods@[j].spec_name(),
        decreases mods@.len() - k,
    {
        let nm = mods[k].name();
        names.push(string_to_chars(nm.as_str()));
        k = k + 1;
    }
    proof {
        assert forall|j: int| 0 <= j < names@.len() implies names.deep_view()[j] == names_of(
            mods@,
        )[j] by {
            assert(names.deep_view()[j] == names@[j].deep_view());
        }
        assert(names.deep_view() =~= names_of(mods@));
    }
    let sp = one_char(' ');
    let joined = join_chars(&names, &sp);
    let mut args: Vec<String> = Vec::new();
    args.push(chars_to_string(&joined));
    let ghost pm = parts.deep_view();
    let mut specials: Vec<String> = Vec::new();
    let mut j: usize = 1;
    proof {
        assert(pm.skip(1) =~= pm.drop_first());
        assert(specials.deep_view() + nonempty_of(pm.drop_first()) =~= nonempty_of(
            pm.drop_first(),
        ));
    }
    while j < parts.len()
        invariant
            1 <= j <= parts@.len(),
            pm == parts.deep_view(),
            pm.len() == parts@.len(),
            nonempty_of(pm.drop_first()) == specials.deep_view() + nonempty_of(
                pm.skip(j as int),
            ),
        decreases parts@.len() - j,
    {
        proof {
            crate::text::lemma_token_view(&parts, j as int);
            assert(pm.skip(j as int)[0] == pm[j as int]);
            assert(pm.skip(j as int).drop_first() =~= pm.skip(j + 1));
        }
        let ghost pre = specials.deep_view();
        let ghost rest = nonempty_of(pm.skip(j + 1));
        if parts[j].len() > 0 {
            specials.push(chars_to_string(&parts[j]));
            proof {
                assert(specials.deep_view() =~= pre.push(pm[j as int]));
                assert(pre + (seq![pm[j as int]] + rest) =~= specials.deep_view() + rest);
            }
        } else {
            proof {
                assert(pre + (Seq::<Seq<char>>::empty() + rest) =~= pre + rest);
            }
        }
        j = j + 1;
    }
    proof {
        assert(pm.skip(pm.len() as int) =~= Seq::<Seq<char>>::empty());
        assert(specials.deep_view() + nonempty_of(pm.skip(pm.len() as int)) =~= specials.deep_view());
    }
    let r = AhkFunction { func: Some(AhkFunctions::Hotkey), args, special_args: specials };
    proof {
        let fm = parse_hotkey(func@)->Ok_0;
        assert(r.args.deep_view() =~= fm.args);
    }
    Ok(r)
}

/// Lowers a function list in order, as [`lower_functions`] describes.
fn lower_functions_exec(fs: &Vec<AhkFunction>, diagnostics: &mut Vec<Diagnostic>) -> (r: Result<
    Vec<MacroEvent>,
    CompileError,
>)
    ensures
        r is Ok <==> lower_functions(fs.deep_view()) is Ok,
        r is Ok ==> {
            let out = lower_functions(fs.deep_view())->Ok_0;
            &&& r->Ok_0.deep_view() == out.events
            &&& final(diagnostics).deep_view() == old(diagnostics).deep_view() + out.diags
        },
        r is Err ==> r->Err_0.deep_view() == lower_functions(fs.deep_view())->Err_0,
{
    let ghost fm = fs.deep_view();
    let mut events: Vec<MacroEvent> = Vec::new();
    let ghost d0 = diagnostics.deep_view();
    let ghost mut dacc: Seq<DiagModel> = seq![];
    let mut i: usize = 0;
    proof {
        assert(fm.skip(0) =~= fm);
        assert(d0 + dacc =~= d0);
        if lower_functions(fm) is Ok {
            assert(events.deep_view() + lower_functions(fm)->Ok_0.events =~= lower_functions(
                fm,
            )->Ok_0.events);
            assert(dacc + lower_functions(fm)->Ok_0.diags =~= lower_functions(fm)->Ok_0.diags);
        }
    }
    while i < fs.len()
        invariant
            i <= fs@.len(),
            fm == fs.deep_view(),
            fm.len() == fs@.len(),
            diagnostics.deep_view() == d0 + dacc,
            lower_functions(fm.skip(i as int)) is Ok ==> lower_functions(fm) is Ok
                && lower_functions(fm)->Ok_0.events == events.deep_view() + lower_functions(
                fm.skip(i as int),
            )->Ok_0.events && lower_functions(fm)->Ok_0.diags == dacc + lower_functions(
                fm.skip(i as int),
            )->Ok_0.diags,
            lower_functions(fm.skip(i as int)) is Err ==> lower_functions(fm) == lower_functions(
                fm.skip(i as int),
            ),
        decreases fs@.len() - i,
    {
        proof {
            assert(fm.skip(i as int)[0] == fm[i as int]);
            assert(fm.skip(i as int).drop_first() =~= fm.skip(i + 1));
        }
        let ghost pre = events.deep_view();
        let ghost dpre = dacc;
        let step = fs[i].parse(diagnostics);
        match step {
            Ok(out) => {
                proof {
                    dacc = dacc + lower_function(fm[i as int])->Ok_0.diags;
                }
                match out {
                    Some(e) => {
                        let ghost em = crate::macro_events::event_model(e);
                        events.push(e);
                        proof {
                            assert(events.deep_view() =~= pre.push(em));
                            if lower_functions(fm.skip(i + 1)) is Ok {
                                assert(pre + (seq![em] + lower_functions(
                                    fm.skip(i + 1),
                                )->Ok_0.events) =~= events.deep_view() + lower_functions(
                                    fm.skip(i + 1),
                                )->Ok_0.events);
                            }
                        }
                    },
                    None => {
                        proof {
                            if lower_functions(fm.skip(i + 1)) is Ok {
                                assert(pre + (Seq::<EventModel>::empty() + lower_functions(
                                    fm.skip(i + 1),
                                )->Ok_0.events) =~= pre + lower_functions(
                                    fm.skip(i + 1),
                                )->Ok_0.events);
                            }
                        }
                    },
                }
                proof {
                    if lower_functions(fm.skip(i + 1)) is Ok {
                        assert(dpre + (lower_function(fm[i as int])->Ok_0.diags + lower_functions(
                            fm.skip(i + 1),
                        )->Ok_0.diags) =~= dacc + lower_functions(fm.skip(i + 1))->Ok_0.diags);
                    }
                }
            },
            Err(e) => {
                return Err(e);
            },
        }
        i = i + 1;
    }
    proof {
        assert(fm.skip(fm.len() as int) =~= Seq::<FunctionModel>::empty());
        assert(events.deep_view() + Seq::<EventModel>::empty() =~= events.deep_view());
        assert(dacc + Seq::<DiagModel>::empty() =~= dacc);
    }
    Ok(events)
}

/// Lowers one compiled block, as [`lower_block`] describes.
fn lower_block_exec(b: &AhkBlock, diagnostics: &mut Vec<Diagnostic>) -> (r: Result<
    MacroBlock,
    CompileError,
>)
    ensures
        r is Ok <==> lower_block(b.deep_view()) is Ok,
        r is Ok ==> {
            let out = lower_block(b.deep_view())->Ok_0;
            &&& r->Ok_0.deep_view() == out.block
            &&& final(diagnostics).deep_view() == old(diagnostics).deep_view() + out.diags
        },
        r is Err ==> r->Err_0.deep_view() == lower_block(b.deep_view())->Err_0,
{
    broadcast use crate::macro_events::lemma_events_model_is_deep_view;

    let kind = match &b.condition {
        Some(cond) => cond.func,
        None => None,
    };
    match kind {
        Some(AhkFunctions::Loop) => {
            let cond = match &b.condition {
                Some(c) => c,
                None => {
                    return Err(CompileError::MissingArgument);
                },
            };
            if cond.args.len() == 0 {
                return Err(CompileError::MissingArgument);
            }
            let cargs = string_to_chars(cond.args[0].as_str());
            let count = match parse_u32_chars(&cargs) {
                Some(c) => c,
                None => {
                    return Err(CompileError::BadNumber(cond.args[0].clone()));
                },
            };
            let events = match lower_functions_exec(&b.functions, diagnostics) {
                Ok(evs) => evs,
                Err(e) => {
                    return Err(e);
                },
            };
            let ghost body_events = events.deep_view();
            let mut evs: Vec<MacroEvent> = Vec::new();
            evs.push(MacroEvent::Loop(LoopEvent { count, events }));
            let mb = MacroBlock { hotkey: None, events: evs, running: false };
            proof {
                assert(mb.deep_view().events =~= seq![EventModel::Loop(count, body_events)]);
            }
            Ok(mb)
        },
        Some(AhkFunctions::Hotkey) => {
            let cond = match &b.condition {
                Some(c) => c,
                None => {
                    return Err(CompileError::MissingArgument);
                },
            };
            if cond.args.len() == 0 {
                return Err(CompileError::MissingArgument);
            }
            let arg0 = string_to_chars(cond.args[0].as_str());
            let toks = split_char_chars(&arg0, ' ');
            let keys = match resolve_keys(&toks) {
                Ok(k) => k,
                Err(e) => {
                    return Err(e);
                },
            };
            let ghost sm = cond.special_args.deep_view();
            let mut evs: Vec<MacroEvent> = Vec::new();
            let mut si: usize = 0;
            proof {
                assert(sm.skip(0) =~= sm);
                assert(evs.deep_view() + exit_events(sm) =~= exit_events(sm));
            }
            while si < cond.special_args.len()
                invariant
                    si <= cond.special_args@.len(),
                    sm == cond.special_args.deep_view(),
                    sm.len() == cond.special_args@.len(),
                    exit_events(sm) == evs.deep_view() + exit_events(sm.skip(si as int)),
                decreases cond.special_args@.len() - si,
            {
                proof {
                    assert(sm.skip(si as int)[0] == sm[si as int]);
                    assert(sm.skip(si as int).drop_first() =~= sm.skip(si + 1));
                }
                let ghost pre = evs.deep_view();
                let ghost rest = exit_events(sm.skip(si + 1));
                let low = lower_chars(&string_to_chars(cond.special_args[si].as_str()));
                if chars_eq_str(&low, "exitapp") {
                    evs.push(MacroEvent::ExitApp);
                    proof {
                        assert(evs.deep_view() =~= pre.push(EventModel::ExitApp));
                        assert(pre + (seq![EventModel::ExitApp] + rest) =~= evs.deep_view() + rest);
                    }
                } else {
                    proof {
                        assert(pre + (Seq::<EventModel>::empty() + rest) =~= pre + rest);
                    }
                }
                si = si + 1;
            }
            proof {
                assert(sm.skip(sm.len() as int) =~= Seq::<Seq<char>>::empty());
                assert(evs.deep_view() + exit_events(sm.skip(sm.len() as int)) =~= evs.deep_view());
            }
            let ghost exits = evs.deep_view();
            let mut body = match lower_functions_exec(&b.functions, diagnostics) {
                Ok(es) => es,
                Err(e) => {
                    return Err(e);
                },
            };
            let ghost body_events = body.deep_view();
            evs.append(&mut body);
            proof {
                assert forall|j: int| 0 <= j < evs@.len() implies evs.deep_view()[j] == (exits
                    + body_events)[j] by {
                    assert(evs.deep_view()[j] == evs@[j].deep_view());
                }
                assert(evs.deep_view() =~= exits + body_events);
            }
            let mb = MacroBlock { hotkey: Some(keys), events: evs, running: false };
            proof {
                assert(keys.deep_view() =~= keys@);
            }
            Ok(mb)
        },
        Some(_) => {
            let ghost d0 = diagnostics.deep_view();
            diagnostics.push(Diagnostic::UnknownCondition);
            proof {
                assert(diagnostics.deep_view() =~= d0.push(DiagModel::UnknownCondition));
            }
            let events = match lower_functions_exec(&b.functions, diagnostics) {
                Ok(evs) => evs,
                Err(e) => {
                    return Err(e);
                },
            };
            let mb = MacroBlock { hotkey: None, events, running: false };
            proof {
                let out = lower_block(b.deep_view())->Ok_0;
                assert(d0.push(DiagModel::UnknownCondition) + lower_functions(
                    b.functions.deep_view(),
                )->Ok_0.diags =~= d0 + (seq![DiagModel::UnknownCondition] + lower_functions(
                    b.functions.deep_view(),
                )->Ok_0.diags));
            }
            Ok(mb)
        },
        None => {
            let events = match lower_functions_exec(&b.functions, diagnostics) {
                Ok(evs) => evs,
                Err(e) => {
                    return Err(e);
                },
            };
            Ok(MacroBlock { hotkey: None, events, running: false })
        },
    }
}

proof fn lemma_compile_err(pre: Seq<AhkBlockModel>, path: Seq<char>, lm: Seq<Seq<char>>, e: ErrorModel)
    requires
        fold_lines(pass_one_state(), lm) == Err::<CompState, ErrorModel>(e),
    ensures
        spec_compile_into(pre, path, lm) == Err::<CompiledMacro, ErrorModel>(e),
{
}

proof fn lemma_compile_err_lowering(
    pre: Seq<AhkBlockModel>,
    path: Seq<char>,
    lm: Seq<Seq<char>>,
    all: Seq<AhkBlockModel>,
    e: ErrorModel,
)
    requires
        pass_one(lm) is Ok,
        all == pre + pass_one(lm)->Ok_0.blocks,
        lower_blocks(all) == Err::<LoweredBlocks, ErrorModel>(e),
    ensures
        spec_compile_into(pre, path, lm) == Err::<CompiledMacro, ErrorModel>(e),
{
}

proof fn lemma_fold_err(init: CompState, lm: Seq<Seq<char>>, st: CompState, li: int, e: ErrorModel)
    requires
        0 <= li < lm.len(),
        fold_lines(init, lm) == fold_lines(st, lm.skip(li)),
        step_line(st, lm[li]) == Err::<CompState, ErrorModel>(e),
    ensures
        fold_lines(init, lm) == Err::<CompState, ErrorModel>(e),
{
    assert(lm.skip(li)[0] == lm[li]);
}

proof fn lemma_fold_step(
    init: CompState,
    lm: Seq<Seq<char>>,
    st: CompState,
    li: int,
    st2: CompState,
)
    requires
        0 <= li < lm.len(),
        fold_lines(init, lm) == fold_lines(st, lm.skip(li)),
        step_line(st, lm[li]) == Ok::<CompState, ErrorModel>(st2),
    ensures
        fold_lines(init, lm) == fold_lines(st2, lm.skip(li + 1)),
{
    assert(lm.skip(li)[0] == lm[li]);
    assert(lm.skip(li).drop_first() =~= lm.skip(li + 1));
}

impl AhkFile {
    /// Compiles the script held as `lines`, as [`spec_compile_into`]
    /// describes: the lines are grouped into blocks, which are appended to
    /// `self.blocks`, and every held block is then lowered into the returned
    /// macro, named after the script's path.  Diagnostics for non-fatal
    /// conditions are appended to `diagnostics`; a fatal error yields no
    /// macro at all.
    #[verifier::rlimit(60)]
    pub fn parse(&mut self, lines: &Vec<String>, diagnostics: &mut Vec<Diagnostic>) -> (r: Result<
        Macro,
        CompileError,
    >)
        ensures
            final(self).path == old(self).path,
            r is Ok <==> spec_compile_into(
                old(self).blocks.deep_view(),
                old(self).path@,
                lines.deep_view(),
            ) is Ok,
            r is Ok ==> {
                let out = spec_compile_into(
                    old(self).blocks.deep_view(),
                    old(self).path@,
                    lines.deep_view(),
                )->Ok_0;
                &&& r->Ok_0.deep_view() == out.m
                &&& final(diagnostics).deep_view() == old(diagnostics).deep_view() + out.diags
                &&& final(self).blocks.deep_view() == old(self).blocks.deep_view() + pass_one(
                    lines.deep_view(),
                )->Ok_0.blocks
            },
            r is Err ==> r->Err_0.deep_view() == spec_compile_into(
                old(self).blocks.deep_view(),
                old(self).path@,
                lines.deep_view(),
            )->Err_0,
    {
        let ghost lm = lines.deep_view();
        let ghost pre_blocks = self.blocks.deep_view();
        let ghost init = pass_one_state();
        let ghost d0 = diagnostics.deep_view();
        let mut new_blocks: Vec<AhkBlock> = Vec::new();
        let mut cur = AhkBlock { condition: None, functions: Vec::new() };
        let ghost mut dacc: Seq<DiagModel> = seq![];
        let mut li: usize = 0;
        proof {
            assert(lm.skip(0) =~= lm);
            assert(new_blocks.deep_view() =~= init.blocks);
            assert(cur.deep_view().functions =~= empty_block_model().functions);
            assert(cur.deep_view() == empty_block_model());
            assert(d0 + dacc =~= d0);
        }
        while li < lines.len()
            invariant
                li <= lines@.len(),
                lm == lines.deep_view(),
                lm.len() == lines@.len(),
                init == pass_one_state(),
                d0 == old(diagnostics).deep_view(),
                pre_blocks == old(self).blocks.deep_view(),
                self.path == old(self).path,
                self.blocks == old(self).blocks,
                diagnostics.deep_view() == d0 + dacc,
                fold_lines(init, lm) == fold_lines(
                    CompState {
                        blocks: new_blocks.deep_view(),
                        cur: cur.deep_view(),
                        diags: dacc,
                    },
                    lm.skip(li as int),
                ),
            decreases lines@.len() - li,
        {
            let ghost st = CompState {
                blocks: new_blocks.deep_view(),
                cur: cur.deep_view(),
                diags: dacc,
            };
            let ghost line_m = lm[li as int];
            let lc = string_to_chars(lines[li].as_str());
            let toks = split_whitespace_chars(&lc);
            if toks.len() == 0 {
                proof {
                    assert(read_line(line_m).0.len() == 0);
                    assert(step_line(st, line_m) == Ok::<CompState, ErrorModel>(st));
                    lemma_fold_step(init, lm, st, li as int, st);
                }
                li = li + 1;
                continue;
            }
            proof {
                crate::text::lemma_token_view(&toks, 0);
            }
            let low0 = lower_chars(&toks[0]);
            let func = trim_chars(&low0, TrimSet::Comma);
            proof {
                assert(read_line(line_m).0 == func@);
                assert(read_line(line_m).1 == toks.deep_view().drop_first());
            }
            if func.len() == 0 || func[0] == ';' {
                proof {
                    assert(step_line(st, line_m) == Ok::<CompState, ErrorModel>(st));
                    lemma_fold_step(init, lm, st, li as int, st);
                }
                li = li + 1;
                continue;
            }
            if contains_str(&func, "dllcall") {
                let parts = split_char_chars(&func, '(');
                proof {
                    crate::text::lemma_split_char_len(func@, '(');
                }
                let rest = tail_tokens(&parts);
                let sp_paren = one_char('(');
                let joined = join_chars(&rest, &sp_paren);
                let popped = if joined.len() > 0 {
                    let p = slice_chars(&joined, 0, joined.len() - 1);
                    proof {
                        assert(p@ =~= joined@.drop_last());
                    }
                    p
                } else {
                    joined
                };
                let trimmed = trim_chars(&popped, TrimSet::Paren);
                let cargs = split_char_chars(&trimmed, ',');
                proof {
                    crate::text::lemma_split_char_len(trimmed@, ',');
                    crate::text::lemma_token_view(&cargs, 0);
                    assert(dllcall_args_of(func@) == cargs.deep_view());
                }
                if chars_eq_str(&cargs[0], "\"mouse_event\"") {
                    if cargs.len() <= 2 {
                        proof {
                            lemma_fold_err(
                                init,
                                lm,
                                st,
                                li as int,
                                ErrorModel::MissingArgument,
                            );
                            lemma_compile_err(
                                pre_blocks,
                                old(self).path@,
                                lm,
                                ErrorModel::MissingArgument,
                            );
                        }
                        return Err(CompileError::MissingArgument);
                    }
                    proof {
                        crate::text::lemma_token_view(&cargs, 2);
                    }
                    let flags = match parse_u16_chars(&cargs[2]) {
                        Some(f) => f,
                        None => {
                            let e = CompileError::BadNumber(chars_to_string(&cargs[2]));
                            proof {
                                lemma_fold_err(init, lm, st, li as int, e.deep_view());
                                lemma_compile_err(pre_blocks, old(self).path@, lm, e.deep_view());
                            }
                            return Err(e);
                        },
                    };
                    if cargs.len() <= 6 {
                        proof {
                            lemma_fold_err(
                                init,
                                lm,
                                st,
                                li as int,
                                ErrorModel::MissingArgument,
                            );
                            lemma_compile_err(
                                pre_blocks,
                                old(self).path@,
                                lm,
                                ErrorModel::MissingArgument,
                            );
                        }
                        return Err(CompileError::MissingArgument);
                    }
                    proof {
                        crate::text::lemma_token_view(&cargs, 4);
                        crate::text::lemma_token_view(&cargs, 6);
                    }
                    let x = match parse_i32_chars(&cargs[4]) {
                        Some(v) => v,
                        None => {
                            let e = CompileError::BadNumber(chars_to_string(&cargs[4]));
                            proof {
                                lemma_fold_err(init, lm, st, li as int, e.deep_view());
                                lemma_compile_err(pre_blocks, old(self).path@, lm, e.deep_view());
                            }
                            return Err(e);
                        },
                    };
                    let y = match parse_i32_chars(&cargs[6]) {
                        Some(v) => v,
                        None => {
                            let e = CompileError::BadNumber(chars_to_string(&cargs[6]));
                            proof {
                                lemma_fold_err(init, lm, st, li as int, e.deep_view());
                                lemma_compile_err(pre_blocks, old(self).path@, lm, e.deep_view());
                            }
                            return Err(e);
                        },
                    };
                    let kind = if flags & 0x01 != 0 {
                        AhkFunctions::MouseMove
                    } else {
                        AhkFunctions::DllCall
                    };
                    let absolute = flags & 0x8000 != 0;
                    let mut fargs: Vec<String> = Vec::new();
                    let xs = i32_to_chars(x);
                    fargs.push(chars_to_string(&xs));
                    let ys = i32_to_chars(y);
                    fargs.push(chars_to_string(&ys));
                    let bs = bool_to_chars(absolute);
                    fargs.push(chars_to_string(&bs));
                    let f = AhkFunction {
                        func: Some(kind),
                        args: fargs,
                        special_args: Vec::new(),
                    };
                    let ghost fm_spec = step_dllcall(st, func@)->Ok_0.cur.functions.last();
                    proof {
                        assert(f.args.deep_view() =~= seq![
                            dec_signed(x as int),
                            dec_signed(y as int),
                            if absolute {
                                "true"@
                            } else {
                                "false"@
                            },
                        ]);
                        assert(f.special_args.deep_view() =~= Seq::<Seq<char>>::empty());
                    }
                    let ghost pre_funcs = cur.deep_view().functions;
                    cur.functions.push(f);
                    let ghost st2 = CompState {
                        blocks: new_blocks.deep_view(),
                        cur: cur.deep_view(),
                        diags: dacc,
                    };
                    proof {
                        assert(st2.cur.functions =~= pre_funcs.push(f.deep_view()));
                        assert(step_line(st, line_m) == Ok::<CompState, ErrorModel>(st2));
                        lemma_fold_step(init, lm, st, li as int, st2);
                    }
                } else {
                    let d = Diagnostic::UnknownNativeCall(chars_to_string(&cargs[0]));
                    let ghost dm = d.deep_view();
                    let ghost dv0 = diagnostics.deep_view();
                    diagnostics.push(d);
                    proof {
                        assert(diagnostics.deep_view() =~= dv0.push(dm));
                        dacc = dacc.push(dm);
                        assert(dv0.push(dm) =~= d0 + dacc);
                        let st2 = CompState {
                            blocks: new_blocks.deep_view(),
                            cur: cur.deep_view(),
                            diags: dacc,
                        };
                        assert(st2.diags =~= st.diags.push(dm));
                        assert(step_line(st, line_m) == Ok::<CompState, ErrorModel>(st2));
                        lemma_fold_step(init, lm, st, li as int, st2);
                    }
                }
            } else if contains_str(&func, "::") {
                match hotkey_function(&func) {
                    Ok(f) => {
                        cur.condition = Some(f);
                        let ghost st2 = CompState {
                            blocks: new_blocks.deep_view(),
                            cur: cur.deep_view(),
                            diags: dacc,
                        };
                        proof {
                            assert(step_line(st, line_m) == Ok::<CompState, ErrorModel>(st2));
                            lemma_fold_step(init, lm, st, li as int, st2);
                        }
                    },
                    Err(e) => {
                        proof {
                            lemma_fold_err(init, lm, st, li as int, e.deep_view());
                            lemma_compile_err(pre_blocks, old(self).path@, lm, e.deep_view());
                        }
                        return Err(e);
                    },
                }
            } else {
                let args = tail_tokens(&toks);
                let ghost am = args.deep_view();
                if chars_eq_str(&func, "sleep") {
                    if args.len() == 0 {
                        proof {
                            lemma_fold_err(
                                init,
                                lm,
                                st,
                                li as int,
                                ErrorModel::MissingArgument,
                            );
                            lemma_compile_err(
                                pre_blocks,
                                old(self).path@,
                                lm,
                                ErrorModel::MissingArgument,
                            );
                        }
                        return Err(CompileError::MissingArgument);
                    }
                    proof {
                        crate::text::lemma_token_view(&args, 0);
                    }
                    let mut fargs: Vec<String> = Vec::new();
                    fargs.push(chars_to_string(&args[0]));
                    let f = AhkFunction {
                        func: Some(AhkFunctions::Sleep),
                        args: fargs,
                        special_args: Vec::new(),
                    };
                    let ghost pre_funcs = cur.deep_view().functions;
                    proof {
                        assert(f.args.deep_view() =~= seq![am[0]]);
                        assert(f.special_args.deep_view() =~= Seq::<Seq<char>>::empty());
                    }
                    cur.functions.push(f);
                    let ghost st2 = CompState {
                        blocks: new_blocks.deep_view(),
                        cur: cur.deep_view(),
                        diags: dacc,
                    };
                    proof {
                        assert(st2.cur.functions =~= pre_funcs.push(f.deep_view()));
                        assert(step_line(st, line_m) == Ok::<CompState, ErrorModel>(st2));
                        lemma_fold_step(init, lm, st, li as int, st2);
                    }
                } else if chars_eq_str(&func, "send") {
                    let sp = one_char(' ');
                    let joined = join_chars(&args, &sp);
                    let trimmed = trim_chars(&joined, TrimSet::Brace);
                    let mut fargs: Vec<String> = Vec::new();
                    fargs.push(chars_to_string(&trimmed));
                    let f = AhkFunction {
                        func: Some(AhkFunctions::Send),
                        args: fargs,
                        special_args: Vec::new(),
                    };
                    let ghost pre_funcs = cur.deep_view().functions;
                    proof {
                        assert(f.args.deep_view() =~= seq![
                            spec_trim(join_with(am, seq![' ']), TrimSet::Brace),
                        ]);
                        assert(f.special_args.deep_view() =~= Seq::<Seq<char>>::empty());
                    }
                    cur.functions.push(f);
                    let ghost st2 = CompState {
                        blocks: new_blocks.deep_view(),
                        cur: cur.deep_view(),
                        diags: dacc,
                    };
                    proof {
                        assert(st2.cur.functions =~= pre_funcs.push(f.deep_view()));
                        assert(step_line(st, line_m) == Ok::<CompState, ErrorModel>(st2));
                        lemma_fold_step(init, lm, st, li as int, st2);
                    }
                } else if chars_eq_str(&func, "loop") {
                    if args.len() == 0 {
                        proof {
                            lemma_fold_err(
                                init,
                                lm,
                                st,
                                li as int,
                                ErrorModel::MissingArgument,
                            );
                            lemma_compile_err(
                                pre_blocks,
                                old(self).path@,
                                lm,
                                ErrorModel::MissingArgument,
                            );
                        }
                        return Err(CompileError::MissingArgument);
                    }
                    proof {
                        crate::text::lemma_token_view(&args, 0);
                    }
                    let mut fargs: Vec<String> = Vec::new();
                    fargs.push(chars_to_string(&args[0]));
                    let f = AhkFunction {
                        func: Some(AhkFunctions::Loop),
                        args: fargs,
                        special_args: Vec::new(),
                    };
                    proof {
                        assert(f.args.deep_view() =~= seq![am[0]]);
                        assert(f.special_args.deep_view() =~= Seq::<Seq<char>>::empty());
                    }
                    new_blocks.push(cur);
                    cur = AhkBlock { condition: Some(f), functions: Vec::new() };
                    let ghost st2 = CompState {
                        blocks: new_blocks.deep_view(),
                        cur: cur.deep_view(),
                        diags: dacc,
                    };
                    proof {
                        assert(st2.blocks =~= st.blocks.push(st.cur));
                        assert(cur.deep_view().functions =~= Seq::<FunctionModel>::empty());
                        assert(step_line(st, line_m) == Ok::<CompState, ErrorModel>(st2));
                        lemma_fold_step(init, lm, st, li as int, st2);
                    }
                } else if chars_eq_str(&func, "{") {
                    proof {
                        assert(step_line(st, line_m) == Ok::<CompState, ErrorModel>(st));
                        lemma_fold_step(init, lm, st, li as int, st);
                    }
                } else if chars_eq_str(&func, "}") {
                    new_blocks.push(cur);
                    cur = AhkBlock { condition: None, functions: Vec::new() };
                    let ghost st2 = CompState {
                        blocks: new_blocks.deep_view(),
                        cur: cur.deep_view(),
                        diags: dacc,
                    };
                    proof {
                        assert(st2.blocks =~= st.blocks.push(st.cur));
                        assert(cur.deep_view().functions =~= Seq::<FunctionModel>::empty());
                        assert(cur.deep_view() == empty_block_model());
                        assert(step_line(st, line_m) == Ok::<CompState, ErrorModel>(st2));
                        lemma_fold_step(init, lm, st, li as int, st2);
                    }
                } else if chars_eq_str(&func, "click") {
                    let f = AhkFunction {
                        func: Some(AhkFunctions::Click),
                        args: strings_of(&args),
                        special_args: Vec::new(),
                    };
                    let ghost pre_funcs = cur.deep_view().functions;
                    proof {
                        assert(f.special_args.deep_view() =~= Seq::<Seq<char>>::empty());
                    }
                    cur.functions.push(f);
                    let ghost st2 = CompState {
                        blocks: new_blocks.deep_view(),
                        cur: cur.deep_view(),
                        diags: dacc,
                    };
                    proof {
                        assert(st2.cur.functions =~= pre_funcs.push(f.deep_view()));
                        assert(step_line(st, line_m) == Ok::<CompState, ErrorModel>(st2));
                        lemma_fold_step(init, lm, st, li as int, st2);
                    }
                } else if chars_eq_str(&func, "run") {
                    let sp = one_char(' ');
                    let joined = join_chars(&args, &sp);
                    let mut fargs: Vec<String> = Vec::new();
                    fargs.push(chars_to_string(&joined));
                    let f = AhkFunction {
                        func: Some(AhkFunctions::Run),
                        args: fargs,
                        special_args: Vec::new(),
                    };
                    let ghost pre_funcs = cur.deep_view().functions;
                    proof {
                        assert(f.args.deep_view() =~= seq![join_with(am, seq![' '])]);
                        assert(f.special_args.deep_view() =~= Seq::<Seq<char>>::empty());
                    }
                    cur.functions.push(f);
                    let ghost st2 = CompState {
                        blocks: new_blocks.deep_view(),
                        cur: cur.deep_view(),
                        diags: dacc,
                    };
                    proof {
                        assert(st2.cur.functions =~= pre_funcs.push(f.deep_view()));
                        assert(step_line(st, line_m) == Ok::<CompState, ErrorModel>(st2));
                        lemma_fold_step(init, lm, st, li as int, st2);
                    }
                } else {
                    let d = Diagnostic::UnknownDirective(chars_to_string(&func));
                    let ghost dm = d.deep_view();
                    let ghost dv0 = diagnostics.deep_view();
                    diagnostics.push(d);
                    proof {
                        assert(diagnostics.deep_view() =~= dv0.push(dm));
                        dacc = dacc.push(dm);
                        assert(dv0.push(dm) =~= d0 + dacc);
                        let st2 = CompState {
                            blocks: new_blocks.deep_view(),
                            cur: cur.deep_view(),
                            diags: dacc,
                        };
                        assert(st2.diags =~= st.diags.push(dm));
                        assert(step_line(st, line_m) == Ok::<CompState, ErrorModel>(st2));
                        lemma_fold_step(init, lm, st, li as int, st2);
                    }
                }
            }
            li = li + 1;
        }
        let ghost st_end = CompState {
            blocks: new_blocks.deep_view(),
            cur: cur.deep_view(),
            diags: dacc,
        };
        proof {
            assert(lm.skip(lm.len() as int) =~= Seq::<Seq<char>>::empty());
            assert(fold_lines(init, lm) == Ok::<CompState, ErrorModel>(st_end));
            assert(pass_one(lm) == Ok::<CompState, ErrorModel>(flushed(st_end)));
        }
        new_blocks.push(cur);
        proof {
            assert(new_blocks.deep_view() =~= flushed(st_end).blocks);
        }
        let ghost pass_blocks = new_blocks.deep_view();
        self.blocks.append(&mut new_blocks);
        proof {
            assert forall|j: int| 0 <= j < self.blocks@.len() implies self.blocks.deep_view()[j]
                == (pre_blocks + pass_blocks)[j] by {
                assert(self.blocks.deep_view()[j] == self.blocks@[j].deep_view());
            }
            assert(self.blocks.deep_view() =~= pre_blocks + pass_blocks);
        }
        let ghost all = self.blocks.deep_view();
        let ghost d1 = diagnostics.deep_view();
        let mut mblocks: Vec<MacroBlock> = Vec::new();
        let ghost mut dacc2: Seq<DiagModel> = seq![];
        let mut bi: usize = 0;
        proof {
            assert(all.skip(0) =~= all);
            assert(d1 + dacc2 =~= d1);
            if lower_blocks(all) is Ok {
                assert(mblocks.deep_view() + lower_blocks(all)->Ok_0.blocks =~= lower_blocks(
                    all,
                )->Ok_0.blocks);
                assert(dacc2 + lower_blocks(all)->Ok_0.diags =~= lower_blocks(all)->Ok_0.diags);
            }
        }
        while bi < self.blocks.len()
            invariant
                bi <= self.blocks@.len(),
                all == self.blocks.deep_view(),
                all.len() == self.blocks@.len(),
                lm == lines.deep_view(),
                d0 == old(diagnostics).deep_view(),
                pre_blocks == old(self).blocks.deep_view(),
                pass_one(lm) is Ok,
                all == pre_blocks + pass_one(lm)->Ok_0.blocks,
                d1 == d0 + pass_one(lm)->Ok_0.diags,
                diagnostics.deep_view() == d1 + dacc2,
                self.path == old(self).path,
                lower_blocks(all.skip(bi as int)) is Ok ==> lower_blocks(all) is Ok
                    && lower_blocks(all)->Ok_0.blocks == mblocks.deep_view() + lower_blocks(
                    all.skip(bi as int),
                )->Ok_0.blocks && lower_blocks(all)->Ok_0.diags == dacc2 + lower_blocks(
                    all.skip(bi as int),
                )->Ok_0.diags,
                lower_blocks(all.skip(bi as int)) is Err ==> lower_blocks(all) == lower_blocks(
                    all.skip(bi as int),
                ),
            decreases self.blocks@.len() - bi,
        {
            proof {
                assert(all.skip(bi as int)[0] == all[bi as int]);
                assert(all.skip(bi as int).drop_first() =~= all.skip(bi + 1));
            }
            let ghost pre = mblocks.deep_view();
            let ghost dpre = dacc2;
            let step = lower_block_exec(&self.blocks[bi], diagnostics);
            match step {
                Ok(mb) => {
                    let ghost mbm = mb.deep_view();
                    mblocks.push(mb);
                    proof {
                        dacc2 = dacc2 + lower_block(all[bi as int])->Ok_0.diags;
                        assert(mblocks.deep_view() =~= pre.push(mbm));
                        if lower_blocks(all.skip(bi + 1)) is Ok {
                            assert(pre + (seq![mbm] + lower_blocks(all.skip(bi + 1))->Ok_0.blocks)
                                =~= mblocks.deep_view() + lower_blocks(
                                all.skip(bi + 1),
                            )->Ok_0.blocks);
                            assert(dpre + (lower_block(all[bi as int])->Ok_0.diags + lower_blocks(
                                all.skip(bi + 1),
                            )->Ok_0.diags) =~= dacc2 + lower_blocks(all.skip(bi + 1))->Ok_0.diags);
                        }
                    }
                },
                Err(e) => {
                    proof {
                        lemma_compile_err_lowering(
                            pre_blocks,
                            old(self).path@,
                            lm,
                            all,
                            e.deep_view(),
                        );
                    }
                    return Err(e);
                },
            }
            bi = bi + 1;
        }
        proof {
            assert(all.skip(all.len() as int) =~= Seq::<AhkBlockModel>::empty());
            assert(mblocks.deep_view() + Seq::<BlockModel>::empty() =~= mblocks.deep_view());
            assert(dacc2 + Seq::<DiagModel>::empty() =~= dacc2);
        }
        let m = Macro { name: self.path.clone(), blocks: mblocks };
        proof {
            let out = spec_compile_into(pre_blocks, old(self).path@, lm)->Ok_0;
            assert(m.deep_view().blocks =~= out.m.blocks);
            assert(diagnostics.deep_view() =~= d0 + out.diags);
        }
        Ok(m)
    }
}

/// An unrecognized directive is non-fatal: the line contributes no function
/// and no block boundary, only a diagnostic naming it, and compilation of
/// later lines goes on from the very same state.
pub proof fn lemma_unknown_directive(st: CompState, line: Seq<char>)
    requires
        ({
            let (func, args) = read_line(line);
            &&& func.len() > 0
            &&& func[0] != ';'
            &&& !crate::text::has_sub(func, "dllcall"@)
            &&& !crate::text::has_sub(func, "::"@)
            &&& func != "sleep"@
            &&& func != "send"@
            &&& func != "loop"@
            &&& func != "{"@
            &&& func != "}"@
            &&& func != "click"@
            &&& func != "run"@
        }),
    ensures
        step_line(st, line) == Ok::<CompState, ErrorModel>(
            with_diag(st, DiagModel::UnknownDirective(read_line(line).0)),
        ),
{
}

/// A native mouse call the block compiler recognized lowers to exactly the
/// mouse move its flags and coordinates named: the coordinate and
/// absoluteness arguments it wrote read back unchanged, with no diagnostics.
pub proof fn lemma_native_mouse_move_lowers(x: i32, y: i32, absolute: bool)
    ensures
        ({
            let f = FunctionModel {
                func: Some(AhkFunctions::MouseMove),
                args: seq![
                    dec_signed(x as int),
                    dec_signed(y as int),
                    if absolute {
                        "true"@
                    } else {
                        "false"@
                    },
                ],
                special_args: seq![],
            };
            lower_function(f) == Ok::<LowerOut, ErrorModel>(
                LowerOut {
                    event: Some(EventModel::MouseMove(MouseMoveEvent { x, y, absolute })),
                    diags: seq![],
                },
            )
        }),
{
    crate::text::lemma_dec_signed_val(x as int);
    crate::text::lemma_dec_signed_val(y as int);
    if !absolute {
        reveal_strlit("true");
        reveal_strlit("false");
        assert("false"@.len() == 5 && "true"@.len() == 4);
    }
}

} // verus!
