//! Key handling decisions: where a key press goes in the REPL, and what a
//! key does in normal mode with its pending prefix and count.

use vstd::prelude::*;
use crate::mode::Mode;
use crate::task::{digits_value, is_digit};

verus! {

/// A key, as the terminal reports it.
#[derive(Debug, Clone, Copy, PartialEq, Eq, Structural)]
pub enum Key {
    Char(char),
    F(u8),
    Enter,
    Tab,
    /// Shift-Tab.
    BackTab,
    Esc,
    Backspace,
    Delete,
    Insert,
    Left,
    Right,
    Up,
    Down,
    Home,
    End,
    PageUp,
    PageDown,
    Other,
}

/// The modifier keys held with a key.
#[derive(Debug, Clone, Copy, PartialEq, Eq, Structural)]
pub struct Modifiers {
    pub ctrl: bool,
    pub alt: bool,
    pub meta: bool,
    pub shift: bool,
}

/// What the REPL knows when a key arrives.
#[derive(Debug, Clone, Copy, PartialEq, Eq, Structural)]
pub struct KeyContext {
    pub mode: Mode,
    /// The agent is working.
    pub waiting: bool,
    pub popup_active: bool,
    /// The open popup is the which-key hint.
    pub which_key_popup: bool,
    /// The function-key help is shown.
    pub fkey_help: bool,
    /// A pasted snippet waits for its prompt.
    pub has_snippet: bool,
    /// The active buffer is the `:sed` review buffer.
    pub in_sed_buffer: bool,
}

/// Where a key press goes.
#[derive(Debug, Clone, Copy, PartialEq, Eq, Structural)]
pub enum Route {
    /// The merge view handles it.
    Merge,
    /// Ctrl-C while the agent works: say how to stop it.
    BusyInterrupt,
    /// The handler of the current mode handles it.
    ModeKey,
    CloseFilePicker,
    HidePopup,
    ShowTaskPicker,
    ShowBufferPicker,
    ShowFilePicker,
    Quit,
    WriteBuffer,
    ApplySedChanges,
    /// Delete lines (`dd` with the pending count).
    DeleteLines,
    CloseBuffer,
    PrevBuffer,
    NextBuffer,
    CancelSnippet,
    CancelAgent,
    GitHunkPopup,
    GitDiffMode,
    FunctionList,
    ApplyBufferPatches,
    Workflow,
    SkillPopup,
    GitStatus,
    GitLog,
    /// Switch to the skill group of this name.
    SkillByName(SkillAlias),
    PasteClipboard,
    PopupKey,
    CommandKey,
    /// While the agent works: scroll or open the command line.
    BusyDown,
    BusyUp,
    BusyCommand,
    Nothing,
}

/// The skill groups that F2 and F3 select.
#[derive(Debug, Clone, Copy, PartialEq, Eq, Structural)]
pub enum SkillAlias {
    Edit,
    Full,
}

impl SkillAlias {
    pub fn name(&self) -> (r: &'static str)
        ensures
            r@ == (match *self {
                SkillAlias::Edit => "edit"@,
                SkillAlias::Full => "full"@,
            }),
    {
        match self {
            SkillAlias::Edit => "edit",
            SkillAlias::Full => "full",
        }
    }
}

/// A routed key: where it goes, and whether the function-key help stays.
#[derive(Debug, Clone, Copy, PartialEq, Eq, Structural)]
pub struct Routed {
    pub route: Route,
    pub fkey_help: bool,
}

pub open spec fn is_char(k: Key, c: char) -> bool {
    k == Key::Char(c)
}

/// The route of a key press; the function-key help is dropped by any key
/// but `?` once the merge view is left aside.
pub open spec fn route_spec(ctx: KeyContext, key: Key, m: Modifiers) -> Routed {
    if ctx.mode == Mode::Merge {
        Routed { route: Route::Merge, fkey_help: ctx.fkey_help }
    } else {
        let help = ctx.fkey_help && is_char(key, '?');
        let alt = m.alt || m.meta;
        let r = if m.ctrl && is_char(key, 'c') {
            if ctx.waiting {
                Route::BusyInterrupt
            } else {
                Route::ModeKey
            }
        } else if m.ctrl && is_char(key, 'e') {
            if ctx.waiting {
                Route::Nothing
            } else if ctx.mode == Mode::FilePicker {
                Route::CloseFilePicker
            } else if ctx.popup_active {
                Route::HidePopup
            } else {
                Route::ShowTaskPicker
            }
        } else if alt && (is_char(key, 'b') || is_char(key, 'B')) {
            if ctx.popup_active {
                Route::HidePopup
            } else {
                Route::ShowBufferPicker
            }
        } else if alt && (is_char(key, 'q') || is_char(key, 'Q')) {
            Route::Quit
        } else if alt && (is_char(key, 'e') || is_char(key, 'E')) {
            if ctx.waiting {
                Route::Nothing
            } else if ctx.mode == Mode::FilePicker {
                Route::CloseFilePicker
            } else if ctx.popup_active {
                Route::HidePopup
            } else {
                Route::ShowFilePicker
            }
        } else if alt && (is_char(key, 'w') || is_char(key, 'W')) {
            if ctx.in_sed_buffer {
                Route::ApplySedChanges
            } else {
                Route::WriteBuffer
            }
        } else if alt && (is_char(key, 'd') || is_char(key, 'D')) {
            if ctx.waiting {
                Route::Nothing
            } else {
                Route::DeleteLines
            }
        } else if alt && (is_char(key, 'x') || is_char(key, 'X')) {
            Route::CloseBuffer
        } else if alt && is_char(key, '-') {
            Route::PrevBuffer
        } else if alt && is_char(key, '=') {
            Route::NextBuffer
        } else if key == Key::F(12) {
            if ctx.has_snippet {
                Route::CancelSnippet
            } else if ctx.waiting {
                Route::CancelAgent
            } else {
                Route::Nothing
            }
        } else if key == Key::F(4) {
            Route::GitHunkPopup
        } else if key == Key::F(7) {
            if ctx.waiting {
                Route::Nothing
            } else {
                Route::GitDiffMode
            }
        } else if key == Key::F(8) {
            if ctx.waiting {
                Route::Nothing
            } else if ctx.popup_active {
                Route::HidePopup
            } else {
                Route::FunctionList
            }
        } else if key == Key::F(9) {
            if ctx.waiting {
                Route::Nothing
            } else {
                Route::ApplyBufferPatches
            }
        } else if key == Key::F(11) {
            Route::Workflow
        } else if key == Key::F(10) {
            if ctx.popup_active {
                Route::HidePopup
            } else {
                Route::SkillPopup
            }
        } else if key == Key::F(1) {
            Route::GitStatus
        } else if key == Key::F(6) {
            Route::GitLog
        } else if key == Key::F(2) || key == Key::F(3) {
            if ctx.waiting {
                Route::Nothing
            } else if key == Key::F(2) {
                Route::SkillByName(SkillAlias::Edit)
            } else {
                Route::SkillByName(SkillAlias::Full)
            }
        } else if key == Key::Insert {
            if ctx.waiting {
                Route::Nothing
            } else {
                Route::PasteClipboard
            }
        } else if ctx.popup_active && !ctx.which_key_popup {
            Route::PopupKey
        } else if ctx.mode == Mode::Command {
            Route::CommandKey
        } else if ctx.waiting {
            if is_char(key, 'j') || key == Key::Down {
                Route::BusyDown
            } else if is_char(key, 'k') || key == Key::Up {
                Route::BusyUp
            } else if is_char(key, ':') {
                Route::BusyCommand
            } else {
                Route::Nothing
            }
        } else {
            Route::ModeKey
        };
        Routed { route: r, fkey_help: help }
    }
}

fn char_is(key: Key, c: char) -> (r: bool)
    ensures
        r == is_char(key, c),
{
    match key {
        Key::Char(k) => k == c,
        _ => false,
    }
}

fn f_is(key: Key, n: u8) -> (r: bool)
    ensures
        r == (key == Key::F(n)),
{
    match key {
        Key::F(k) => k == n,
        _ => false,
    }
}

/// Routes a key press.
pub fn route_key(ctx: &KeyContext, key: Key, m: Modifiers) -> (r: Routed)
    ensures
        r == route_spec(*ctx, key, m),
{
    if ctx.mode == Mode::Merge {
        return Routed { route: Route::Merge, fkey_help: ctx.fkey_help };
    }
    let help = ctx.fkey_help && char_is(key, '?');
    let alt = m.alt || m.meta;
    let r = if m.ctrl && char_is(key, 'c') {
        if ctx.waiting {
            Route::BusyInterrupt
        } else {
            Route::ModeKey
        }
    } else if m.ctrl && char_is(key, 'e') {
        if ctx.waiting {
            Route::Nothing
        } else if ctx.mode == Mode::FilePicker {
            Route::CloseFilePicker
        } else if ctx.popup_active {
            Route::HidePopup
        } else {
            Route::ShowTaskPicker
        }
    } else if alt && (char_is(key, 'b') || char_is(key, 'B')) {
        if ctx.popup_active {
            Route::HidePopup
        } else {
            Route::ShowBufferPicker
        }
    } else if alt && (char_is(key, 'q') || char_is(key, 'Q')) {
        Route::Quit
    } else if alt && (char_is(key, 'e') || char_is(key, 'E')) {
        if ctx.waiting {
            Route::Nothing
        } else if ctx.mode == Mode::FilePicker {
            Route::CloseFilePicker
        } else if ctx.popup_active {
            Route::HidePopup
        } else {
            Route::ShowFilePicker
        }
    } else if alt && (char_is(key, 'w') || char_is(key, 'W')) {
        if ctx.in_sed_buffer {
            Route::ApplySedChanges
        } else {
            Route::WriteBuffer
        }
    } else if alt && (char_is(key, 'd') || char_is(key, 'D')) {
        if ctx.waiting {
            Route::Nothing
        } else {
            Route::DeleteLines
        }
    } else if alt && (char_is(key, 'x') || char_is(key, 'X')) {
        Route::CloseBuffer
    } else if alt && char_is(key, '-') {
        Route::PrevBuffer
    } else if alt && char_is(key, '=') {
        Route::NextBuffer
    } else if f_is(key, 12) {
        if ctx.has_snippet {
            Route::CancelSnippet
        } else if ctx.waiting {
            Route::CancelAgent
        } else {
            Route::Nothing
        }
    } else if f_is(key, 4) {
        Route::GitHunkPopup
    } else if f_is(key, 7) {
        if ctx.waiting {
            Route::Nothing
        } else {
            Route::GitDiffMode
        }
    } else if f_is(key, 8) {
        if ctx.waiting {
            Route::Nothing
        } else if ctx.popup_active {
            Route::HidePopup
        } else {
            Route::FunctionList
        }
    } else if f_is(key, 9) {
        if ctx.waiting {
            Route::Nothing
        } else {
            Route::ApplyBufferPatches
        }
    } else if f_is(key, 11) {
        Route::Workflow
    } else if f_is(key, 10) {
        if ctx.popup_active {
            Route::HidePopup
        } else {
            Route::SkillPopup
        }
    } else if f_is(key, 1) {
        Route::GitStatus
    } else if f_is(key, 6) {
        Route::GitLog
    } else if f_is(key, 2) || f_is(key, 3) {
        if ctx.waiting {
            Route::Nothing
        } else if f_is(key, 2) {
            Route::SkillByName(SkillAlias::Edit)
        } else {
            Route::SkillByName(SkillAlias::Full)
        }
    } else if matches!(key, Key::Insert) {
        if ctx.waiting {
            Route::Nothing
        } else {
            Route::PasteClipboard
        }
    } else if ctx.popup_active && !ctx.which_key_popup {
        Route::PopupKey
    } else if ctx.mode == Mode::Command {
        Route::CommandKey
    } else if ctx.waiting {
        if char_is(key, 'j') || matches!(key, Key::Down) {
            Route::BusyDown
        } else if char_is(key, 'k') || matches!(key, Key::Up) {
            Route::BusyUp
        } else if char_is(key, ':') {
            Route::BusyCommand
        } else {
            Route::Nothing
        }
    } else {
        Route::ModeKey
    };
    Routed { route: r, fkey_help: help }
}

/// A jump that `.` repeats.
#[derive(Debug, Clone, Copy, PartialEq, Eq, Structural)]
pub enum RepeatAction {
    NextHunk,
    PrevHunk,
    NextFunc,
    PrevFunc,
}

/// What normal mode remembers between keys: the count typed so far, the
/// prefix key waiting for its second key, and the last repeatable jump.
#[derive(Debug, Clone, Copy, PartialEq, Eq, Structural)]
pub struct NormalState {
    pub count: Option<usize>,
    pub pending: Option<char>,
    pub last_action: Option<RepeatAction>,
}

/// What a key does in normal mode.
#[derive(Debug, Clone, Copy, PartialEq, Eq, Structural)]
pub enum NormalAction {
    Nothing,
    /// Write the buffer (Alt-w).
    Save,
    HalfPageDown,
    HalfPageUp,
    ApplySedChanges,
    Insert,
    InsertAtEnd,
    InsertAtHome,
    /// Insert mode with an empty input line.
    InsertCleared,
    OpenInEditor,
    /// Switch between the commit list and the open commit.
    SwitchGitPair,
    EnterCommand,
    EnterSearch,
    ToggleKeyHelp,
    MoveLeft,
    MoveRight,
    LineStart,
    LineEnd,
    NextMatch,
    PrevMatch,
    ShowWhichKey(char),
    Jump(RepeatAction),
    CenterCursor,
    ApplyBufferPatches,
    PasteClipboardPatches,
    NextChange,
    PrevChange,
    MoveDown(usize),
    MoveUp(usize),
    LookUpWord,
    /// Go to the line with this index.
    GotoLine(usize),
    GotoBottom,
    GotoTop,
    RevertHunk,
    Paste(usize),
    Yank(usize),
    Delete(usize),
    Undo,
    /// A digit was added to the count.
    Count,
    Visual,
    VisualLine,
}

/// The new state, the action, and whether the which-key hint is closed.
#[derive(Debug, Clone, Copy, PartialEq, Eq, Structural)]
pub struct NormalOutcome {
    pub state: NormalState,
    pub action: NormalAction,
    pub close_hint: bool,
}

pub open spec fn count_or_one(s: NormalState) -> nat {
    match s.count {
        Some(n) => n as nat,
        None => 1,
    }
}

/// The count after typing digit `d` (`1` to `9`).
pub open spec fn count_with_digit(s: NormalState, d: nat) -> int {
    match s.count {
        Some(n) => n * 10 + d,
        None => d as int,
    }
}

pub open spec fn is_nonzero_digit(k: Key) -> bool {
    k matches Key::Char(c) && '1' <= c <= '9'
}

pub open spec fn digit_of(k: Key) -> nat {
    match k {
        Key::Char(c) => (c as u32 - '0' as u32) as nat,
        _ => 0,
    }
}

/// Done: the count is dropped, the prefix too, and the hint closed.
pub open spec fn done(s: NormalState, a: NormalAction) -> NormalOutcome {
    NormalOutcome { state: NormalState { count: None, pending: None, ..s }, action: a, close_hint: true }
}

/// Waiting for a second key after `c`.
pub open spec fn prefix(s: NormalState, c: char) -> NormalOutcome {
    NormalOutcome { state: NormalState { pending: Some(c), ..s }, action: NormalAction::ShowWhichKey(c), close_hint: false }
}

/// What a key does in normal mode. `in_sed_buffer` says that the active
/// buffer is the `:sed` review buffer, `waiting` that the agent works.
pub open spec fn normal_spec(s: NormalState, key: Key, m: Modifiers, in_sed_buffer: bool, waiting: bool) -> NormalOutcome {
    let amount = count_or_one(s);
    if m.alt && is_char(key, 'w') {
        NormalOutcome { state: s, action: NormalAction::Save, close_hint: false }
    } else if m.ctrl {
        done(
            s,
            if is_char(key, 'd') || is_char(key, 'f') {
                NormalAction::HalfPageDown
            } else if is_char(key, 'u') || is_char(key, 'b') {
                NormalAction::HalfPageUp
            } else {
                NormalAction::Nothing
            },
        )
    } else {
        match key {
            Key::Char('w') => done(s, if in_sed_buffer { NormalAction::ApplySedChanges } else { NormalAction::Nothing }),
            Key::Char('i') => done(s, NormalAction::Insert),
            Key::Char('a') | Key::Char('A') => done(s, NormalAction::InsertAtEnd),
            Key::Char('I') => done(s, NormalAction::InsertAtHome),
            Key::Char('o') => done(s, NormalAction::OpenInEditor),
            Key::Tab => done(s, NormalAction::SwitchGitPair),
            Key::Char('>') => done(s, NormalAction::InsertCleared),
            Key::Char(':') => NormalOutcome {
                state: NormalState { count: None, pending: None, ..s },
                action: NormalAction::EnterCommand,
                close_hint: false,
            },
            Key::Left => done(s, NormalAction::MoveLeft),
            Key::Right => done(s, NormalAction::MoveRight),
            Key::Home | Key::End | Key::Char('$') => done(s, NormalAction::LineEnd),
            Key::Char('/') => done(s, NormalAction::EnterSearch),
            Key::Char('?') => done(s, NormalAction::ToggleKeyHelp),
            Key::Char('n') => done(s, NormalAction::NextMatch),
            Key::Char('N') => done(s, NormalAction::PrevMatch),
            Key::PageDown => NormalOutcome {
                state: NormalState { pending: None, ..s },
                action: NormalAction::HalfPageDown,
                close_hint: true,
            },
            Key::PageUp => NormalOutcome {
                state: NormalState { pending: None, ..s },
                action: NormalAction::HalfPageUp,
                close_hint: true,
            },
            Key::Char(']') => prefix(s, ']'),
            Key::Char('[') => prefix(s, '['),
            Key::Char('.') => done(
                s,
                match s.last_action {
                    Some(a) => NormalAction::Jump(a),
                    None => NormalAction::Nothing,
                },
            ),
            Key::Char('h') => if s.pending == Some(']') {
                done(NormalState { last_action: Some(RepeatAction::NextHunk), ..s }, NormalAction::Jump(RepeatAction::NextHunk))
            } else if s.pending == Some('[') {
                done(NormalState { last_action: Some(RepeatAction::PrevHunk), ..s }, NormalAction::Jump(RepeatAction::PrevHunk))
            } else {
                done(s, NormalAction::MoveLeft)
            },
            Key::Char('f') => if s.pending == Some(']') {
                done(NormalState { last_action: Some(RepeatAction::NextFunc), ..s }, NormalAction::Jump(RepeatAction::NextFunc))
            } else if s.pending == Some('[') {
                done(NormalState { last_action: Some(RepeatAction::PrevFunc), ..s }, NormalAction::Jump(RepeatAction::PrevFunc))
            } else {
                NormalOutcome { state: NormalState { pending: None, ..s }, action: NormalAction::Nothing, close_hint: true }
            },
            Key::Char('l') => if s.pending == Some('P') {
                done(s, if waiting { NormalAction::Nothing } else { NormalAction::ApplyBufferPatches })
            } else {
                done(s, NormalAction::NextChange)
            },
            Key::Char('L') => done(s, NormalAction::PrevChange),
            Key::Char('z') => if s.pending == Some('z') {
                done(s, NormalAction::CenterCursor)
            } else {
                NormalOutcome { state: s, action: NormalAction::ShowWhichKey('z'), close_hint: false }
            },
            Key::Char('0') => done(s, NormalAction::LineStart),
            Key::Char('j') | Key::Down => done(s, NormalAction::MoveDown(amount as usize)),
            Key::Char('k') | Key::Up => done(s, NormalAction::MoveUp(amount as usize)),
            Key::Char('K') => done(s, NormalAction::LookUpWord),
            Key::Char('G') => done(
                s,
                match s.count {
                    Some(n) => NormalAction::GotoLine(if n == 0 { 0 } else { (n - 1) as usize }),
                    None => NormalAction::GotoBottom,
                },
            ),
            Key::Char('g') => if s.pending == Some('g') {
                done(s, NormalAction::GotoTop)
            } else if s.pending == Some(',') {
                prefix(s, 'G')
            } else {
                prefix(s, 'g')
            },
            Key::Char(',') => prefix(s, ','),
            Key::Char('r') => done(s, if s.pending == Some('G') { NormalAction::RevertHunk } else { NormalAction::Nothing }),
            Key::Char('p') => if s.pending == Some(',') {
                prefix(s, 'P')
            } else if s.pending == Some('P') {
                done(s, if waiting { NormalAction::Nothing } else { NormalAction::PasteClipboardPatches })
            } else {
                done(s, NormalAction::Paste(amount as usize))
            },
            Key::Char('y') => if s.pending == Some('y') {
                done(s, NormalAction::Yank(amount as usize))
            } else {
                prefix(s, 'y')
            },
            Key::Char('d') => if s.pending == Some('d') {
                done(s, NormalAction::Delete(amount as usize))
            } else {
                prefix(s, 'd')
            },
            Key::Char('u') => done(s, NormalAction::Undo),
            Key::Enter | Key::Char(' ') => done(s, NormalAction::InsertCleared),
            Key::Char('v') => done(s, NormalAction::Visual),
            Key::Char('V') => done(s, NormalAction::VisualLine),
            _ => if is_nonzero_digit(key) {
                NormalOutcome {
                    state: NormalState { count: Some(count_with_digit(s, digit_of(key)) as usize), pending: None, ..s },
                    action: NormalAction::Count,
                    close_hint: true,
                }
            } else {
                done(s, NormalAction::Nothing)
            },
        }
    }
}

/// What a key does in normal mode. The count typed so far must take one
/// more digit without passing `usize::MAX`.
pub fn normal_key(s: NormalState, key: Key, m: Modifiers, in_sed_buffer: bool, waiting: bool) -> (r: NormalOutcome)
    requires
        is_nonzero_digit(key) && !m.ctrl && !(m.alt && is_char(key, 'w')) ==> count_with_digit(s, digit_of(key))
            <= usize::MAX,
    ensures
        r == normal_spec(s, key, m, in_sed_buffer, waiting),
{
    let amount: usize = match s.count {
        Some(n) => n,
        None => 1,
    };
    let clear = NormalState { count: None, pending: None, ..s };
    if m.alt && char_is(key, 'w') {
        return NormalOutcome { state: s, action: NormalAction::Save, close_hint: false };
    }
    if m.ctrl {
        let a = if char_is(key, 'd') || char_is(key, 'f') {
            NormalAction::HalfPageDown
        } else if char_is(key, 'u') || char_is(key, 'b') {
            NormalAction::HalfPageUp
        } else {
            NormalAction::Nothing
        };
        return NormalOutcome { state: clear, action: a, close_hint: true };
    }
    let keep_count = NormalState { pending: None, ..s };
    match key {
        Key::Char('w') => NormalOutcome {
            state: clear,
            action: if in_sed_buffer { NormalAction::ApplySedChanges } else { NormalAction::Nothing },
            close_hint: true,
        },
        Key::Char('i') => NormalOutcome { state: clear, action: NormalAction::Insert, close_hint: true },
        Key::Char('a') | Key::Char('A') => NormalOutcome { state: clear, action: NormalAction::InsertAtEnd, close_hint: true },
        Key::Char('I') => NormalOutcome { state: clear, action: NormalAction::InsertAtHome, close_hint: true },
        Key::Char('o') => NormalOutcome { state: clear, action: NormalAction::OpenInEditor, close_hint: true },
        Key::Tab => NormalOutcome { state: clear, action: NormalAction::SwitchGitPair, close_hint: true },
        Key::Char('>') => NormalOutcome { state: clear, action: NormalAction::InsertCleared, close_hint: true },
        Key::Char(':') => NormalOutcome { state: clear, action: NormalAction::EnterCommand, close_hint: false },
        Key::Left => NormalOutcome { state: clear, action: NormalAction::MoveLeft, close_hint: true },
        Key::Right => NormalOutcome { state: clear, action: NormalAction::MoveRight, close_hint: true },
        Key::Home | Key::End | Key::Char('$') => NormalOutcome { state: clear, action: NormalAction::LineEnd, close_hint: true },
        Key::Char('/') => NormalOutcome { state: clear, action: NormalAction::EnterSearch, close_hint: true },
        Key::Char('?') => NormalOutcome { state: clear, action: NormalAction::ToggleKeyHelp, close_hint: true },
        Key::Char('n') => NormalOutcome { state: clear, action: NormalAction::NextMatch, close_hint: true },
        Key::Char('N') => NormalOutcome { state: clear, action: NormalAction::PrevMatch, close_hint: true },
        Key::PageDown => NormalOutcome { state: keep_count, action: NormalAction::HalfPageDown, close_hint: true },
        Key::PageUp => NormalOutcome { state: keep_count, action: NormalAction::HalfPageUp, close_hint: true },
        Key::Char(']') => NormalOutcome {
            state: NormalState { pending: Some(']'), ..s },
            action: NormalAction::ShowWhichKey(']'),
            close_hint: false,
        },
        Key::Char('[') => NormalOutcome {
            state: NormalState { pending: Some('['), ..s },
            action: NormalAction::ShowWhichKey('['),
            close_hint: false,
        },
        Key::Char('.') => NormalOutcome {
            state: clear,
            action: match s.last_action {
                Some(a) => NormalAction::Jump(a),
                None => NormalAction::Nothing,
            },
            close_hint: true,
        },
        Key::Char('h') => {
            if s.pending == Some(']') {
                NormalOutcome {
                    state: NormalState { last_action: Some(RepeatAction::NextHunk), ..clear },
                    action: NormalAction::Jump(RepeatAction::NextHunk),
                    close_hint: true,
                }
            } else if s.pending == Some('[') {
                NormalOutcome {
                    state: NormalState { last_action: Some(RepeatAction::PrevHunk), ..clear },
                    action: NormalAction::Jump(RepeatAction::PrevHunk),
                    close_hint: true,
                }
            } else {
                NormalOutcome { state: clear, action: NormalAction::MoveLeft, close_hint: true }
            }
        },
        Key::Char('f') => {
            if s.pending == Some(']') {
                NormalOutcome {
                    state: NormalState { last_action: Some(RepeatAction::NextFunc), ..clear },
                    action: NormalAction::Jump(RepeatAction::NextFunc),
                    close_hint: true,
                }
            } else if s.pending == Some('[') {
                NormalOutcome {
                    state: NormalState { last_action: Some(RepeatAction::PrevFunc), ..clear },
                    action: NormalAction::Jump(RepeatAction::PrevFunc),
                    close_hint: true,
                }
            } else {
                NormalOutcome { state: keep_count, action: NormalAction::Nothing, close_hint: true }
            }
        },
        Key::Char('l') => {
            if s.pending == Some('P') {
                NormalOutcome {
                    state: clear,
                    action: if waiting { NormalAction::Nothing } else { NormalAction::ApplyBufferPatches },
                    close_hint: true,
                }
            } else {
                NormalOutcome { state: clear, action: NormalAction::NextChange, close_hint: true }
            }
        },
        Key::Char('L') => NormalOutcome { state: clear, action: NormalAction::PrevChange, close_hint: true },
        Key::Char('z') => {
            if s.pending == Some('z') {
                NormalOutcome { state: clear, action: NormalAction::CenterCursor, close_hint: true }
            } else {
                NormalOutcome { state: s, action: NormalAction::ShowWhichKey('z'), close_hint: false }
            }
        },
        Key::Char('0') => NormalOutcome { state: clear, action: NormalAction::LineStart, close_hint: true },
        Key::Char('j') | Key::Down => NormalOutcome { state: clear, action: NormalAction::MoveDown(amount), close_hint: true },
        Key::Char('k') | Key::Up => NormalOutcome { state: clear, action: NormalAction::MoveUp(amount), close_hint: true },
        Key::Char('K') => NormalOutcome { state: clear, action: NormalAction::LookUpWord, close_hint: true },
        Key::Char('G') => NormalOutcome {
            state: clear,
            action: match s.count {
                Some(n) => NormalAction::GotoLine(if n == 0 { 0 } else { n - 1 }),
                None => NormalAction::GotoBottom,
            },
            close_hint: true,
        },
        Key::Char('g') => {
            if s.pending == Some('g') {
                NormalOutcome { state: clear, action: NormalAction::GotoTop, close_hint: true }
            } else if s.pending == Some(',') {
                NormalOutcome {
                    state: NormalState { pending: Some('G'), ..s },
                    action: NormalAction::ShowWhichKey('G'),
                    close_hint: false,
                }
            } else {
                NormalOutcome {
                    state: NormalState { pending: Some('g'), ..s },
                    action: NormalAction::ShowWhichKey('g'),
                    close_hint: false,
                }
            }
        },
        Key::Char(',') => NormalOutcome {
            state: NormalState { pending: Some(','), ..s },
            action: NormalAction::ShowWhichKey(','),
            close_hint: false,
        },
        Key::Char('r') => NormalOutcome {
            state: clear,
            action: if s.pending == Some('G') { NormalAction::RevertHunk } else { NormalAction::Nothing },
            close_hint: true,
        },
        Key::Char('p') => {
            if s.pending == Some(',') {
                NormalOutcome {
                    state: NormalState { pending: Some('P'), ..s },
                    action: NormalAction::ShowWhichKey('P'),
                    close_hint: false,
                }
            } else if s.pending == Some('P') {
                NormalOutcome {
                    state: clear,
                    action: if waiting { NormalAction::Nothing } else { NormalAction::PasteClipboardPatches },
                    close_hint: true,
                }
            } else {
                NormalOutcome { state: clear, action: NormalAction::Paste(amount), close_hint: true }
            }
        },
        Key::Char('y') => {
            if s.pending == Some('y') {
                NormalOutcome { state: clear, action: NormalAction::Yank(amount), close_hint: true }
            } else {
                NormalOutcome {
                    state: NormalState { pending: Some('y'), ..s },
                    action: NormalAction::ShowWhichKey('y'),
                    close_hint: false,
                }
            }
        },
        Key::Char('d') => {
            if s.pending == Some('d') {
                NormalOutcome { state: clear, action: NormalAction::Delete(amount), close_hint: true }
            } else {
                NormalOutcome {
                    state: NormalState { pending: Some('d'), ..s },
                    action: NormalAction::ShowWhichKey('d'),
                    close_hint: false,
                }
            }
        },
        Key::Char('u') => NormalOutcome { state: clear, action: NormalAction::Undo, close_hint: true },
        Key::Enter | Key::Char(' ') => NormalOutcome { state: clear, action: NormalAction::InsertCleared, close_hint: true },
        Key::Char('v') => NormalOutcome { state: clear, action: NormalAction::Visual, close_hint: true },
        Key::Char('V') => NormalOutcome { state: clear, action: NormalAction::VisualLine, close_hint: true },
        Key::Char(c) => {
            if '1' <= c && c <= '9' {
                let d = (c as u32 - '0' as u32) as usize;
                let base: usize = match s.count {
                    Some(n) => n,
                    None => 0,
                };
                assert(base * 10 + d == count_with_digit(s, digit_of(key)));
                NormalOutcome {
                    state: NormalState { count: Some(base * 10 + d), pending: None, ..s },
                    action: NormalAction::Count,
                    close_hint: true,
                }
            } else {
                NormalOutcome { state: clear, action: NormalAction::Nothing, close_hint: true }
            }
        },
        _ => NormalOutcome { state: clear, action: NormalAction::Nothing, close_hint: true },
    }
}

/// No modifier held.
pub open spec fn plain() -> Modifiers {
    Modifiers { ctrl: false, alt: false, meta: false, shift: false }
}

/// Normal mode after the keys, typed without modifiers outside the review
/// buffer while the agent is idle: the last outcome.
pub open spec fn run(s: NormalState, ks: Seq<Key>) -> NormalOutcome
    decreases ks.len(),
{
    if ks.len() == 0 {
        NormalOutcome { state: s, action: NormalAction::Nothing, close_hint: false }
    } else {
        normal_spec(run(s, ks.drop_last()).state, ks.last(), plain(), false, false)
    }
}

/// The keys that type the characters.
pub open spec fn keys_of(cs: Seq<char>) -> Seq<Key>
    decreases cs.len(),
{
    if cs.len() == 0 {
        Seq::empty()
    } else {
        keys_of(cs.drop_last()).push(Key::Char(cs.last()))
    }
}

pub open spec fn nonzero_digits(ds: Seq<char>) -> bool {
    forall|i: int| 0 <= i < ds.len() ==> '1' <= #[trigger] ds[i] <= '9'
}

proof fn lemma_digits_prefix_value(ds: Seq<char>)
    requires
        ds.len() > 0,
        nonzero_digits(ds),
    ensures
        digits_value(ds.drop_last()) <= digits_value(ds),
{
}

proof fn lemma_count_typed(s: NormalState, ds: Seq<char>)
    requires
        s.count is None,
        s.pending is None,
        ds.len() > 0,
        nonzero_digits(ds),
        digits_value(ds) <= usize::MAX,
    ensures
        run(s, keys_of(ds)).state == (NormalState { count: Some(digits_value(ds) as usize), pending: None, ..s }),
    decreases ds.len(),
{
    let ks = keys_of(ds);
    assert(ks.drop_last() =~= keys_of(ds.drop_last()));
    let c = ds.last();
    assert('1' <= c <= '9');
    assert(ks.last() == Key::Char(c));
    if ds.len() == 1 {
        assert(ds.drop_last().len() == 0);
        assert(keys_of(ds.drop_last()) =~= Seq::<Key>::empty());
        assert(digits_value(ds.drop_last()) == 0);
    } else {
        assert(nonzero_digits(ds.drop_last())) by {
            assert forall|i: int| 0 <= i < ds.drop_last().len() implies '1' <= #[trigger] ds.drop_last()[i] <= '9' by {
                assert(ds.drop_last()[i] == ds[i]);
            }
        }
        lemma_digits_prefix_value(ds);
        lemma_count_typed(s, ds.drop_last());
    }
    assert(digits_value(ds) == digits_value(ds.drop_last()) * 10 + (c as u32 - '0' as u32) as nat);
}

/// A count typed before `j` moves down that many lines, and before `dd`
/// deletes that many lines: digits `1` to `9` (a `0` goes to the start of
/// the line), starting with no count and no prefix.
pub proof fn lemma_count_applies(s: NormalState, ds: Seq<char>)
    requires
        s.count is None,
        s.pending is None,
        ds.len() > 0,
        nonzero_digits(ds),
        digits_value(ds) <= usize::MAX,
    ensures
        run(s, keys_of(ds).push(Key::Char('j'))).action == NormalAction::MoveDown(digits_value(ds) as usize),
        run(s, keys_of(ds).push(Key::Char('d')).push(Key::Char('d'))).action == NormalAction::Delete(
            digits_value(ds) as usize,
        ),
        run(s, keys_of(ds).push(Key::Char('y')).push(Key::Char('y'))).action == NormalAction::Yank(
            digits_value(ds) as usize,
        ),
{
    lemma_count_typed(s, ds);
    let ks = keys_of(ds);
    reveal_with_fuel(run, 3);
    assert(ks.push(Key::Char('j')).drop_last() == ks);
    assert(ks.push(Key::Char('d')).drop_last() == ks);
    assert(ks.push(Key::Char('d')).push(Key::Char('d')).drop_last() == ks.push(Key::Char('d')));
    assert(ks.push(Key::Char('y')).drop_last() == ks);
    assert(ks.push(Key::Char('y')).push(Key::Char('y')).drop_last() == ks.push(Key::Char('y')));
}

/// `.` repeats the last jump: after `]h`, `[h`, `]f` or `[f`, the next `.`
/// makes the same jump again, whatever came before.
pub proof fn lemma_dot_repeats(s: NormalState, p: char, k: char)
    requires
        p == ']' || p == '[',
        k == 'h' || k == 'f',
    ensures
        run(s, seq![Key::Char(p), Key::Char(k), Key::Char('.')]).action == run(
            s,
            seq![Key::Char(p), Key::Char(k)],
        ).action,
        run(s, seq![Key::Char(p), Key::Char(k)]).action is Jump,
{
    let a = seq![Key::Char(p)];
    let b = seq![Key::Char(p), Key::Char(k)];
    let c = seq![Key::Char(p), Key::Char(k), Key::Char('.')];
    reveal_with_fuel(run, 4);
    assert(a.drop_last() =~= Seq::<Key>::empty());
    assert(b.drop_last() =~= a);
    assert(c.drop_last() =~= b);
}

/// What a held-down key does while the screen catches up: only `j`/Down
/// and `k`/Up move, one line at a time.
pub fn held_key_action(key: Key) -> (r: NormalAction)
    ensures
        r == (if is_char(key, 'j') || key == Key::Down {
            NormalAction::MoveDown(1)
        } else if is_char(key, 'k') || key == Key::Up {
            NormalAction::MoveUp(1)
        } else {
            NormalAction::Nothing
        }),
{
    match key {
        Key::Char('j') | Key::Down => NormalAction::MoveDown(1),
        Key::Char('k') | Key::Up => NormalAction::MoveUp(1),
        _ => NormalAction::Nothing,
    }
}

} // verus!
