use pcode::keymap::{
    held_key_action, normal_key, route_key, Key, KeyContext, Modifiers, NormalAction, NormalState, RepeatAction,
    Route, SkillAlias,
};
use pcode::mode::Mode;

fn ctx(mode: Mode) -> KeyContext {
    KeyContext {
        mode,
        waiting: false,
        popup_active: false,
        which_key_popup: false,
        fkey_help: false,
        has_snippet: false,
        in_sed_buffer: false,
    }
}

const PLAIN: Modifiers = Modifiers { ctrl: false, alt: false, meta: false, shift: false };
const CTRL: Modifiers = Modifiers { ctrl: true, alt: false, meta: false, shift: false };
const ALT: Modifiers = Modifiers { ctrl: false, alt: true, meta: false, shift: false };
const META: Modifiers = Modifiers { ctrl: false, alt: false, meta: true, shift: false };

fn fresh() -> NormalState {
    NormalState { count: None, pending: None, last_action: None }
}

fn press(s: NormalState, keys: &str) -> (NormalState, NormalAction) {
    let mut st = s;
    let mut last = NormalAction::Nothing;
    for c in keys.chars() {
        let o = normal_key(st, Key::Char(c), PLAIN, false, false);
        st = o.state;
        last = o.action;
    }
    (st, last)
}

#[test]
fn merge_mode_takes_every_key() {
    let mut c = ctx(Mode::Merge);
    c.fkey_help = true;
    let r = route_key(&c, Key::Char('x'), CTRL);
    assert_eq!(r.route, Route::Merge);
    assert!(r.fkey_help);
}

#[test]
fn function_key_help_closes_on_other_keys() {
    let mut c = ctx(Mode::Normal);
    c.fkey_help = true;
    assert!(!route_key(&c, Key::Char('j'), PLAIN).fkey_help);
    assert!(route_key(&c, Key::Char('?'), PLAIN).fkey_help);
}

#[test]
fn ctrl_c_while_busy() {
    let mut c = ctx(Mode::Insert);
    assert_eq!(route_key(&c, Key::Char('c'), CTRL).route, Route::ModeKey);
    c.waiting = true;
    assert_eq!(route_key(&c, Key::Char('c'), CTRL).route, Route::BusyInterrupt);
}

#[test]
fn alt_keys_route() {
    let c = ctx(Mode::Normal);
    assert_eq!(route_key(&c, Key::Char('q'), ALT).route, Route::Quit);
    assert_eq!(route_key(&c, Key::Char('B'), META).route, Route::ShowBufferPicker);
    assert_eq!(route_key(&c, Key::Char('w'), ALT).route, Route::WriteBuffer);
    let mut sed = ctx(Mode::Normal);
    sed.in_sed_buffer = true;
    assert_eq!(route_key(&sed, Key::Char('W'), ALT).route, Route::ApplySedChanges);
    assert_eq!(route_key(&c, Key::Char('-'), ALT).route, Route::PrevBuffer);
    assert_eq!(route_key(&c, Key::Char('='), ALT).route, Route::NextBuffer);
    let mut picker = ctx(Mode::FilePicker);
    assert_eq!(route_key(&picker, Key::Char('e'), ALT).route, Route::CloseFilePicker);
    picker.waiting = true;
    assert_eq!(route_key(&picker, Key::Char('e'), ALT).route, Route::Nothing);
}

#[test]
fn function_keys_route() {
    let mut c = ctx(Mode::Normal);
    assert_eq!(route_key(&c, Key::F(1), PLAIN).route, Route::GitStatus);
    assert_eq!(route_key(&c, Key::F(2), PLAIN).route, Route::SkillByName(SkillAlias::Edit));
    assert_eq!(route_key(&c, Key::F(3), PLAIN).route, Route::SkillByName(SkillAlias::Full));
    assert_eq!(SkillAlias::Full.name(), "full");
    assert_eq!(route_key(&c, Key::F(12), PLAIN).route, Route::Nothing);
    c.has_snippet = true;
    assert_eq!(route_key(&c, Key::F(12), PLAIN).route, Route::CancelSnippet);
    c.has_snippet = false;
    c.popup_active = true;
    assert_eq!(route_key(&c, Key::F(8), PLAIN).route, Route::HidePopup);
    assert_eq!(route_key(&c, Key::F(5), PLAIN).route, Route::PopupKey);
    c.which_key_popup = true;
    assert_eq!(route_key(&c, Key::F(5), PLAIN).route, Route::ModeKey);
}

#[test]
fn busy_agent_allows_scrolling_only() {
    let mut c = ctx(Mode::Normal);
    c.waiting = true;
    assert_eq!(route_key(&c, Key::Char('j'), PLAIN).route, Route::BusyDown);
    assert_eq!(route_key(&c, Key::Up, PLAIN).route, Route::BusyUp);
    assert_eq!(route_key(&c, Key::Char(':'), PLAIN).route, Route::BusyCommand);
    assert_eq!(route_key(&c, Key::Char('i'), PLAIN).route, Route::Nothing);
    assert_eq!(route_key(&c, Key::Insert, PLAIN).route, Route::Nothing);
    let cmd = ctx(Mode::Command);
    assert_eq!(route_key(&cmd, Key::Char('i'), PLAIN).route, Route::CommandKey);
}

#[test]
fn counts_move_and_delete() {
    assert_eq!(press(fresh(), "12j").1, NormalAction::MoveDown(12));
    assert_eq!(press(fresh(), "3dd").1, NormalAction::Delete(3));
    assert_eq!(press(fresh(), "yy").1, NormalAction::Yank(1));
    assert_eq!(press(fresh(), "k").1, NormalAction::MoveUp(1));
    let (st, a) = press(fresh(), "10");
    assert_eq!(a, NormalAction::LineStart);
    assert_eq!(st.count, None);
}

#[test]
fn goto_line_and_top() {
    assert_eq!(press(fresh(), "5G").1, NormalAction::GotoLine(4));
    assert_eq!(press(fresh(), "G").1, NormalAction::GotoBottom);
    assert_eq!(press(fresh(), "gg").1, NormalAction::GotoTop);
    let (st, a) = press(fresh(), "g");
    assert_eq!(a, NormalAction::ShowWhichKey('g'));
    assert_eq!(st.pending, Some('g'));
}

#[test]
fn jumps_and_repeat() {
    let (st, a) = press(fresh(), "]h");
    assert_eq!(a, NormalAction::Jump(RepeatAction::NextHunk));
    assert_eq!(st.last_action, Some(RepeatAction::NextHunk));
    assert_eq!(press(st, ".").1, NormalAction::Jump(RepeatAction::NextHunk));
    assert_eq!(press(fresh(), "[f.").1, NormalAction::Jump(RepeatAction::PrevFunc));
    assert_eq!(press(fresh(), ".").1, NormalAction::Nothing);
    assert_eq!(press(fresh(), "h").1, NormalAction::MoveLeft);
}

#[test]
fn leader_sequences() {
    assert_eq!(press(fresh(), ",gr").1, NormalAction::RevertHunk);
    assert_eq!(press(fresh(), ",pl").1, NormalAction::ApplyBufferPatches);
    assert_eq!(press(fresh(), ",pp").1, NormalAction::PasteClipboardPatches);
    assert_eq!(press(fresh(), "2p").1, NormalAction::Paste(2));
    let busy = normal_key(NormalState { count: None, pending: Some('P'), last_action: None }, Key::Char('l'), PLAIN, false, true);
    assert_eq!(busy.action, NormalAction::Nothing);
    assert_eq!(press(fresh(), "zz").1, NormalAction::ShowWhichKey('z'));
}

#[test]
fn modifiers_and_mode_switches() {
    let s = NormalState { count: Some(4), pending: Some('d'), last_action: None };
    let o = normal_key(s, Key::Char('d'), CTRL, false, false);
    assert_eq!(o.action, NormalAction::HalfPageDown);
    assert_eq!(o.state.count, None);
    let o = normal_key(s, Key::Char('w'), ALT, false, false);
    assert_eq!(o.action, NormalAction::Save);
    assert_eq!(o.state, s);
    let o = normal_key(s, Key::PageDown, PLAIN, false, false);
    assert_eq!(o.state.count, Some(4));
    assert_eq!(o.state.pending, None);
    let o = normal_key(s, Key::Char(':'), PLAIN, false, false);
    assert_eq!(o.action, NormalAction::EnterCommand);
    assert!(!o.close_hint);
    assert_eq!(normal_key(s, Key::Char('w'), PLAIN, true, false).action, NormalAction::ApplySedChanges);
    assert_eq!(normal_key(s, Key::Home, PLAIN, false, false).action, NormalAction::LineEnd);
    assert_eq!(normal_key(s, Key::Enter, PLAIN, false, false).action, NormalAction::InsertCleared);
}

#[test]
fn held_keys_move_one_line() {
    assert_eq!(held_key_action(Key::Down), NormalAction::MoveDown(1));
    assert_eq!(held_key_action(Key::Char('k')), NormalAction::MoveUp(1));
    assert_eq!(held_key_action(Key::Char('x')), NormalAction::Nothing);
}
