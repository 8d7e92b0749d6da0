use pcode::keymap::Key;
use pcode::mode::PopupMode;
use pcode::popup_keys::{popup_choice, popup_key, PopupChoice, PopupKeyAction};

#[test]
fn popup_keys_move_and_close() {
    assert_eq!(popup_key(PopupMode::Buffers, Key::Down), PopupKeyAction::Down);
    assert_eq!(popup_key(PopupMode::Buffers, Key::Tab), PopupKeyAction::Down);
    assert_eq!(popup_key(PopupMode::Buffers, Key::Up), PopupKeyAction::Up);
    assert_eq!(popup_key(PopupMode::Buffers, Key::BackTab), PopupKeyAction::Up);
    assert_eq!(popup_key(PopupMode::Buffers, Key::Enter), PopupKeyAction::Choose);
    assert_eq!(popup_key(PopupMode::Buffers, Key::Esc), PopupKeyAction::Close);
    assert_eq!(popup_key(PopupMode::Buffers, Key::Left), PopupKeyAction::Nothing);
}

#[test]
fn popup_keys_skill_list_letters() {
    assert_eq!(popup_key(PopupMode::SkillGroups, Key::Char('j')), PopupKeyAction::Down);
    assert_eq!(popup_key(PopupMode::SkillGroups, Key::Char('k')), PopupKeyAction::Up);
    assert_eq!(popup_key(PopupMode::SkillGroups, Key::Char('q')), PopupKeyAction::Close);
    assert_eq!(popup_key(PopupMode::SkillGroups, Key::Char('x')), PopupKeyAction::FilterPush('x'));
    assert_eq!(popup_key(PopupMode::FilePicker, Key::Char('j')), PopupKeyAction::FilterPush('j'));
    assert_eq!(popup_key(PopupMode::FilePicker, Key::Backspace), PopupKeyAction::FilterPop);
}

#[test]
fn popup_choice_per_kind() {
    assert_eq!(popup_choice(PopupMode::SkillGroups, false, Some(("Rust", Some(2))), 1), PopupChoice::SkillGroup(2));
    assert_eq!(
        popup_choice(PopupMode::FilePicker, false, Some(("src/main.rs", None)), 1),
        PopupChoice::OpenFile("src/main.rs".to_string())
    );
    assert_eq!(
        popup_choice(PopupMode::TaskFilePicker, false, Some((".impl/a.md", None)), 1),
        PopupChoice::OpenFile(".impl/a.md".to_string())
    );
    assert_eq!(popup_choice(PopupMode::Buffers, false, Some(("[2] x", Some(1))), 2), PopupChoice::ShowBuffer(1));
    assert_eq!(popup_choice(PopupMode::Buffers, false, Some(("[3] x", Some(2))), 2), PopupChoice::Nothing);
    assert_eq!(popup_choice(PopupMode::GitHunks, false, Some(("hunk", Some(10))), 1), PopupChoice::GotoLine(9));
    assert_eq!(popup_choice(PopupMode::FunctionList, false, Some(("L  10: fn", Some(9))), 1), PopupChoice::GotoLine(9));
    assert_eq!(popup_choice(PopupMode::WhichKey, false, Some(("g", Some(0))), 1), PopupChoice::Nothing);
}

#[test]
fn popup_choice_waits_for_agent() {
    assert_eq!(popup_choice(PopupMode::SkillGroups, true, Some(("Rust", Some(2))), 1), PopupChoice::Nothing);
    assert_eq!(popup_choice(PopupMode::FilePicker, false, None, 1), PopupChoice::Nothing);
}
