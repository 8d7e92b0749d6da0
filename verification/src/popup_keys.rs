//! Keys while a popup list is open, and what choosing its selected item
//! does in each kind of popup.

use vstd::prelude::*;
use crate::keymap::Key;
use crate::mode::PopupMode;

verus! {

/// What a key does to an open popup.
#[derive(Debug, Clone, Copy, PartialEq, Eq, Structural)]
pub enum PopupKeyAction {
    Down,
    Up,
    /// Act on the selected item, then close.
    Choose,
    Close,
    /// Type into the popup's filter.
    FilterPush(char),
    /// Delete the last character of the filter.
    FilterPop,
    Nothing,
}

pub open spec fn popup_key_spec(mode: PopupMode, key: Key) -> PopupKeyAction {
    match key {
        Key::Down | Key::Tab => PopupKeyAction::Down,
        Key::Up | Key::BackTab => PopupKeyAction::Up,
        Key::Enter => PopupKeyAction::Choose,
        Key::Esc => PopupKeyAction::Close,
        Key::Char(c) => if mode == PopupMode::SkillGroups && c == 'j' {
            PopupKeyAction::Down
        } else if mode == PopupMode::SkillGroups && c == 'k' {
            PopupKeyAction::Up
        } else if mode == PopupMode::SkillGroups && c == 'q' {
            PopupKeyAction::Close
        } else {
            PopupKeyAction::FilterPush(c)
        },
        Key::Backspace => PopupKeyAction::FilterPop,
        _ => PopupKeyAction::Nothing,
    }
}

/// What `key` does while a popup of kind `mode` is open. In the skill-group
/// list `j`, `k` and `q` move and close; elsewhere characters filter.
pub fn popup_key(mode: PopupMode, key: Key) -> (r: PopupKeyAction)
    ensures
        r == popup_key_spec(mode, key),
{
    match key {
        Key::Down | Key::Tab => PopupKeyAction::Down,
        Key::Up | Key::BackTab => PopupKeyAction::Up,
        Key::Enter => PopupKeyAction::Choose,
        Key::Esc => PopupKeyAction::Close,
        Key::Char(c) => {
            let skills = mode == PopupMode::SkillGroups;
            if skills && c == 'j' {
                PopupKeyAction::Down
            } else if skills && c == 'k' {
                PopupKeyAction::Up
            } else if skills && c == 'q' {
                PopupKeyAction::Close
            } else {
                PopupKeyAction::FilterPush(c)
            }
        },
        Key::Backspace => PopupKeyAction::FilterPop,
        _ => PopupKeyAction::Nothing,
    }
}

/// What choosing an item does.
#[derive(Debug, Clone, PartialEq, Eq)]
pub enum PopupChoice {
    Nothing,
    /// Make this skill group the active one.
    SkillGroup(usize),
    /// Open this file in a new buffer.
    OpenFile(String),
    /// Show the buffer at this index.
    ShowBuffer(usize),
    /// Put the cursor on this line (0-based) and centre it.
    GotoLine(usize),
}

/// The model of a choice.
pub enum ChoiceView {
    Nothing,
    SkillGroup(nat),
    OpenFile(Seq<char>),
    ShowBuffer(nat),
    GotoLine(nat),
}

impl View for PopupChoice {
    type V = ChoiceView;

    open spec fn view(&self) -> ChoiceView {
        match self {
            PopupChoice::Nothing => ChoiceView::Nothing,
            PopupChoice::SkillGroup(i) => ChoiceView::SkillGroup(*i as nat),
            PopupChoice::OpenFile(p) => ChoiceView::OpenFile(p@),
            PopupChoice::ShowBuffer(i) => ChoiceView::ShowBuffer(*i as nat),
            PopupChoice::GotoLine(l) => ChoiceView::GotoLine(*l as nat),
        }
    }
}

/// What choosing the selected item (its text and id, if there is one) does
/// in a popup of kind `mode`. Nothing is chosen while the agent works.
/// Hunk items carry 1-based line numbers, symbol items 0-based ones.
pub open spec fn choice_spec(
    mode: PopupMode,
    waiting: bool,
    item: Option<(Seq<char>, Option<usize>)>,
    buffer_count: nat,
) -> ChoiceView {
    if waiting {
        ChoiceView::Nothing
    } else {
        match item {
            None => ChoiceView::Nothing,
            Some((text, id)) => match mode {
                PopupMode::SkillGroups => match id {
                    Some(i) => ChoiceView::SkillGroup(i as nat),
                    None => ChoiceView::Nothing,
                },
                PopupMode::FilePicker | PopupMode::TaskFilePicker => ChoiceView::OpenFile(text),
                PopupMode::Buffers => match id {
                    Some(i) => if i < buffer_count {
                        ChoiceView::ShowBuffer(i as nat)
                    } else {
                        ChoiceView::Nothing
                    },
                    None => ChoiceView::Nothing,
                },
                PopupMode::GitHunks => match id {
                    Some(l) => ChoiceView::GotoLine((l - 1) as nat),
                    None => ChoiceView::Nothing,
                },
                PopupMode::FunctionList => match id {
                    Some(l) => ChoiceView::GotoLine(l as nat),
                    None => ChoiceView::Nothing,
                },
                _ => ChoiceView::Nothing,
            },
        }
    }
}

/// What choosing the selected item does; `item` is the item under the
/// cursor, `None` when the list is empty.
pub fn popup_choice(mode: PopupMode, waiting: bool, item: Option<(&str, Option<usize>)>, buffer_count: usize) -> (r:
    PopupChoice)
    requires
        !waiting && mode == PopupMode::GitHunks ==> match item {
            Some((_, Some(l))) => l >= 1,
            _ => true,
        },
    ensures
        r@ == choice_spec(
            mode,
            waiting,
            match item {
                Some((t, id)) => Some((t@, id)),
                None => None,
            },
            buffer_count as nat,
        ),
{
    if waiting {
        return PopupChoice::Nothing;
    }
    match item {
        None => PopupChoice::Nothing,
        Some((text, id)) => match mode {
            PopupMode::SkillGroups => match id {
                Some(i) => PopupChoice::SkillGroup(i),
                None => PopupChoice::Nothing,
            },
            PopupMode::FilePicker | PopupMode::TaskFilePicker => PopupChoice::OpenFile(text.to_string()),
            PopupMode::Buffers => match id {
                Some(i) => if i < buffer_count {
                    PopupChoice::ShowBuffer(i)
                } else {
                    PopupChoice::Nothing
                },
                None => PopupChoice::Nothing,
            },
            PopupMode::GitHunks => match id {
                Some(l) => PopupChoice::GotoLine(l - 1),
                None => PopupChoice::Nothing,
            },
            PopupMode::FunctionList => match id {
                Some(l) => PopupChoice::GotoLine(l),
                None => PopupChoice::Nothing,
            },
            _ => PopupChoice::Nothing,
        },
    }
}

} // verus!
