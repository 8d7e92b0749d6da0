//! The editor modes and how the status line names and colours them.

use vstd::prelude::*;
use crate::buffer::TermColor;

verus! {

/// The modes of the REPL.
#[derive(Debug, Clone, Copy, PartialEq, Eq, Structural)]
pub enum Mode {
    Normal,
    Insert,
    Command,
    Search,
    Visual,
    VisualLine,
    Merge,
    GitLog,
    GitDiff,
    FilePicker,
}

/// The label shown for a mode.
pub open spec fn mode_label(m: Mode) -> Seq<char> {
    match m {
        Mode::Normal => "NORMAL"@,
        Mode::Insert => "LLM"@,
        Mode::Command => "COMMAND"@,
        Mode::Search => "SEARCH"@,
        Mode::Visual => "VISUAL"@,
        Mode::VisualLine => "VISUAL-LINE"@,
        Mode::Merge => "MERGE"@,
        Mode::GitLog => "GITLOG"@,
        Mode::GitDiff => "GDIFF"@,
        Mode::FilePicker => "FILEPICKER"@,
    }
}

/// The status-line colour of a mode.
pub open spec fn mode_color(m: Mode) -> TermColor {
    match m {
        Mode::Normal => TermColor::Cyan,
        Mode::Insert => TermColor::Green,
        Mode::Command => TermColor::Yellow,
        Mode::Search => TermColor::Yellow,
        Mode::Visual | Mode::VisualLine => TermColor::Magenta,
        Mode::Merge => TermColor::Blue,
        Mode::GitLog => TermColor::Magenta,
        Mode::GitDiff => TermColor::Magenta,
        Mode::FilePicker => TermColor::Cyan,
    }
}

impl Mode {
    /// The label shown for the mode.
    pub fn as_str(&self) -> (r: &'static str)
        ensures
            r@ == mode_label(*self),
    {
        match self {
            Mode::Normal => "NORMAL",
            Mode::Insert => "LLM",
            Mode::Command => "COMMAND",
            Mode::Search => "SEARCH",
            Mode::Visual => "VISUAL",
            Mode::VisualLine => "VISUAL-LINE",
            Mode::Merge => "MERGE",
            Mode::GitLog => "GITLOG",
            Mode::GitDiff => "GDIFF",
            Mode::FilePicker => "FILEPICKER",
        }
    }

    /// The status-line colour of the mode.
    pub fn status_color(&self) -> (c: TermColor)
        ensures
            c == mode_color(*self),
    {
        match self {
            Mode::Normal => TermColor::Cyan,
            Mode::Insert => TermColor::Green,
            Mode::Command => TermColor::Yellow,
            Mode::Search => TermColor::Yellow,
            Mode::Visual | Mode::VisualLine => TermColor::Magenta,
            Mode::Merge => TermColor::Blue,
            Mode::GitLog => TermColor::Magenta,
            Mode::GitDiff => TermColor::Magenta,
            Mode::FilePicker => TermColor::Cyan,
        }
    }
}

/// What the popup over the REPL is showing.
#[derive(Debug, Clone, Copy, PartialEq, Eq, Structural)]
pub enum PopupMode {
    SkillGroups,
    FilePicker,
    TaskFilePicker,
    Buffers,
    GitHunks,
    FunctionList,
    WhichKey,
    Message,
}

} // verus!
