//! The `:` commands of the REPL: what a command line asks for, where
//! `:write` saves, and the buffers that `:rg`, `:fd`, `:workflow` and
//! `:config` fill.

use vstd::prelude::*;
use crate::buffer::{lines_view, BufferLine, LineStyle, LineView};
use crate::fmt::{decimal, decimal_string};
use crate::sed_changes::{
    index_of_char, parse_usize, parse_usize_exec, split_at_char, split_at_exec, strip_prefix_repeated,
};
use crate::text::{
    chars_eq, chars_of, lines, push_str_chars, replace_all, replace_all_exec, split_lines, string_of, trim, trimmed,
};

verus! {

broadcast use vstd::string::group_string_axioms;

/// The argument of `:skills`.
#[derive(Debug, Clone, PartialEq, Eq)]
pub enum SkillsArg {
    /// No argument: show the picker.
    Popup,
    Next,
    Toggle,
    Index(usize),
    Name(String),
}

/// A `:` command.
#[derive(Debug, Clone, PartialEq, Eq)]
pub enum ReplCommand {
    Quit,
    Cancel,
    Llm,
    Help,
    Open(String),
    Sed(String),
    Write(String),
    SaveAs(String),
    SessionSave(String),
    SessionLoad(String),
    Sessions,
    Delete(String),
    Reset,
    Config,
    Tools,
    Debug,
    Skills(SkillsArg),
    Status,
    Clear,
    Rg(String),
    Fd(String),
    Workflow,
    GitStatus,
    Ls(String),
    NextBuffer,
    PrevBuffer,
    CloseBuffer,
    Unknown(String),
}

/// The model of a command: its kind (the index of its variant), and its
/// text argument or number.
pub open spec fn command_view(c: ReplCommand) -> (nat, Seq<char>, nat) {
    match c {
        ReplCommand::Quit => (0, Seq::empty(), 0),
        ReplCommand::Cancel => (1, Seq::empty(), 0),
        ReplCommand::Llm => (2, Seq::empty(), 0),
        ReplCommand::Help => (3, Seq::empty(), 0),
        ReplCommand::Open(a) => (4, a@, 0),
        ReplCommand::Sed(a) => (5, a@, 0),
        ReplCommand::Write(a) => (6, a@, 0),
        ReplCommand::SaveAs(a) => (7, a@, 0),
        ReplCommand::SessionSave(a) => (8, a@, 0),
        ReplCommand::SessionLoad(a) => (9, a@, 0),
        ReplCommand::Sessions => (10, Seq::empty(), 0),
        ReplCommand::Delete(a) => (11, a@, 0),
        ReplCommand::Reset => (12, Seq::empty(), 0),
        ReplCommand::Config => (13, Seq::empty(), 0),
        ReplCommand::Tools => (14, Seq::empty(), 0),
        ReplCommand::Debug => (15, Seq::empty(), 0),
        ReplCommand::Skills(SkillsArg::Popup) => (16, Seq::empty(), 0),
        ReplCommand::Skills(SkillsArg::Next) => (17, Seq::empty(), 0),
        ReplCommand::Skills(SkillsArg::Toggle) => (18, Seq::empty(), 0),
        ReplCommand::Skills(SkillsArg::Index(n)) => (19, Seq::empty(), n as nat),
        ReplCommand::Skills(SkillsArg::Name(a)) => (20, a@, 0),
        ReplCommand::Status => (21, Seq::empty(), 0),
        ReplCommand::Clear => (22, Seq::empty(), 0),
        ReplCommand::Rg(a) => (23, a@, 0),
        ReplCommand::Fd(a) => (24, a@, 0),
        ReplCommand::Workflow => (25, Seq::empty(), 0),
        ReplCommand::GitStatus => (26, Seq::empty(), 0),
        ReplCommand::Ls(a) => (27, a@, 0),
        ReplCommand::NextBuffer => (28, Seq::empty(), 0),
        ReplCommand::PrevBuffer => (29, Seq::empty(), 0),
        ReplCommand::CloseBuffer => (30, Seq::empty(), 0),
        ReplCommand::Unknown(a) => (31, a@, 0),
    }
}

/// The name of a command line and its argument: the trimmed line cut at
/// its first space (the argument is empty when there is none).
pub open spec fn name_and_arg(cmd: Seq<char>) -> (Seq<char>, Seq<char>) {
    let (name, rest) = split_at_char(trim(cmd), ' ');
    (
        name,
        match rest {
            Some(a) => a,
            None => Seq::empty(),
        },
    )
}

/// What a command line asks for (its kind, text and number, as
/// `command_view` has them).
pub open spec fn command_spec(cmd: Seq<char>) -> (nat, Seq<char>, nat) {
    let (n, a) = name_and_arg(cmd);
    if n == "q"@ || n == "quit"@ || n == "exit"@ {
        (0, Seq::empty(), 0)
    } else if n == "cancel"@ {
        (1, Seq::empty(), 0)
    } else if n == "llm"@ {
        (2, Seq::empty(), 0)
    } else if n == "h"@ || n == "help"@ || n == "?"@ {
        (3, Seq::empty(), 0)
    } else if n == "open"@ || n == "e"@ {
        (4, a, 0)
    } else if n == "sed"@ {
        (5, a, 0)
    } else if n == "write"@ || n == "w"@ {
        (6, a, 0)
    } else if n == "saveas"@ {
        (7, a, 0)
    } else if n == "ssave"@ {
        (8, if a.len() == 0 { "default"@ } else { a }, 0)
    } else if n == "sload"@ {
        (9, if a.len() == 0 { "default"@ } else { a }, 0)
    } else if n == "sessions"@ {
        (10, Seq::empty(), 0)
    } else if n == "delete"@ || n == "rm"@ {
        (11, a, 0)
    } else if n == "reset"@ {
        (12, Seq::empty(), 0)
    } else if n == "config"@ {
        (13, Seq::empty(), 0)
    } else if n == "tools"@ {
        (14, Seq::empty(), 0)
    } else if n == "debug"@ {
        (15, Seq::empty(), 0)
    } else if n == "skills"@ {
        if a.len() == 0 {
            (16, Seq::empty(), 0)
        } else if a == "next"@ {
            (17, Seq::empty(), 0)
        } else if a == "toggle"@ {
            (18, Seq::empty(), 0)
        } else if parse_usize(a) is Some {
            (19, Seq::empty(), parse_usize(a)->0)
        } else {
            (20, a, 0)
        }
    } else if n == "status"@ {
        (21, Seq::empty(), 0)
    } else if n == "cls"@ || n == "clear"@ {
        (22, Seq::empty(), 0)
    } else if n == "rg"@ || n == "grep"@ {
        (23, a, 0)
    } else if n == "fd"@ || n == "find"@ {
        (24, a, 0)
    } else if n == "workflow"@ {
        (25, Seq::empty(), 0)
    } else if n == "gs"@ {
        (26, Seq::empty(), 0)
    } else if n == "ls"@ {
        (27, if a.len() == 0 { "."@ } else { a }, 0)
    } else if n == "bn"@ {
        (28, Seq::empty(), 0)
    } else if n == "bp"@ {
        (29, Seq::empty(), 0)
    } else if n == "bd"@ {
        (30, Seq::empty(), 0)
    } else {
        (31, n, 0)
    }
}

fn is(a: &[char], s: &str) -> (r: bool)
    ensures
        r == (a@ == s@),
{
    chars_eq(a, chars_of(s).as_slice())
}

fn owned(s: &str) -> (r: String)
    ensures
        r@ == s@,
{
    string_of(chars_of(s).as_slice())
}

fn or_default(a: &Vec<char>, d: &str) -> (r: String)
    ensures
        r@ == (if a@.len() == 0 { d@ } else { a@ }),
{
    if a.len() == 0 {
        owned(d)
    } else {
        string_of(a.as_slice())
    }
}

/// Reads a `:` command line.
pub fn parse_command(cmd: &str) -> (r: ReplCommand)
    ensures
        command_view(r) == command_spec(cmd@),
{
    let c = chars_of(cmd);
    let t = trimmed(c.as_slice());
    let (nv, rest) = split_at_exec(t.as_slice(), ' ');
    let av: Vec<char> = match rest {
        Some(a) => a,
        None => Vec::new(),
    };
    let n = nv.as_slice();
    let arg = string_of(av.as_slice());
    if is(n, "q") || is(n, "quit") || is(n, "exit") {
        ReplCommand::Quit
    } else if is(n, "cancel") {
        ReplCommand::Cancel
    } else if is(n, "llm") {
        ReplCommand::Llm
    } else if is(n, "h") || is(n, "help") || is(n, "?") {
        ReplCommand::Help
    } else if is(n, "open") || is(n, "e") {
        ReplCommand::Open(arg)
    } else if is(n, "sed") {
        ReplCommand::Sed(arg)
    } else if is(n, "write") || is(n, "w") {
        ReplCommand::Write(arg)
    } else if is(n, "saveas") {
        ReplCommand::SaveAs(arg)
    } else if is(n, "ssave") {
        ReplCommand::SessionSave(or_default(&av, "default"))
    } else if is(n, "sload") {
        ReplCommand::SessionLoad(or_default(&av, "default"))
    } else if is(n, "sessions") {
        ReplCommand::Sessions
    } else if is(n, "delete") || is(n, "rm") {
        ReplCommand::Delete(arg)
    } else if is(n, "reset") {
        ReplCommand::Reset
    } else if is(n, "config") {
        ReplCommand::Config
    } else if is(n, "tools") {
        ReplCommand::Tools
    } else if is(n, "debug") {
        ReplCommand::Debug
    } else if is(n, "skills") {
        if av.len() == 0 {
            ReplCommand::Skills(SkillsArg::Popup)
        } else if is(av.as_slice(), "next") {
            ReplCommand::Skills(SkillsArg::Next)
        } else if is(av.as_slice(), "toggle") {
            ReplCommand::Skills(SkillsArg::Toggle)
        } else {
            match parse_usize_exec(av.as_slice()) {
                Some(i) => ReplCommand::Skills(SkillsArg::Index(i)),
                None => ReplCommand::Skills(SkillsArg::Name(arg)),
            }
        }
    } else if is(n, "status") {
        ReplCommand::Status
    } else if is(n, "cls") || is(n, "clear") {
        ReplCommand::Clear
    } else if is(n, "rg") || is(n, "grep") {
        ReplCommand::Rg(arg)
    } else if is(n, "fd") || is(n, "find") {
        ReplCommand::Fd(arg)
    } else if is(n, "workflow") {
        ReplCommand::Workflow
    } else if is(n, "gs") {
        ReplCommand::GitStatus
    } else if is(n, "ls") {
        ReplCommand::Ls(or_default(&av, "."))
    } else if is(n, "bn") {
        ReplCommand::NextBuffer
    } else if is(n, "bp") {
        ReplCommand::PrevBuffer
    } else if is(n, "bd") {
        ReplCommand::CloseBuffer
    } else {
        ReplCommand::Unknown(string_of(n))
    }
}

/// Where `:write` saves: its argument, or else a file named after the
/// buffer (the search buffer goes to `rg_results.txt`, the chat to
/// `chat.md`) without the `*` that marks a modified buffer.
pub open spec fn write_target_spec(arg: Seq<char>, buffer: Seq<char>) -> Seq<char> {
    if arg.len() > 0 {
        arg
    } else {
        let name = if buffer == "rg"@ {
            "rg_results.txt"@
        } else if buffer.len() == 0 || buffer == "Chat"@ {
            "chat.md"@
        } else {
            buffer
        };
        replace_all(name, "*"@, Seq::empty())
    }
}

pub fn write_target(arg: &str, buffer: &str) -> (r: String)
    ensures
        r@ == write_target_spec(arg@, buffer@),
{
    let a = chars_of(arg);
    if a.len() > 0 {
        return string_of(a.as_slice());
    }
    let b = chars_of(buffer);
    let name = if is(b.as_slice(), "rg") {
        chars_of("rg_results.txt")
    } else if b.len() == 0 || is(b.as_slice(), "Chat") {
        chars_of("chat.md")
    } else {
        b
    };
    let star = chars_of("*");
    let empty: Vec<char> = Vec::new();
    proof {
        reveal_strlit("*");
    }
    assert(empty@ =~= Seq::<char>::empty());
    string_of(replace_all_exec(name.as_slice(), star.as_slice(), empty.as_slice()).as_slice())
}

/// How the search buffer shows one line of `rg --heading -n` (or
/// `grep -rnH`) output, given whether a `file:line:` line was seen before;
/// `None` when the line is dropped (a non-result line after such a line).
pub open spec fn search_line_view(l: Seq<char>, grep_seen: bool) -> (Option<LineView>, bool) {
    if l.len() == 0 {
        (Some(seq![(Seq::<char>::empty(), LineStyle::Plain)]), grep_seen)
    } else {
        let (file, r1) = split_at_char(l, ':');
        let grep_form = match r1 {
            Some(r) => {
                let (num, r2) = split_at_char(r, ':');
                match r2 {
                    Some(content) => match parse_usize(num) {
                        Some(n) => Some(
                            seq![
                                (file, LineStyle::ToolResult),
                                (":"@, LineStyle::Dim),
                                (decimal(n), LineStyle::Info),
                                (":"@, LineStyle::Dim),
                                (content, LineStyle::Plain),
                            ],
                        ),
                        None => None,
                    },
                    None => None,
                }
            },
            None => None,
        };
        match grep_form {
            Some(v) => (Some(v), true),
            None => if grep_seen {
                (None, true)
            } else {
                match r1 {
                    Some(content) => match parse_usize(file) {
                        Some(n) => (
                            Some(seq![(decimal(n), LineStyle::Info), (":"@, LineStyle::Dim), (content, LineStyle::Plain)]),
                            false,
                        ),
                        None => (Some(seq![(l, LineStyle::ToolResult)]), false),
                    },
                    None => (Some(seq![(l, LineStyle::ToolResult)]), false),
                }
            },
        }
    }
}

/// The search buffer's lines for the output lines, in order.
pub open spec fn search_lines_from(ls: Seq<Seq<char>>) -> (Seq<LineView>, bool)
    decreases ls.len(),
{
    if ls.len() == 0 {
        (Seq::empty(), false)
    } else {
        let (before, seen) = search_lines_from(ls.drop_last());
        let (v, seen2) = search_line_view(ls.last(), seen);
        (
            match v {
                Some(x) => before.push(x),
                None => before,
            },
            seen2,
        )
    }
}

/// The count line that ends a search or find buffer.
pub open spec fn count_footer(total: nat, unit: Seq<char>) -> Seq<LineView> {
    if total == 0 {
        seq![seq![("  No matches found"@, LineStyle::Dim)], seq![("  ["@ + decimal(total) + " "@ + unit + "]"@, LineStyle::Dim)]]
    } else {
        seq![seq![("  ["@ + decimal(total) + " "@ + unit + "]"@, LineStyle::Dim)]]
    }
}

fn seg(t: &str, s: LineStyle) -> (r: (String, LineStyle))
    ensures
        r.0@ == t@,
        r.1 == s,
{
    (owned(t), s)
}

fn push_footer(out: &mut Vec<BufferLine>, total: usize, unit: &str)
    ensures
        lines_view(final(out)@) == lines_view(old(out)@) + count_footer(total as nat, unit@),
{
    let ghost start = lines_view(out@);
    if total == 0 {
        out.push(BufferLine::new("  No matches found", LineStyle::Dim));
    }
    let mut t = chars_of("  [");
    push_str_chars(&mut t, decimal_string(total as u128).as_str());
    push_str_chars(&mut t, " ");
    push_str_chars(&mut t, unit);
    push_str_chars(&mut t, "]");
    let ghost before = lines_view(out@);
    out.push(BufferLine::new(string_of(t.as_slice()).as_str(), LineStyle::Dim));
    assert(lines_view(out@) =~= before.push(seq![("  ["@ + decimal(total as nat) + " "@ + unit@ + "]"@, LineStyle::Dim)]));
    assert(lines_view(out@) =~= start + count_footer(total as nat, unit@));
}

/// The search buffer that `:rg` fills from the command's output.
pub fn search_buffer_lines(output: &str) -> (r: Vec<BufferLine>)
    ensures
        lines_view(r@) == search_lines_from(lines(output@)).0 + count_footer(lines(output@).len(), "lines"@),
{
    let c = chars_of(output);
    let ls = split_lines(c.as_slice());
    let ghost lv = ls@.map_values(|l: Vec<char>| l@);
    let mut out: Vec<BufferLine> = Vec::new();
    let mut seen = false;
    let mut i: usize = 0;
    while i < ls.len()
        invariant
            i <= ls@.len(),
            lv == ls@.map_values(|l: Vec<char>| l@),
            lv == lines(output@),
            (lines_view(out@), seen) == search_lines_from(lv.take(i as int)),
        decreases ls.len() - i,
    {
        proof {
            assert(lv.take(i + 1).drop_last() =~= lv.take(i as int));
            assert(lv.take(i + 1).last() == ls@[i as int]@);
        }
        let l = ls[i].as_slice();
        let ghost before = lines_view(out@);
        if l.len() == 0 {
            let bl = BufferLine::new("", LineStyle::Plain);
            proof {
                reveal_strlit("");
                assert(""@ =~= Seq::<char>::empty());
            }
            out.push(bl);
            assert(lines_view(out@) =~= before.push(seq![(Seq::<char>::empty(), LineStyle::Plain)]));
        } else {
            let (file, r1) = split_at_exec(l, ':');
            let mut grep_line: Option<BufferLine> = None;
            if let Some(r) = &r1 {
                let (num, r2) = split_at_exec(r.as_slice(), ':');
                if let Some(content) = r2 {
                    if let Some(n) = parse_usize_exec(num.as_slice()) {
                        let mut segs: Vec<(String, LineStyle)> = Vec::new();
                        segs.push((string_of(file.as_slice()), LineStyle::ToolResult));
                        segs.push(seg(":", LineStyle::Dim));
                        segs.push((decimal_string(n as u128), LineStyle::Info));
                        segs.push(seg(":", LineStyle::Dim));
                        segs.push((string_of(content.as_slice()), LineStyle::Plain));
                        let b = BufferLine::from_segments(segs);
                        assert(b@ =~= search_line_view(lv[i as int], seen).0->0);
                        grep_line = Some(b);
                    }
                }
            }
            match grep_line {
                Some(b) => {
                    out.push(b);
                    seen = true;
                    assert(lines_view(out@) =~= before.push(b@));
                },
                None => {
                    if !seen {
                        let mut shown: Option<BufferLine> = None;
                        if let Some(content) = r1 {
                            if let Some(n) = parse_usize_exec(file.as_slice()) {
                                let mut segs: Vec<(String, LineStyle)> = Vec::new();
                                segs.push((decimal_string(n as u128), LineStyle::Info));
                                segs.push(seg(":", LineStyle::Dim));
                                segs.push((string_of(content.as_slice()), LineStyle::Plain));
                                let b = BufferLine::from_segments(segs);
                                assert(b@ =~= search_line_view(lv[i as int], seen).0->0);
                                shown = Some(b);
                            }
                        }
                        let b = match shown {
                            Some(b) => b,
                            None => BufferLine::new(string_of(l).as_str(), LineStyle::ToolResult),
                        };
                        out.push(b);
                        assert(lines_view(out@) =~= before.push(b@));
                    }
                },
            }
        }
        i += 1;
    }
    assert(lv.take(ls.len() as int) =~= lv);
    push_footer(&mut out, ls.len(), "lines");
    out
}

/// The find buffer's lines: the first thousand output lines that are not
/// empty, without leading `./`.
pub open spec fn found_lines(ls: Seq<Seq<char>>) -> Seq<LineView>
    decreases ls.len(),
{
    if ls.len() == 0 {
        Seq::empty()
    } else if ls.last().len() == 0 {
        found_lines(ls.drop_last())
    } else {
        found_lines(ls.drop_last()).push(seq![(strip_prefix_repeated(ls.last(), "./"@), LineStyle::Plain)])
    }
}

/// The find buffer that `:fd` fills from the command's output.
pub fn find_buffer_lines(output: &str) -> (r: Vec<BufferLine>)
    ensures
        ({
            let ls = lines(output@);
            let shown = if ls.len() <= 1000 { ls } else { ls.take(1000) };
            lines_view(r@) == found_lines(shown) + count_footer(ls.len(), "files"@)
        }),
{
    let c = chars_of(output);
    let ls = split_lines(c.as_slice());
    let ghost lv = ls@.map_values(|l: Vec<char>| l@);
    let limit = if ls.len() <= 1000 {
        ls.len()
    } else {
        1000
    };
    let dot = chars_of("./");
    let mut out: Vec<BufferLine> = Vec::new();
    let mut i: usize = 0;
    while i < limit
        invariant
            i <= limit <= ls@.len(),
            lv == ls@.map_values(|l: Vec<char>| l@),
            dot@ == "./"@,
            lines_view(out@) == found_lines(lv.take(i as int)),
        decreases limit - i,
    {
        proof {
            assert(lv.take(i + 1).drop_last() =~= lv.take(i as int));
            assert(lv.take(i + 1).last() == ls@[i as int]@);
        }
        if ls[i].len() > 0 {
            let p = crate::sed_changes::strip_prefix_repeated_exec(ls[i].as_slice(), dot.as_slice());
            let ghost before = lines_view(out@);
            out.push(BufferLine::new(string_of(p.as_slice()).as_str(), LineStyle::Plain));
            assert(lines_view(out@) =~= before.push(seq![(p@, LineStyle::Plain)]));
        }
        i += 1;
    }
    assert(lv.take(limit as int) =~= (if lv.len() <= 1000 { lv } else { lv.take(1000) }));
    push_footer(&mut out, ls.len(), "files");
    out
}

/// The console line that announces a search (`rg`) or a find (`fd`).
pub fn search_banner(tool: &str, arg: &str) -> (r: BufferLine)
    ensures
        r@ == seq![("  🔍 "@ + tool@ + ": "@ + arg@, LineStyle::Info)],
{
    let mut t = chars_of("  🔍 ");
    push_str_chars(&mut t, tool);
    push_str_chars(&mut t, ": ");
    push_str_chars(&mut t, arg);
    BufferLine::new(string_of(t.as_slice()).as_str(), LineStyle::Info)
}

/// Each line of a text indented by four spaces, as `:workflow` and `:ls`
/// show it.
pub fn indented_lines(text: &str) -> (r: Vec<BufferLine>)
    ensures
        lines_view(r@) == Seq::new(
            lines(text@).len(),
            |i: int| seq![("    "@ + lines(text@)[i], LineStyle::Plain)],
        ),
{
    let c = chars_of(text);
    let ls = split_lines(c.as_slice());
    let ghost lv = ls@.map_values(|l: Vec<char>| l@);
    let mut out: Vec<BufferLine> = Vec::new();
    let mut i: usize = 0;
    while i < ls.len()
        invariant
            i <= ls@.len(),
            lv == ls@.map_values(|l: Vec<char>| l@),
            lv == lines(text@),
            out@.len() == i,
            forall|k: int| 0 <= k < i ==> (#[trigger] out@[k])@ == seq![("    "@ + lv[k], LineStyle::Plain)],
        decreases ls.len() - i,
    {
        let mut t = chars_of("    ");
        crate::text::extend_from(&mut t, ls[i].as_slice());
        out.push(BufferLine::new(string_of(t.as_slice()).as_str(), LineStyle::Plain));
        i += 1;
    }
    assert(lines_view(out@) =~= Seq::new(lv.len(), |i: int| seq![("    "@ + lv[i], LineStyle::Plain)]));
    out
}

/// The lines that `:config` shows.
pub fn config_lines(base_url: &str, model: &str, timeout: u64, auto_verify: bool, max_rounds: u32) -> (r: Vec<BufferLine>)
    ensures
        lines_view(r@) == seq![
            seq![("  ⚙️  Config:"@, LineStyle::Info)],
            seq![("    base_url: "@ + base_url@, LineStyle::Plain)],
            seq![("    model: "@ + model@, LineStyle::Plain)],
            seq![("    timeout: "@ + decimal(timeout as nat) + "s"@, LineStyle::Plain)],
            seq![("    auto_verify: "@ + (if auto_verify { "true"@ } else { "false"@ }), LineStyle::Plain)],
            seq![("    max_rounds: "@ + decimal(max_rounds as nat), LineStyle::Plain)],
        ],
{
    let mut out: Vec<BufferLine> = Vec::new();
    out.push(BufferLine::new("  ⚙️  Config:", LineStyle::Info));
    let mut t = chars_of("    base_url: ");
    push_str_chars(&mut t, base_url);
    out.push(BufferLine::new(string_of(t.as_slice()).as_str(), LineStyle::Plain));
    let mut t = chars_of("    model: ");
    push_str_chars(&mut t, model);
    out.push(BufferLine::new(string_of(t.as_slice()).as_str(), LineStyle::Plain));
    let mut t = chars_of("    timeout: ");
    push_str_chars(&mut t, decimal_string(timeout as u128).as_str());
    push_str_chars(&mut t, "s");
    out.push(BufferLine::new(string_of(t.as_slice()).as_str(), LineStyle::Plain));
    let mut t = chars_of("    auto_verify: ");
    push_str_chars(&mut t, if auto_verify { "true" } else { "false" });
    out.push(BufferLine::new(string_of(t.as_slice()).as_str(), LineStyle::Plain));
    let mut t = chars_of("    max_rounds: ");
    push_str_chars(&mut t, decimal_string(max_rounds as u128).as_str());
    out.push(BufferLine::new(string_of(t.as_slice()).as_str(), LineStyle::Plain));
    assert(lines_view(out@) =~= seq![
        seq![("  ⚙️  Config:"@, LineStyle::Info)],
        seq![("    base_url: "@ + base_url@, LineStyle::Plain)],
        seq![("    model: "@ + model@, LineStyle::Plain)],
        seq![("    timeout: "@ + decimal(timeout as nat) + "s"@, LineStyle::Plain)],
        seq![("    auto_verify: "@ + (if auto_verify { "true"@ } else { "false"@ }), LineStyle::Plain)],
        seq![("    max_rounds: "@ + decimal(max_rounds as nat), LineStyle::Plain)],
    ]);
    out
}

/// `s` padded with spaces to 22 characters (`{:<22}`).
pub open spec fn pad22(s: Seq<char>) -> Seq<char> {
    if s.len() < 22 {
        s + Seq::new((22 - s.len()) as nat, |i: int| ' ')
    } else {
        s
    }
}

/// A row of the help table: the key or command, then what it does.
pub open spec fn help_row(k: Seq<char>, d: Seq<char>) -> LineView {
    seq![("  "@ + pad22(k) + " "@ + d, LineStyle::Plain)]
}

pub open spec fn help_rows(t: Seq<(&str, &str)>) -> Seq<LineView> {
    Seq::new(t.len(), |i: int| help_row(t[i].0@, t[i].1@))
}

fn pad22_exec(s: &str) -> (r: Vec<char>)
    ensures
        r@ == pad22(s@),
{
    let mut c = chars_of(s);
    if c.len() < 22 {
        let ghost base = c@;
        let n = 22 - c.len();
        let mut k: usize = 0;
        while k < n
            invariant
                k <= n,
                c@ == base + Seq::new(k as nat, |i: int| ' '),
            decreases n - k,
        {
            c.push(' ');
            assert(c@ =~= base + Seq::new((k + 1) as nat, |i: int| ' '));
            k += 1;
        }
    }
    c
}

fn push_rows(out: &mut Vec<BufferLine>, t: &[(&str, &str)])
    ensures
        lines_view(final(out)@) == lines_view(old(out)@) + help_rows(t@),
{
    let ghost start = lines_view(out@);
    let mut i: usize = 0;
    while i < t.len()
        invariant
            i <= t@.len(),
            lines_view(out@) == start + help_rows(t@).take(i as int),
        decreases t.len() - i,
    {
        let mut line = chars_of("  ");
        let p = pad22_exec(t[i].0);
        crate::text::extend_from(&mut line, p.as_slice());
        push_str_chars(&mut line, " ");
        push_str_chars(&mut line, t[i].1);
        let ghost before = lines_view(out@);
        out.push(BufferLine::new(string_of(line.as_slice()).as_str(), LineStyle::Plain));
        assert(help_rows(t@).take(i + 1) =~= help_rows(t@).take(i as int).push(help_row(t@[i as int].0@, t@[i as int].1@)));
        assert(lines_view(out@) =~= before.push(help_row(t@[i as int].0@, t@[i as int].1@)));
        i += 1;
    }
    assert(help_rows(t@).take(t@.len() as int) =~= help_rows(t@));
}

pub open spec fn pairs_view(t: Seq<(&str, &str)>) -> Seq<(Seq<char>, Seq<char>)> {
    Seq::new(t.len(), |i: int| (t[i].0@, t[i].1@))
}

pub open spec fn rows_of(t: Seq<(Seq<char>, Seq<char>)>) -> Seq<LineView> {
    Seq::new(t.len(), |i: int| help_row(t[i].0, t[i].1))
}

/// The commands that `:help` lists.
pub open spec fn command_help() -> Seq<(Seq<char>, Seq<char>)> {
    seq![
        (":q / :quit"@, "Exit the REPL"@),
        (":cancel"@, "Cancel running agent task"@),
        (":help"@, "Show this help"@),
        (":ssave <name>"@, "Save current session"@),
        (":sload <name>"@, "Load a saved session"@),
        (":sessions"@, "List saved sessions"@),
        (":delete <name>"@, "Delete a saved session"@),
        (":reset"@, "Reset conversation"@),
        (":config"@, "Show current config"@),
        (":tools"@, "Show active tools"@),
        (":debug"@, "Toggle debug mode"@),
        (":status"@, "Show session status"@),
        (":cls"@, "Clear response buffer"@),
        (":skills"@, "Show skill group popup"@),
        (":skills <n|name>"@, "Switch skill group"@),
        (":skills next"@, "Cycle to next group"@),
        (":skills toggle"@, "Toggle tools on/off"@),
        (":rg <pattern>"@, "Search code (rg/grep) in new buffer"@),
        (":fd <pattern>"@, "Find files (fd/find)"@),
        (":ls [path]"@, "List directory"@),
        (":workflow"@, "Show active system prompt & CODER.md status"@),
        (":write [path]"@, "Save buffer to file (defaults to buffer name)"@),
        (":bn / :bp"@, "Next / Previous buffer"@),
        (":bd"@, "Close buffer"@),
    ]
}

/// The normal-mode keys that `:help` lists.
pub open spec fn normal_key_help() -> Seq<(Seq<char>, Seq<char>)> {
    seq![
        ("i / a / o"@, "Enter Insert mode"@),
        (": / >"@, "Enter Command mode"@),
        ("F12"@, "Cancel running agent task"@),
        ("j / k"@, "Scroll down / up"@),
        ("G"@, "Go to bottom (5G → line 5)"@),
        ("K"@, "Grep word under cursor"@),
        ("gg"@, "Go to top"@),
        ("yy"@, "Yank line to clipboard"@),
        ("dd (5dd)"@, "Delete line (5 lines)"@),
        ("u"@, "Undo line deletion"@),
        ("o"@, "Open in $EDITOR"@),
        ("l / L"@, "Next / Previous git hunk"@),
        ("C-d / C-u"@, "Half page down / up"@),
        ("C-f / C-b"@, "Page down / up"@),
        ("Space / Enter"@, "Enter Insert mode"@),
        ("Alt-x"@, "Close buffer"@),
        ("Alt-- / Alt-="@, "Previous / Next buffer"@),
        ("Esc"@, "Cancel / back to Normal"@),
    ]
}

/// The insert-mode keys that `:help` lists.
pub open spec fn insert_key_help() -> Seq<(Seq<char>, Seq<char>)> {
    seq![
        ("Enter"@, "Send message to LLM"@),
        ("Alt+Enter"@, "Insert literal newline"@),
        ("C-a / C-e"@, "Home / End"@),
        ("C-u / C-k"@, "Kill to start / end"@),
        ("C-w"@, "Delete word backward"@),
        ("Up / Down"@, "History navigation"@),
        ("Esc"@, "Back to Normal mode"@),
    ]
}

fn help_commands() -> (r: Vec<(&'static str, &'static str)>)
    ensures
        pairs_view(r@) == command_help(),
{
    let r = vec![
        (":q / :quit", "Exit the REPL"),
        (":cancel", "Cancel running agent task"),
        (":help", "Show this help"),
        (":ssave <name>", "Save current session"),
        (":sload <name>", "Load a saved session"),
        (":sessions", "List saved sessions"),
        (":delete <name>", "Delete a saved session"),
        (":reset", "Reset conversation"),
        (":config", "Show current config"),
        (":tools", "Show active tools"),
        (":debug", "Toggle debug mode"),
        (":status", "Show session status"),
        (":cls", "Clear response buffer"),
        (":skills", "Show skill group popup"),
        (":skills <n|name>", "Switch skill group"),
        (":skills next", "Cycle to next group"),
        (":skills toggle", "Toggle tools on/off"),
        (":rg <pattern>", "Search code (rg/grep) in new buffer"),
        (":fd <pattern>", "Find files (fd/find)"),
        (":ls [path]", "List directory"),
        (":workflow", "Show active system prompt & CODER.md status"),
        (":write [path]", "Save buffer to file (defaults to buffer name)"),
        (":bn / :bp", "Next / Previous buffer"),
        (":bd", "Close buffer"),
    ];
    assert(pairs_view(r@) =~= command_help());
    r
}

fn help_normal_keys() -> (r: Vec<(&'static str, &'static str)>)
    ensures
        pairs_view(r@) == normal_key_help(),
{
    let r = vec![
        ("i / a / o", "Enter Insert mode"),
        (": / >", "Enter Command mode"),
        ("F12", "Cancel running agent task"),
        ("j / k", "Scroll down / up"),
        ("G", "Go to bottom (5G → line 5)"),
        ("K", "Grep word under cursor"),
        ("gg", "Go to top"),
        ("yy", "Yank line to clipboard"),
        ("dd (5dd)", "Delete line (5 lines)"),
        ("u", "Undo line deletion"),
        ("o", "Open in $EDITOR"),
        ("l / L", "Next / Previous git hunk"),
        ("C-d / C-u", "Half page down / up"),
        ("C-f / C-b", "Page down / up"),
        ("Space / Enter", "Enter Insert mode"),
        ("Alt-x", "Close buffer"),
        ("Alt-- / Alt-=", "Previous / Next buffer"),
        ("Esc", "Cancel / back to Normal"),
    ];
    assert(pairs_view(r@) =~= normal_key_help());
    r
}

fn help_insert_keys() -> (r: Vec<(&'static str, &'static str)>)
    ensures
        pairs_view(r@) == insert_key_help(),
{
    let r = vec![
        ("Enter", "Send message to LLM"),
        ("Alt+Enter", "Insert literal newline"),
        ("C-a / C-e", "Home / End"),
        ("C-u / C-k", "Kill to start / end"),
        ("C-w", "Delete word backward"),
        ("Up / Down", "History navigation"),
        ("Esc", "Back to Normal mode"),
    ];
    assert(pairs_view(r@) =~= insert_key_help());
    r
}

/// The lines that `:help` shows: a title, then the command table, the
/// normal-mode keys and the insert-mode keys, each table after a blank
/// line and a heading.
pub fn help_lines() -> (r: Vec<BufferLine>)
    ensures
        ({
            let blank: LineView = seq![(Seq::<char>::empty(), LineStyle::Plain)];
            lines_view(r@) == seq![seq![("  pcode — Vim-Modal Commands"@, LineStyle::Info)], blank] + rows_of(
                command_help(),
            ) + seq![blank, seq![("  Normal mode keys:"@, LineStyle::Info)]] + rows_of(normal_key_help()) + seq![
                blank,
                seq![("  Insert mode keys:"@, LineStyle::Info)],
            ] + rows_of(insert_key_help())
        }),
{
    let ghost blank: LineView = seq![(Seq::<char>::empty(), LineStyle::Plain)];
    proof {
        reveal_strlit("");
        assert(""@ =~= Seq::<char>::empty());
    }
    let mut out: Vec<BufferLine> = Vec::new();
    out.push(BufferLine::new("  pcode — Vim-Modal Commands", LineStyle::Info));
    out.push(BufferLine::new("", LineStyle::Plain));
    let ghost p0 = lines_view(out@);
    assert(p0 =~= seq![seq![("  pcode — Vim-Modal Commands"@, LineStyle::Info)], blank]);
    let c = help_commands();
    push_rows(&mut out, c.as_slice());
    assert(help_rows(c@) =~= rows_of(command_help()));
    let ghost p1 = lines_view(out@);
    out.push(BufferLine::new("", LineStyle::Plain));
    out.push(BufferLine::new("  Normal mode keys:", LineStyle::Info));
    let ghost p2 = lines_view(out@);
    assert(p2 =~= p1 + seq![blank, seq![("  Normal mode keys:"@, LineStyle::Info)]]);
    let n = help_normal_keys();
    push_rows(&mut out, n.as_slice());
    assert(help_rows(n@) =~= rows_of(normal_key_help()));
    let ghost p3 = lines_view(out@);
    out.push(BufferLine::new("", LineStyle::Plain));
    out.push(BufferLine::new("  Insert mode keys:", LineStyle::Info));
    let ghost p4 = lines_view(out@);
    assert(p4 =~= p3 + seq![blank, seq![("  Insert mode keys:"@, LineStyle::Info)]]);
    let ins = help_insert_keys();
    push_rows(&mut out, ins.as_slice());
    assert(help_rows(ins@) =~= rows_of(insert_key_help()));
    out
}

/// The lines that greet the user in the chat buffer.
pub open spec fn welcome_view() -> Seq<LineView> {
    seq![
        seq![("pcode — vim-modal patch REPL"@, LineStyle::Info)],
        seq![(Seq::<char>::empty(), LineStyle::Plain)],
        seq![("  i                → enter Insert mode (type message to LLM)"@, LineStyle::Dim)],
        seq![("  :                → enter Command mode (:help, :quit, …)"@, LineStyle::Dim)],
        seq![("  F12              → Cancel running task"@, LineStyle::Tool)],
        seq![("  Esc              → back to Normal mode"@, LineStyle::Dim)],
        seq![("  j/k G gg C-d C-u → scroll response buffer"@, LineStyle::Dim)],
        seq![("  yy               → Yank line to clipboard"@, LineStyle::Dim)],
        seq![("  dd (5dd)         → Delete line (5 lines)"@, LineStyle::Dim)],
        seq![("  p                → paste"@, LineStyle::Dim)],
        seq![("  u                → Undo line deletion"@, LineStyle::Dim)],
        seq![("  o                → Open via $EDITOR"@, LineStyle::Tool)],
        seq![("  >                → Visual Selection to >>llm"@, LineStyle::Tool)],
        seq![("  l / L            → hunkNext/hunkPrev"@, LineStyle::Dim)],
        seq![("  Alt-d            → Delete line"@, LineStyle::Dim)],
        seq![("  Alt-w            → Write buffer"@, LineStyle::Dim)],
        seq![("  Alt-x            → Close buffer"@, LineStyle::Dim)],
        seq![("  :sed /search/replace :fd main.rs :rg fn main  (replace, find, grep)"@, LineStyle::Tool)],
        seq![("  Alt-- / Alt-=    → Previous / Next buffer"@, LineStyle::Dim)],
        seq![(Seq::<char>::empty(), LineStyle::Plain)],
    ]
}

pub fn welcome_lines() -> (r: Vec<BufferLine>)
    ensures
        lines_view(r@) == welcome_view(),
{
    proof {
        reveal_strlit("");
        assert(""@ =~= Seq::<char>::empty());
    }
    let rows: Vec<(&str, LineStyle)> = vec![
        ("pcode — vim-modal patch REPL", LineStyle::Info),
        ("", LineStyle::Plain),
        ("  i                → enter Insert mode (type message to LLM)", LineStyle::Dim),
        ("  :                → enter Command mode (:help, :quit, …)", LineStyle::Dim),
        ("  F12              → Cancel running task", LineStyle::Tool),
        ("  Esc              → back to Normal mode", LineStyle::Dim),
        ("  j/k G gg C-d C-u → scroll response buffer", LineStyle::Dim),
        ("  yy               → Yank line to clipboard", LineStyle::Dim),
        ("  dd (5dd)         → Delete line (5 lines)", LineStyle::Dim),
        ("  p                → paste", LineStyle::Dim),
        ("  u                → Undo line deletion", LineStyle::Dim),
        ("  o                → Open via $EDITOR", LineStyle::Tool),
        ("  >                → Visual Selection to >>llm", LineStyle::Tool),
        ("  l / L            → hunkNext/hunkPrev", LineStyle::Dim),
        ("  Alt-d            → Delete line", LineStyle::Dim),
        ("  Alt-w            → Write buffer", LineStyle::Dim),
        ("  Alt-x            → Close buffer", LineStyle::Dim),
        ("  :sed /search/replace :fd main.rs :rg fn main  (replace, find, grep)", LineStyle::Tool),
        ("  Alt-- / Alt-=    → Previous / Next buffer", LineStyle::Dim),
        ("", LineStyle::Plain),
    ];
    let ghost want = Seq::new(rows@.len(), |i: int| seq![(rows@[i].0@, rows@[i].1)]);
    assert(want =~= welcome_view());
    let mut out: Vec<BufferLine> = Vec::new();
    let mut i: usize = 0;
    while i < rows.len()
        invariant
            i <= rows@.len(),
            want == Seq::new(rows@.len(), |i: int| seq![(rows@[i].0@, rows@[i].1)]),
            lines_view(out@) == want.take(i as int),
        decreases rows.len() - i,
    {
        out.push(BufferLine::new(rows[i].0, rows[i].1));
        assert(want.take(i + 1) =~= want.take(i as int).push(want[i as int]));
        i += 1;
    }
    assert(want.take(rows@.len() as int) =~= want);
    out
}

} // verus!
