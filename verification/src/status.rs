//! The status bar: the segments of text, each with its colour, that sum up
//! the editor's state above the input line.

use vstd::prelude::*;
use crate::agent::{groups_view, AgentEvent, GroupView, SkillSelection};
use crate::buffer::TermColor;
use crate::fmt::{decimal, decimal_chars};
use crate::mode::{mode_color, mode_label, Mode};
use crate::text::{chars_of, extend_from, lines, push_str_chars, split_lines, string_of, views};
use crate::unicode::{graphemes, spec_graphemes, spec_str_width, str_width};

verus! {

broadcast use vstd::string::group_string_axioms;

/// The leading clusters of `gs` that fit, with three columns left for an
/// ellipsis, within `max` columns when `w` are already taken.
pub open spec fn fitting(gs: Seq<Seq<char>>, w: int, max: int) -> Seq<char>
    decreases gs.len(),
{
    if gs.len() == 0 {
        Seq::empty()
    } else if w + spec_str_width(gs[0]) + 3 > max {
        Seq::empty()
    } else {
        gs[0] + fitting(gs.drop_first(), w + spec_str_width(gs[0]), max)
    }
}

/// `s` as shown in at most `max` columns: whole when it fits, else its
/// leading clusters followed by `...`.
pub open spec fn fit_text(s: Seq<char>, max: int) -> Seq<char> {
    if spec_str_width(s) > max {
        fitting(spec_graphemes(s), 0, max) + "..."@
    } else {
        s
    }
}

/// `s` cut to fit `max` terminal columns, with `...` where it was cut.
pub fn fit_width(s: &str, max: usize) -> (r: String)
    ensures
        r@ == fit_text(s@, max as int),
{
    if str_width(s) <= max {
        return string_of(chars_of(s).as_slice());
    }
    let gs = graphemes(s);
    let ghost gv = views(gs@);
    let mut out: Vec<char> = Vec::new();
    let mut w: usize = 0;
    let mut i: usize = 0;
    assert(gv.skip(0) =~= gv);
    assert(out@ + fitting(gv, 0, max as int) =~= fitting(gv, 0, max as int));
    while i < gs.len()
        invariant
            i <= gs.len(),
            gv == views(gs@),
            gv == spec_graphemes(s@),
            w <= max,
            out@ + fitting(gv.skip(i as int), w as int, max as int) == fitting(gv, 0, max as int),
        ensures
            out@ == fitting(gv, 0, max as int),
        decreases gs.len() - i,
    {
        let gw = str_width(gs[i].as_str());
        assert(gv.skip(i as int)[0] == gs@[i as int]@);
        assert(gv.skip(i as int).drop_first() =~= gv.skip(i + 1));
        if (w as u128) + (gw as u128) + 3 > max as u128 {
            assert(out@ + Seq::<char>::empty() =~= out@);
            break;
        }
        let ghost before = out@;
        push_str_chars(&mut out, gs[i].as_str());
        w = w + gw;
        i += 1;
        assert(out@ + fitting(gv.skip(i as int), w as int, max as int) =~= before + fitting(
            gv.skip(i - 1),
            (w - gw) as int,
            max as int,
        ));
        if i == gs.len() {
            assert(gv.skip(i as int) =~= Seq::<Seq<char>>::empty());
            assert(out@ + Seq::<char>::empty() =~= out@);
        }
    }
    push_str_chars(&mut out, "...");
    string_of(out.as_slice())
}

/// What the status bar is drawn from.
pub struct StatusInput {
    pub mode: Mode,
    /// A key waiting for the rest of its command.
    pub pending: Option<char>,
    /// Whether the model is being waited on, the spinner's frame, the time
    /// waited (already written out, in seconds) and the last agent event.
    pub waiting: bool,
    pub spinner: char,
    pub elapsed: String,
    pub last_event: Option<AgentEvent>,
    pub buffer_name: String,
    pub modified: bool,
    pub active_buffer: usize,
    pub buffer_count: usize,
    pub git_info: String,
    pub model: String,
    pub api_type: String,
    pub status_error: Option<String>,
    /// Files and lines of code the file picker counted.
    pub file_picker_loc: (usize, usize),
}

pub open spec fn colored_view(v: Seq<(String, TermColor)>) -> Seq<(Seq<char>, TermColor)> {
    Seq::new(v.len(), |i: int| (v[i].0@, v[i].1))
}

/// The mode's label, with a pending key in brackets.
pub open spec fn mode_text(m: Mode, pending: Option<char>) -> Seq<char> {
    match pending {
        Some(c) => mode_label(m) + "("@ + seq![c] + ")"@,
        None => mode_label(m),
    }
}

/// The active skill group, shown as its emoji and name; a warning while
/// there is no agent.
pub open spec fn skill_text(skills: Option<&SkillSelection>) -> Seq<char> {
    match skills {
        Some(sel) => {
            let gs = groups_view(sel.skill_groups@);
            let i = if (sel.active_skill_group as int) < gs.len() - 1 {
                sel.active_skill_group as int
            } else {
                gs.len() - 1
            };
            gs[i].emoji + " "@ + gs[i].name
        },
        None => "\u{26a0}\u{fe0f} Working..."@,
    }
}

/// The first line of `s` (empty when it has none).
pub open spec fn first_line(s: Seq<char>) -> Seq<char> {
    if lines(s).len() > 0 {
        lines(s)[0]
    } else {
        Seq::empty()
    }
}

/// What the agent is doing, from its last event.
pub open spec fn detail_text(ev: Option<AgentEvent>) -> Seq<char> {
    match ev {
        Some(AgentEvent::Thinking { round, max_rounds }) => "Think "@ + decimal(round as nat) + "/"@ + decimal(
            max_rounds as nat,
        ),
        Some(AgentEvent::RunningTool { name }) => "Run "@ + name@,
        Some(AgentEvent::Verifying) => "Verify"@,
        Some(AgentEvent::ToolCall { summary, .. }) => {
            let l = first_line(summary@);
            if l.len() <= 30 {
                l
            } else {
                l.take(30)
            }
        },
        _ => "Wait"@,
    }
}

pub open spec fn opt_seg(b: bool, t: Seq<char>, c: TermColor) -> Seq<(Seq<char>, TermColor)> {
    if b {
        seq![(t, c)]
    } else {
        Seq::empty()
    }
}

pub open spec fn bar() -> (Seq<char>, TermColor) {
    (" \u{2502} "@, TermColor::Grey)
}

pub open spec fn prefix_text(st: StatusInput) -> Seq<char> {
    "["@ + decimal((st.active_buffer + 1) as nat) + "/"@ + decimal(st.buffer_count as nat) + "] "@
}

pub open spec fn git_seg(st: StatusInput) -> Seq<(Seq<char>, TermColor)> {
    opt_seg(st.git_info@.len() > 0, " "@ + st.git_info@ + " "@, TermColor::Green)
}

pub open spec fn model_segs(st: StatusInput) -> Seq<(Seq<char>, TermColor)> {
    seq![(st.model@, TermColor::White), ("["@ + st.api_type@ + "]"@, TermColor::Magenta)]
}

/// While waiting: the spinner, mode and buffer first.
pub open spec fn waiting_head(st: StatusInput) -> Seq<(Seq<char>, TermColor)> {
    seq![
        (" "@ + seq![st.spinner] + " "@, TermColor::Yellow),
        (mode_text(st.mode, st.pending), mode_color(st.mode)),
        (" "@ + prefix_text(st) + " "@, TermColor::Cyan),
    ] + opt_seg(st.modified, "[+] "@, TermColor::Red)
}

/// While waiting: then the name, time, what the agent does, skill group
/// and model.
pub open spec fn waiting_tail(st: StatusInput, skills: Option<&SkillSelection>) -> Seq<(Seq<char>, TermColor)> {
    seq![
        (fit_text(st.buffer_name@, 20) + " "@, TermColor::Cyan),
        (" \u{23f3} "@ + st.elapsed@ + "s"@, TermColor::Yellow),
        bar(),
        (detail_text(st.last_event), TermColor::Yellow),
        bar(),
        (skill_text(skills), TermColor::Green),
        bar(),
    ] + model_segs(st) + git_seg(st)
}

/// Otherwise: mode, buffer, skill group and model first.
pub open spec fn idle_head(st: StatusInput, skills: Option<&SkillSelection>) -> Seq<(Seq<char>, TermColor)> {
    seq![(" "@ + mode_text(st.mode, st.pending) + " "@, mode_color(st.mode)), (prefix_text(st), TermColor::Cyan)]
        + opt_seg(st.modified, "[+] "@, TermColor::Red) + seq![
        (fit_text(st.buffer_name@, 20), TermColor::Cyan),
        bar(),
        (skill_text(skills), TermColor::Green),
        bar(),
    ] + model_segs(st) + seq![bar()]
}

/// Then the last error or the key hint, the git summary and the file
/// picker's count.
pub open spec fn idle_tail(st: StatusInput) -> Seq<(Seq<char>, TermColor)> {
    let msg = match st.status_error {
        Some(e) => seq![(fit_text(e@, 60) + " "@, TermColor::Red)],
        None => seq![("[C-o] EDITOR [Ins] PastePatchCode"@, TermColor::Cyan)],
    };
    msg + git_seg(st) + if st.file_picker_loc.1 > 0 {
        seq![
            bar(),
            (
                "\u{1f4c1} "@ + decimal(st.file_picker_loc.0 as nat) + "f "@ + decimal(st.file_picker_loc.1 as nat)
                    + " LOC"@,
                TermColor::Yellow,
            ),
        ]
    } else {
        Seq::empty()
    }
}

/// The status bar's segments.
pub open spec fn status_spec(st: StatusInput, skills: Option<&SkillSelection>) -> Seq<(Seq<char>, TermColor)> {
    if st.waiting {
        waiting_head(st) + waiting_tail(st, skills)
    } else {
        idle_head(st, skills) + idle_tail(st)
    }
}

fn cat2(a: &str, b: &str) -> (r: String)
    ensures
        r@ == a@ + b@,
{
    let mut v: Vec<char> = Vec::new();
    push_str_chars(&mut v, a);
    push_str_chars(&mut v, b);
    string_of(v.as_slice())
}

fn cat3(a: &str, b: &str, c: &str) -> (r: String)
    ensures
        r@ == a@ + b@ + c@,
{
    let mut v: Vec<char> = Vec::new();
    push_str_chars(&mut v, a);
    push_str_chars(&mut v, b);
    push_str_chars(&mut v, c);
    string_of(v.as_slice())
}

fn cat5(a: &str, b: &str, c: &str, d: &str, e: &str) -> (r: String)
    ensures
        r@ == a@ + b@ + c@ + d@ + e@,
{
    let mut v: Vec<char> = Vec::new();
    push_str_chars(&mut v, a);
    push_str_chars(&mut v, b);
    push_str_chars(&mut v, c);
    push_str_chars(&mut v, d);
    push_str_chars(&mut v, e);
    string_of(v.as_slice())
}

fn dec(n: u128) -> (r: String)
    ensures
        r@ == decimal(n as nat),
{
    string_of(decimal_chars(n).as_slice())
}

fn mode_string(m: Mode, pending: Option<char>) -> (r: String)
    ensures
        r@ == mode_text(m, pending),
{
    match pending {
        Some(c) => {
            let mut v: Vec<char> = Vec::new();
            push_str_chars(&mut v, m.as_str());
            v.push('(');
            v.push(c);
            v.push(')');
            assert(v@ =~= mode_label(m) + "("@ + seq![c] + ")"@) by {
                reveal_strlit("(");
                reveal_strlit(")");
            }
            string_of(v.as_slice())
        },
        None => string_of(chars_of(m.as_str()).as_slice()),
    }
}

/// The active skill group as the status bar shows it.
pub fn skill_label(skills: Option<&SkillSelection>) -> (r: String)
    requires
        skills matches Some(sel) ==> sel.skill_groups@.len() > 0,
    ensures
        r@ == skill_text(skills),
{
    match skills {
        Some(sel) => {
            let n = sel.skill_groups.len();
            let i = if sel.active_skill_group < n - 1 {
                sel.active_skill_group
            } else {
                n - 1
            };
            let g = &sel.skill_groups[i];
            assert(groups_view(sel.skill_groups@)[i as int] == g@);
            cat3(g.emoji.as_str(), " ", g.name.as_str())
        },
        None => string_of(chars_of("\u{26a0}\u{fe0f} Working...").as_slice()),
    }
}

/// What the agent is doing, from its last event, as the status bar shows
/// it while waiting.
pub fn detail_label(ev: &Option<AgentEvent>) -> (r: String)
    ensures
        r@ == detail_text(*ev),
{
    match ev {
        Some(AgentEvent::Thinking { round, max_rounds }) => {
            let a = dec(*round as u128);
            let b = dec(*max_rounds as u128);
            let mut v: Vec<char> = Vec::new();
            push_str_chars(&mut v, "Think ");
            push_str_chars(&mut v, a.as_str());
            push_str_chars(&mut v, "/");
            push_str_chars(&mut v, b.as_str());
            string_of(v.as_slice())
        },
        Some(AgentEvent::RunningTool { name }) => {
            let mut v: Vec<char> = Vec::new();
            push_str_chars(&mut v, "Run ");
            push_str_chars(&mut v, name.as_str());
            string_of(v.as_slice())
        },
        Some(AgentEvent::Verifying) => string_of(chars_of("Verify").as_slice()),
        Some(AgentEvent::ToolCall { summary, .. }) => {
            let ls = split_lines(chars_of(summary.as_str()).as_slice());
            if ls.len() == 0 {
                return string_of(Vec::<char>::new().as_slice());
            }
            assert(lines(summary@)[0] == ls@[0]@);
            let l = &ls[0];
            if l.len() <= 30 {
                string_of(l.as_slice())
            } else {
                let t = crate::text::copy_range(l.as_slice(), 0, 30);
                assert(t@ =~= l@.take(30));
                string_of(t.as_slice())
            }
        },
        _ => string_of(chars_of("Wait").as_slice()),
    }
}

fn push_seg(out: &mut Vec<(String, TermColor)>, t: String, c: TermColor)
    ensures
        colored_view(final(out)@) == colored_view(old(out)@).push((t@, c)),
{
    out.push((t, c));
    assert(colored_view(out@) =~= colored_view(old(out)@).push((t@, c)));
}

fn push_bar(out: &mut Vec<(String, TermColor)>)
    ensures
        colored_view(final(out)@) == colored_view(old(out)@).push(bar()),
{
    push_seg(out, string_of(chars_of(" \u{2502} ").as_slice()), TermColor::Grey);
}

fn push_prefix_parts(out: &mut Vec<(String, TermColor)>, st: &StatusInput, waiting: bool)
    ensures
        colored_view(final(out)@) == colored_view(old(out)@) + if waiting {
            waiting_head(*st)
        } else {
            seq![(" "@ + mode_text(st.mode, st.pending) + " "@, mode_color(st.mode)), (prefix_text(*st), TermColor::Cyan)]
                + opt_seg(st.modified, "[+] "@, TermColor::Red)
        },
{
    let mode = mode_string(st.mode, st.pending);
    let mc = st.mode.status_color();
    let a = dec(st.active_buffer as u128 + 1);
    let b = dec(st.buffer_count as u128);
    let prefix = cat5("[", a.as_str(), "/", b.as_str(), "] ");
    if waiting {
        let mut sp: Vec<char> = Vec::new();
        sp.push(' ');
        sp.push(st.spinner);
        sp.push(' ');
        assert(sp@ =~= " "@ + seq![st.spinner] + " "@) by {
            reveal_strlit(" ");
        }
        push_seg(out, string_of(sp.as_slice()), TermColor::Yellow);
        push_seg(out, mode, mc);
        push_seg(out, cat3(" ", prefix.as_str(), " "), TermColor::Cyan);
    } else {
        push_seg(out, cat3(" ", mode.as_str(), " "), mc);
        push_seg(out, prefix, TermColor::Cyan);
    }
    if st.modified {
        push_seg(out, string_of(chars_of("[+] ").as_slice()), TermColor::Red);
    }
    proof {
        let o = colored_view(old(out)@);
        if waiting {
            assert(colored_view(out@) =~= o + waiting_head(*st));
        } else {
            assert(colored_view(out@) =~= o + (seq![
                (" "@ + mode_text(st.mode, st.pending) + " "@, mode_color(st.mode)),
                (prefix_text(*st), TermColor::Cyan),
            ] + opt_seg(st.modified, "[+] "@, TermColor::Red)));
        }
    }
}

fn push_model_git(out: &mut Vec<(String, TermColor)>, st: &StatusInput, git: bool)
    ensures
        colored_view(final(out)@) == colored_view(old(out)@) + model_segs(*st) + if git {
            git_seg(*st)
        } else {
            Seq::empty()
        },
{
    push_seg(out, string_of(chars_of(st.model.as_str()).as_slice()), TermColor::White);
    push_seg(out, cat3("[", st.api_type.as_str(), "]"), TermColor::Magenta);
    if git && chars_of(st.git_info.as_str()).len() > 0 {
        push_seg(out, cat3(" ", st.git_info.as_str(), " "), TermColor::Green);
    }
    assert(colored_view(out@) =~= colored_view(old(out)@) + model_segs(*st) + if git {
        git_seg(*st)
    } else {
        Seq::empty()
    });
}

fn waiting_rest(out: &mut Vec<(String, TermColor)>, st: &StatusInput, skills: Option<&SkillSelection>)
    requires
        skills matches Some(sel) ==> sel.skill_groups@.len() > 0,
    ensures
        colored_view(final(out)@) == colored_view(old(out)@) + waiting_tail(*st, skills),
{
    let name = fit_width(st.buffer_name.as_str(), 20);
    push_seg(out, cat2(name.as_str(), " "), TermColor::Cyan);
    push_seg(out, cat3(" \u{23f3} ", st.elapsed.as_str(), "s"), TermColor::Yellow);
    push_bar(out);
    push_seg(out, detail_label(&st.last_event), TermColor::Yellow);
    push_bar(out);
    push_seg(out, skill_label(skills), TermColor::Green);
    push_bar(out);
    push_model_git(out, st, true);
    assert(colored_view(out@) =~= colored_view(old(out)@) + waiting_tail(*st, skills));
}

fn idle_rest(out: &mut Vec<(String, TermColor)>, st: &StatusInput, skills: Option<&SkillSelection>)
    requires
        skills matches Some(sel) ==> sel.skill_groups@.len() > 0,
    ensures
        colored_view(final(out)@) == colored_view(old(out)@) + seq![
            (fit_text(st.buffer_name@, 20), TermColor::Cyan),
            bar(),
            (skill_text(skills), TermColor::Green),
            bar(),
        ] + model_segs(*st) + seq![bar()] + idle_tail(*st),
{
    let name = fit_width(st.buffer_name.as_str(), 20);
    push_seg(out, name, TermColor::Cyan);
    push_bar(out);
    push_seg(out, skill_label(skills), TermColor::Green);
    push_bar(out);
    push_model_git(out, st, false);
    push_bar(out);
    let ghost mid = colored_view(out@);
    match &st.status_error {
        Some(e) => {
            let f = fit_width(e.as_str(), 60);
            push_seg(out, cat2(f.as_str(), " "), TermColor::Red);
        },
        None => {
            push_seg(out, string_of(chars_of("[C-o] EDITOR [Ins] PastePatchCode").as_slice()), TermColor::Cyan);
        },
    }
    if chars_of(st.git_info.as_str()).len() > 0 {
        push_seg(out, cat3(" ", st.git_info.as_str(), " "), TermColor::Green);
    }
    if st.file_picker_loc.1 > 0 {
        push_bar(out);
        let f = dec(st.file_picker_loc.0 as u128);
        let l = dec(st.file_picker_loc.1 as u128);
        push_seg(out, cat5("\u{1f4c1} ", f.as_str(), "f ", l.as_str(), " LOC"), TermColor::Yellow);
    }
    assert(colored_view(out@) =~= mid + idle_tail(*st));
    assert(colored_view(out@) =~= colored_view(old(out)@) + seq![
        (fit_text(st.buffer_name@, 20), TermColor::Cyan),
        bar(),
        (skill_text(skills), TermColor::Green),
        bar(),
    ] + model_segs(*st) + seq![bar()] + idle_tail(*st));
}

/// The status bar's segments, each with its colour: while the model is
/// being waited on, the spinner, mode, buffer, time waited, what the agent
/// does, skill group and model; otherwise the mode, buffer, skill group,
/// model, then the last error (cut to 60 columns) or the key hint, the git
/// summary and the file picker's count.
pub fn status_segments(st: &StatusInput, skills: Option<&SkillSelection>) -> (r: Vec<(String, TermColor)>)
    requires
        skills matches Some(sel) ==> sel.skill_groups@.len() > 0,
    ensures
        colored_view(r@) == status_spec(*st, skills),
{
    let mut out: Vec<(String, TermColor)> = Vec::new();
    assert(colored_view(out@) =~= Seq::<(Seq<char>, TermColor)>::empty());
    push_prefix_parts(&mut out, st, st.waiting);
    if st.waiting {
        waiting_rest(&mut out, st, skills);
    } else {
        idle_rest(&mut out, st, skills);
    }
    assert(colored_view(out@) =~= status_spec(*st, skills));
    out
}

/// How many lines of the git gutter are added ones.
pub open spec fn plus_count(g: Seq<char>) -> nat
    decreases g.len(),
{
    if g.len() == 0 {
        0
    } else {
        plus_count(g.drop_last()) + if g.last() == '+' {
            1nat
        } else {
            0nat
        }
    }
}

/// How many runs of added lines (hunks) the git gutter has.
pub open spec fn plus_runs(g: Seq<char>) -> nat
    decreases g.len(),
{
    if g.len() == 0 {
        0
    } else {
        plus_runs(g.drop_last()) + if g.last() == '+' && (g.len() == 1 || g[g.len() - 2] != '+') {
            1nat
        } else {
            0nat
        }
    }
}

/// The git summary of the status bar: added lines and hunks, when a gutter
/// is known and it has added lines.
pub open spec fn git_summary_text(gutter: Option<Seq<char>>) -> Seq<char> {
    match gutter {
        Some(g) => if plus_count(g) > 0 {
            "\u{2502} +"@ + decimal(plus_count(g)) + " ("@ + decimal(plus_runs(g)) + "h)"@
        } else {
            Seq::empty()
        },
        None => Seq::empty(),
    }
}

/// The git summary shown in the status bar, from the gutter marks of the
/// buffer's lines (`+` for an added line).
pub fn git_summary(gutter: Option<&Vec<char>>) -> (r: String)
    ensures
        r@ == git_summary_text(match gutter {
            Some(g) => Some(g@),
            None => None,
        }),
{
    match gutter {
        None => string_of(Vec::<char>::new().as_slice()),
        Some(g) => {
            let mut count: usize = 0;
            let mut runs: usize = 0;
            let mut in_hunk = false;
            let mut i: usize = 0;
            while i < g.len()
                invariant
                    i <= g@.len(),
                    count == plus_count(g@.take(i as int)),
                    runs == plus_runs(g@.take(i as int)),
                    count <= i,
                    runs <= i,
                    in_hunk == (i > 0 && g@[i - 1] == '+'),
                decreases g.len() - i,
            {
                assert(g@.take(i + 1).drop_last() =~= g@.take(i as int));
                if g[i] == '+' {
                    count += 1;
                    if !in_hunk {
                        runs += 1;
                    }
                    in_hunk = true;
                } else {
                    in_hunk = false;
                }
                i += 1;
            }
            assert(g@.take(g@.len() as int) =~= g@);
            if count == 0 {
                return string_of(Vec::<char>::new().as_slice());
            }
            let a = dec(count as u128);
            let b = dec(runs as u128);
            let mut v: Vec<char> = Vec::new();
            push_str_chars(&mut v, "\u{2502} +");
            push_str_chars(&mut v, a.as_str());
            push_str_chars(&mut v, " (");
            push_str_chars(&mut v, b.as_str());
            push_str_chars(&mut v, "h)");
            string_of(v.as_slice())
        },
    }
}

} // verus!
