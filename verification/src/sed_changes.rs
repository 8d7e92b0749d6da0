//! The `:sed` command: its arguments, the changes it proposes from the
//! search output, the review buffer that shows them, and applying the
//! reviewed changes to a file's text.

use vstd::prelude::*;
use crate::buffer::{line_text, lines_view, BufferLine, LineStyle, LineView};
use crate::fmt::{decimal, decimal_string, digit_char};
use crate::misc::{highlight_segments, highlight_segments_spec, segments_from, unquote, unquote_spec};
use crate::task::{digits_value, is_digit, lemma_digits_value_prefix, unsigned_body};
use crate::text::{
    chars_of, copy_range, lines, replace_all, replace_all_exec, split_lines, starts_with, starts_with_exec,
    string_of, trim, trimmed,
};

verus! {

broadcast use vstd::string::group_string_axioms;

/// The first index of `c` in `s`.
pub open spec fn index_of_char(s: Seq<char>, c: char) -> Option<int>
    decreases s.len(),
{
    if s.len() == 0 {
        None
    } else if s[0] == c {
        Some(0)
    } else {
        match index_of_char(s.drop_first(), c) {
            Some(i) => Some(i + 1),
            None => None,
        }
    }
}

pub proof fn lemma_index_of_char(s: Seq<char>, c: char)
    ensures
        index_of_char(s, c) matches Some(i) ==> {
            &&& 0 <= i < s.len()
            &&& s[i] == c
            &&& forall|j: int| 0 <= j < i ==> s[j] != c
        },
        index_of_char(s, c) is None ==> forall|j: int| 0 <= j < s.len() ==> s[j] != c,
    decreases s.len(),
{
    if s.len() > 0 && s[0] != c {
        lemma_index_of_char(s.drop_first(), c);
        if let Some(i) = index_of_char(s, c) {
            assert forall|j: int| 0 <= j < i implies s[j] != c by {
                if j > 0 {
                    assert(s[j] == s.drop_first()[j - 1]);
                }
            }
        } else {
            assert forall|j: int| 0 <= j < s.len() implies s[j] != c by {
                if j > 0 {
                    assert(s[j] == s.drop_first()[j - 1]);
                }
            }
        }
    }
}

/// `s` cut at the first `c`: what stands before it, and what follows it
/// when there is one (`splitn(2, c)`).
pub open spec fn split_at_char(s: Seq<char>, c: char) -> (Seq<char>, Option<Seq<char>>) {
    match index_of_char(s, c) {
        Some(i) => (s.take(i), Some(s.skip(i + 1))),
        None => (s, None),
    }
}

/// Cuts `s` at its first `c`.
pub fn split_at_exec(s: &[char], c: char) -> (r: (Vec<char>, Option<Vec<char>>))
    ensures
        r.0@ == split_at_char(s@, c).0,
        match r.1 {
            Some(t) => split_at_char(s@, c).1 == Some(t@),
            None => split_at_char(s@, c).1 is None,
        },
{
    proof {
        lemma_index_of_char(s@, c);
    }
    let mut i: usize = 0;
    while i < s.len()
        invariant
            i <= s.len(),
            forall|j: int| 0 <= j < i ==> s@[j] != c,
        decreases s.len() - i,
    {
        if s[i] == c {
            assert(index_of_char(s@, c) == Some(i as int)) by {
                lemma_index_of_char(s@, c);
                if let Some(k) = index_of_char(s@, c) {
                    if k < i {
                    } else if k > i {
                    }
                }
            }
            return (copy_range(s, 0, i), Some(copy_range(s, i + 1, s.len())));
        }
        i += 1;
    }
    assert(index_of_char(s@, c) is None) by {
        if let Some(k) = index_of_char(s@, c) {
        }
    }
    assert(s@.subrange(0, s.len() as int) =~= s@);
    (copy_range(s, 0, s.len()), None)
}

/// What `:sed` was asked to do.
#[derive(Debug, Clone)]
pub struct SedArgs {
    pub find: String,
    pub replace: String,
    pub path: String,
}

/// The replacement and the search path that follow the pattern: the text
/// up to the first space, then the rest trimmed (the current directory when
/// there is no rest).
pub open spec fn replace_and_path(r: Seq<char>) -> (Seq<char>, Seq<char>) {
    let (rep, rest) = split_at_char(r, ' ');
    match rest {
        Some(p) => (rep, trim(p)),
        None => (rep, "."@),
    }
}

/// The pattern, replacement and path of a `:sed` argument, in its three
/// forms: `/find/replace [path]`, `find|replace [path]` and
/// `find replace [path]` (each word of the last form unquoted).
pub open spec fn sed_args(arg: Seq<char>) -> (Seq<char>, Seq<char>, Seq<char>) {
    if arg.len() > 0 && arg[0] == '/' {
        let (find, rest) = split_at_char(arg.drop_first(), '/');
        match rest {
            Some(r) => {
                let (rep, path) = replace_and_path(crate::text::strip_start_char(r, '/'));
                (find, rep, path)
            },
            None => (Seq::empty(), Seq::empty(), "."@),
        }
    } else if arg.contains('|') {
        let (find, rest) = split_at_char(arg, '|');
        match rest {
            Some(r) => {
                let (rep, path) = replace_and_path(r);
                (find, rep, path)
            },
            None => (find, Seq::empty(), "."@),
        }
    } else {
        let (p0, rest) = split_at_char(arg, ' ');
        match rest {
            Some(r) => {
                let (p1, rest2) = split_at_char(r, ' ');
                match rest2 {
                    Some(p2) => (unquote_spec(p0), unquote_spec(p1), unquote_spec(p2)),
                    None => (unquote_spec(p0), unquote_spec(p1), "."@),
                }
            },
            None => (Seq::empty(), Seq::empty(), "."@),
        }
    }
}

fn strip_leading(s: &[char], c: char) -> (r: Vec<char>)
    ensures
        r@ == crate::text::strip_start_char(s@, c),
{
    let mut a: usize = 0;
    assert(s@.skip(0) =~= s@);
    while a < s.len() && s[a] == c
        invariant
            a <= s.len(),
            crate::text::strip_start_char(s@, c) == crate::text::strip_start_char(s@.skip(a as int), c),
        decreases s.len() - a,
    {
        assert(s@.skip(a as int).drop_first() =~= s@.skip(a + 1));
        a += 1;
    }
    assert(s@.subrange(a as int, s.len() as int) =~= s@.skip(a as int));
    copy_range(s, a, s.len())
}

fn replace_and_path_exec(r: &[char]) -> (out: (String, String))
    ensures
        out.0@ == replace_and_path(r@).0,
        out.1@ == replace_and_path(r@).1,
{
    let (rep, rest) = split_at_exec(r, ' ');
    match rest {
        Some(p) => (string_of(rep.as_slice()), string_of(trimmed(p.as_slice()).as_slice())),
        None => (string_of(rep.as_slice()), string_of(chars_of(".").as_slice())),
    }
}

/// Reads the argument of `:sed`.
pub fn parse_sed_args(arg: &str) -> (r: SedArgs)
    ensures
        (r.find@, r.replace@, r.path@) == sed_args(arg@),
{
    let a = chars_of(arg);
    if a.len() > 0 && a[0] == '/' {
        let body = copy_range(a.as_slice(), 1, a.len());
        assert(body@ =~= a@.drop_first());
        let (find, rest) = split_at_exec(body.as_slice(), '/');
        match rest {
            Some(r) => {
                let r2 = strip_leading(r.as_slice(), '/');
                let (replace, path) = replace_and_path_exec(r2.as_slice());
                SedArgs { find: string_of(find.as_slice()), replace, path }
            },
            None => SedArgs { find: String::new(), replace: String::new(), path: string_of(chars_of(".").as_slice()) },
        }
    } else if crate::text::contains_char(a.as_slice(), '|') {
        let (find, rest) = split_at_exec(a.as_slice(), '|');
        match rest {
            Some(r) => {
                let (replace, path) = replace_and_path_exec(r.as_slice());
                SedArgs { find: string_of(find.as_slice()), replace, path }
            },
            None => SedArgs {
                find: string_of(find.as_slice()),
                replace: String::new(),
                path: string_of(chars_of(".").as_slice()),
            },
        }
    } else {
        let (p0, rest) = split_at_exec(a.as_slice(), ' ');
        match rest {
            Some(r) => {
                let (p1, rest2) = split_at_exec(r.as_slice(), ' ');
                let find = unquote(string_of(p0.as_slice()).as_str());
                let replace = unquote(string_of(p1.as_slice()).as_str());
                match rest2 {
                    Some(p2) => SedArgs { find, replace, path: unquote(string_of(p2.as_slice()).as_str()) },
                    None => SedArgs { find, replace, path: string_of(chars_of(".").as_slice()) },
                }
            },
            None => SedArgs { find: String::new(), replace: String::new(), path: string_of(chars_of(".").as_slice()) },
        }
    }
}

/// `str::parse::<usize>`: an optional `+`, then one or more decimal
/// digits, with a value that fits.
pub open spec fn parse_usize(s: Seq<char>) -> Option<nat> {
    let body = unsigned_body(s);
    if body.len() == 0 || !(forall|i: int| 0 <= i < body.len() ==> is_digit(#[trigger] body[i])) {
        None
    } else if digits_value(body) > usize::MAX {
        None
    } else {
        Some(digits_value(body))
    }
}

/// Reads a `usize` as `str::parse` does.
pub fn parse_usize_exec(s: &[char]) -> (r: Option<usize>)
    ensures
        r matches Some(v) ==> parse_usize(s@) == Some(v as nat),
        r is None ==> parse_usize(s@) is None,
{
    let start: usize = if s.len() > 0 && s[0] == '+' {
        1
    } else {
        0
    };
    let ghost body = unsigned_body(s@);
    assert(body =~= s@.skip(start as int));
    if start >= s.len() {
        return None;
    }
    let mut i = start;
    while i < s.len()
        invariant
            start <= i <= s.len(),
            body == s@.skip(start as int),
            body == unsigned_body(s@),
            body.len() == s.len() - start,
            forall|k: int| 0 <= k < i - start ==> is_digit(#[trigger] body[k]),
        decreases s.len() - i,
    {
        if !('0' <= s[i] && s[i] <= '9') {
            assert(!is_digit(body[i - start]));
            return None;
        }
        i += 1;
    }
    let mut acc: u128 = 0;
    i = start;
    assert(body.take(0) =~= Seq::<char>::empty());
    while i < s.len()
        invariant
            start <= i <= s.len(),
            body == s@.skip(start as int),
            body == unsigned_body(s@),
            body.len() == s.len() - start,
            forall|k: int| 0 <= k < body.len() ==> is_digit(#[trigger] body[k]),
            acc == digits_value(body.take(i - start)),
            acc <= usize::MAX,
        decreases s.len() - i,
    {
        let c = s[i];
        assert(is_digit(body[i - start]));
        let d = (c as u32 - '0' as u32) as u128;
        proof {
            assert(body.take(i + 1 - start).drop_last() =~= body.take(i - start));
            assert(body.take(i + 1 - start).last() == c);
        }
        let next = acc * 10 + d;
        assert(digits_value(body.take(i + 1 - start)) == next);
        if next > usize::MAX as u128 {
            proof {
                lemma_digits_value_prefix(body, (i + 1 - start) as int);
            }
            return None;
        }
        acc = next;
        i += 1;
    }
    assert(body.take(s.len() - start) =~= body);
    Some(acc as usize)
}

/// `s` without leading copies of `p` (`trim_start_matches` with a string).
pub open spec fn strip_prefix_repeated(s: Seq<char>, p: Seq<char>) -> Seq<char>
    decreases s.len(),
{
    if p.len() > 0 && starts_with(s, p) {
        strip_prefix_repeated(s.skip(p.len() as int), p)
    } else {
        s
    }
}

pub(crate) fn strip_prefix_repeated_exec(s: &[char], p: &[char]) -> (r: Vec<char>)
    ensures
        r@ == strip_prefix_repeated(s@, p@),
{
    let mut a: usize = 0;
    assert(s@.skip(0) =~= s@);
    while p.len() > 0 && a <= s.len() && starts_with_exec(copy_range(s, a, s.len()).as_slice(), p)
        invariant
            a <= s.len(),
            strip_prefix_repeated(s@, p@) == strip_prefix_repeated(s@.skip(a as int), p@),
        decreases s.len() - a,
    {
        assert(s@.subrange(a as int, s.len() as int) =~= s@.skip(a as int));
        assert(s@.skip(a as int).skip(p.len() as int) =~= s@.skip(a + p.len()));
        a += p.len();
    }
    assert(s@.subrange(a as int, s.len() as int) =~= s@.skip(a as int));
    copy_range(s, a, s.len())
}

/// One change that `:sed` proposes: where, and the line before and after.
#[derive(Debug, Clone)]
pub struct SedProposal {
    pub file: String,
    pub line_num: usize,
    pub old_line: String,
    pub new_line: String,
}

pub type ProposalView = (Seq<char>, nat, Seq<char>, Seq<char>);

pub open spec fn proposal_view(p: SedProposal) -> ProposalView {
    (p.file@, p.line_num as nat, p.old_line@, p.new_line@)
}

pub open spec fn proposals_view(v: Seq<SedProposal>) -> Seq<ProposalView> {
    Seq::new(v.len(), |i: int| proposal_view(v[i]))
}

/// The change that one `file:line:text` line of the search output
/// proposes: the file without leading `./`, the line number (0 when it
/// does not read as one), the text, and the text with every `find`
/// replaced.
pub open spec fn proposal_of(line: Seq<char>, find: Seq<char>, replace: Seq<char>) -> Option<ProposalView> {
    let (c0, r1) = split_at_char(line, ':');
    match r1 {
        Some(r) => {
            let (c1, r2) = split_at_char(r, ':');
            match r2 {
                Some(c2) => Some(
                    (
                        strip_prefix_repeated(c0, "./"@),
                        match parse_usize(c1) {
                            Some(n) => n,
                            None => 0,
                        },
                        c2,
                        replace_all(c2, find, replace),
                    ),
                ),
                None => None,
            }
        },
        None => None,
    }
}

/// The changes that the lines of the search output propose, in order.
pub open spec fn proposals_of(ls: Seq<Seq<char>>, find: Seq<char>, replace: Seq<char>) -> Seq<ProposalView>
    decreases ls.len(),
{
    if ls.len() == 0 {
        Seq::empty()
    } else {
        let before = proposals_of(ls.drop_last(), find, replace);
        match proposal_of(ls.last(), find, replace) {
            Some(p) => before.push(p),
            None => before,
        }
    }
}

/// The changes that `:sed` proposes, from the output of
/// `rg -n -H --no-heading -F find path`.
pub fn sed_proposals(rg_output: &str, find: &str, replace: &str) -> (r: Vec<SedProposal>)
    ensures
        proposals_view(r@) == proposals_of(lines(rg_output@), find@, replace@),
{
    let c = chars_of(rg_output);
    let ls = split_lines(c.as_slice());
    let ghost lv = ls@.map_values(|l: Vec<char>| l@);
    let f = chars_of(find);
    let rp = chars_of(replace);
    let dot = chars_of("./");
    let mut out: Vec<SedProposal> = Vec::new();
    let mut i: usize = 0;
    while i < ls.len()
        invariant
            i <= ls@.len(),
            lv == ls@.map_values(|l: Vec<char>| l@),
            lv == lines(rg_output@),
            f@ == find@,
            rp@ == replace@,
            dot@ == "./"@,
            proposals_view(out@) == proposals_of(lv.take(i as int), find@, replace@),
        decreases ls.len() - i,
    {
        proof {
            assert(lv.take(i + 1).drop_last() =~= lv.take(i as int));
            assert(lv.take(i + 1).last() == ls@[i as int]@);
        }
        let line = ls[i].as_slice();
        let (c0, r1) = split_at_exec(line, ':');
        if let Some(r) = r1 {
            let (c1, r2) = split_at_exec(r.as_slice(), ':');
            if let Some(c2) = r2 {
                let file = strip_prefix_repeated_exec(c0.as_slice(), dot.as_slice());
                let line_num = match parse_usize_exec(c1.as_slice()) {
                    Some(n) => n,
                    None => 0,
                };
                let new_line = replace_all_exec(c2.as_slice(), f.as_slice(), rp.as_slice());
                let p = SedProposal {
                    file: string_of(file.as_slice()),
                    line_num,
                    old_line: string_of(c2.as_slice()),
                    new_line: string_of(new_line.as_slice()),
                };
                let ghost before = proposals_view(out@);
                out.push(p);
                assert(proposals_view(out@) =~= before.push(proposal_view(p)));
            }
        }
        i += 1;
    }
    assert(lv.take(ls.len() as int) =~= lv);
    out
}

/// The four lines that show one proposal in the review buffer: where,
/// the old line with the matches marked, the new line with the
/// replacements marked, and a blank line.
pub open spec fn proposal_lines(p: ProposalView, find: Seq<char>, replace: Seq<char>) -> Seq<LineView> {
    seq![
        seq![("@@ "@, LineStyle::Info), (p.0 + ":"@ + decimal(p.1), LineStyle::ToolResult)],
        highlight_segments_spec(p.2, find, LineStyle::Plain, LineStyle::User, "- "@, LineStyle::Error),
        highlight_segments_spec(p.3, replace, LineStyle::Plain, LineStyle::ToolResult, "+ "@, LineStyle::ToolResult),
        seq![(Seq::<char>::empty(), LineStyle::Plain)],
    ]
}

pub open spec fn all_proposal_lines(ps: Seq<ProposalView>, find: Seq<char>, replace: Seq<char>) -> Seq<LineView>
    decreases ps.len(),
{
    if ps.len() == 0 {
        Seq::empty()
    } else {
        all_proposal_lines(ps.drop_last(), find, replace) + proposal_lines(ps.last(), find, replace)
    }
}

/// The line that ends the review buffer.
pub open spec fn review_footer(count: nat) -> LineView {
    if count == 0 {
        seq![("  No matches found"@, LineStyle::Dim)]
    } else {
        seq![
            ("  "@ + decimal(count) + " proposed changes. Edit buffer, [dd] to delete, [w] to apply"@, LineStyle::Info),
        ]
    }
}

/// The review buffer of `:sed`: each proposal, then a line that counts
/// them.
pub fn review_lines(props: &Vec<SedProposal>, find: &str, replace: &str) -> (r: Vec<BufferLine>)
    ensures
        lines_view(r@) == all_proposal_lines(proposals_view(props@), find@, replace@) + seq![
            review_footer(props@.len() as nat),
        ],
{
    let ghost pv = proposals_view(props@);
    let mut out: Vec<BufferLine> = Vec::new();
    let mut i: usize = 0;
    while i < props.len()
        invariant
            i <= props@.len(),
            pv == proposals_view(props@),
            lines_view(out@) == all_proposal_lines(pv.take(i as int), find@, replace@),
        decreases props.len() - i,
    {
        proof {
            assert(pv.take(i + 1).drop_last() =~= pv.take(i as int));
            assert(pv.take(i + 1).last() == pv[i as int]);
        }
        let p = &props[i];
        let mut where_text = chars_of(p.file.as_str());
        crate::text::push_str_chars(&mut where_text, ":");
        crate::text::push_str_chars(&mut where_text, decimal_string(p.line_num as u128).as_str());
        let mut header: Vec<(String, LineStyle)> = Vec::new();
        header.push((string_of(chars_of("@@ ").as_slice()), LineStyle::Info));
        header.push((string_of(where_text.as_slice()), LineStyle::ToolResult));
        let l0 = BufferLine::from_segments(header);
        let l1 = BufferLine::from_segments(
            highlight_segments(p.old_line.as_str(), find, LineStyle::Plain, LineStyle::User, "- ", LineStyle::Error),
        );
        let l2 = BufferLine::from_segments(
            highlight_segments(
                p.new_line.as_str(),
                replace,
                LineStyle::Plain,
                LineStyle::ToolResult,
                "+ ",
                LineStyle::ToolResult,
            ),
        );
        let l3 = BufferLine::new("", LineStyle::Plain);
        proof {
            reveal_strlit("");
            assert(""@ =~= Seq::<char>::empty());
        }
        let ghost before = lines_view(out@);
        out.push(l0);
        out.push(l1);
        out.push(l2);
        out.push(l3);
        proof {
            let pl = proposal_lines(pv[i as int], find@, replace@);
            assert(l0@ =~= pl[0]);
            assert(l1@ =~= pl[1]);
            assert(l2@ =~= pl[2]);
            assert(l3@ =~= pl[3]);
            assert(lines_view(out@) =~= before + proposal_lines(pv[i as int], find@, replace@));
        }
        i += 1;
    }
    assert(pv.take(props.len() as int) =~= pv);
    let ghost before = lines_view(out@);
    if props.len() == 0 {
        out.push(BufferLine::new("  No matches found", LineStyle::Dim));
    } else {
        let mut t = chars_of("  ");
        crate::text::push_str_chars(&mut t, decimal_string(props.len() as u128).as_str());
        crate::text::push_str_chars(&mut t, " proposed changes. Edit buffer, [dd] to delete, [w] to apply");
        out.push(BufferLine::new(string_of(t.as_slice()).as_str(), LineStyle::Info));
    }
    assert(lines_view(out@) =~= before.push(review_footer(props@.len() as nat)));
    out
}

/// The console line that announces a `:sed` run.
pub fn sed_banner(find: &str, replace: &str) -> (r: BufferLine)
    ensures
        r@ == seq![("  🔍 sed: "@ + find@ + " -> "@ + replace@, LineStyle::Info)],
{
    let mut t = chars_of("  🔍 sed: ");
    crate::text::push_str_chars(&mut t, find);
    crate::text::push_str_chars(&mut t, " -> ");
    crate::text::push_str_chars(&mut t, replace);
    BufferLine::new(string_of(t.as_slice()).as_str(), LineStyle::Info)
}

/// One reviewed change: a line of a file and its new text.
#[derive(Debug, Clone)]
pub struct SedChange {
    pub file: String,
    pub line_num: usize,
    pub new_text: String,
}

pub type ChangeView = (Seq<char>, nat, Seq<char>);

pub open spec fn change_view(c: SedChange) -> ChangeView {
    (c.file@, c.line_num as nat, c.new_text@)
}

pub open spec fn changes_view(v: Seq<SedChange>) -> Seq<ChangeView> {
    Seq::new(v.len(), |i: int| change_view(v[i]))
}

/// The changes left in the review buffer, read from line `i` on: an
/// `@@ file:line` header followed by a `- ` line and a `+ ` line gives the
/// text after `+ ` (a blank line after the three is passed over); any other
/// line is passed over.
pub open spec fn reviewed_from(ls: Seq<Seq<char>>, i: int) -> Seq<ChangeView>
    decreases ls.len() - i,
{
    if i < 0 || i >= ls.len() {
        Seq::empty()
    } else {
        let c = ls[i];
        let (file, num) = split_at_char(c.skip(3), ':');
        if starts_with(c, "@@ "@) && num is Some && i + 2 < ls.len() && starts_with(ls[i + 1], "- "@)
            && starts_with(ls[i + 2], "+ "@) {
            let n = match parse_usize(num->0) {
                Some(n) => n,
                None => 0,
            };
            let next = if i + 3 < ls.len() && ls[i + 3].len() == 0 {
                i + 4
            } else {
                i + 3
            };
            seq![(file, n, ls[i + 2].skip(2))] + reviewed_from(ls, next)
        } else {
            reviewed_from(ls, i + 1)
        }
    }
}

/// The changes that the review buffer still holds, from the text of its
/// lines.
pub fn reviewed_changes(contents: &Vec<String>) -> (r: Vec<SedChange>)
    ensures
        changes_view(r@) == reviewed_from(crate::text::views(contents@), 0),
{
    let ghost lv = crate::text::views(contents@);
    let ls = crate::text::chars_of_each(contents);
    let at = chars_of("@@ ");
    let minus = chars_of("- ");
    let plus = chars_of("+ ");
    let mut out: Vec<SedChange> = Vec::new();
    let mut i: usize = 0;
    while i < ls.len()
        invariant
            i <= ls@.len(),
            ls@.len() == lv.len(),
            ls@.map_values(|l: Vec<char>| l@) == lv,
            at@ == "@@ "@,
            minus@ == "- "@,
            plus@ == "+ "@,
            changes_view(out@) + reviewed_from(lv, i as int) == reviewed_from(lv, 0),
        decreases ls.len() - i,
    {
        assert(ls@[i as int]@ == lv[i as int]);
        proof {
            reveal_strlit("@@ ");
            reveal_strlit("+ ");
        }
        let c = ls[i].as_slice();
        let mut taken = false;
        if starts_with_exec(c, at.as_slice()) && ls.len() - i > 2 {
            let skip3 = copy_range(c, 3, c.len());
            assert(skip3@ =~= lv[i as int].skip(3));
            let (file, num) = split_at_exec(skip3.as_slice(), ':');
            if let Some(nm) = num {
                assert(ls@[i + 1]@ == lv[i + 1]);
                assert(ls@[i + 2]@ == lv[i + 2]);
                if starts_with_exec(ls[i + 1].as_slice(), minus.as_slice()) && starts_with_exec(
                    ls[i + 2].as_slice(),
                    plus.as_slice(),
                ) {
                    let n = match parse_usize_exec(nm.as_slice()) {
                        Some(n) => n,
                        None => 0,
                    };
                    let t = copy_range(ls[i + 2].as_slice(), 2, ls[i + 2].len());
                    assert(t@ =~= lv[i + 2].skip(2));
                    let ch = SedChange { file: string_of(file.as_slice()), line_num: n, new_text: string_of(t.as_slice()) };
                    let ghost before = changes_view(out@);
                    out.push(ch);
                    assert(changes_view(out@) =~= before + seq![change_view(ch)]);
                    let next = if ls.len() - i > 3 && ls[i + 3].len() == 0 {
                        i + 4
                    } else {
                        i + 3
                    };
                    proof {
                        if i + 3 < ls.len() {
                            assert(ls@[i + 3]@ == lv[i + 3]);
                        }
                        assert(changes_view(out@) + reviewed_from(lv, next as int) =~= before + (seq![
                            change_view(ch),
                        ] + reviewed_from(lv, next as int)));
                    }
                    i = next;
                    taken = true;
                }
            }
        }
        if !taken {
            i += 1;
        }
    }
    assert(changes_view(out@) =~= changes_view(out@) + reviewed_from(lv, i as int));
    out
}

/// The files that the changes touch, in the order they first appear.
pub open spec fn files_of(cs: Seq<ChangeView>) -> Seq<Seq<char>>
    decreases cs.len(),
{
    if cs.len() == 0 {
        Seq::empty()
    } else if files_of(cs.drop_last()).contains(cs.last().0) {
        files_of(cs.drop_last())
    } else {
        files_of(cs.drop_last()).push(cs.last().0)
    }
}

/// The edits (line number and new text) that the changes make to `file`,
/// in order.
pub open spec fn edits_for(cs: Seq<ChangeView>, file: Seq<char>) -> Seq<(nat, Seq<char>)>
    decreases cs.len(),
{
    if cs.len() == 0 {
        Seq::empty()
    } else if cs.last().0 == file {
        edits_for(cs.drop_last(), file).push((cs.last().1, cs.last().2))
    } else {
        edits_for(cs.drop_last(), file)
    }
}

proof fn lemma_edits_for_absent(cs: Seq<ChangeView>, file: Seq<char>)
    requires
        !files_of(cs).contains(file),
    ensures
        edits_for(cs, file) == Seq::<(nat, Seq<char>)>::empty(),
    decreases cs.len(),
{
    if cs.len() > 0 {
        if !files_of(cs.drop_last()).contains(cs.last().0) {
            assert(files_of(cs) == files_of(cs.drop_last()).push(cs.last().0));
            assert(files_of(cs)[files_of(cs).len() - 1] == cs.last().0);
            assert(cs.last().0 != file);
            assert forall|k: int| 0 <= k < files_of(cs.drop_last()).len() implies files_of(cs.drop_last())[k] != file by {
                assert(files_of(cs)[k] == files_of(cs.drop_last())[k]);
            }
        } else {
            assert(cs.last().0 != file);
        }
        lemma_edits_for_absent(cs.drop_last(), file);
    }
}

/// The edits that the changes make to one file.
#[derive(Debug, Clone)]
pub struct FileEdits {
    pub file: String,
    pub edits: Vec<(usize, String)>,
}

pub open spec fn edits_view(v: Seq<(usize, String)>) -> Seq<(nat, Seq<char>)> {
    Seq::new(v.len(), |i: int| (v[i].0 as nat, v[i].1@))
}

/// The changes gathered by file: one entry for each file, in the order the
/// files first appear, with that file's edits in order.
pub fn group_by_file(changes: &Vec<SedChange>) -> (r: Vec<FileEdits>)
    ensures
        r@.len() == files_of(changes_view(changes@)).len(),
        forall|k: int|
            0 <= k < r@.len() ==> {
                &&& (#[trigger] r@[k]).file@ == files_of(changes_view(changes@))[k]
                &&& edits_view(r@[k].edits@) == edits_for(changes_view(changes@), r@[k].file@)
            },
{
    let ghost cv = changes_view(changes@);
    let mut out: Vec<FileEdits> = Vec::new();
    let mut i: usize = 0;
    while i < changes.len()
        invariant
            i <= changes@.len(),
            cv == changes_view(changes@),
            out@.len() == files_of(cv.take(i as int)).len(),
            forall|k: int|
                0 <= k < out@.len() ==> {
                    &&& (#[trigger] out@[k]).file@ == files_of(cv.take(i as int))[k]
                    &&& edits_view(out@[k].edits@) == edits_for(cv.take(i as int), out@[k].file@)
                },
        decreases changes.len() - i,
    {
        let ghost pre = cv.take(i as int);
        let ghost post = cv.take(i + 1);
        proof {
            assert(post.drop_last() =~= pre);
            assert(post.last() == cv[i as int]);
        }
        let c = &changes[i];
        let fc = chars_of(c.file.as_str());
        let mut k: usize = 0;
        let mut found = false;
        while k < out.len() && !found
            invariant
                k <= out@.len(),
                fc@ == c.file@,
                found ==> k < out@.len() && out@[k as int].file@ == c.file@,
                forall|j: int| 0 <= j < k ==> (#[trigger] out@[j]).file@ != c.file@,
            decreases out.len() - k + (if found { 0int } else { 1int }),
        {
            if crate::text::chars_eq(chars_of(out[k].file.as_str()).as_slice(), fc.as_slice()) {
                found = true;
            } else {
                k += 1;
            }
        }
        let ghost old_out = out@;
        let text = string_of(chars_of(c.new_text.as_str()).as_slice());
        if found {
            assert(files_of(pre)[k as int] == c.file@);
            assert(files_of(pre).contains(c.file@));
            assert(files_of(post) == files_of(pre));
            let mut g = out.remove(k);
            g.edits.push((c.line_num, text));
            out.insert(k, g);
            assert forall|j: int| 0 <= j < out@.len() implies {
                &&& (#[trigger] out@[j]).file@ == files_of(post)[j]
                &&& edits_view(out@[j].edits@) == edits_for(post, out@[j].file@)
            } by {
                if j == k {
                    assert(edits_view(out@[j].edits@) =~= edits_view(old_out[j].edits@).push(
                        (c.line_num as nat, c.new_text@),
                    ));
                } else {
                    assert(out@[j] == old_out[j]);
                    assert(old_out[j].file@ != c.file@) by {
                        if old_out[j].file@ == c.file@ {
                            lemma_files_distinct(pre);
                        }
                    }
                }
            }
        } else {
            assert(!files_of(pre).contains(c.file@)) by {
                if files_of(pre).contains(c.file@) {
                    let j = files_of(pre).index_of(c.file@);
                    assert(out@[j].file@ == files_of(pre)[j]);
                }
            }
            proof {
                lemma_edits_for_absent(pre, c.file@);
            }
            let mut edits: Vec<(usize, String)> = Vec::new();
            edits.push((c.line_num, text));
            let g = FileEdits { file: string_of(fc.as_slice()), edits };
            out.push(g);
            assert(files_of(post) == files_of(pre).push(c.file@));
            assert forall|j: int| 0 <= j < out@.len() implies {
                &&& (#[trigger] out@[j]).file@ == files_of(post)[j]
                &&& edits_view(out@[j].edits@) == edits_for(post, out@[j].file@)
            } by {
                if j == old_out.len() {
                    assert(edits_view(out@[j].edits@) =~= seq![(c.line_num as nat, c.new_text@)]);
                    assert(edits_for(post, c.file@) =~= Seq::<(nat, Seq<char>)>::empty().push(
                        (c.line_num as nat, c.new_text@),
                    ));
                } else {
                    assert(out@[j] == old_out[j]);
                    assert(files_of(post)[j] == files_of(pre)[j]);
                }
            }
        }
        i += 1;
    }
    assert(cv.take(changes.len() as int) =~= cv);
    out
}

/// No file appears twice in `files_of`.
pub proof fn lemma_files_distinct(cs: Seq<ChangeView>)
    ensures
        forall|a: int, b: int|
            0 <= a < b < files_of(cs).len() ==> files_of(cs)[a] != files_of(cs)[b],
    decreases cs.len(),
{
    if cs.len() > 0 {
        lemma_files_distinct(cs.drop_last());
        let pre = files_of(cs.drop_last());
        if !pre.contains(cs.last().0) {
            assert forall|a: int, b: int| 0 <= a < b < files_of(cs).len() implies files_of(cs)[a]
                != files_of(cs)[b] by {
                if b == pre.len() {
                    assert(files_of(cs)[a] == pre[a]);
                }
            }
        }
    }
}

/// The lines after the edits, in order, with how many applied, how many
/// failed (a line past the end) and whether any line changed. Line `n` is
/// index `n - 1`; line 0 stands for the first line.
pub open spec fn apply_edits_spec(ls: Seq<Seq<char>>, es: Seq<(nat, Seq<char>)>) -> (Seq<Seq<char>>, nat, nat, bool)
    decreases es.len(),
{
    if es.len() == 0 {
        (ls, 0, 0, false)
    } else {
        let (l, a, f, m) = apply_edits_spec(ls, es.drop_last());
        let idx: int = if es.last().0 == 0 {
            0
        } else {
            es.last().0 - 1
        };
        if idx < l.len() {
            (l.update(idx, es.last().1), a + 1, f, m || l[idx] != es.last().1)
        } else {
            (l, a, f + 1, m)
        }
    }
}

proof fn lemma_apply_edits_len(ls: Seq<Seq<char>>, es: Seq<(nat, Seq<char>)>)
    ensures
        apply_edits_spec(ls, es).0.len() == ls.len(),
        apply_edits_spec(ls, es).1 + apply_edits_spec(ls, es).2 == es.len(),
    decreases es.len(),
{
    if es.len() > 0 {
        lemma_apply_edits_len(ls, es.drop_last());
    }
}

/// What the edits do to one file's text.
#[derive(Debug, Clone)]
pub struct FileOutcome {
    /// The new text, when a line changed.
    pub new_content: Option<String>,
    pub applied: usize,
    pub failed: usize,
}

/// The new text of a file: its lines after the edits joined with `'\n'`,
/// with a final `'\n'` when the old text had one.
pub open spec fn edited_text(content: Seq<char>, es: Seq<(nat, Seq<char>)>) -> Seq<char> {
    let body = crate::text::join_lines(apply_edits_spec(lines(content), es).0);
    if content.len() > 0 && content.last() == '\n' {
        body + "\n"@
    } else {
        body
    }
}

/// Applies the reviewed edits of one file to its text.
pub fn apply_edits(content: &str, edits: &Vec<(usize, String)>) -> (r: FileOutcome)
    ensures
        ({
            let (_, a, f, m) = apply_edits_spec(lines(content@), edits_view(edits@));
            &&& r.applied + r.failed == edits@.len()
            &&& r.applied == a
            &&& r.failed == f
            &&& match r.new_content {
                Some(t) => m && t@ == edited_text(content@, edits_view(edits@)),
                None => !m,
            }
        }),
{
    let ghost ev = edits_view(edits@);
    let c = chars_of(content);
    let mut ls = split_lines(c.as_slice());
    let ghost l0 = ls@.map_values(|l: Vec<char>| l@);
    let mut applied: usize = 0;
    let mut failed: usize = 0;
    let mut modified = false;
    let mut i: usize = 0;
    while i < edits.len()
        invariant
            i <= edits@.len(),
            ev == edits_view(edits@),
            l0 == lines(content@),
            ({
                let (l, a, f, m) = apply_edits_spec(l0, ev.take(i as int));
                &&& ls@.map_values(|x: Vec<char>| x@) == l
                &&& applied == a
                &&& failed == f
                &&& modified == m
            }),
            applied + failed == i,
        decreases edits.len() - i,
    {
        proof {
            assert(ev.take(i + 1).drop_last() =~= ev.take(i as int));
            assert(ev.take(i + 1).last() == ev[i as int]);
            lemma_apply_edits_len(l0, ev.take(i as int));
        }
        let n = edits[i].0;
        let idx: usize = if n == 0 {
            0
        } else {
            n - 1
        };
        if idx < ls.len() {
            let t = chars_of(edits[i].1.as_str());
            if !crate::text::chars_eq(ls[idx].as_slice(), t.as_slice()) {
                modified = true;
            }
            let ghost before = ls@.map_values(|x: Vec<char>| x@);
            ls.set(idx, t);
            assert(ls@.map_values(|x: Vec<char>| x@) =~= before.update(idx as int, edits@[i as int].1@));
            applied += 1;
        } else {
            failed += 1;
        }
        i += 1;
    }
    assert(ev.take(edits.len() as int) =~= ev);
    if modified {
        let mut body = crate::text::join_with_newlines(&ls);
        if c.len() > 0 && c[c.len() - 1] == '\n' {
            body.push('\n');
            proof {
                reveal_strlit("\n");
            }
            assert(body@ =~= crate::text::join_lines(ls@.map_values(|x: Vec<char>| x@)) + "\n"@);
        }
        FileOutcome { new_content: Some(string_of(body.as_slice())), applied, failed }
    } else {
        FileOutcome { new_content: None, applied, failed }
    }
}

/// The running count of a `:sed` apply: changes applied and changes that
/// failed.
#[derive(Debug, Clone, Copy, PartialEq, Eq, Structural)]
pub struct SedTally {
    pub applied: usize,
    pub failed: usize,
}

impl SedTally {
    pub fn new() -> (r: SedTally)
        ensures
            r.applied == 0,
            r.failed == 0,
    {
        SedTally { applied: 0, failed: 0 }
    }

    /// A file that could not be read: all of its `n` changes failed.
    pub fn record_unreadable(&mut self, n: usize)
        requires
            old(self).failed + n <= usize::MAX,
        ensures
            final(self).applied == old(self).applied,
            final(self).failed == old(self).failed + n,
    {
        self.failed = self.failed + n;
    }

    /// A file that was read and edited with `outcome` from its `n`
    /// changes; when its new text could not be written, its `n` changes
    /// count as failed and are taken back from those applied.
    pub fn record_file(&mut self, outcome: &FileOutcome, n: usize, write_failed: bool)
        requires
            old(self).applied + outcome.applied <= usize::MAX,
            old(self).failed + outcome.failed + n <= usize::MAX,
        ensures
            final(self).applied == (if write_failed {
                if old(self).applied + outcome.applied >= n {
                    (old(self).applied + outcome.applied - n) as int
                } else {
                    0
                }
            } else {
                old(self).applied + outcome.applied
            }),
            final(self).failed == old(self).failed + outcome.failed + (if write_failed {
                n as int
            } else {
                0
            }),
    {
        self.applied = self.applied + outcome.applied;
        self.failed = self.failed + outcome.failed;
        if write_failed {
            self.failed = self.failed + n;
            self.applied = self.applied.saturating_sub(n);
        }
    }

    /// The console line that reports the result.
    pub fn summary(&self) -> (r: BufferLine)
        ensures
            r@ == seq![
                (
                    "  ✅ Applied "@ + decimal(self.applied as nat) + " changes. "@ + decimal(self.failed as nat)
                        + " failed."@,
                    if self.failed > 0 {
                        LineStyle::Error
                    } else {
                        LineStyle::ToolResult
                    },
                ),
            ],
    {
        let mut t = chars_of("  ✅ Applied ");
        crate::text::push_str_chars(&mut t, decimal_string(self.applied as u128).as_str());
        crate::text::push_str_chars(&mut t, " changes. ");
        crate::text::push_str_chars(&mut t, decimal_string(self.failed as u128).as_str());
        crate::text::push_str_chars(&mut t, " failed.");
        let style = if self.failed > 0 {
            LineStyle::Error
        } else {
            LineStyle::ToolResult
        };
        BufferLine::new(string_of(t.as_slice()).as_str(), style)
    }
}

proof fn lemma_line_text_single(x: (Seq<char>, LineStyle))
    ensures
        line_text(seq![x]) == x.0,
{
    assert(seq![x].drop_last() =~= Seq::<(Seq<char>, LineStyle)>::empty());
    assert(line_text(Seq::<(Seq<char>, LineStyle)>::empty()) == Seq::<char>::empty());
    assert(line_text(seq![x]) =~= Seq::<char>::empty() + x.0);
}

proof fn lemma_line_text_concat(a: LineView, b: LineView)
    ensures
        line_text(a + b) == line_text(a) + line_text(b),
    decreases b.len(),
{
    if b.len() == 0 {
        assert(a + b =~= a);
        assert(line_text(b) =~= Seq::<char>::empty());
        assert(line_text(a) + line_text(b) =~= line_text(a));
    } else {
        lemma_line_text_concat(a, b.drop_last());
        assert((a + b).drop_last() =~= a + b.drop_last());
        assert(line_text(a) + line_text(b) =~= line_text(a) + line_text(b.drop_last()) + b.last().0);
    }
}

proof fn lemma_segments_text(line: Seq<char>, pattern: Seq<char>, ls: LineStyle, ps: LineStyle, last: int)
    requires
        pattern.len() > 0,
        0 <= last <= line.len(),
    ensures
        line_text(segments_from(line, pattern, ls, ps, last)) == line.skip(last),
    decreases line.len() - last,
{
    crate::text::lemma_find_from_spec(line, pattern, last);
    match crate::text::find_from(line, pattern, last) {
        Some(p) => {
            lemma_segments_text(line, pattern, ls, ps, p + pattern.len());
            let head: LineView = if p > last {
                seq![(line.subrange(last, p), ls)]
            } else {
                Seq::empty()
            };
            let tail = segments_from(line, pattern, ls, ps, p + pattern.len());
            lemma_line_text_concat(head + seq![(pattern, ps)], tail);
            lemma_line_text_concat(head, seq![(pattern, ps)]);
            lemma_line_text_single((pattern, ps));
            if p > last {
                lemma_line_text_single((line.subrange(last, p), ls));
            } else {
                assert(line_text(head) =~= Seq::<char>::empty());
            }
            assert(line.subrange(p, p + pattern.len()) == pattern);
            assert(line.skip(last) =~= line.subrange(last, p) + pattern + line.skip(p + pattern.len()));
        },
        None => {
            if last < line.len() {
                lemma_line_text_single((line.skip(last), ls));
            } else {
                assert(line.skip(last) =~= Seq::<char>::empty());
            }
        },
    }
}

/// The text of a highlighted line is its prefix and then the line.
pub proof fn lemma_highlight_text(
    line: Seq<char>,
    pattern: Seq<char>,
    ls: LineStyle,
    ps: LineStyle,
    prefix: Seq<char>,
    pstyle: LineStyle,
)
    ensures
        line_text(highlight_segments_spec(line, pattern, ls, ps, prefix, pstyle)) == prefix + line,
{
    let first: LineView = seq![(prefix, pstyle)];
    lemma_line_text_single((prefix, pstyle));
    if pattern.len() == 0 {
        let v: LineView = seq![(prefix, pstyle), (line, ls)];
        assert(v.drop_last() =~= first);
    } else {
        lemma_segments_text(line, pattern, ls, ps, 0);
        lemma_line_text_concat(first, segments_from(line, pattern, ls, ps, 0));
        assert(line.skip(0) =~= line);
    }
}

proof fn lemma_decimal_parses(n: nat)
    ensures
        decimal(n).len() > 0,
        forall|i: int| 0 <= i < decimal(n).len() ==> is_digit(#[trigger] decimal(n)[i]),
        digits_value(decimal(n)) == n,
    decreases n,
{
    if n >= 10 {
        lemma_decimal_parses(n / 10);
        let d = decimal(n);
        assert(d.drop_last() =~= decimal(n / 10));
        let r = (n % 10) as nat;
        assert(digit_char(r) as u32 - '0' as u32 == r);
        assert(d.last() == digit_char(r));
        assert(digits_value(d) == digits_value(decimal(n / 10)) * 10 + r);
        assert(n == (n / 10) * 10 + r);
        assert forall|i: int| 0 <= i < d.len() implies is_digit(#[trigger] d[i]) by {
            if i < d.len() - 1 {
                assert(d[i] == decimal(n / 10)[i]);
            }
        }
    } else {
        assert(digit_char(n) as u32 - '0' as u32 == n);
        assert(decimal(n).drop_last() =~= Seq::<char>::empty());
        assert(digits_value(Seq::<char>::empty()) == 0);
    }
}

/// The text of each line.
pub open spec fn texts_of(ls: Seq<LineView>) -> Seq<Seq<char>> {
    Seq::new(ls.len(), |i: int| line_text(ls[i]))
}

/// The whole review buffer that `review_lines` builds.
pub open spec fn review_view(ps: Seq<ProposalView>, find: Seq<char>, replace: Seq<char>) -> Seq<LineView> {
    all_proposal_lines(ps, find, replace) + seq![review_footer(ps.len())]
}

/// Each proposal as the change it asks for: its file, line and new text.
pub open spec fn asked_changes(ps: Seq<ProposalView>) -> Seq<ChangeView> {
    Seq::new(ps.len(), |i: int| (ps[i].0, ps[i].1, ps[i].3))
}

proof fn lemma_all_proposal_lines(ps: Seq<ProposalView>, find: Seq<char>, replace: Seq<char>)
    ensures
        all_proposal_lines(ps, find, replace).len() == 4 * ps.len(),
        forall|j: int, t: int|
            0 <= j < ps.len() && 0 <= t < 4 ==> all_proposal_lines(ps, find, replace)[4 * j + t]
                == #[trigger] proposal_lines(ps[j], find, replace)[t],
    decreases ps.len(),
{
    if ps.len() > 0 {
        lemma_all_proposal_lines(ps.drop_last(), find, replace);
        let pre = all_proposal_lines(ps.drop_last(), find, replace);
        assert forall|j: int, t: int|
            0 <= j < ps.len() && 0 <= t < 4 implies all_proposal_lines(ps, find, replace)[4 * j + t]
                == #[trigger] proposal_lines(ps[j], find, replace)[t] by {
            if j < ps.len() - 1 {
                assert(ps.drop_last()[j] == ps[j]);
                assert(proposal_lines(ps.drop_last()[j], find, replace)[t] == pre[4 * j + t]);
            }
        }
    }
}

proof fn lemma_header_split(file: Seq<char>, n: nat)
    requires
        !file.contains(':'),
        n <= usize::MAX,
    ensures
        split_at_char(file + ":"@ + decimal(n), ':') == (file, Some(decimal(n))),
        parse_usize(decimal(n)) == Some(n),
{
    reveal_strlit(":");
    let s = file + ":"@ + decimal(n);
    lemma_index_of_char(s, ':');
    assert(s[file.len() as int] == ':');
    assert forall|j: int| 0 <= j < file.len() implies s[j] != ':' by {
        assert(s[j] == file[j]);
        if s[j] == ':' {
            assert(file.contains(':'));
        }
    }
    assert(index_of_char(s, ':') == Some(file.len() as int)) by {
        if let Some(k) = index_of_char(s, ':') {
            if k > file.len() {
                assert(s[file.len() as int] == ':');
            }
        }
    }
    assert(s.take(file.len() as int) =~= file);
    assert(s.skip(file.len() + 1int) =~= decimal(n));
    lemma_decimal_parses(n);
    assert(is_digit(decimal(n)[0]));
    assert(unsigned_body(decimal(n)) == decimal(n));
}

proof fn lemma_review_block(ps: Seq<ProposalView>, find: Seq<char>, replace: Seq<char>, j: int)
    requires
        0 <= j < ps.len(),
        forall|i: int| 0 <= i < ps.len() ==> !(#[trigger] ps[i]).0.contains(':'),
        forall|i: int| 0 <= i < ps.len() ==> (#[trigger] ps[i]).1 <= usize::MAX,
    ensures
        reviewed_from(texts_of(review_view(ps, find, replace)), 4 * j) == seq![asked_changes(ps)[j]]
            + reviewed_from(texts_of(review_view(ps, find, replace)), 4 * j + 4),
{
    let ls = review_view(ps, find, replace);
    let t = texts_of(ls);
    let p = ps[j];
    lemma_all_proposal_lines(ps, find, replace);
    let pl = proposal_lines(p, find, replace);
    assert(pl[0] == all_proposal_lines(ps, find, replace)[4 * j + 0]);
    assert(pl[1] == all_proposal_lines(ps, find, replace)[4 * j + 1]);
    assert(pl[2] == all_proposal_lines(ps, find, replace)[4 * j + 2]);
    assert(pl[3] == all_proposal_lines(ps, find, replace)[4 * j + 3]);
    assert(ls[4 * j] == pl[0]);
    assert(ls[4 * j + 1] == pl[1]);
    assert(ls[4 * j + 2] == pl[2]);
    assert(ls[4 * j + 3] == pl[3]);
    reveal_strlit("@@ ");
    reveal_strlit("- ");
    reveal_strlit("+ ");
    let where_text = p.0 + ":"@ + decimal(p.1);
    let h: LineView = seq![("@@ "@, LineStyle::Info), (where_text, LineStyle::ToolResult)];
    lemma_line_text_concat(seq![("@@ "@, LineStyle::Info)], seq![(where_text, LineStyle::ToolResult)]);
    assert(h =~= seq![("@@ "@, LineStyle::Info)] + seq![(where_text, LineStyle::ToolResult)]);
    lemma_line_text_single(("@@ "@, LineStyle::Info));
    lemma_line_text_single((where_text, LineStyle::ToolResult));
    let t0 = t[4 * j];
    assert(t0 == "@@ "@ + where_text);
    lemma_highlight_text(p.2, find, LineStyle::Plain, LineStyle::User, "- "@, LineStyle::Error);
    lemma_highlight_text(p.3, replace, LineStyle::Plain, LineStyle::ToolResult, "+ "@, LineStyle::ToolResult);
    assert(t[4 * j + 1] == "- "@ + p.2);
    assert(t[4 * j + 2] == "+ "@ + p.3);
    lemma_line_text_single((Seq::<char>::empty(), LineStyle::Plain));
    assert(t[4 * j + 3].len() == 0);
    assert(t0.take(3) =~= "@@ "@);
    assert(t0.skip(3) =~= where_text);
    lemma_header_split(p.0, p.1);
    assert(t[4 * j + 1].take(2) =~= "- "@);
    assert(t[4 * j + 2].take(2) =~= "+ "@);
    assert(t[4 * j + 2].skip(2) =~= p.3);
}

proof fn lemma_review_footer(ps: Seq<ProposalView>, find: Seq<char>, replace: Seq<char>)
    ensures
        reviewed_from(texts_of(review_view(ps, find, replace)), 4 * (ps.len() as int)) == Seq::<ChangeView>::empty(),
{
    let ls = review_view(ps, find, replace);
    let t = texts_of(ls);
    lemma_all_proposal_lines(ps, find, replace);
    assert(ls[4 * (ps.len() as int)] == review_footer(ps.len()));
    reveal_strlit("@@ ");
    reveal_strlit("  ");
    reveal_strlit("  No matches found");
    let f = review_footer(ps.len());
    lemma_line_text_single(f[0]);
    assert(f =~= seq![f[0]]);
    assert(t[4 * (ps.len() as int)][0] == ' ');
    assert(!starts_with(t[4 * (ps.len() as int)], "@@ "@)) by {
        if starts_with(t[4 * (ps.len() as int)], "@@ "@) {
            assert(t[4 * (ps.len() as int)].take(3)[0] == '@');
        }
    }
    assert(reviewed_from(t, 4 * (ps.len() as int) + 1) == Seq::<ChangeView>::empty());
}

proof fn lemma_review_from(ps: Seq<ProposalView>, find: Seq<char>, replace: Seq<char>, j: int)
    requires
        0 <= j <= ps.len(),
        forall|i: int| 0 <= i < ps.len() ==> !(#[trigger] ps[i]).0.contains(':'),
        forall|i: int| 0 <= i < ps.len() ==> (#[trigger] ps[i]).1 <= usize::MAX,
    ensures
        reviewed_from(texts_of(review_view(ps, find, replace)), 4 * j) == asked_changes(ps).skip(j),
    decreases ps.len() - j,
{
    if j == ps.len() {
        lemma_review_footer(ps, find, replace);
        assert(asked_changes(ps).skip(j) =~= Seq::<ChangeView>::empty());
    } else {
        lemma_review_from(ps, find, replace, j + 1);
        lemma_review_block(ps, find, replace, j);
        assert(4 * j + 4 == 4 * (j + 1));
        assert(asked_changes(ps).skip(j) =~= seq![asked_changes(ps)[j]] + asked_changes(ps).skip(j + 1));
    }
}

/// Reading back a review buffer that nobody edited gives, in order, the
/// file, line and new text of each proposal it shows, as long as no file
/// name holds a `:`.
pub proof fn lemma_review_round_trip(ps: Seq<ProposalView>, find: Seq<char>, replace: Seq<char>)
    requires
        forall|i: int| 0 <= i < ps.len() ==> !(#[trigger] ps[i]).0.contains(':'),
        forall|i: int| 0 <= i < ps.len() ==> (#[trigger] ps[i]).1 <= usize::MAX,
    ensures
        reviewed_from(texts_of(review_view(ps, find, replace)), 0) == asked_changes(ps),
{
    lemma_review_from(ps, find, replace, 0);
    assert(asked_changes(ps).skip(0) =~= asked_changes(ps));
}

} // verus!
