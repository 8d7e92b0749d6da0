//! Reading the special buffers of normal mode: the jump target of a search
//! result, the file of a find result, the commit of a log line, the entries
//! of the status view, and the prompts and console lines around them.

use vstd::prelude::*;
use crate::buffer::{lines_view, BufferLine, LineStyle, LineView};
use crate::popup::PopupItem;
use crate::fmt::{decimal, decimal_string};
use crate::sed_changes::{
    index_of_char, lemma_index_of_char, parse_usize, parse_usize_exec, split_at_char, split_at_exec,
    strip_prefix_repeated,
};
use crate::text::{
    chars_of, contains, contains_char, copy_range, is_ws, lines, push_str_chars, split_lines, starts_with,
    starts_with_exec, string_of, trim, trimmed,
};

verus! {

broadcast use vstd::string::group_string_axioms;

pub open spec fn is_ascii_digit(c: char) -> bool {
    '0' <= c <= '9'
}

/// The place a search-result line points to, in its `file:line:text`
/// form: a file name without spaces and a line number.
pub open spec fn direct_target(c: Seq<char>) -> Option<(Seq<char>, nat)> {
    let (file, rest) = split_at_char(c, ':');
    match rest {
        Some(r) => {
            let (num, tail) = split_at_char(r, ':');
            if tail is Some && parse_usize(num) is Some && file.len() > 0 && !file.contains(' ') {
                Some((file, parse_usize(num)->0))
            } else {
                None
            }
        },
        None => None,
    }
}

/// The nearest line above line `k` that names a file in grouped search
/// output: not empty, and not a `line:text` result line.
pub open spec fn heading_above(ls: Seq<Seq<char>>, k: int) -> Option<Seq<char>>
    decreases k,
{
    if k <= 0 || k > ls.len() {
        None
    } else {
        let p = ls[k - 1];
        if p.len() == 0 || (is_ascii_digit(p[0]) && p.contains(':')) {
            heading_above(ls, k - 1)
        } else {
            Some(p)
        }
    }
}

/// Where `Enter` on line `cursor` of the search buffer jumps: the file and
/// line of a `file:line:text` line, or the line number of a `line:text`
/// line under the nearest file heading above it.
pub open spec fn search_jump(ls: Seq<Seq<char>>, cursor: int) -> Option<(Seq<char>, nat)> {
    if cursor < 0 || cursor >= ls.len() {
        None
    } else {
        let c = ls[cursor];
        match direct_target(c) {
            Some(t) => Some(t),
            None => {
                let (num, rest) = split_at_char(c, ':');
                if rest is Some && parse_usize(num) is Some {
                    match heading_above(ls, cursor) {
                        Some(f) => Some((f, parse_usize(num)->0)),
                        None => None,
                    }
                } else {
                    None
                }
            },
        }
    }
}

fn direct_target_exec(c: &[char]) -> (r: Option<(Vec<char>, usize)>)
    ensures
        match r {
            Some((f, n)) => direct_target(c@) == Some((f@, n as nat)),
            None => direct_target(c@) is None,
        },
{
    let (file, rest) = split_at_exec(c, ':');
    match rest {
        Some(r) => {
            let (num, tail) = split_at_exec(r.as_slice(), ':');
            if tail.is_some() {
                match parse_usize_exec(num.as_slice()) {
                    Some(n) => {
                        if file.len() > 0 && !contains_char(file.as_slice(), ' ') {
                            Some((file, n))
                        } else {
                            None
                        }
                    },
                    None => None,
                }
            } else {
                None
            }
        },
        None => None,
    }
}

/// The jump target of line `cursor` of the search buffer, from the text of
/// its lines.
pub fn search_jump_target(contents: &Vec<String>, cursor: usize) -> (r: Option<(String, usize)>)
    ensures
        match r {
            Some((f, n)) => search_jump(crate::text::views(contents@), cursor as int) == Some((f@, n as nat)),
            None => search_jump(crate::text::views(contents@), cursor as int) is None,
        },
{
    let ghost ls = crate::text::views(contents@);
    if cursor >= contents.len() {
        return None;
    }
    let c = chars_of(contents[cursor].as_str());
    if let Some((f, n)) = direct_target_exec(c.as_slice()) {
        return Some((string_of(f.as_slice()), n));
    }
    let (num, rest) = split_at_exec(c.as_slice(), ':');
    if rest.is_none() {
        return None;
    }
    let n = match parse_usize_exec(num.as_slice()) {
        Some(n) => n,
        None => return None,
    };
    assert(c@ == ls[cursor as int]);
    assert(search_jump(ls, cursor as int) == match heading_above(ls, cursor as int) {
        Some(f) => Some((f, n as nat)),
        None => None,
    });
    let mut k = cursor;
    while k > 0
        invariant
            k <= cursor < contents@.len(),
            ls == crate::text::views(contents@),
            heading_above(ls, cursor as int) == heading_above(ls, k as int),
            search_jump(ls, cursor as int) == match heading_above(ls, cursor as int) {
                Some(f) => Some((f, n as nat)),
                None => None,
            },
        decreases k,
    {
        let p = chars_of(contents[k - 1].as_str());
        assert(p@ == ls[k - 1]);
        let skip = p.len() == 0 || ('0' <= p[0] && p[0] <= '9' && contains_char(p.as_slice(), ':'));
        if !skip {
            return Some((string_of(p.as_slice()), n));
        }
        k -= 1;
    }
    None
}

/// The file that `Enter` opens on a find-result line: the line trimmed,
/// unless it is empty, a bracketed note or the "No matches" line.
pub open spec fn found_file(line: Seq<char>) -> Option<Seq<char>> {
    let t = trim(line);
    if t.len() == 0 || starts_with(t, "["@) || starts_with(t, "No matches"@) {
        None
    } else {
        Some(t)
    }
}

pub fn found_file_target(line: &str) -> (r: Option<String>)
    ensures
        match r {
            Some(f) => found_file(line@) == Some(f@),
            None => found_file(line@) is None,
        },
{
    let c = chars_of(line);
    let t = trimmed(c.as_slice());
    if t.len() == 0 || starts_with_exec(t.as_slice(), chars_of("[").as_slice()) || starts_with_exec(
        t.as_slice(),
        chars_of("No matches").as_slice(),
    ) {
        None
    } else {
        Some(string_of(t.as_slice()))
    }
}

/// The words of `s`: its runs of non-whitespace characters, in order
/// (`str::split_whitespace`).
pub open spec fn words_acc(s: Seq<char>) -> (Seq<Seq<char>>, Seq<char>)
    decreases s.len(),
{
    if s.len() == 0 {
        (Seq::empty(), Seq::empty())
    } else {
        let (done, cur) = words_acc(s.drop_last());
        if is_ws(s.last()) {
            if cur.len() > 0 {
                (done.push(cur), Seq::empty())
            } else {
                (done, cur)
            }
        } else {
            (done, cur.push(s.last()))
        }
    }
}

pub open spec fn words(s: Seq<char>) -> Seq<Seq<char>> {
    let (done, cur) = words_acc(s);
    if cur.len() > 0 {
        done.push(cur)
    } else {
        done
    }
}

/// Splits `s` into its words.
pub fn split_words(s: &[char]) -> (r: Vec<Vec<char>>)
    ensures
        r@.map_values(|w: Vec<char>| w@) == words(s@),
{
    let mut done: Vec<Vec<char>> = Vec::new();
    let mut cur: Vec<char> = Vec::new();
    let mut i: usize = 0;
    while i < s.len()
        invariant
            i <= s.len(),
            (done@.map_values(|w: Vec<char>| w@), cur@) == words_acc(s@.take(i as int)),
        decreases s.len() - i,
    {
        assert(s@.take(i + 1).drop_last() =~= s@.take(i as int));
        assert(s@.take(i + 1).last() == s@[i as int]);
        if crate::text::is_whitespace(s[i]) {
            if cur.len() > 0 {
                let ghost before = done@.map_values(|w: Vec<char>| w@);
                let w = cur;
                cur = Vec::new();
                done.push(w);
                assert(done@.map_values(|w: Vec<char>| w@) =~= before.push(w@));
            }
        } else {
            cur.push(s[i]);
        }
        i += 1;
    }
    assert(s@.take(s.len() as int) =~= s@);
    if cur.len() > 0 {
        let ghost before = done@.map_values(|w: Vec<char>| w@);
        let ghost cv = cur@;
        done.push(cur);
        assert(done@.map_values(|w: Vec<char>| w@) =~= before.push(cv));
    }
    done
}

pub open spec fn is_hex_digit(c: char) -> bool {
    ('0' <= c <= '9') || ('a' <= c <= 'f') || ('A' <= c <= 'F')
}

/// A commit hash: seven or more hexadecimal digits.
pub open spec fn is_hash(w: Seq<char>) -> bool {
    w.len() >= 7 && forall|i: int| 0 <= i < w.len() ==> is_hex_digit(#[trigger] w[i])
}

/// The first word of a log line that reads as a commit hash.
pub open spec fn first_hash(ws: Seq<Seq<char>>) -> Option<Seq<char>>
    decreases ws.len(),
{
    if ws.len() == 0 {
        None
    } else if is_hash(ws[0]) {
        Some(ws[0])
    } else {
        first_hash(ws.drop_first())
    }
}

fn is_hash_exec(w: &[char]) -> (r: bool)
    ensures
        r == is_hash(w@),
{
    if w.len() < 7 {
        return false;
    }
    let mut i: usize = 0;
    while i < w.len()
        invariant
            i <= w.len(),
            forall|j: int| 0 <= j < i ==> is_hex_digit(#[trigger] w@[j]),
        decreases w.len() - i,
    {
        let c = w[i];
        if !(('0' <= c && c <= '9') || ('a' <= c && c <= 'f') || ('A' <= c && c <= 'F')) {
            return false;
        }
        i += 1;
    }
    true
}

/// The commit that `Enter` shows from a line of the log buffer.
pub fn commit_hash(line: &str) -> (r: Option<String>)
    ensures
        match r {
            Some(h) => first_hash(words(trim(line@))) == Some(h@),
            None => first_hash(words(trim(line@))) is None,
        },
{
    let c = chars_of(line);
    let t = trimmed(c.as_slice());
    let ws = split_words(t.as_slice());
    let ghost wv = ws@.map_values(|w: Vec<char>| w@);
    let mut i: usize = 0;
    assert(wv.skip(0) =~= wv);
    while i < ws.len()
        invariant
            i <= ws@.len(),
            wv == ws@.map_values(|w: Vec<char>| w@),
            wv == words(trim(line@)),
            first_hash(wv) == first_hash(wv.skip(i as int)),
        decreases ws.len() - i,
    {
        assert(wv.len() == ws@.len());
        assert(wv.skip(i as int).len() > 0);
        assert(wv.skip(i as int)[0] == ws@[i as int]@);
        if is_hash_exec(ws[i].as_slice()) {
            assert(first_hash(wv.skip(i as int)) == Some(ws@[i as int]@));
            return Some(string_of(ws[i].as_slice()));
        }
        assert(wv.skip(i as int).drop_first() =~= wv.skip(i + 1));
        i += 1;
    }
    None
}

/// The style of a line of `git show` output in the commit buffer.
pub open spec fn show_line_style(l: Seq<char>) -> LineStyle {
    if starts_with(l, "commit "@) {
        LineStyle::User
    } else if starts_with(l, "Author:"@) || starts_with(l, "Date:"@) || starts_with(l, "Merge:"@) {
        LineStyle::Info
    } else if starts_with(l, "diff "@) || starts_with(l, "index "@) {
        LineStyle::Info
    } else if starts_with(l, "+++"@) || starts_with(l, "---"@) {
        LineStyle::Tool
    } else if starts_with(l, "@@"@) {
        LineStyle::Tool
    } else if starts_with(l, "+"@) {
        LineStyle::ToolResult
    } else if starts_with(l, "-"@) {
        LineStyle::Error
    } else {
        LineStyle::Plain
    }
}

fn begins(l: &[char], p: &str) -> (r: bool)
    ensures
        r == starts_with(l@, p@),
{
    starts_with_exec(l, chars_of(p).as_slice())
}

pub fn commit_line_style(line: &str) -> (r: LineStyle)
    ensures
        r == show_line_style(line@),
{
    let l = chars_of(line);
    let s = l.as_slice();
    if begins(s, "commit ") {
        LineStyle::User
    } else if begins(s, "Author:") || begins(s, "Date:") || begins(s, "Merge:") {
        LineStyle::Info
    } else if begins(s, "diff ") || begins(s, "index ") {
        LineStyle::Info
    } else if begins(s, "+++") || begins(s, "---") {
        LineStyle::Tool
    } else if begins(s, "@@") {
        LineStyle::Tool
    } else if begins(s, "+") {
        LineStyle::ToolResult
    } else if begins(s, "-") {
        LineStyle::Error
    } else {
        LineStyle::Plain
    }
}

/// The file of an entry of the status view: a line indented by four
/// spaces, with `+ ` marking a staged file.
pub open spec fn status_file(line: Seq<char>) -> Option<Seq<char>> {
    if starts_with(line, "    "@) {
        if starts_with(line, "    + "@) {
            Some(trim(strip_prefix_repeated(line, "    + "@)))
        } else {
            Some(trim(strip_prefix_repeated(line, "    "@)))
        }
    } else {
        None
    }
}

pub fn status_entry_file(line: &str) -> (r: Option<String>)
    ensures
        match r {
            Some(f) => status_file(line@) == Some(f@),
            None => status_file(line@) is None,
        },
{
    let l = chars_of(line);
    if !begins(l.as_slice(), "    ") {
        return None;
    }
    let stripped = if begins(l.as_slice(), "    + ") {
        crate::sed_changes::strip_prefix_repeated_exec(l.as_slice(), chars_of("    + ").as_slice())
    } else {
        crate::sed_changes::strip_prefix_repeated_exec(l.as_slice(), chars_of("    ").as_slice())
    };
    Some(string_of(trimmed(stripped.as_slice()).as_slice()))
}

/// The stash that a line of the status view names: from `stash@{` to the
/// first `}` after it.
pub open spec fn stash_ref(line: Seq<char>) -> Option<Seq<char>> {
    match crate::text::find(line, "stash@{"@) {
        Some(start) => match index_of_char(line.skip(start), '}') {
            Some(end) => Some(line.subrange(start, start + end + 1)),
            None => None,
        },
        None => None,
    }
}

pub fn stash_ref_in(line: &str) -> (r: Option<String>)
    ensures
        match r {
            Some(s) => stash_ref(line@) == Some(s@),
            None => stash_ref(line@) is None,
        },
{
    let l = chars_of(line);
    let pat = chars_of("stash@{");
    match crate::text::find_exec(l.as_slice(), pat.as_slice()) {
        Some(start) => {
            proof {
                crate::text::lemma_find_from_spec(l@, pat@, 0);
            }
            let tail = copy_range(l.as_slice(), start, l.len());
            assert(tail@ =~= l@.skip(start as int));
            let (before, after) = split_at_exec(tail.as_slice(), '}');
            match after {
                Some(_) => {
                    let end = before.len();
                    proof {
                        lemma_index_of_char(tail@, '}');
                    }
                    assert(index_of_char(tail@, '}') == Some(end as int));
                    Some(string_of(copy_range(l.as_slice(), start, start + end + 1).as_slice()))
                },
                None => None,
            }
        },
        None => None,
    }
}

/// What `s` does to a file in the status view: `Some(true)` unstages it
/// (its index column shows a change), `Some(false)` stages it, `None` when
/// `git status --porcelain` does not list it. A porcelain line is two
/// status columns, a space and the path.
pub open spec fn porcelain_toggle(ls: Seq<Seq<char>>, file: Seq<char>) -> Option<bool>
    decreases ls.len(),
{
    if ls.len() == 0 {
        None
    } else {
        let l = ls[0];
        if l.len() > 3 && trim(l.skip(3)) == file {
            Some(l[0] != ' ' && l[0] != '?')
        } else {
            porcelain_toggle(ls.drop_first(), file)
        }
    }
}

/// Reads `git status --porcelain` for the file under the cursor.
pub fn stage_toggle(porcelain: &str, file: &str) -> (r: Option<bool>)
    ensures
        r == porcelain_toggle(lines(porcelain@), file@),
{
    let c = chars_of(porcelain);
    let ls = split_lines(c.as_slice());
    let ghost lv = ls@.map_values(|l: Vec<char>| l@);
    let f = chars_of(file);
    let mut i: usize = 0;
    assert(lv.skip(0) =~= lv);
    while i < ls.len()
        invariant
            i <= ls@.len(),
            lv == ls@.map_values(|l: Vec<char>| l@),
            lv == lines(porcelain@),
            f@ == file@,
            porcelain_toggle(lv, file@) == porcelain_toggle(lv.skip(i as int), file@),
        decreases ls.len() - i,
    {
        assert(lv.skip(i as int)[0] == ls@[i as int]@);
        let l = ls[i].as_slice();
        if l.len() > 3 {
            let rest = copy_range(l, 3, l.len());
            assert(rest@ =~= ls@[i as int]@.skip(3));
            if crate::text::chars_eq(trimmed(rest.as_slice()).as_slice(), f.as_slice()) {
                return Some(l[0] != ' ' && l[0] != '?');
            }
        }
        assert(lv.skip(i as int).drop_first() =~= lv.skip(i + 1));
        i += 1;
    }
    None
}

/// The size of a file's change from `git diff --numstat`: its first line's
/// added and deleted counts.
pub open spec fn loc_text(out: Seq<char>) -> Seq<char> {
    let ls = lines(out);
    if ls.len() > 0 && words(ls[0]).len() >= 2 {
        "+"@ + words(ls[0])[0] + " -"@ + words(ls[0])[1] + " LOC"@
    } else {
        "0 LOC"@
    }
}

pub fn numstat_loc(out: &str) -> (r: String)
    ensures
        r@ == loc_text(out@),
{
    let c = chars_of(out);
    let ls = split_lines(c.as_slice());
    if ls.len() > 0 {
        let ws = split_words(ls[0].as_slice());
        if ws.len() >= 2 {
            let mut t = chars_of("+");
            crate::text::extend_from(&mut t, ws[0].as_slice());
            push_str_chars(&mut t, " -");
            crate::text::extend_from(&mut t, ws[1].as_slice());
            push_str_chars(&mut t, " LOC");
            return string_of(t.as_slice());
        }
    }
    string_of(chars_of("0 LOC").as_slice())
}

/// The question asked before a file is reset to `HEAD`.
pub fn reset_prompt(file: &str, loc: &str) -> (r: BufferLine)
    ensures
        r@ == seq![("  Reset "@ + file@ + " to HEAD? ("@ + loc@ + ") [n/Y]"@, LineStyle::Info)],
{
    let mut t = chars_of("  Reset ");
    push_str_chars(&mut t, file);
    push_str_chars(&mut t, " to HEAD? (");
    push_str_chars(&mut t, loc);
    push_str_chars(&mut t, ") [n/Y]");
    BufferLine::new(string_of(t.as_slice()).as_str(), LineStyle::Info)
}

/// The question asked before a stash is popped.
pub fn pop_prompt(stash: &str) -> (r: BufferLine)
    ensures
        r@ == seq![("  Pop "@ + stash@ + "? [n/Y]"@, LineStyle::Info)],
{
    let mut t = chars_of("  Pop ");
    push_str_chars(&mut t, stash);
    push_str_chars(&mut t, "? [n/Y]");
    BufferLine::new(string_of(t.as_slice()).as_str(), LineStyle::Info)
}

/// The console lines that report a git command: its output after `icon`,
/// and its errors; with `both` false, the errors only when there is no
/// output.
pub open spec fn git_report(icon: Seq<char>, out: Seq<char>, err: Seq<char>, both: bool) -> Seq<LineView> {
    let m = trim(out);
    let e = trim(err);
    let ml: Seq<LineView> = if m.len() > 0 { seq![seq![("  "@ + icon + " "@ + m, LineStyle::Info)]] } else { Seq::empty() };
    let el: Seq<LineView> = if e.len() > 0 { seq![seq![("  ❌ "@ + e, LineStyle::Error)]] } else { Seq::empty() };
    if both {
        ml + el
    } else if m.len() > 0 {
        ml
    } else {
        el
    }
}

pub fn git_report_lines(icon: &str, out: &str, err: &str, both: bool) -> (r: Vec<BufferLine>)
    ensures
        lines_view(r@) == git_report(icon@, out@, err@, both),
{
    let m = trimmed(chars_of(out).as_slice());
    let e = trimmed(chars_of(err).as_slice());
    let mut r: Vec<BufferLine> = Vec::new();
    let put_m = m.len() > 0;
    let put_e = e.len() > 0 && (both || m.len() == 0);
    if put_m {
        let mut t = chars_of("  ");
        push_str_chars(&mut t, icon);
        push_str_chars(&mut t, " ");
        crate::text::extend_from(&mut t, m.as_slice());
        r.push(BufferLine::new(string_of(t.as_slice()).as_str(), LineStyle::Info));
    }
    if put_e {
        let mut t = chars_of("  ❌ ");
        crate::text::extend_from(&mut t, e.as_slice());
        let ghost before = lines_view(r@);
        r.push(BufferLine::new(string_of(t.as_slice()).as_str(), LineStyle::Error));
        assert(lines_view(r@) =~= before.push(seq![("  ❌ "@ + e@, LineStyle::Error)]));
    }
    proof {
        let ml: Seq<LineView> = if m@.len() > 0 { seq![seq![("  "@ + icon@ + " "@ + m@, LineStyle::Info)]] } else { Seq::empty() };
        let el: Seq<LineView> = if e@.len() > 0 { seq![seq![("  ❌ "@ + e@, LineStyle::Error)]] } else { Seq::empty() };
        assert(ml + Seq::<LineView>::empty() =~= ml);
        assert(Seq::<LineView>::empty() + el =~= el);
        if put_m && put_e {
            assert(lines_view(r@) =~= ml + el);
        } else if put_m {
            assert(lines_view(r@) =~= ml);
        } else if put_e {
            assert(lines_view(r@) =~= el);
        } else {
            assert(lines_view(r@) =~= Seq::<LineView>::empty());
        }
    }
    r
}

/// The arguments that open `path` at `line` in the user's editor: VS Code
/// and Cursor take `-g path:line`, others `+line path`.
pub open spec fn editor_args_spec(editor: Seq<char>, path: Seq<char>, line: nat) -> Seq<Seq<char>> {
    if editor == "code"@ || editor == "cursor"@ {
        seq!["-g"@, path + ":"@ + decimal(line)]
    } else {
        seq!["+"@ + decimal(line), path]
    }
}

pub fn editor_args(editor: &str, path: &str, line: usize) -> (r: Vec<String>)
    ensures
        crate::text::views(r@) == editor_args_spec(editor@, path@, line as nat),
{
    let e = chars_of(editor);
    let n = decimal_string(line as u128);
    let mut r: Vec<String> = Vec::new();
    if crate::text::chars_eq(e.as_slice(), chars_of("code").as_slice()) || crate::text::chars_eq(
        e.as_slice(),
        chars_of("cursor").as_slice(),
    ) {
        r.push(string_of(chars_of("-g").as_slice()));
        let mut t = chars_of(path);
        push_str_chars(&mut t, ":");
        push_str_chars(&mut t, n.as_str());
        r.push(string_of(t.as_slice()));
    } else {
        let mut t = chars_of("+");
        push_str_chars(&mut t, n.as_str());
        r.push(string_of(t.as_slice()));
        r.push(string_of(chars_of(path).as_slice()));
    }
    assert(crate::text::views(r@) =~= editor_args_spec(editor@, path@, line as nat));
    r
}

/// Whether `o` may open the buffer in the user's editor: it names a file,
/// not one of the REPL's own buffers.
pub open spec fn names_file(name: Seq<char>) -> bool {
    name.len() > 0 && name != "Chat"@ && name != "Console"@ && name != "rg"@ && name != "fd"@ && name
        != "GitStatus"@
}

pub fn is_file_buffer(name: &str) -> (r: bool)
    ensures
        r == names_file(name@),
{
    let n = chars_of(name);
    n.len() > 0 && !crate::text::chars_eq(n.as_slice(), chars_of("Chat").as_slice())
        && !crate::text::chars_eq(n.as_slice(), chars_of("Console").as_slice())
        && !crate::text::chars_eq(n.as_slice(), chars_of("rg").as_slice())
        && !crate::text::chars_eq(n.as_slice(), chars_of("fd").as_slice())
        && !crate::text::chars_eq(n.as_slice(), chars_of("GitStatus").as_slice())
}

/// The request put in the input line by `c` in the status view.
pub fn commit_request() -> (r: &'static str)
    ensures
        r@ == "Please review the staged changes, write a concise commit message, and commit them."@,
{
    "Please review the staged changes, write a concise commit message, and commit them."
}

/// The files of `git status --porcelain=v1` by state: staged (the index
/// column shows a change), unstaged (the work-tree column shows one), and
/// untracked (`??`). A file can be both staged and unstaged; lines shorter
/// than the two columns and the space are passed over.
pub open spec fn status_groups(ls: Seq<Seq<char>>) -> (Seq<Seq<char>>, Seq<Seq<char>>, Seq<Seq<char>>)
    decreases ls.len(),
{
    if ls.len() == 0 {
        (Seq::empty(), Seq::empty(), Seq::empty())
    } else {
        let (st, un, ut) = status_groups(ls.drop_last());
        let l = ls.last();
        if l.len() < 3 {
            (st, un, ut)
        } else {
            let file = trim(l.skip(3));
            if l[0] == '?' && l[1] == '?' {
                (st, un, ut.push(file))
            } else {
                (
                    if l[0] != ' ' && l[0] != '?' { st.push(file) } else { st },
                    if l[1] != ' ' && l[1] != '?' { un.push(file) } else { un },
                    ut,
                )
            }
        }
    }
}

pub open spec fn rule_line() -> LineView {
    seq![("  ────────────────────────────────────────"@, LineStyle::Dim)]
}

pub open spec fn blank_line() -> LineView {
    seq![(Seq::<char>::empty(), LineStyle::Plain)]
}

/// One section of the status view: its title with the count, a rule, the
/// entries (or `(none)`), and a blank line.
pub open spec fn status_section(title: Seq<char>, entries: Seq<LineView>) -> Seq<LineView> {
    seq![seq![("  "@ + title + " ("@ + decimal(entries.len()) + ")"@, LineStyle::Info)], rule_line()]
        + (if entries.len() == 0 { seq![seq![("    (none)"@, LineStyle::Dim)]] } else { entries })
        + seq![blank_line()]
}

pub open spec fn staged_entries(fs: Seq<Seq<char>>) -> Seq<LineView> {
    Seq::new(fs.len(), |i: int| seq![("    + "@, LineStyle::ToolResult), (fs[i], LineStyle::Plain)])
}

pub open spec fn plain_entries(fs: Seq<Seq<char>>, style: LineStyle) -> Seq<LineView> {
    Seq::new(fs.len(), |i: int| seq![("    "@ + fs[i], style)])
}

/// The whole status view: the three file sections, the branch with the
/// age of its last commit, the stashes, and the key help.
pub open spec fn status_view(porcelain: Seq<char>, branch: Seq<char>, age: Seq<char>, stash: Seq<char>) -> Seq<LineView> {
    let (st, un, ut) = status_groups(lines(porcelain));
    let b = trim(branch);
    let sl = lines(stash);
    status_section("Stage Changes"@, staged_entries(st)) + status_section("Unstage Changes"@, plain_entries(un, LineStyle::Error))
        + status_section("Untracked Files"@, plain_entries(ut, LineStyle::Dim)) + seq![
        seq![("  ------ Branch ------"@, LineStyle::Info)],
        rule_line(),
        if b.len() == 0 {
            seq![("    (detached HEAD)"@, LineStyle::Dim)]
        } else {
            seq![("    * "@ + b + " "@ + trim(age), LineStyle::ToolResult)]
        },
        blank_line(),
        seq![("  ------ Stash ------"@, LineStyle::Info)],
        rule_line(),
    ] + (if sl.len() == 0 { seq![seq![("    (none)"@, LineStyle::Dim)]] } else { plain_entries(sl, LineStyle::Plain) })
        + seq![
        blank_line(),
        rule_line(),
        seq![("  [s] Toggle staged  [r] Reset file  [Enter] Open file  [z] stash [q] Close"@, LineStyle::Dim)],
    ]
}

fn line_of(t: &[char], style: LineStyle) -> (r: BufferLine)
    ensures
        r@ == seq![(t@, style)],
{
    BufferLine::new(string_of(t).as_str(), style)
}

fn text_line(t: &str, style: LineStyle) -> (r: BufferLine)
    ensures
        r@ == seq![(t@, style)],
{
    BufferLine::new(t, style)
}

fn push_all(out: &mut Vec<BufferLine>, more: Vec<BufferLine>)
    ensures
        lines_view(final(out)@) == lines_view(old(out)@) + lines_view(more@),
{
    let ghost start = out@;
    let mut more = more;
    let ghost m = more@;
    out.append(&mut more);
    assert(lines_view(out@) =~= lines_view(start) + lines_view(m));
}

fn section_lines(title: &str, entries: Vec<BufferLine>) -> (r: Vec<BufferLine>)
    ensures
        lines_view(r@) == status_section(title@, lines_view(entries@)),
{
    let n = entries.len();
    let mut t = chars_of("  ");
    push_str_chars(&mut t, title);
    push_str_chars(&mut t, " (");
    push_str_chars(&mut t, decimal_string(n as u128).as_str());
    push_str_chars(&mut t, ")");
    let mut out: Vec<BufferLine> = Vec::new();
    out.push(line_of(t.as_slice(), LineStyle::Info));
    out.push(text_line("  ────────────────────────────────────────", LineStyle::Dim));
    let ghost head = lines_view(out@);
    let ghost ev = lines_view(entries@);
    if n == 0 {
        out.push(text_line("    (none)", LineStyle::Dim));
    } else {
        push_all(&mut out, entries);
    }
    let ghost mid = lines_view(out@);
    out.push(BufferLine::new("", LineStyle::Plain));
    proof {
        reveal_strlit("");
        assert(""@ =~= Seq::<char>::empty());
        assert(lines_view(out@) =~= mid.push(blank_line()));
        assert(lines_view(out@) =~= status_section(title@, ev));
    }
    out
}

fn entry_lines(files: &Vec<Vec<char>>, style: LineStyle) -> (r: Vec<BufferLine>)
    ensures
        lines_view(r@) == plain_entries(files@.map_values(|f: Vec<char>| f@), style),
{
    let ghost fv = files@.map_values(|f: Vec<char>| f@);
    let mut out: Vec<BufferLine> = Vec::new();
    let mut i: usize = 0;
    while i < files.len()
        invariant
            i <= files@.len(),
            fv == files@.map_values(|f: Vec<char>| f@),
            out@.len() == i,
            forall|k: int| 0 <= k < i ==> (#[trigger] out@[k])@ == seq![("    "@ + fv[k], style)],
        decreases files.len() - i,
    {
        let mut t = chars_of("    ");
        crate::text::extend_from(&mut t, files[i].as_slice());
        out.push(line_of(t.as_slice(), style));
        i += 1;
    }
    assert(lines_view(out@) =~= plain_entries(fv, style));
    out
}

/// Builds the status view from the outputs of `git status --porcelain=v1`,
/// `git branch --show-current`, `git log -1 --format=%cr` and
/// `git stash list`.
pub fn status_view_lines(porcelain: &str, branch: &str, age: &str, stash: &str) -> (r: Vec<BufferLine>)
    ensures
        lines_view(r@) == status_view(porcelain@, branch@, age@, stash@),
{
    let c = chars_of(porcelain);
    let ls = split_lines(c.as_slice());
    let ghost lv = ls@.map_values(|l: Vec<char>| l@);
    let mut st: Vec<Vec<char>> = Vec::new();
    let mut un: Vec<Vec<char>> = Vec::new();
    let mut ut: Vec<Vec<char>> = Vec::new();
    let mut i: usize = 0;
    while i < ls.len()
        invariant
            i <= ls@.len(),
            lv == ls@.map_values(|l: Vec<char>| l@),
            lv == lines(porcelain@),
            status_groups(lv.take(i as int)) == (
                st@.map_values(|f: Vec<char>| f@),
                un@.map_values(|f: Vec<char>| f@),
                ut@.map_values(|f: Vec<char>| f@),
            ),
        decreases ls.len() - i,
    {
        proof {
            assert(lv.take(i + 1).drop_last() =~= lv.take(i as int));
            assert(lv.take(i + 1).last() == ls@[i as int]@);
        }
        let l = ls[i].as_slice();
        if l.len() >= 3 {
            let rest = copy_range(l, 3, l.len());
            assert(rest@ =~= l@.skip(3));
            let file = trimmed(rest.as_slice());
            let ghost fv = file@;
            if l[0] == '?' && l[1] == '?' {
                let ghost b = ut@.map_values(|f: Vec<char>| f@);
                ut.push(file);
                assert(ut@.map_values(|f: Vec<char>| f@) =~= b.push(fv));
            } else {
                if l[0] != ' ' && l[0] != '?' {
                    let ghost b = st@.map_values(|f: Vec<char>| f@);
                    st.push(crate::text::clone_chars(&file));
                    assert(st@.map_values(|f: Vec<char>| f@) =~= b.push(fv));
                }
                if l[1] != ' ' && l[1] != '?' {
                    let ghost b = un@.map_values(|f: Vec<char>| f@);
                    un.push(file);
                    assert(un@.map_values(|f: Vec<char>| f@) =~= b.push(fv));
                }
            }
        }
        i += 1;
    }
    assert(lv.take(ls.len() as int) =~= lv);
    let ghost stv = st@.map_values(|f: Vec<char>| f@);
    let mut staged: Vec<BufferLine> = Vec::new();
    let mut k: usize = 0;
    while k < st.len()
        invariant
            k <= st@.len(),
            stv == st@.map_values(|f: Vec<char>| f@),
            staged@.len() == k,
            forall|j: int|
                0 <= j < k ==> (#[trigger] staged@[j])@ == seq![("    + "@, LineStyle::ToolResult), (stv[j], LineStyle::Plain)],
        decreases st.len() - k,
    {
        let mut segs: Vec<(String, LineStyle)> = Vec::new();
        segs.push((string_of(chars_of("    + ").as_slice()), LineStyle::ToolResult));
        segs.push((string_of(st[k].as_slice()), LineStyle::Plain));
        let b = BufferLine::from_segments(segs);
        assert(b@ =~= seq![("    + "@, LineStyle::ToolResult), (stv[k as int], LineStyle::Plain)]);
        staged.push(b);
        k += 1;
    }
    assert(lines_view(staged@) =~= staged_entries(stv));
    let ghost groups = status_groups(lines(porcelain@));
    assert(groups.0 == stv);
    let mut out = section_lines("Stage Changes", staged);
    push_all(&mut out, section_lines("Unstage Changes", entry_lines(&un, LineStyle::Error)));
    push_all(&mut out, section_lines("Untracked Files", entry_lines(&ut, LineStyle::Dim)));
    let ghost files_part = lines_view(out@);
    assert(files_part == status_section("Stage Changes"@, staged_entries(groups.0)) + status_section(
        "Unstage Changes"@,
        plain_entries(groups.1, LineStyle::Error),
    ) + status_section("Untracked Files"@, plain_entries(groups.2, LineStyle::Dim)));
    let b = trimmed(chars_of(branch).as_slice());
    let mut tail: Vec<BufferLine> = Vec::new();
    tail.push(text_line("  ------ Branch ------", LineStyle::Info));
    tail.push(text_line("  ────────────────────────────────────────", LineStyle::Dim));
    if b.len() == 0 {
        tail.push(text_line("    (detached HEAD)", LineStyle::Dim));
    } else {
        let mut t = chars_of("    * ");
        crate::text::extend_from(&mut t, b.as_slice());
        push_str_chars(&mut t, " ");
        crate::text::extend_from(&mut t, trimmed(chars_of(age).as_slice()).as_slice());
        tail.push(line_of(t.as_slice(), LineStyle::ToolResult));
    }
    tail.push(BufferLine::new("", LineStyle::Plain));
    proof {
        reveal_strlit("");
        assert(""@ =~= Seq::<char>::empty());
    }
    let ghost bt = trim(branch@);
    let ghost head_part: Seq<LineView> = seq![
        seq![("  ------ Branch ------"@, LineStyle::Info)],
        rule_line(),
        if bt.len() == 0 {
            seq![("    (detached HEAD)"@, LineStyle::Dim)]
        } else {
            seq![("    * "@ + bt + " "@ + trim(age@), LineStyle::ToolResult)]
        },
        blank_line(),
    ];
    assert(lines_view(tail@) =~= head_part);
    tail.push(text_line("  ------ Stash ------", LineStyle::Info));
    tail.push(text_line("  ────────────────────────────────────────", LineStyle::Dim));
    let sc = chars_of(stash);
    let sls = split_lines(sc.as_slice());
    if sls.len() == 0 {
        tail.push(text_line("    (none)", LineStyle::Dim));
    } else {
        push_all(&mut tail, entry_lines(&sls, LineStyle::Plain));
    }
    let ghost sl = lines(stash@);
    let ghost stash_part: Seq<LineView> = if sl.len() == 0 {
        seq![seq![("    (none)"@, LineStyle::Dim)]]
    } else {
        plain_entries(sl, LineStyle::Plain)
    };
    assert(lines_view(tail@) =~= head_part + seq![
        seq![("  ------ Stash ------"@, LineStyle::Info)],
        rule_line(),
    ] + stash_part);
    tail.push(BufferLine::new("", LineStyle::Plain));
    tail.push(text_line("  ────────────────────────────────────────", LineStyle::Dim));
    tail.push(text_line("  [s] Toggle staged  [r] Reset file  [Enter] Open file  [z] stash [q] Close", LineStyle::Dim));
    proof {
        reveal_strlit("");
        assert(""@ =~= Seq::<char>::empty());
    }
    let ghost tv = lines_view(tail@);
    assert(tv =~= head_part + seq![seq![("  ------ Stash ------"@, LineStyle::Info)], rule_line()] + stash_part
        + seq![
        blank_line(),
        rule_line(),
        seq![("  [s] Toggle staged  [r] Reset file  [Enter] Open file  [z] stash [q] Close"@, LineStyle::Dim)],
    ]);
    push_all(&mut out, tail);
    assert(lines_view(out@) =~= files_part + tv);
    assert(lines_view(out@) =~= status_view(porcelain@, branch@, age@, stash@));
    out
}

/// The line the cursor goes to in the status view: the entry of `target`
/// when one is given, else the first entry that is not `(none)`.
pub open spec fn status_cursor_spec(texts: Seq<Seq<char>>, target: Option<Seq<char>>, i: int) -> bool {
    match target {
        Some(f) => status_file(texts[i]) == Some(f),
        None => starts_with(texts[i], "    "@) && trim(texts[i]) != "(none)"@,
    }
}

pub fn status_cursor(texts: &Vec<String>, target: Option<&str>) -> (r: Option<usize>)
    ensures
        ({
            let tv = crate::text::views(texts@);
            let t = match target {
                Some(f) => Some(f@),
                None => None,
            };
            match r {
                Some(i) => i < tv.len() && status_cursor_spec(tv, t, i as int) && forall|j: int|
                    0 <= j < i ==> !status_cursor_spec(tv, t, j),
                None => forall|j: int| 0 <= j < tv.len() ==> !status_cursor_spec(tv, t, j),
            }
        }),
{
    let ghost tv = crate::text::views(texts@);
    let ghost t = match target {
        Some(f) => Some(f@),
        None => None::<Seq<char>>,
    };
    let mut i: usize = 0;
    while i < texts.len()
        invariant
            i <= texts@.len(),
            tv == crate::text::views(texts@),
            t == (match target {
                Some(f) => Some(f@),
                None => None::<Seq<char>>,
            }),
            forall|j: int| 0 <= j < i ==> !status_cursor_spec(tv, t, j),
        decreases texts.len() - i,
    {
        let hit = match target {
            Some(f) => match status_entry_file(texts[i].as_str()) {
                Some(g) => chars_eq_str(g.as_str(), f),
                None => false,
            },
            None => {
                let c = chars_of(texts[i].as_str());
                begins(c.as_slice(), "    ") && !crate::text::chars_eq(
                    trimmed(c.as_slice()).as_slice(),
                    chars_of("(none)").as_slice(),
                )
            },
        };
        if hit {
            return Some(i);
        }
        i += 1;
    }
    None
}

fn chars_eq_str(a: &str, b: &str) -> (r: bool)
    ensures
        r == (a@ == b@),
{
    crate::text::chars_eq(chars_of(a).as_slice(), chars_of(b).as_slice())
}

/// One line of a diff hunk: its origin (`+`, `-` or ` `), its line number
/// in the new text, and its text when it is valid UTF-8.
#[derive(Debug, Clone)]
pub struct HunkLine {
    pub origin: char,
    pub new_lineno: Option<u32>,
    pub content: Option<String>,
}

/// A diff hunk of the buffer against `HEAD`: where it lies in the new
/// text, and its lines.
#[derive(Debug, Clone)]
pub struct Hunk {
    pub new_start: u32,
    pub new_lines: u32,
    pub lines: Vec<HunkLine>,
}

pub open spec fn mark_line(g: Seq<char>, nl: u32) -> Seq<char> {
    let idx = nl - 1;
    if 0 <= idx < g.len() {
        g.update(idx, '+')
    } else {
        g
    }
}

/// The gutter after the added lines of a hunk are marked.
pub open spec fn mark_added(g: Seq<char>, ls: Seq<HunkLine>) -> Seq<char>
    decreases ls.len(),
{
    if ls.len() == 0 {
        g
    } else {
        let g2 = mark_added(g, ls.drop_last());
        if ls.last().origin == '+' && ls.last().new_lineno is Some {
            mark_line(g2, ls.last().new_lineno->0)
        } else {
            g2
        }
    }
}

/// Scanning a hunk from line `i`: whether a deletion was seen, and the
/// line number of the first context line after a deletion (the scan stops
/// there).
pub open spec fn after_deletion(ls: Seq<HunkLine>, i: int, found: bool) -> (bool, Option<Option<u32>>)
    decreases ls.len() - i,
{
    if i < 0 || i >= ls.len() {
        (found, None)
    } else if ls[i].origin == '-' {
        after_deletion(ls, i + 1, true)
    } else if ls[i].origin == ' ' && found {
        (true, Some(ls[i].new_lineno))
    } else {
        after_deletion(ls, i + 1, found)
    }
}

/// The gutter after one hunk: a hunk that adds lines marks them; a hunk
/// that only deletes marks the context line after the deletion, or the
/// last line when there is none in the buffer.
pub open spec fn mark_hunk(g: Seq<char>, ls: Seq<HunkLine>) -> Seq<char> {
    if exists|i: int| 0 <= i < ls.len() && (#[trigger] ls[i]).origin == '+' {
        mark_added(g, ls)
    } else {
        let (found, stop) = after_deletion(ls, 0, false);
        let (g2, marked) = match stop {
            Some(Some(nl)) => if 0 <= nl - 1 < g.len() { (mark_line(g, nl), true) } else { (g, false) },
            _ => (g, false),
        };
        if found && !marked && g2.len() > 0 {
            g2.update(g2.len() - 1, '+')
        } else {
            g2
        }
    }
}

pub open spec fn mark_hunks(g: Seq<char>, hs: Seq<Hunk>) -> Seq<char>
    decreases hs.len(),
{
    if hs.len() == 0 {
        g
    } else {
        mark_hunk(mark_hunks(g, hs.drop_last()), hs.last().lines@)
    }
}

/// Line numbers in hunks count from one.
pub open spec fn numbered_from_one(hs: Seq<Hunk>) -> bool {
    forall|h: int, i: int|
        0 <= h < hs.len() && 0 <= i < hs[h].lines@.len() ==> ((#[trigger] hs[h].lines@[i]).new_lineno matches Some(
            n,
        ) ==> n >= 1)
}

fn mark_exec(g: &mut Vec<char>, nl: u32) -> (marked: bool)
    requires
        nl >= 1,
    ensures
        final(g)@ == mark_line(old(g)@, nl),
        marked == (nl - 1 < old(g)@.len()),
{
    let idx = (nl - 1) as usize;
    if idx < g.len() {
        g.set(idx, '+');
        true
    } else {
        false
    }
}

/// The gutter of a buffer of `line_count` lines: `+` on the lines that
/// the hunks of its diff against `HEAD` mark, a space elsewhere.
pub fn gutter_marks(line_count: usize, hunks: &Vec<Hunk>) -> (r: Vec<char>)
    requires
        numbered_from_one(hunks@),
    ensures
        r@ == mark_hunks(Seq::new(line_count as nat, |i: int| ' '), hunks@),
        r@.len() == line_count,
{
    let mut g: Vec<char> = Vec::new();
    let mut k: usize = 0;
    while k < line_count
        invariant
            k <= line_count,
            g@ == Seq::new(k as nat, |i: int| ' '),
        decreases line_count - k,
    {
        g.push(' ');
        assert(g@ =~= Seq::new((k + 1) as nat, |i: int| ' '));
        k += 1;
    }
    let mut h: usize = 0;
    while h < hunks.len()
        invariant
            h <= hunks@.len(),
            numbered_from_one(hunks@),
            g@ == mark_hunks(Seq::new(line_count as nat, |i: int| ' '), hunks@.take(h as int)),
            g@.len() == line_count,
        decreases hunks.len() - h,
    {
        proof {
            assert(hunks@.take(h + 1).drop_last() =~= hunks@.take(h as int));
            assert(hunks@.take(h + 1).last() == hunks@[h as int]);
        }
        let ls = &hunks[h].lines;
        let ghost g0 = g@;
        let mut any_add = false;
        let mut i: usize = 0;
        while i < ls.len()
            invariant
                i <= ls@.len(),
                any_add == exists|j: int| 0 <= j < i && (#[trigger] ls@[j]).origin == '+',
            decreases ls.len() - i,
        {
            if ls[i].origin == '+' {
                any_add = true;
            }
            i += 1;
        }
        if any_add {
            let mut j: usize = 0;
            while j < ls.len()
                invariant
                    j <= ls@.len(),
                    ls@ == hunks@[h as int].lines@,
                    numbered_from_one(hunks@),
                    h < hunks@.len(),
                    g@ == mark_added(g0, ls@.take(j as int)),
                    g@.len() == g0.len(),
                decreases ls.len() - j,
            {
                proof {
                    assert(ls@.take(j + 1).drop_last() =~= ls@.take(j as int));
                    assert(ls@.take(j + 1).last() == ls@[j as int]);
                }
                if ls[j].origin == '+' {
                    if let Some(nl) = ls[j].new_lineno {
                        assert(hunks@[h as int].lines@[j as int].new_lineno == Some(nl));
                        let _ = mark_exec(&mut g, nl);
                    }
                }
                j += 1;
            }
            assert(ls@.take(ls@.len() as int) =~= ls@);
        } else {
            let mut found = false;
            let mut marked = false;
            let mut j: usize = 0;
            let mut stopped = false;
            while j < ls.len() && !stopped
                invariant
                    j <= ls@.len(),
                    ls@ == hunks@[h as int].lines@,
                    numbered_from_one(hunks@),
                    h < hunks@.len(),
                    !stopped ==> after_deletion(ls@, 0, false) == after_deletion(ls@, j as int, found),
                    !stopped ==> g@ == g0 && !marked,
                    stopped ==> ({
                        let (f, stop) = after_deletion(ls@, 0, false);
                        &&& f
                        &&& found
                        &&& stop matches Some(nlo)
                        &&& (match nlo {
                            Some(nl) => if 0 <= nl - 1 < g0.len() {
                                g@ == mark_line(g0, nl) && marked
                            } else {
                                g@ == g0 && !marked
                            },
                            None => g@ == g0 && !marked,
                        })
                    }),
                    g@.len() == g0.len(),
                decreases ls.len() - j + (if stopped { 0int } else { 1int }),
            {
                if ls[j].origin == '-' {
                    found = true;
                    j += 1;
                } else if ls[j].origin == ' ' && found {
                    if let Some(nl) = ls[j].new_lineno {
                        assert(hunks@[h as int].lines@[j as int].new_lineno == Some(nl));
                        marked = mark_exec(&mut g, nl);
                    }
                    stopped = true;
                } else {
                    j += 1;
                }
            }
            if found && !marked && g.len() > 0 {
                let last = g.len() - 1;
                g.set(last, '+');
            }
            proof {
                assert(!(exists|i: int| 0 <= i < ls@.len() && (#[trigger] ls@[i]).origin == '+'));
            }
        }
        h += 1;
    }
    assert(hunks@.take(hunks@.len() as int) =~= hunks@);
    g
}

/// The lines of the hunk that holds line `line` (counted from one) of the
/// new text, each with its line number (0 for a deleted line) and its text
/// after a `+ `, `- ` or two-space prefix, trailing whitespace dropped;
/// lines that are not valid UTF-8 are left out. `None` when no hunk holds
/// the line.
pub open spec fn hunk_at_spec(hs: Seq<Hunk>, line: nat) -> Option<Seq<(nat, Seq<char>)>>
    decreases hs.len(),
{
    if hs.len() == 0 {
        None
    } else {
        let h = hs[0];
        let end = h.new_start + (if h.new_lines >= 1 { h.new_lines - 1 } else { 0 });
        if h.new_start <= line <= end {
            Some(hunk_display(h.lines@))
        } else {
            hunk_at_spec(hs.drop_first(), line)
        }
    }
}

pub open spec fn origin_prefix(o: char) -> Seq<char> {
    if o == '+' {
        "+ "@
    } else if o == '-' {
        "- "@
    } else {
        "  "@
    }
}

pub open spec fn hunk_display(ls: Seq<HunkLine>) -> Seq<(nat, Seq<char>)>
    decreases ls.len(),
{
    if ls.len() == 0 {
        Seq::empty()
    } else {
        let before = hunk_display(ls.drop_last());
        let l = ls.last();
        match l.content {
            Some(c) => before.push(
                (
                    match l.new_lineno {
                        Some(n) => n as nat,
                        None => 0,
                    },
                    origin_prefix(l.origin) + crate::text::trim_end(c@),
                ),
            ),
            None => before,
        }
    }
}

pub open spec fn pairs_view(v: Seq<(usize, String)>) -> Seq<(nat, Seq<char>)> {
    Seq::new(v.len(), |i: int| (v[i].0 as nat, v[i].1@))
}

/// The diff lines shown by the hunk popup for the cursor line.
pub fn hunk_at(hunks: &Vec<Hunk>, line: usize) -> (r: Option<Vec<(usize, String)>>)
    ensures
        match r {
            Some(v) => hunk_at_spec(hunks@, line as nat) == Some(pairs_view(v@)),
            None => hunk_at_spec(hunks@, line as nat) is None,
        },
{
    let mut k: usize = 0;
    assert(hunks@.skip(0) =~= hunks@);
    while k < hunks.len()
        invariant
            k <= hunks@.len(),
            hunk_at_spec(hunks@, line as nat) == hunk_at_spec(hunks@.skip(k as int), line as nat),
        decreases hunks.len() - k,
    {
        let h = &hunks[k];
        assert(hunks@.skip(k as int)[0] == hunks@[k as int]);
        let end: u64 = h.new_start as u64 + (if h.new_lines >= 1 { (h.new_lines - 1) as u64 } else { 0 });
        if (h.new_start as u64) <= (line as u64) && (line as u64) <= end {
            let mut out: Vec<(usize, String)> = Vec::new();
            let mut i: usize = 0;
            while i < h.lines.len()
                invariant
                    i <= h.lines@.len(),
                    pairs_view(out@) == hunk_display(h.lines@.take(i as int)),
                decreases h.lines.len() - i,
            {
                proof {
                    assert(h.lines@.take(i + 1).drop_last() =~= h.lines@.take(i as int));
                    assert(h.lines@.take(i + 1).last() == h.lines@[i as int]);
                }
                let l = &h.lines[i];
                if let Some(c) = &l.content {
                    let n: usize = match l.new_lineno {
                        Some(n) => n as usize,
                        None => 0,
                    };
                    let mut t = chars_of(if l.origin == '+' {
                        "+ "
                    } else if l.origin == '-' {
                        "- "
                    } else {
                        "  "
                    });
                    crate::text::extend_from(&mut t, crate::text::trimmed_end(chars_of(c.as_str()).as_slice()).as_slice());
                    let ghost before = pairs_view(out@);
                    out.push((n, string_of(t.as_slice())));
                    assert(pairs_view(out@) =~= before.push((n as nat, origin_prefix(l.origin) + crate::text::trim_end(c@))));
                }
                i += 1;
            }
            assert(h.lines@.take(h.lines@.len() as int) =~= h.lines@);
            return Some(out);
        }
        assert(hunks@.skip(k as int).drop_first() =~= hunks@.skip(k + 1));
        k += 1;
    }
    None
}

/// Where the hunk popup's cursor starts: the entry of the cursor line, or
/// the first one.
pub fn hunk_popup_items(lines: &Vec<(usize, String)>, line: usize) -> (r: (Vec<PopupItem>, usize))
    ensures
        r.0@.len() == lines@.len(),
        forall|i: int|
            0 <= i < lines@.len() ==> (#[trigger] r.0@[i]).text@ == lines@[i].1@ && r.0@[i].is_active == (lines@[i].0
                == line),
        (exists|i: int| 0 <= i < lines@.len() && lines@[i].0 == line) ==> ({
            &&& r.1 < lines@.len()
            &&& lines@[r.1 as int].0 == line
            &&& forall|j: int| 0 <= j < r.1 ==> lines@[j].0 != line
        }),
        !(exists|i: int| 0 <= i < lines@.len() && lines@[i].0 == line) ==> r.1 == 0,
{
    let mut items: Vec<PopupItem> = Vec::new();
    let mut active: Option<usize> = None;
    let mut i: usize = 0;
    while i < lines.len()
        invariant
            i <= lines@.len(),
            items@.len() == i,
            forall|k: int|
                0 <= k < i ==> (#[trigger] items@[k]).text@ == lines@[k].1@ && items@[k].is_active == (lines@[k].0
                    == line),
            match active {
                Some(a) => a < i && lines@[a as int].0 == line && forall|j: int| 0 <= j < a ==> lines@[j].0 != line,
                None => forall|j: int| 0 <= j < i ==> lines@[j].0 != line,
            },
        decreases lines.len() - i,
    {
        let is_active = lines[i].0 == line;
        if is_active && active.is_none() {
            active = Some(i);
        }
        items.push(PopupItem { text: string_of(chars_of(lines[i].1.as_str()).as_slice()), is_active });
        i += 1;
    }
    let a = match active {
        Some(a) => a,
        None => 0,
    };
    (items, a)
}

} // verus!
