//! Free-standing REPL helpers: the command list, clock text, search
//! highlighting, quote stripping and cutting graphemes out of a line.

use vstd::prelude::*;
use crate::buffer::{segs_view, BufferLine, LineStyle, LineView};
use crate::fmt::{digit_char, digit_char_exec};
use crate::text::{
    chars_of, copy_range, extend_from, find_from, find_from_exec, lemma_find_from_spec,
    occurs_at, string_of, trim, trimmed, views,
};
use crate::unicode::{graphemes, spec_graphemes};

verus! {

broadcast use vstd::string::group_string_axioms;

/// The names that `:` completes.
pub open spec fn command_names() -> Seq<Seq<char>> {
    seq![
        "quit"@, "q"@, "exit"@, "help"@, "h"@, "?"@, "save"@, "load"@, "sessions"@, "delete"@, "rm"@,
        "reset"@, "config"@, "tools"@, "debug"@, "status"@, "cls"@, "clear"@, "skills"@, "rg"@, "grep"@,
        "fd"@, "find"@, "ls"@, "cancel"@, "bn"@, "bp"@, "bd"@, "open"@, "e"@, "saveas"@, "write"@,
        "workflow"@, "gs"@, "sed"@,
    ]
}

/// The commands that `:` completes.
pub fn command_list() -> (r: Vec<&'static str>)
    ensures
        Seq::new(r@.len(), |i: int| r@[i]@) == command_names(),
{
    let r = vec![
        "quit", "q", "exit", "help", "h", "?", "save", "load", "sessions", "delete", "rm",
        "reset", "config", "tools", "debug", "status", "cls", "clear", "skills", "rg", "grep",
        "fd", "find", "ls", "cancel", "bn", "bp", "bd", "open", "e", "saveas", "write",
        "workflow", "gs", "sed",
    ];
    assert(Seq::new(r@.len(), |i: int| r@[i]@) =~= command_names());
    r
}

// ---------------------------------------------------------------------------
// Clock
// ---------------------------------------------------------------------------

/// Seconds since the UNIX epoch, from the system clock (0 when the clock is
/// set before the epoch).  Nothing is promised of the value: it is the time.
#[verifier::external_body]
pub(crate) fn now_unix_secs() -> (r: u64) {
    std::time::SystemTime::now().duration_since(std::time::UNIX_EPOCH).unwrap_or_default().as_secs()
}

/// `n` below 100 as two digits.
pub open spec fn two_digits(n: nat) -> Seq<char> {
    seq![digit_char(n / 10), digit_char(n % 10)]
}

/// `HH:MM:SS` of the time of day (UTC) of a UNIX time.
pub open spec fn hms_text(secs: nat) -> Seq<char> {
    two_digits((secs / 3600) % 24) + seq![':'] + two_digits((secs / 60) % 60) + seq![':']
        + two_digits(secs % 60)
}

/// `HHMMSS` of the time of day (UTC) of a UNIX time.
pub open spec fn hms_compact(secs: nat) -> Seq<char> {
    two_digits((secs / 3600) % 24) + two_digits((secs / 60) % 60) + two_digits(secs % 60)
}

fn push_two_digits(v: &mut Vec<char>, n: u64)
    requires
        n < 100,
    ensures
        final(v)@ == old(v)@ + two_digits(n as nat),
{
    v.push(digit_char_exec((n / 10) as u8));
    v.push(digit_char_exec((n % 10) as u8));
    assert(v@ =~= old(v)@ + two_digits(n as nat));
}

/// `HH:MM:SS` of a UNIX time.
pub fn format_hms(secs: u64) -> (r: String)
    ensures
        r@ == hms_text(secs as nat),
{
    let mut v: Vec<char> = Vec::new();
    push_two_digits(&mut v, (secs / 3600) % 24);
    v.push(':');
    push_two_digits(&mut v, (secs / 60) % 60);
    v.push(':');
    push_two_digits(&mut v, secs % 60);
    assert(v@ =~= hms_text(secs as nat));
    string_of(v.as_slice())
}

/// `HHMMSS` of a UNIX time.
pub fn format_hms_compact(secs: u64) -> (r: String)
    ensures
        r@ == hms_compact(secs as nat),
{
    let mut v: Vec<char> = Vec::new();
    push_two_digits(&mut v, (secs / 3600) % 24);
    push_two_digits(&mut v, (secs / 60) % 60);
    push_two_digits(&mut v, secs % 60);
    assert(v@ =~= hms_compact(secs as nat));
    string_of(v.as_slice())
}

/// The current time of day as `HH:MM:SS`.
pub fn get_timestamp() -> (r: String)
    ensures
        exists|t: nat| r@ == hms_text(t),
{
    let secs = now_unix_secs();
    format_hms(secs)
}

// ---------------------------------------------------------------------------
// Highlighting
// ---------------------------------------------------------------------------

pub open spec fn is_ascii_char(c: char) -> bool {
    (c as u32) < 0x80
}

pub open spec fn all_ascii(s: Seq<char>) -> bool {
    forall|i: int| 0 <= i < s.len() ==> is_ascii_char(#[trigger] s[i])
}

pub open spec fn ascii_lower(c: char) -> char {
    if 'A' <= c && c <= 'Z' {
        ((c as u32) + 32) as char
    } else {
        c
    }
}

pub open spec fn lower_all(s: Seq<char>) -> Seq<char> {
    Seq::new(s.len(), |i: int| ascii_lower(s[i]))
}

fn ascii_lower_exec(c: char) -> (r: char)
    ensures
        r == ascii_lower(c),
{
    if 'A' <= c && c <= 'Z' {
        let u = (c as u32) + 32;
        // u is a lower-case ASCII letter
        char_from_ascii(u)
    } else {
        c
    }
}

fn char_from_ascii(u: u32) -> (c: char)
    requires
        u < 0x80,
    ensures
        c == u as char,
{
    assert(u < 0xD800);
    let b = u as u8;
    b as char
}

fn lower_chars(s: &[char]) -> (r: Vec<char>)
    ensures
        r@ == lower_all(s@),
{
    let mut r: Vec<char> = Vec::new();
    let mut i: usize = 0;
    while i < s.len()
        invariant
            i <= s.len(),
            r@ == lower_all(s@).take(i as int),
        decreases s.len() - i,
    {
        r.push(ascii_lower_exec(s[i]));
        i += 1;
        assert(r@ =~= lower_all(s@).take(i as int));
    }
    assert(lower_all(s@).take(s.len() as int) =~= lower_all(s@));
    r
}

/// Every match of the lower-cased query in the lower-cased content, from
/// `last` on, wrapped in reverse-video escape codes.
pub open spec fn highlight_from(content: Seq<char>, query: Seq<char>, last: int) -> Seq<char>
    decreases content.len() - last,
{
    if query.len() == 0 || last < 0 || last > content.len() {
        content.skip(last)
    } else {
        match find_from(lower_all(content), lower_all(query), last) {
            Some(p) => {
                proof {
                    lemma_find_from_spec(lower_all(content), lower_all(query), last);
                }
                content.subrange(last, p) + "\x1b[43;30;1m"@ + content.subrange(p, p + query.len())
                    + "\x1b[0m"@ + highlight_from(content, query, p + query.len())
            },
            None => content.skip(last),
        }
    }
}

/// Wraps each case-insensitive match of `query` in `content` in ANSI
/// highlight codes.  The match positions are those of the lower-cased
/// text, which line up with `content` for ASCII text.
pub fn highlight_search(content: &str, query: &str) -> (r: String)
    requires
        all_ascii(content@),
        all_ascii(query@),
        query@.len() > 0,
    ensures
        r@ == highlight_from(content@, query@, 0),
{
    let c = chars_of(content);
    let q = chars_of(query);
    let cl = lower_chars(c.as_slice());
    let ql = lower_chars(q.as_slice());
    let on = chars_of("\x1b[43;30;1m");
    let off = chars_of("\x1b[0m");
    let mut result: Vec<char> = Vec::new();
    let mut last: usize = 0;
    assert(c@.skip(0) =~= c@);
    while last <= c.len()
        invariant
            last <= c.len(),
            c@ == content@,
            q@ == query@,
            q@.len() > 0,
            cl@ == lower_all(c@),
            ql@ == lower_all(q@),
            ql@.len() == q@.len(),
            on@ == "\x1b[43;30;1m"@,
            off@ == "\x1b[0m"@,
            result@ + highlight_from(c@, q@, last as int) == highlight_from(c@, q@, 0),
        decreases c.len() + 1 - last,
    {
        match find_from_exec(cl.as_slice(), ql.as_slice(), last) {
            Some(p) => {
                proof {
                    lemma_find_from_spec(cl@, ql@, last as int);
                    assert(occurs_at(cl@, ql@, p as int));
                }
                let before = copy_range(c.as_slice(), last, p);
                let matched = copy_range(c.as_slice(), p, p + q.len());
                let ghost old_result = result@;
                extend_from(&mut result, before.as_slice());
                extend_from(&mut result, on.as_slice());
                extend_from(&mut result, matched.as_slice());
                extend_from(&mut result, off.as_slice());
                assert(result@ =~= old_result + c@.subrange(last as int, p as int) + on@
                    + c@.subrange(p as int, p + q@.len()) + off@);
                last = p + q.len();
            },
            None => {
                let rest = copy_range(c.as_slice(), last, c.len());
                extend_from(&mut result, rest.as_slice());
                assert(rest@ =~= c@.skip(last as int));
                return string_of(result.as_slice());
            },
        }
    }
    string_of(result.as_slice())
}

/// The segments of a highlighted line after `last`: matches of `pattern`
/// in `pattern_style`, the text between them in `line_style`.
pub open spec fn segments_from(
    line: Seq<char>,
    pattern: Seq<char>,
    ls: LineStyle,
    ps: LineStyle,
    last: int,
) -> LineView
    decreases line.len() - last,
{
    if pattern.len() == 0 || last < 0 || last > line.len() {
        Seq::empty()
    } else {
        match find_from(line, pattern, last) {
            Some(p) => {
                proof {
                    lemma_find_from_spec(line, pattern, last);
                }
                (if p > last {
                    seq![(line.subrange(last, p), ls)]
                } else {
                    Seq::empty()
                }) + seq![(pattern, ps)] + segments_from(line, pattern, ls, ps, p + pattern.len())
            },
            None => if last < line.len() {
                seq![(line.skip(last), ls)]
            } else {
                Seq::empty()
            },
        }
    }
}

/// The styled segments of a changed line: the prefix, then the line with
/// each match of `pattern` in its own style.
pub open spec fn highlight_segments_spec(
    line: Seq<char>,
    pattern: Seq<char>,
    ls: LineStyle,
    ps: LineStyle,
    prefix: Seq<char>,
    prefix_style: LineStyle,
) -> LineView {
    if pattern.len() == 0 {
        seq![(prefix, prefix_style), (line, ls)]
    } else {
        seq![(prefix, prefix_style)] + segments_from(line, pattern, ls, ps, 0)
    }
}

/// Builds styled segments for a changed line, highlighting `pattern`.
pub fn highlight_segments(
    line: &str,
    pattern: &str,
    line_style: LineStyle,
    pattern_style: LineStyle,
    prefix: &str,
    prefix_style: LineStyle,
) -> (r: Vec<(String, LineStyle)>)
    ensures
        segs_view(r@) == highlight_segments_spec(
            line@,
            pattern@,
            line_style,
            pattern_style,
            prefix@,
            prefix_style,
        ),
{
    let mut segs: Vec<(String, LineStyle)> = Vec::new();
    segs.push((string_of(chars_of(prefix).as_slice()), prefix_style));
    let p = chars_of(pattern);
    if p.len() == 0 {
        segs.push((string_of(chars_of(line).as_slice()), line_style));
        assert(segs_view(segs@) =~= seq![(prefix@, prefix_style), (line@, line_style)]);
        return segs;
    }
    proof {
        assert(pattern@.len() > 0);
    }
    let l = chars_of(line);
    let mut last: usize = 0;
    while last <= l.len()
        invariant
            last <= l.len(),
            l@ == line@,
            p@ == pattern@,
            p@.len() > 0,
            segs_view(segs@) + segments_from(l@, p@, line_style, pattern_style, last as int)
                == seq![(prefix@, prefix_style)] + segments_from(l@, p@, line_style, pattern_style, 0),
        decreases l.len() + 1 - last,
    {
        match find_from_exec(l.as_slice(), p.as_slice(), last) {
            Some(abs) => {
                proof {
                    lemma_find_from_spec(l@, p@, last as int);
                    assert(occurs_at(l@, p@, abs as int));
                }
                let ghost before = segs_view(segs@);
                if abs > last {
                    let between = copy_range(l.as_slice(), last, abs);
                    segs.push((string_of(between.as_slice()), line_style));
                }
                let m = copy_range(l.as_slice(), abs, abs + p.len());
                assert(m@ =~= p@);
                segs.push((string_of(m.as_slice()), pattern_style));
                proof {
                    if abs > last {
                        assert(segs_view(segs@) =~= before + seq![(l@.subrange(last as int, abs as int), line_style)] + seq![(p@, pattern_style)]);
                    } else {
                        assert(segs_view(segs@) =~= before + seq![(p@, pattern_style)]);
                    }
                }
                last = abs + p.len();
            },
            None => {
                let ghost before = segs_view(segs@);
                if last < l.len() {
                    let rest = copy_range(l.as_slice(), last, l.len());
                    assert(rest@ =~= l@.skip(last as int));
                    segs.push((string_of(rest.as_slice()), line_style));
                    assert(segs_view(segs@) =~= before + seq![(l@.skip(last as int), line_style)]);
                } else {
                    assert(segs_view(segs@) =~= before + Seq::<(Seq<char>, LineStyle)>::empty());
                }
                return segs;
            },
        }
    }
    segs
}

// ---------------------------------------------------------------------------
// Quotes
// ---------------------------------------------------------------------------

/// `s` trimmed, without one pair of matching surrounding quotes.
pub open spec fn unquote_spec(s: Seq<char>) -> Seq<char> {
    let t = trim(s);
    if t.len() >= 2 && ((t[0] == '"' && t.last() == '"') || (t[0] == '\'' && t.last() == '\'')) {
        t.subrange(1, t.len() - 1)
    } else {
        t
    }
}

/// Strips matching surrounding `"…"` or `'…'` quotes.
pub fn unquote(s: &str) -> (r: String)
    ensures
        r@ == unquote_spec(s@),
{
    let c = chars_of(s);
    let t = trimmed(c.as_slice());
    let n = t.len();
    if n >= 2 && ((t[0] == '"' && t[n - 1] == '"') || (t[0] == '\'' && t[n - 1] == '\'')) {
        string_of(copy_range(t.as_slice(), 1, n - 1).as_slice())
    } else {
        string_of(t.as_slice())
    }
}

// ---------------------------------------------------------------------------
// Splicing
// ---------------------------------------------------------------------------

/// The graphemes of `gs` whose position (counted from `base`) lies outside
/// `start..end`, joined.
pub open spec fn kept_text(gs: Seq<Seq<char>>, base: int, start: int, end: int) -> Seq<char>
    decreases gs.len(),
{
    if gs.len() == 0 {
        Seq::empty()
    } else {
        let k = base + gs.len() - 1;
        kept_text(gs.drop_last(), base, start, end) + if start <= k && k < end {
            Seq::empty()
        } else {
            gs.last()
        }
    }
}

/// The segments with graphemes `start..end` of the line cut out; segments
/// left empty are dropped.
pub open spec fn splice_segments(segs: LineView, base: int, start: int, end: int) -> LineView
    decreases segs.len(),
{
    if segs.len() == 0 {
        Seq::empty()
    } else {
        let gs = spec_graphemes(segs[0].0);
        let kept = kept_text(gs, base, start, end);
        let rest = splice_segments(segs.drop_first(), base + gs.len(), start, end);
        if kept.len() > 0 {
            seq![(kept, segs[0].1)] + rest
        } else {
            rest
        }
    }
}

/// The line with its graphemes `start_char..end_char` removed, styles kept.
pub fn splice_line(line: &BufferLine, start_char: usize, end_char: usize) -> (r: BufferLine)
    ensures
        r@ == splice_segments(line@, 0, start_char as int, end_char as int),
{
    let ghost lv = line@;
    let mut out: Vec<(String, LineStyle)> = Vec::new();
    let mut base: u128 = 0;
    let mut i: usize = 0;
    assert(lv.skip(0) =~= lv);
    while i < line.segments.len()
        invariant
            i <= line.segments.len(),
            lv == line@,
            base as int <= (i as int) * 0x1_0000_0000_0000_0000,
            segs_view(out@) + splice_segments(lv.skip(i as int), base as int, start_char as int, end_char as int)
                == splice_segments(lv, 0, start_char as int, end_char as int),
        decreases line.segments.len() - i,
    {
        let style = line.segments[i].1;
        let gs = graphemes(line.segments[i].0.as_str());
        let ghost gv = views(gs@);
        let mut kept: Vec<char> = Vec::new();
        let mut k: usize = 0;
        while k < gs.len()
            invariant
                k <= gs.len(),
                gs.len() <= usize::MAX,
                base as int <= (i as int) * 0x1_0000_0000_0000_0000,
                i < line.segments.len(),
                gv == views(gs@),
                kept@ == kept_text(gv.take(k as int), base as int, start_char as int, end_char as int),
            decreases gs.len() - k,
        {
            proof {
                assert(gv.take(k + 1).drop_last() =~= gv.take(k as int));
            }
            let pos: u128 = base + k as u128;
            if !(start_char as u128 <= pos && pos < end_char as u128) {
                let g = chars_of(gs[k].as_str());
                extend_from(&mut kept, g.as_slice());
            }
            k += 1;
        }
        proof {
            assert(gv.take(gs.len() as int) =~= gv);
            assert(lv.skip(i as int)[0] == (line.segments@[i as int].0@, style));
            assert(lv.skip(i as int).drop_first() =~= lv.skip(i + 1));
        }
        let ghost before = segs_view(out@);
        if kept.len() > 0 {
            out.push((string_of(kept.as_slice()), style));
            assert(segs_view(out@) =~= before + seq![(kept@, style)]);
        }
        base = base + gs.len() as u128;
        i += 1;
    }
    assert(lv.skip(line.segments.len() as int) =~= Seq::<(Seq<char>, LineStyle)>::empty());
    assert(segs_view(out@) =~= segs_view(out@) + Seq::<(Seq<char>, LineStyle)>::empty());
    BufferLine::from_segments(out)
}

} // verus!
