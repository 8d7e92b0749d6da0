//! Normal-mode navigation: the lines that hunk, function and gutter jumps
//! go to, the count typed before a command, the lines that `dd` removes,
//! and the word under the cursor.

use vstd::prelude::*;
use crate::bracket::{head, heads, heads_of};
use crate::text::{chars_of, starts_with, starts_with_exec, string_of, trim_start, trimmed_start, views};
use crate::tools::{is_alphanumeric, spec_is_alphanumeric};
use crate::unicode::graphemes;

verus! {

broadcast use vstd::string::group_string_axioms;

// ---------------------------------------------------------------------------
// Jump targets
// ---------------------------------------------------------------------------

/// The line numbers (from 1) of the gutter marks that show an added line.
pub open spec fn added_lines(gutter: Seq<char>) -> Seq<usize>
    decreases gutter.len(),
{
    if gutter.len() == 0 {
        Seq::empty()
    } else if gutter.last() == '+' {
        added_lines(gutter.drop_last()).push(gutter.len() as usize)
    } else {
        added_lines(gutter.drop_last())
    }
}

/// The numbers (from 1) of the lines that the git gutter marks as added.
pub fn gutter_added_lines(gutter: &Vec<char>) -> (r: Vec<usize>)
    ensures
        r@ == added_lines(gutter@),
{
    let mut r: Vec<usize> = Vec::new();
    let mut i: usize = 0;
    while i < gutter.len()
        invariant
            i <= gutter@.len(),
            r@ == added_lines(gutter@.take(i as int)),
        decreases gutter.len() - i,
    {
        proof {
            assert(gutter@.take(i + 1).drop_last() =~= gutter@.take(i as int));
        }
        if gutter[i] == '+' {
            r.push(i + 1);
        }
        i += 1;
    }
    assert(gutter@.take(gutter.len() as int) =~= gutter@);
    r
}

/// The first of `ls` above `cur`.
pub open spec fn first_after(ls: Seq<usize>, cur: int) -> Option<usize>
    decreases ls.len(),
{
    if ls.len() == 0 {
        None
    } else if ls[0] > cur {
        Some(ls[0])
    } else {
        first_after(ls.drop_first(), cur)
    }
}

/// The last of `ls` below `cur`.
pub open spec fn last_before(ls: Seq<usize>, cur: int) -> Option<usize>
    decreases ls.len(),
{
    if ls.len() == 0 {
        None
    } else if ls.last() < cur {
        Some(ls.last())
    } else {
        last_before(ls.drop_last(), cur)
    }
}

/// The first line after `cur`, for a forward jump.
pub fn next_after(ls: &Vec<usize>, cur: usize) -> (r: Option<usize>)
    ensures
        r == first_after(ls@, cur as int),
{
    let mut i: usize = 0;
    assert(ls@.skip(0) =~= ls@);
    while i < ls.len()
        invariant
            i <= ls@.len(),
            first_after(ls@, cur as int) == first_after(ls@.skip(i as int), cur as int),
        decreases ls.len() - i,
    {
        proof {
            assert(ls@.skip(i as int)[0] == ls@[i as int]);
            assert(ls@.skip(i as int).drop_first() =~= ls@.skip(i + 1));
        }
        if ls[i] > cur {
            return Some(ls[i]);
        }
        i += 1;
    }
    None
}

/// The last line before `cur`, for a backward jump.
pub fn prev_before(ls: &Vec<usize>, cur: usize) -> (r: Option<usize>)
    ensures
        r == last_before(ls@, cur as int),
{
    let mut n = ls.len();
    assert(ls@.take(n as int) =~= ls@);
    while n > 0
        invariant
            n <= ls@.len(),
            last_before(ls@, cur as int) == last_before(ls@.take(n as int), cur as int),
        decreases n,
    {
        proof {
            assert(ls@.take(n as int).last() == ls@[n - 1]);
            assert(ls@.take(n as int).drop_last() =~= ls@.take(n - 1));
        }
        if ls[n - 1] < cur {
            return Some(ls[n - 1]);
        }
        n -= 1;
    }
    None
}

/// The added line after `cur`, wrapping round to the first.
pub fn next_gutter_target(ls: &Vec<usize>, cur: usize) -> (r: Option<usize>)
    ensures
        r == (match first_after(ls@, cur as int) {
            Some(l) => Some(l),
            None => if ls@.len() > 0 {
                Some(ls@[0])
            } else {
                None
            },
        }),
{
    match next_after(ls, cur) {
        Some(l) => Some(l),
        None => if ls.len() > 0 {
            Some(ls[0])
        } else {
            None
        },
    }
}

/// The added line before `cur`, wrapping round to the last.
pub fn prev_gutter_target(ls: &Vec<usize>, cur: usize) -> (r: Option<usize>)
    ensures
        r == (match last_before(ls@, cur as int) {
            Some(l) => Some(l),
            None => if ls@.len() > 0 {
                Some(ls@.last())
            } else {
                None
            },
        }),
{
    match prev_before(ls, cur) {
        Some(l) => Some(l),
        None => if ls.len() > 0 {
            Some(ls[ls.len() - 1])
        } else {
            None
        },
    }
}

// ---------------------------------------------------------------------------
// Function starts by keyword
// ---------------------------------------------------------------------------

/// The line openings that mark the start of a definition.
pub open spec fn definition_openers() -> Seq<&'static str> {
    seq![
        "fn ",
        "pub fn ",
        "pub(crate) fn ",
        "pub(super) fn ",
        "async fn ",
        "pub async fn ",
        "impl ",
        "struct ",
        "enum ",
        "trait ",
        "def ",
        "function ",
        "export function ",
        "export async function ",
        "interface ",
    ]
}

/// A line that, past its indentation, opens a definition.
pub open spec fn opens_definition(l: Seq<char>) -> bool {
    exists|i: int| 0 <= i < definition_openers().len() && starts_with(trim_start(l), #[trigger] definition_openers()[i]@)
}

/// The indices of the lines that open a definition, in order.
pub open spec fn definition_lines(ls: Seq<Seq<char>>) -> Seq<usize>
    decreases ls.len(),
{
    if ls.len() == 0 {
        Seq::empty()
    } else if opens_definition(ls.last()) {
        definition_lines(ls.drop_last()).push((ls.len() - 1) as usize)
    } else {
        definition_lines(ls.drop_last())
    }
}

fn opens_definition_exec(l: &str) -> (r: bool)
    ensures
        r == opens_definition(l@),
{
    let c = chars_of(l);
    let t = trimmed_start(c.as_slice());
    let openers = vec![
        "fn ",
        "pub fn ",
        "pub(crate) fn ",
        "pub(super) fn ",
        "async fn ",
        "pub async fn ",
        "impl ",
        "struct ",
        "enum ",
        "trait ",
        "def ",
        "function ",
        "export function ",
        "export async function ",
        "interface ",
    ];
    assert(openers@ =~= definition_openers());
    let mut i: usize = 0;
    while i < openers.len()
        invariant
            i <= openers@.len(),
            openers@ == definition_openers(),
            t@ == trim_start(l@),
            forall|k: int| 0 <= k < i ==> !starts_with(trim_start(l@), #[trigger] definition_openers()[k]@),
        decreases openers.len() - i,
    {
        let p = chars_of(openers[i]);
        if starts_with_exec(t.as_slice(), p.as_slice()) {
            return true;
        }
        i += 1;
    }
    false
}

/// The lines that open a definition, found by their leading keyword (the
/// jump used when no syntax tree is at hand).
pub fn fallback_function_starts(lines: &Vec<String>) -> (r: Vec<usize>)
    ensures
        r@ == definition_lines(views(lines@)),
{
    let ghost lv = views(lines@);
    let mut r: Vec<usize> = Vec::new();
    let mut i: usize = 0;
    while i < lines.len()
        invariant
            i <= lines@.len(),
            lv == views(lines@),
            r@ == definition_lines(lv.take(i as int)),
        decreases lines.len() - i,
    {
        proof {
            assert(lv.take(i + 1).drop_last() =~= lv.take(i as int));
            assert(lv.take(i + 1).last() == lines@[i as int]@);
        }
        if opens_definition_exec(lines[i].as_str()) {
            r.push(i);
        }
        i += 1;
    }
    assert(lv.take(lines.len() as int) =~= lv);
    r
}

// ---------------------------------------------------------------------------
// Counts and line ranges
// ---------------------------------------------------------------------------

/// The count after a digit is typed: the digit appended to the count so
/// far; a `0` with no count yet is no count (it moves to the line start).
pub open spec fn count_after_digit(count: Option<usize>, d: nat) -> Option<int> {
    if count is Some || d != 0 {
        Some(
            match count {
                Some(c) => c as int,
                None => 0,
            } * 10 + d,
        )
    } else {
        None
    }
}

/// The count after the digit `c` is typed, `None` when a `0` starts no
/// count. A count past `usize::MAX` is not accepted.
pub fn push_count_digit(count: Option<usize>, c: char) -> (r: Option<usize>)
    requires
        '0' <= c <= '9',
        count_after_digit(count, (c as u32 - '0' as u32) as nat) matches Some(n) ==> n <= usize::MAX,
    ensures
        count_after_digit(count, (c as u32 - '0' as u32) as nat) matches Some(n) ==> r == Some(n as usize),
        count_after_digit(count, (c as u32 - '0' as u32) as nat) is None ==> r is None,
{
    let d = (c as u32 - '0' as u32) as usize;
    if count.is_some() || c != '0' {
        let base: usize = match count {
            Some(n) => n,
            None => 0,
        };
        assert(base * 10 + d <= usize::MAX);
        Some(base * 10 + d)
    } else {
        None
    }
}

/// The lines that `dd` (and `yy`) take: `amount` lines from the cursor,
/// cut at the end of the buffer.
pub fn line_span(cursor: usize, amount: usize, len: usize) -> (r: (usize, usize))
    requires
        cursor + amount <= usize::MAX,
    ensures
        r.0 == cursor,
        r.1 == if cursor + amount < len {
            cursor + amount
        } else {
            len as int
        },
{
    let end = if cursor + amount < len {
        cursor + amount
    } else {
        len
    };
    (cursor, end)
}

/// Where the cursor goes after lines were removed: its line, kept inside
/// what is left.
pub fn cursor_after_removal(cursor: usize, new_len: usize) -> (r: usize)
    ensures
        new_len == 0 ==> r == 0,
        new_len > 0 ==> r == if cursor < new_len {
            cursor
        } else {
            (new_len - 1) as usize
        },
{
    if new_len == 0 {
        0
    } else if cursor < new_len - 1 {
        cursor
    } else {
        new_len - 1
    }
}

/// The header of a change block in the sed review buffer.
pub open spec fn block_header(l: Seq<char>) -> bool {
    starts_with(l, "@@ "@)
}

/// The start of the block holding line `cur`: the nearest header at or
/// above it (stopping at line 1, which is never tested).
pub open spec fn block_start(ls: Seq<Seq<char>>, cur: int) -> int
    decreases cur,
{
    if cur <= 0 {
        0
    } else if block_header(ls[cur]) {
        cur
    } else {
        block_start(ls, cur - 1)
    }
}

/// The lines that `dd` discards in the sed review buffer: the four lines
/// of the change block under the cursor, when the cursor is within its
/// first four lines; `None` otherwise.
pub open spec fn sed_block_span(ls: Seq<Seq<char>>, cur: int) -> Option<(int, int)> {
    let s = block_start(ls, cur);
    if block_header(ls[s]) && cur <= s + 3 {
        Some(
            (
                s,
                if s + 4 < ls.len() {
                    s + 4
                } else {
                    ls.len() as int
                },
            ),
        )
    } else {
        None
    }
}

fn is_header(l: &String) -> (r: bool)
    ensures
        r == block_header(l@),
{
    let c = chars_of(l.as_str());
    let h = chars_of("@@ ");
    starts_with_exec(c.as_slice(), h.as_slice())
}

/// The change block that `dd` discards in the sed review buffer.
pub fn sed_block_range(lines: &Vec<String>, cursor: usize) -> (r: Option<(usize, usize)>)
    requires
        cursor < lines@.len(),
    ensures
        r matches Some((a, b)) ==> sed_block_span(views(lines@), cursor as int) == Some((a as int, b as int)),
        r is None ==> sed_block_span(views(lines@), cursor as int) is None,
{
    let ghost lv = views(lines@);
    let mut s = cursor;
    while s > 0 && !is_header(&lines[s])
        invariant
            s <= cursor < lines@.len(),
            lv == views(lines@),
            block_start(lv, cursor as int) == block_start(lv, s as int),
        decreases s,
    {
        assert(lv[s as int] == lines@[s as int]@);
        s -= 1;
    }
    assert(lv[s as int] == lines@[s as int]@);
    assert(block_start(lv, cursor as int) == s);
    if is_header(&lines[s]) && cursor - s <= 3 {
        let end = if lines.len() - s > 4 {
            s + 4
        } else {
            lines.len()
        };
        Some((s, end))
    } else {
        None
    }
}

// ---------------------------------------------------------------------------
// The word under the cursor
// ---------------------------------------------------------------------------

pub open spec fn word_char(c: char) -> bool {
    spec_is_alphanumeric(c) || c == '_'
}

/// The column the cursor is on, kept inside the line.
pub open spec fn cursor_cluster(n: int, col: int) -> int {
    if col < n - 1 {
        col
    } else {
        n - 1
    }
}

/// The clusters `a..b` around the cursor form a word: every cluster in
/// them starts with a word character, and the ones just outside do not.
pub open spec fn word_bounds(h: Seq<char>, a: int, b: int) -> bool {
    &&& 0 <= a <= b <= h.len()
    &&& forall|i: int| a <= i < b ==> word_char(#[trigger] h[i])
    &&& (a == 0 || !word_char(h[a - 1]))
    &&& (b == h.len() || !word_char(h[b]))
}

/// The word under the cursor: the run of clusters starting with a letter,
/// digit or underscore around the cursor's cluster.
pub open spec fn word_under(line: Seq<char>, col: int, r: Option<Seq<char>>) -> bool {
    let h = heads(line);
    let g = crate::unicode::spec_graphemes(line);
    let c = cursor_cluster(h.len() as int, col);
    if h.len() == 0 || !word_char(h[c]) {
        r is None
    } else {
        exists|a: int, b: int|
            #![trigger word_bounds(h, a, b)]
            a <= c < b && word_bounds(h, a, b) && r == Some(g.subrange(a, b).flatten())
    }
}

/// The word under the cursor at column `col` (in clusters) of `line`, for
/// a search; `None` when the cursor is not on a word.
pub fn word_under_cursor(line: &str, col: usize) -> (r: Option<String>)
    ensures
        word_under(line@, col as int, match r {
            Some(s) => Some(s@),
            None => None,
        }),
{
    let hv = heads_of(line);
    let ghost h = heads(line@);
    let n = hv.len();
    if n == 0 {
        return None;
    }
    let c = if col < n - 1 {
        col
    } else {
        n - 1
    };
    if !(is_alphanumeric(hv[c]) || hv[c] == '_') {
        return None;
    }
    let mut a = c;
    while a > 0 && (is_alphanumeric(hv[a - 1]) || hv[a - 1] == '_')
        invariant
            a <= c < n,
            hv@ == h,
            n == h.len(),
            forall|k: int| a <= k <= c ==> word_char(#[trigger] h[k]),
        decreases a,
    {
        a -= 1;
    }
    let mut b = c;
    while b < n && (is_alphanumeric(hv[b]) || hv[b] == '_')
        invariant
            a <= c <= b <= n,
            hv@ == h,
            n == h.len(),
            forall|k: int| a <= k < b ==> word_char(#[trigger] h[k]),
            word_char(h[c as int]),
        decreases n - b,
    {
        b += 1;
    }
    assert(word_bounds(h, a as int, b as int));
    Some(join_clusters(line, a, b))
}

fn join_clusters(line: &str, a: usize, b: usize) -> (r: String)
    requires
        a <= b <= crate::unicode::spec_graphemes(line@).len(),
    ensures
        r@ == crate::unicode::spec_graphemes(line@).subrange(a as int, b as int).flatten(),
{
    let gs = graphemes(line);
    let ghost gv = views(gs@);
    let mut w = String::new();
    let mut k = a;
    assert(gv.subrange(a as int, a as int) =~= Seq::<Seq<char>>::empty());
    while k < b
        invariant
            a <= k <= b <= gs@.len(),
            gv == views(gs@),
            w@ == gv.subrange(a as int, k as int).flatten(),
        decreases b - k,
    {
        crate::text::append_chars(&mut w, chars_of(gs[k].as_str()).as_slice());
        proof {
            assert(gv.subrange(a as int, k + 1) =~= gv.subrange(a as int, k as int).push(gv[k as int]));
            gv.subrange(a as int, k as int).lemma_flatten_push(gv[k as int]);
        }
        k += 1;
    }
    w
}

} // verus!
