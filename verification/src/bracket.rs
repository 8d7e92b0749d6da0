//! Matching brackets, vim `%`-style, over the grapheme clusters of a file's
//! lines.

use vstd::prelude::*;
use crate::text::{chars_of, views};
use crate::unicode::{graphemes, spec_graphemes};

verus! {

broadcast use vstd::string::group_string_axioms;

/// The character that stands for a grapheme cluster: its first one (a
/// space for an empty cluster).
pub open spec fn head(g: Seq<char>) -> char {
    if g.len() > 0 {
        g[0]
    } else {
        ' '
    }
}

/// The heads of the grapheme clusters of a line.
pub open spec fn heads(l: Seq<char>) -> Seq<char> {
    spec_graphemes(l).map_values(|g: Seq<char>| head(g))
}

/// The heads of every line.
pub open spec fn grid(lines: Seq<Seq<char>>) -> Seq<Seq<char>> {
    lines.map_values(|l: Seq<char>| heads(l))
}

/// Line `l` from column `from` to its end, as (line, column, head) items.
pub open spec fn row_fwd(g: Seq<Seq<char>>, l: int, from: int) -> Seq<(int, int, char)> {
    Seq::new((g[l].len() - from) as nat, |k: int| (l, from + k, g[l][from + k]))
}

/// Lines `a..` in reading order.
pub open spec fn rem_fwd(g: Seq<Seq<char>>, a: int) -> Seq<(int, int, char)>
    decreases g.len() - a,
{
    if a >= g.len() {
        Seq::empty()
    } else {
        row_fwd(g, a, 0) + rem_fwd(g, a + 1)
    }
}

/// Line `l` from column `upto` back to column 0.
pub open spec fn row_bwd(g: Seq<Seq<char>>, l: int, upto: int) -> Seq<(int, int, char)> {
    Seq::new((upto + 1) as nat, |k: int| (l, upto - k, g[l][upto - k]))
}

/// Lines `b - 1` down to `0`, each from its last column back.
pub open spec fn rem_bwd(g: Seq<Seq<char>>, b: int) -> Seq<(int, int, char)>
    decreases b,
{
    if b <= 0 {
        Seq::empty()
    } else {
        row_bwd(g, b - 1, g[b - 1].len() - 1) + rem_bwd(g, b - 1)
    }
}

/// The other bracket of a pair.
pub open spec fn partner(c: char) -> char {
    if c == '(' {
        ')'
    } else if c == ')' {
        '('
    } else if c == '[' {
        ']'
    } else if c == ']' {
        '['
    } else if c == '{' {
        '}'
    } else if c == '}' {
        '{'
    } else {
        c
    }
}

pub open spec fn is_opening(c: char) -> bool {
    c == '(' || c == '[' || c == '{'
}

pub open spec fn is_closing(c: char) -> bool {
    c == ')' || c == ']' || c == '}'
}

/// The column the search starts from: the requested one, kept inside the
/// line.
pub open spec fn start_col(lines: Seq<Seq<char>>, sl: int, sc: int) -> int {
    let n = heads(lines[sl]).len() - 1;
    if sc < n {
        sc
    } else {
        n
    }
}

/// The bracket under the start position.
pub open spec fn start_char(lines: Seq<Seq<char>>, sl: int, sc: int) -> char {
    heads(lines[sl])[start_col(lines, sl, sc)]
}

/// There is a bracket under the start position.
pub open spec fn on_bracket(lines: Seq<Seq<char>>, sl: int, sc: int) -> bool {
    &&& 0 <= sl < lines.len()
    &&& heads(lines[sl]).len() > 0
    &&& (is_opening(start_char(lines, sl, sc)) || is_closing(start_char(lines, sl, sc)))
}

/// The positions the search walks: forward in reading order from an
/// opening bracket, backward from a closing one, starting on the bracket.
pub open spec fn walk(lines: Seq<Seq<char>>, sl: int, sc: int) -> Seq<(int, int, char)> {
    let g = grid(lines);
    let col = start_col(lines, sl, sc);
    if is_opening(start_char(lines, sl, sc)) {
        row_fwd(g, sl, col) + rem_fwd(g, sl + 1)
    } else {
        row_bwd(g, sl, col) + rem_bwd(g, sl)
    }
}

pub open spec fn step(it: (int, int, char), plus: char, minus: char) -> int {
    if it.2 == plus {
        1
    } else if it.2 == minus {
        -1
    } else {
        0
    }
}

/// Brackets like the start one, less their partners.
pub open spec fn balance(s: Seq<(int, int, char)>, plus: char, minus: char) -> int
    decreases s.len(),
{
    if s.len() == 0 {
        0
    } else {
        balance(s.drop_last(), plus, minus) + step(s.last(), plus, minus)
    }
}

/// The brackets from the start up to item `k` of the walk balance.
pub open spec fn closes_at(lines: Seq<Seq<char>>, sl: int, sc: int, k: int) -> bool {
    let c = start_char(lines, sl, sc);
    balance(walk(lines, sl, sc).take(k + 1), c, partner(c)) == 0
}

/// Item `k` of the walk is the matching bracket: the first place where
/// the brackets balance.
pub open spec fn matches_at(lines: Seq<Seq<char>>, sl: int, sc: int, k: int) -> bool {
    &&& 0 <= k < walk(lines, sl, sc).len()
    &&& closes_at(lines, sl, sc, k)
    &&& forall|j: int| 0 <= j < k ==> !closes_at(lines, sl, sc, j)
}

/// The search runs to its end: the bracket depth it counts stays within
/// an `i32` up to the match. (A backward walk passes over empty lines.)
pub open spec fn walk_completes(lines: Seq<Seq<char>>, sl: int, sc: int) -> bool {
    on_bracket(lines, sl, sc) ==> {
        let s = walk(lines, sl, sc);
        let c = start_char(lines, sl, sc);
        forall|k: int|
            #![trigger s.take(k + 1)]
            0 <= k < s.len() && (forall|j: int| 0 <= j < k ==> !closes_at(lines, sl, sc, j))
                ==> balance(s.take(k + 1), c, partner(c)) <= i32::MAX
    }
}

/// The outcome of a search: the matching position, if any.
pub open spec fn bracket_found(lines: Seq<Seq<char>>, sl: int, sc: int, r: Option<(usize, usize)>) -> bool {
    match r {
        Some((l, c)) => on_bracket(lines, sl, sc) && exists|k: int|
            #![trigger walk(lines, sl, sc)[k]]
            matches_at(lines, sl, sc, k) && walk(lines, sl, sc)[k].0 == l && walk(lines, sl, sc)[k].1
                == c,
        None => !on_bracket(lines, sl, sc) || forall|k: int|
            0 <= k < walk(lines, sl, sc).len() ==> !closes_at(lines, sl, sc, k),
    }
}

pub(crate) fn heads_of(line: &str) -> (r: Vec<char>)
    ensures
        r@ == heads(line@),
{
    let gs = graphemes(line);
    let ghost gv = views(gs@);
    let mut h: Vec<char> = Vec::new();
    let mut i: usize = 0;
    while i < gs.len()
        invariant
            i <= gs.len(),
            gv == views(gs@),
            gv == spec_graphemes(line@),
            h@ == gv.take(i as int).map_values(|g: Seq<char>| head(g)),
        decreases gs.len() - i,
    {
        let c = chars_of(gs[i].as_str());
        let ch = if c.len() > 0 {
            c[0]
        } else {
            ' '
        };
        h.push(ch);
        proof {
            assert(gv[i as int] == gs@[i as int]@);
            assert(gv.take(i + 1).map_values(|g: Seq<char>| head(g)) =~= gv.take(i as int).map_values(
                |g: Seq<char>| head(g),
            ).push(head(gv[i as int])));
        }
        i += 1;
    }
    assert(gv.take(gs.len() as int) =~= gv);
    h
}

proof fn lemma_balance_push(s: Seq<(int, int, char)>, it: (int, int, char), p: char, m: char)
    ensures
        balance(s.push(it), p, m) == balance(s, p, m) + step(it, p, m),
{
    assert(s.push(it).drop_last() =~= s);
}

/// The walked prefix so far has no balance point and every depth on the
/// way fits an `i32`.
pub open spec fn clean(d: Seq<(int, int, char)>, p: char, m: char) -> bool {
    forall|j: int|
        0 <= j < d.len() ==> #[trigger] balance(d.take(j + 1), p, m) != 0 && balance(d.take(j + 1), p, m)
            <= i32::MAX
}

/// Every depth counted up to the first balance point fits an `i32`.
pub open spec fn depth_fits(lines: Seq<Seq<char>>, sl: int, sc: int) -> bool {
    let s = walk(lines, sl, sc);
    let c = start_char(lines, sl, sc);
    forall|k: int|
        #![trigger s.take(k + 1)]
        0 <= k < s.len() && (forall|j: int| 0 <= j < k ==> !closes_at(lines, sl, sc, j)) ==> balance(
            s.take(k + 1),
            c,
            partner(c),
        ) <= i32::MAX
}

proof fn lemma_walk_completes(lines: Seq<Seq<char>>, sl: int, sc: int)
    ensures
        walk_completes(lines, sl, sc) == (on_bracket(lines, sl, sc) ==> depth_fits(lines, sl, sc)),
{
}

proof fn lemma_clean_push(d: Seq<(int, int, char)>, it: (int, int, char), p: char, m: char)
    requires
        clean(d, p, m),
        balance(d.push(it), p, m) != 0,
        balance(d.push(it), p, m) <= i32::MAX,
    ensures
        clean(d.push(it), p, m),
{
    let e = d.push(it);
    assert forall|j: int| 0 <= j < e.len() implies #[trigger] balance(e.take(j + 1), p, m) != 0
        && balance(e.take(j + 1), p, m) <= i32::MAX by {
        if j < d.len() {
            assert(e.take(j + 1) =~= d.take(j + 1));
        } else {
            assert(e.take(j + 1) =~= e);
        }
    }
}

proof fn lemma_push_balance(d: Seq<(int, int, char)>, it: (int, int, char), p: char, m: char)
    ensures
        balance(d.push(it), p, m) == balance(d, p, m) + step(it, p, m),
{
    assert(d.push(it).drop_last() =~= d);
}

/// Item `d.len()` closes the walk, after a clean prefix `d`.
proof fn lemma_found(lines: Seq<Seq<char>>, sl: int, sc: int, d: Seq<(int, int, char)>, rest: Seq<(int, int, char)>)
    requires
        on_bracket(lines, sl, sc),
        walk(lines, sl, sc) == d + rest,
        rest.len() > 0,
        clean(d, start_char(lines, sl, sc), partner(start_char(lines, sl, sc))),
        balance(d.push(rest[0]), start_char(lines, sl, sc), partner(start_char(lines, sl, sc))) == 0,
    ensures
        matches_at(lines, sl, sc, d.len() as int),
        walk(lines, sl, sc)[d.len() as int] == rest[0],
        depth_fits(lines, sl, sc),
{
    let s = walk(lines, sl, sc);
    let c = start_char(lines, sl, sc);
    let k = d.len() as int;
    assert(s.take(k + 1) =~= d.push(rest[0]));
    assert forall|j: int| 0 <= j < k implies !closes_at(lines, sl, sc, j) by {
        assert(s.take(j + 1) =~= d.take(j + 1));
    }
    assert forall|kk: int|
        #![trigger s.take(kk + 1)]
        0 <= kk < s.len() && (forall|j: int| 0 <= j < kk ==> !closes_at(lines, sl, sc, j)) implies balance(
            s.take(kk + 1),
            c,
            partner(c),
        ) <= i32::MAX by {
        if kk > k {
            assert(closes_at(lines, sl, sc, k));
        } else if kk < k {
            assert(s.take(kk + 1) =~= d.take(kk + 1));
        }
    }
}

/// The whole walk is a clean prefix: no match, and every depth fits.
proof fn lemma_not_found(lines: Seq<Seq<char>>, sl: int, sc: int, d: Seq<(int, int, char)>)
    requires
        on_bracket(lines, sl, sc),
        walk(lines, sl, sc) == d,
        clean(d, start_char(lines, sl, sc), partner(start_char(lines, sl, sc))),
    ensures
        forall|k: int| 0 <= k < walk(lines, sl, sc).len() ==> !closes_at(lines, sl, sc, k),
        depth_fits(lines, sl, sc),
{
    let s = walk(lines, sl, sc);
    assert forall|k: int| 0 <= k < s.len() implies !closes_at(lines, sl, sc, k) && balance(
        #[trigger] s.take(k + 1),
        start_char(lines, sl, sc),
        partner(start_char(lines, sl, sc)),
    ) <= i32::MAX by {
        assert(s.take(k + 1) =~= d.take(k + 1));
    }
}

/// After a clean prefix `d`, the next depth does not fit.
proof fn lemma_overflow(lines: Seq<Seq<char>>, sl: int, sc: int, d: Seq<(int, int, char)>, rest: Seq<(int, int, char)>)
    requires
        on_bracket(lines, sl, sc),
        walk(lines, sl, sc) == d + rest,
        rest.len() > 0,
        clean(d, start_char(lines, sl, sc), partner(start_char(lines, sl, sc))),
        balance(d.push(rest[0]), start_char(lines, sl, sc), partner(start_char(lines, sl, sc))) > i32::MAX,
    ensures
        !depth_fits(lines, sl, sc),
{
    let s = walk(lines, sl, sc);
    let k = d.len() as int;
    assert(s.take(k + 1) =~= d.push(rest[0]));
    assert forall|j: int| 0 <= j < k implies !closes_at(lines, sl, sc, j) by {
        assert(s.take(j + 1) =~= d.take(j + 1));
    }
}

fn partner_exec(c: char) -> (r: Option<char>)
    ensures
        r is Some <==> is_opening(c) || is_closing(c),
        r matches Some(p) ==> p == partner(c),
{
    if c == '(' {
        Some(')')
    } else if c == ')' {
        Some('(')
    } else if c == '[' {
        Some(']')
    } else if c == ']' {
        Some('[')
    } else if c == '{' {
        Some('}')
    } else if c == '}' {
        Some('{')
    } else {
        None
    }
}

fn scan_fwd(lines: &Vec<String>, sl: usize, sc: usize, col: usize, h0: Vec<char>, open: char, close: char) -> (r: Option<Option<(usize, usize)>>)
    requires
        on_bracket(views(lines@), sl as int, sc as int),
        is_opening(open),
        open == start_char(views(lines@), sl as int, sc as int),
        close == partner(open),
        col == start_col(views(lines@), sl as int, sc as int),
        h0@ == grid(views(lines@))[sl as int],
        col < h0@.len(),
    ensures
        r is None <==> !depth_fits(views(lines@), sl as int, sc as int),
        r matches Some(x) ==> bracket_found(views(lines@), sl as int, sc as int, x),
{
    let ghost lv = views(lines@);
    let ghost g = grid(lv);
    let ghost s = walk(lv, sl as int, sc as int);
    let mut depth: i32 = 0;
    let ghost mut done: Seq<(int, int, char)> = Seq::empty();
    let mut l = sl;
    let mut c = col;
    let mut h = h0;
    assert(s =~= done + row_fwd(g, sl as int, col as int) + rem_fwd(g, sl + 1));
    loop
        invariant
            sl <= l < lines.len(),
            lv == views(lines@),
            g == grid(lv),
            s == walk(lv, sl as int, sc as int),
            on_bracket(lv, sl as int, sc as int),
            open == start_char(lv, sl as int, sc as int),
            close == partner(open),
            is_opening(open),
            h@ == g[l as int],
            c <= h@.len(),
            s == done + (row_fwd(g, l as int, c as int) + rem_fwd(g, l + 1)),
            depth == balance(done, open, close),
            done.len() == 0 ==> l == sl && c == col,
            clean(done, open, close),
            done.len() == 0 ==> depth == 0,
            done.len() > 0 ==> depth >= 1,
        decreases lines.len() - l, h@.len() - c,
    {
        if c < h.len() {
            let ch = h[c];
            let ghost it = (l as int, c as int, ch);
            let ghost rest = row_fwd(g, l as int, c as int) + rem_fwd(g, l + 1);
            proof {
                assert(row_fwd(g, l as int, c as int) =~= seq![it] + row_fwd(g, l as int, c + 1));
                assert(rest[0] == it);
                lemma_push_balance(done, it, open, close);
                if done.len() == 0 {
                    assert(s[0] == it);
                    assert(ch == open);
                }
            }
            if ch == open {
                if depth == i32::MAX {
                    proof {
                        lemma_overflow(lv, sl as int, sc as int, done, rest);
                    }
                    return None;
                }
                depth += 1;
            } else if ch == close {
                depth -= 1;
                if depth == 0 {
                    proof {
                        lemma_found(lv, sl as int, sc as int, done, rest);
                    }
                    return Some(Some((l, c)));
                }
            }
            proof {
                lemma_clean_push(done, it, open, close);
                done = done.push(it);
                assert(s =~= done + (row_fwd(g, l as int, c + 1) + rem_fwd(g, l + 1)));
            }
            c += 1;
        } else {
            proof {
                assert(row_fwd(g, l as int, c as int) =~= Seq::<(int, int, char)>::empty());
            }
            if l + 1 >= lines.len() {
                proof {
                    assert(rem_fwd(g, l + 1) =~= Seq::<(int, int, char)>::empty());
                    assert(s =~= done);
                    lemma_not_found(lv, sl as int, sc as int, done);
                }
                return Some(None);
            }
            l += 1;
            h = heads_of(lines[l].as_str());
            assert(lv[l as int] == lines@[l as int]@);
            c = 0;
            proof {
                assert(rem_fwd(g, l as int) == row_fwd(g, l as int, 0) + rem_fwd(g, l + 1));
                assert(s =~= done + (row_fwd(g, l as int, 0) + rem_fwd(g, l + 1)));
            }
        }
    }
}

fn scan_bwd(lines: &Vec<String>, sl: usize, sc: usize, col: usize, h0: Vec<char>, open: char, close: char) -> (r: Option<Option<(usize, usize)>>)
    requires
        on_bracket(views(lines@), sl as int, sc as int),
        is_closing(open),
        open == start_char(views(lines@), sl as int, sc as int),
        close == partner(open),
        col == start_col(views(lines@), sl as int, sc as int),
        h0@ == grid(views(lines@))[sl as int],
        col < h0@.len(),
    ensures
        r is None <==> !depth_fits(views(lines@), sl as int, sc as int),
        r matches Some(x) ==> bracket_found(views(lines@), sl as int, sc as int, x),
{
    let ghost lv = views(lines@);
    let ghost g = grid(lv);
    let ghost s = walk(lv, sl as int, sc as int);
    let mut depth: i32 = 0;
    let ghost mut done: Seq<(int, int, char)> = Seq::empty();
    let mut l = sl;
    let n0 = h0.len();
    assert(col < n0);
    let mut c = col + 1;
    let mut h = h0;
    assert(s =~= done + (row_bwd(g, sl as int, c - 1) + rem_bwd(g, sl as int)));
    loop
        invariant
            l <= sl < lines.len(),
            lv == views(lines@),
            g == grid(lv),
            s == walk(lv, sl as int, sc as int),
            on_bracket(lv, sl as int, sc as int),
            open == start_char(lv, sl as int, sc as int),
            close == partner(open),
            is_closing(open),
            h@ == g[l as int],
            c <= h@.len(),
            s == done + (row_bwd(g, l as int, c - 1) + rem_bwd(g, l as int)),
            depth == balance(done, open, close),
            done.len() == 0 ==> l == sl && c == col + 1,
            clean(done, open, close),
            done.len() == 0 ==> depth == 0,
            done.len() > 0 ==> depth >= 1,
        decreases l, c,
    {
        if c > 0 {
            let ch = h[c - 1];
            let ghost it = (l as int, c - 1, ch);
            let ghost rest = row_bwd(g, l as int, c - 1) + rem_bwd(g, l as int);
            proof {
                assert(row_bwd(g, l as int, c - 1) =~= seq![it] + row_bwd(g, l as int, c - 2));
                assert(rest[0] == it);
                lemma_push_balance(done, it, open, close);
                if done.len() == 0 {
                    assert(s[0] == it);
                    assert(ch == open);
                }
            }
            if ch == open {
                if depth == i32::MAX {
                    proof {
                        lemma_overflow(lv, sl as int, sc as int, done, rest);
                    }
                    return None;
                }
                depth += 1;
            } else if ch == close {
                depth -= 1;
                if depth == 0 {
                    proof {
                        lemma_found(lv, sl as int, sc as int, done, rest);
                    }
                    return Some(Some((l, c - 1)));
                }
            }
            proof {
                lemma_clean_push(done, it, open, close);
                done = done.push(it);
                assert(s =~= done + (row_bwd(g, l as int, c - 2) + rem_bwd(g, l as int)));
            }
            c -= 1;
        } else {
            proof {
                assert(row_bwd(g, l as int, -1) =~= Seq::<(int, int, char)>::empty());
            }
            if l == 0 {
                proof {
                    assert(rem_bwd(g, 0) =~= Seq::<(int, int, char)>::empty());
                    assert(s =~= done);
                    lemma_not_found(lv, sl as int, sc as int, done);
                }
                return Some(None);
            }
            l -= 1;
            h = heads_of(lines[l].as_str());
            assert(lv[l as int] == lines@[l as int]@);
            proof {
                assert(rem_bwd(g, l + 1) == row_bwd(g, l as int, g[l as int].len() - 1) + rem_bwd(g, l as int));
            }
            c = h.len();
            proof {
                assert(s =~= done + (row_bwd(g, l as int, c - 1) + rem_bwd(g, l as int)));
            }
        }
    }
}

/// Where the search runs to its end, its outcome; `None` where it would
/// not.
fn scan(lines: &Vec<String>, sl: usize, sc: usize) -> (r: Option<Option<(usize, usize)>>)
    ensures
        r is None <==> !walk_completes(views(lines@), sl as int, sc as int),
        r matches Some(x) ==> bracket_found(views(lines@), sl as int, sc as int, x),
{
    let ghost lv = views(lines@);
    proof {
        lemma_walk_completes(lv, sl as int, sc as int);
    }
    if sl >= lines.len() {
        return Some(None);
    }
    let h0 = heads_of(lines[sl].as_str());
    assert(lv[sl as int] == lines@[sl as int]@);
    if h0.len() == 0 {
        return Some(None);
    }
    let col = if sc < h0.len() - 1 {
        sc
    } else {
        h0.len() - 1
    };
    let open = h0[col];
    let close = match partner_exec(open) {
        Some(p) => p,
        None => {
            return Some(None);
        },
    };
    assert(grid(lv)[sl as int] == h0@);
    if open == '(' || open == '[' || open == '{' {
        scan_fwd(lines, sl, sc, col, h0, open, close)
    } else {
        scan_bwd(lines, sl, sc, col, h0, open, close)
    }
}

/// The bracket matching the one under `(start_line, start_col)`, vim
/// `%`-style: `()`, `[]` and `{}`, an opening bracket searching forward and
/// a closing one backward, inner pairs and empty lines skipped. The column
/// counts grapheme clusters and is kept inside the line.
pub fn find_matching_bracket(file_lines: &Vec<String>, start_line: usize, start_col: usize) -> (r: Option<(usize, usize)>)
    requires
        walk_completes(views(file_lines@), start_line as int, start_col as int),
    ensures
        bracket_found(views(file_lines@), start_line as int, start_col as int, r),
{
    match scan(file_lines, start_line, start_col) {
        Some(x) => x,
        None => None,
    }
}

/// `find_matching_bracket` where its search runs to its end; `Err(())`
/// where it would not (a depth past `i32::MAX`).
pub fn try_find_matching_bracket(file_lines: &Vec<String>, start_line: usize, start_col: usize) -> (r: Result<Option<(usize, usize)>, ()>)
    ensures
        r is Err <==> !walk_completes(views(file_lines@), start_line as int, start_col as int),
        r matches Ok(x) ==> bracket_found(views(file_lines@), start_line as int, start_col as int, x),
{
    match scan(file_lines, start_line, start_col) {
        None => Err(()),
        Some(_) => Ok(find_matching_bracket(file_lines, start_line, start_col)),
    }
}


// ---------------------------------------------------------------------------
// A found bracket leads back
// ---------------------------------------------------------------------------

proof fn lemma_balance_concat(a: Seq<(int, int, char)>, b: Seq<(int, int, char)>, p: char, m: char)
    ensures
        balance(a + b, p, m) == balance(a, p, m) + balance(b, p, m),
    decreases b.len(),
{
    if b.len() > 0 {
        lemma_balance_concat(a, b.drop_last(), p, m);
        assert((a + b).drop_last() =~= a + b.drop_last());
    }
}

proof fn lemma_balance_take(x: Seq<(int, int, char)>, j: int, p: char, m: char)
    requires
        0 <= j < x.len(),
    ensures
        balance(x.take(j + 1), p, m) == balance(x.take(j), p, m) + step(x[j], p, m),
        balance(x.take(0), p, m) == 0,
{
    assert(x.take(j + 1).drop_last() =~= x.take(j));
    assert(x.take(j + 1).last() == x[j]);
    assert(x.take(0) =~= Seq::<(int, int, char)>::empty());
}

proof fn lemma_balance_first(s: Seq<(int, int, char)>, p: char, m: char)
    requires
        s.len() > 0,
    ensures
        balance(s, p, m) == step(s[0], p, m) + balance(s.drop_first(), p, m),
{
    lemma_balance_concat(seq![s[0]], s.drop_first(), p, m);
    assert(seq![s[0]] + s.drop_first() =~= s);
    lemma_balance_take(seq![s[0]], 0, p, m);
    assert(seq![s[0]].take(1) =~= seq![s[0]]);
}

/// The balance does not depend on the order of the items.
proof fn lemma_balance_reversed(x: Seq<(int, int, char)>, y: Seq<(int, int, char)>, p: char, m: char)
    requires
        x.len() == y.len(),
        forall|k: int| 0 <= k < x.len() ==> x[k] == y[x.len() - 1 - k],
    ensures
        balance(x, p, m) == balance(y, p, m),
    decreases x.len(),
{
    if x.len() > 0 {
        let x1 = x.drop_last();
        let y1 = y.drop_first();
        assert forall|k: int| 0 <= k < x1.len() implies x1[k] == y1[x1.len() - 1 - k] by {
            assert(x[k] == y[x.len() - 1 - k]);
        }
        lemma_balance_reversed(x1, y1, p, m);
        lemma_balance_first(y, p, m);
        assert(x.last() == y[0]);
    }
}

/// Counting the other bracket up gives the opposite balance.
proof fn lemma_balance_swap(s: Seq<(int, int, char)>, p: char, m: char)
    requires
        p != m,
    ensures
        balance(s, m, p) == -balance(s, p, m),
    decreases s.len(),
{
    if s.len() > 0 {
        lemma_balance_swap(s.drop_last(), p, m);
    }
}

/// Before the first balance point of a walk that starts on `a`, the
/// balance stays positive.
proof fn lemma_balance_positive(x: Seq<(int, int, char)>, k: int, a: char, b: char, j: int)
    requires
        a != b,
        0 <= j < k < x.len(),
        x[0].2 == a,
        forall|i: int| 0 <= i < k ==> balance(#[trigger] x.take(i + 1), a, b) != 0,
    ensures
        balance(x.take(j + 1), a, b) >= 1,
    decreases j,
{
    lemma_balance_take(x, j, a, b);
    if j > 0 {
        lemma_balance_positive(x, k, a, b, j - 1);
        assert(balance(x.take(j + 1), a, b) != 0);
    }
}

/// The first balance point of a walk that starts on `a` is a `b`, past the
/// start.
proof fn lemma_first_match_end(x: Seq<(int, int, char)>, k: int, a: char, b: char)
    requires
        a != b,
        0 <= k < x.len(),
        x[0].2 == a,
        balance(x.take(k + 1), a, b) == 0,
        forall|i: int| 0 <= i < k ==> balance(#[trigger] x.take(i + 1), a, b) != 0,
    ensures
        k >= 1,
        x[k].2 == b,
{
    lemma_balance_take(x, 0, a, b);
    lemma_balance_take(x, k, a, b);
    if k == 0 {
        assert(balance(x.take(1), a, b) == 1);
    }
    lemma_balance_positive(x, k, a, b, k - 1);
}

/// A walk `x` from bracket `a` whose first balance point is item `k`, and
/// a walk `y` that goes over the same items the other way from item `k`:
/// `y` starts on `b`, and its first balance point is its item `k`, the
/// start of `x`.
proof fn lemma_reverse_first_match(x: Seq<(int, int, char)>, y: Seq<(int, int, char)>, k: int, a: char, b: char)
    requires
        a != b,
        0 <= k < x.len(),
        k < y.len(),
        forall|t: int| 0 <= t <= k ==> #[trigger] y[t] == x[k - t],
        x[0].2 == a,
        balance(x.take(k + 1), a, b) == 0,
        forall|i: int| 0 <= i < k ==> balance(#[trigger] x.take(i + 1), a, b) != 0,
    ensures
        k >= 1,
        x[k].2 == b,
        y[0].2 == b,
        y[k] == x[0],
        balance(y.take(k + 1), b, a) == 0,
        forall|i: int| 0 <= i < k ==> balance(#[trigger] y.take(i + 1), b, a) != 0,
{
    lemma_balance_take(x, 0, a, b);
    lemma_balance_take(x, k, a, b);
    if k == 0 {
        assert(balance(x.take(1), a, b) == 1);
    }
    lemma_balance_positive(x, k, a, b, k - 1);
    assert(y[0] == x[k]);
    assert(y[k] == x[0]);
    assert forall|t: int| 0 <= t <= k implies balance(#[trigger] y.take(t + 1), b, a) == balance(
        x.take(k - t),
        a,
        b,
    ) by {
        let seg = x.subrange(k - t, k + 1);
        assert forall|i: int| 0 <= i < t + 1 implies #[trigger] y.take(t + 1)[i] == seg[t + 1 - 1 - i] by {
            assert(y[i] == x[k - i]);
        }
        lemma_balance_reversed(y.take(t + 1), seg, b, a);
        lemma_balance_swap(seg, a, b);
        lemma_balance_concat(x.take(k - t), seg, a, b);
        assert(x.take(k - t) + seg =~= x.take(k + 1));
    }
    assert(balance(y.take(k + 1), b, a) == balance(x.take(0), a, b));
    assert forall|i: int| 0 <= i < k implies balance(#[trigger] y.take(i + 1), b, a) != 0 by {
        assert(balance(y.take(i + 1), b, a) == balance(x.take((k - i - 1) + 1), a, b));
    }
}

/// The number of items on the lines before line `l`.
pub open spec fn offset(g: Seq<Seq<char>>, l: int) -> int
    decreases l,
{
    if l <= 0 {
        0
    } else {
        offset(g, l - 1) + g[l - 1].len()
    }
}

proof fn lemma_offset_nonneg(g: Seq<Seq<char>>, l: int)
    ensures
        offset(g, l) >= 0,
    decreases l,
{
    if l > 0 {
        lemma_offset_nonneg(g, l - 1);
    }
}

proof fn lemma_rem_fwd_len(g: Seq<Seq<char>>, a: int)
    requires
        0 <= a <= g.len(),
    ensures
        rem_fwd(g, a).len() == offset(g, g.len() as int) - offset(g, a),
    decreases g.len() - a,
{
    if a < g.len() {
        lemma_rem_fwd_len(g, a + 1);
    }
}

/// The walk forward from line `a` is the reading order from item
/// `offset(g, a)` on.
proof fn lemma_rem_fwd(g: Seq<Seq<char>>, a: int)
    requires
        0 <= a <= g.len(),
    ensures
        rem_fwd(g, a).len() == offset(g, g.len() as int) - offset(g, a),
        forall|k: int| 0 <= k < rem_fwd(g, a).len() ==> #[trigger] rem_fwd(g, a)[k] == rem_fwd(g, 0)[offset(g, a) + k],
    decreases a,
{
    lemma_rem_fwd_len(g, a);
    if a > 0 {
        lemma_rem_fwd(g, a - 1);
        let n = g[a - 1].len() as int;
        assert forall|k: int| 0 <= k < rem_fwd(g, a).len() implies #[trigger] rem_fwd(g, a)[k] == rem_fwd(g, 0)[offset(g, a) + k] by {
            assert(rem_fwd(g, a - 1)[n + k] == rem_fwd(g, a)[k]);
        }
    }
}

/// Item `offset(g, l) + c` of the reading order is column `c` of line `l`.
proof fn lemma_pos(g: Seq<Seq<char>>, l: int, c: int)
    requires
        0 <= l < g.len(),
        0 <= c < g[l].len(),
    ensures
        offset(g, l) + c < offset(g, g.len() as int),
        rem_fwd(g, 0)[offset(g, l) + c] == (l, c, g[l][c]),
{
    lemma_rem_fwd(g, l);
    assert(rem_fwd(g, l)[c] == row_fwd(g, l, 0)[c]);
}

/// Every item of the reading order is some column of some line.
proof fn lemma_index_pos(g: Seq<Seq<char>>, i: int, a: int) -> (lc: (int, int))
    requires
        0 <= a <= g.len(),
        0 <= i < offset(g, a),
    ensures
        0 <= lc.0 < a,
        0 <= lc.1 < g[lc.0].len(),
        i == offset(g, lc.0) + lc.1,
    decreases a,
{
    if i < offset(g, a - 1) {
        lemma_index_pos(g, i, a - 1)
    } else {
        (a - 1, i - offset(g, a - 1))
    }
}

proof fn lemma_rem_bwd(g: Seq<Seq<char>>, b: int)
    requires
        0 <= b <= g.len(),
    ensures
        rem_bwd(g, b).len() == offset(g, b),
        forall|k: int| 0 <= k < rem_bwd(g, b).len() ==> #[trigger] rem_bwd(g, b)[k] == rem_fwd(g, 0)[offset(g, b) - 1 - k],
    decreases b,
{
    if b > 0 {
        lemma_rem_bwd(g, b - 1);
        let n = g[b - 1].len() as int;
        let row = row_bwd(g, b - 1, n - 1);
        assert forall|k: int| 0 <= k < rem_bwd(g, b).len() implies #[trigger] rem_bwd(g, b)[k] == rem_fwd(g, 0)[offset(g, b) - 1 - k] by {
            if k < n {
                lemma_pos(g, b - 1, n - 1 - k);
                assert(rem_bwd(g, b)[k] == row[k]);
            } else {
                assert(rem_bwd(g, b)[k] == rem_bwd(g, b - 1)[k - n]);
            }
        }
    }
}

/// The forward walk from column `c` of line `l` is the reading order from
/// that item on.
proof fn lemma_walk_fwd(g: Seq<Seq<char>>, l: int, c: int)
    requires
        0 <= l < g.len(),
        0 <= c < g[l].len(),
    ensures
        (row_fwd(g, l, c) + rem_fwd(g, l + 1)).len() == offset(g, g.len() as int) - offset(g, l) - c,
        forall|k: int| 0 <= k < (row_fwd(g, l, c) + rem_fwd(g, l + 1)).len() ==> #[trigger] (row_fwd(g, l, c) + rem_fwd(g, l + 1))[k]
            == rem_fwd(g, 0)[offset(g, l) + c + k],
{
    lemma_rem_fwd(g, l + 1);
    let w = row_fwd(g, l, c) + rem_fwd(g, l + 1);
    let n = g[l].len() as int;
    assert forall|k: int| 0 <= k < w.len() implies #[trigger] w[k] == rem_fwd(g, 0)[offset(g, l) + c + k] by {
        if k < n - c {
            lemma_pos(g, l, c + k);
        }
    }
}

/// The backward walk from column `c` of line `l` is the reading order up
/// to that item, the other way round.
proof fn lemma_walk_bwd(g: Seq<Seq<char>>, l: int, c: int)
    requires
        0 <= l < g.len(),
        0 <= c < g[l].len(),
    ensures
        (row_bwd(g, l, c) + rem_bwd(g, l)).len() == offset(g, l) + c + 1,
        forall|k: int| 0 <= k < (row_bwd(g, l, c) + rem_bwd(g, l)).len() ==> #[trigger] (row_bwd(g, l, c) + rem_bwd(g, l))[k]
            == rem_fwd(g, 0)[offset(g, l) + c - k],
{
    lemma_rem_bwd(g, l);
    let w = row_bwd(g, l, c) + rem_bwd(g, l);
    assert forall|k: int| 0 <= k < w.len() implies #[trigger] w[k] == rem_fwd(g, 0)[offset(g, l) + c - k] by {
        if k <= c {
            lemma_pos(g, l, c - k);
        }
    }
}

/// The matching bracket leads back: when the search from a bracket at
/// `(l1, c1)` finds `(l2, c2)`, that is another place, its bracket is the
/// partner of the first (an opening and a closing one of one kind), and the
/// search from it finds `(l1, c1)`.
pub proof fn law_bracket_match_leads_back(lines: Seq<Seq<char>>, l1: usize, c1: usize, l2: usize, c2: usize)
    requires
        l1 < lines.len(),
        c1 < heads(lines[l1 as int]).len(),
        bracket_found(lines, l1 as int, c1 as int, Some((l2, c2))),
    ensures
        (l2, c2) != (l1, c1),
        l2 < lines.len(),
        c2 < heads(lines[l2 as int]).len(),
        start_char(lines, l2 as int, c2 as int) == partner(start_char(lines, l1 as int, c1 as int)),
        is_opening(start_char(lines, l1 as int, c1 as int)) <==> is_closing(start_char(lines, l2 as int, c2 as int)),
        bracket_found(lines, l2 as int, c2 as int, Some((l1, c1))),
{
    let g = grid(lines);
    let a = start_char(lines, l1 as int, c1 as int);
    let b = partner(a);
    let w = walk(lines, l1 as int, c1 as int);
    assert(exists|k: int|
        #![trigger w[k]]
        matches_at(lines, l1 as int, c1 as int, k) && w[k].0 == l2 && w[k].1 == c2);
    let k = choose|k: int|
        #![trigger w[k]]
        matches_at(lines, l1 as int, c1 as int, k) && w[k].0 == l2 && w[k].1 == c2;
    assert(0 <= k < w.len());
    assert(g.len() == lines.len());
    assert(forall|l: int| 0 <= l < lines.len() ==> #[trigger] g[l] == heads(lines[l]));
    assert(start_col(lines, l1 as int, c1 as int) == c1);
    let p = offset(g, l1 as int) + c1;
    let total = offset(g, g.len() as int);
    lemma_pos(g, l1 as int, c1 as int);
    lemma_rem_fwd_len(g, 0);
    lemma_offset_nonneg(g, l1 as int);
    lemma_offset_nonneg(g, l2 as int);
    assert(offset(g, 0) == 0);
    if is_opening(a) {
        lemma_walk_fwd(g, l1 as int, c1 as int);
        assert(w == row_fwd(g, l1 as int, c1 as int) + rem_fwd(g, l1 + 1));
        assert(w.len() == total - p);
        assert(p + k < total);
    } else {
        lemma_walk_bwd(g, l1 as int, c1 as int);
        assert(w == row_bwd(g, l1 as int, c1 as int) + rem_bwd(g, l1 as int));
        assert(w.len() == p + 1);
        assert(0 <= p - k);
        assert(p < total);
    }
    let i: int = if is_opening(a) {
        p + k
    } else {
        p - k
    };
    assert(w[k] == rem_fwd(g, 0)[i]);
    assert(0 <= i < total);
    let lc = lemma_index_pos(g, i, g.len() as int);
    lemma_pos(g, lc.0, lc.1);
    assert(lc.0 == l2 && lc.1 == c2);
    assert(start_col(lines, l2 as int, c2 as int) == c2);
    let v = walk(lines, l2 as int, c2 as int);
    assert(w[0] == rem_fwd(g, 0)[p]);
    assert forall|j: int| 0 <= j < k implies balance(#[trigger] w.take(j + 1), a, b) != 0 by {
        assert(!closes_at(lines, l1 as int, c1 as int, j));
    }
    lemma_first_match_end(w, k, a, b);
    assert(start_char(lines, l2 as int, c2 as int) == b);
    if is_opening(a) {
        lemma_walk_bwd(g, l2 as int, c2 as int);
        assert(v == row_bwd(g, l2 as int, c2 as int) + rem_bwd(g, l2 as int));
        assert forall|t: int| 0 <= t <= k implies #[trigger] v[t] == w[k - t] by {
            assert(v[t] == rem_fwd(g, 0)[i - t]);
            assert(w[k - t] == rem_fwd(g, 0)[p + (k - t)]);
        }
        lemma_reverse_first_match(w, v, k, a, b);
    } else {
        lemma_walk_fwd(g, l2 as int, c2 as int);
        assert(v == row_fwd(g, l2 as int, c2 as int) + rem_fwd(g, l2 + 1));
        assert forall|t: int| 0 <= t <= k implies #[trigger] v[t] == w[k - t] by {
            assert(v[t] == rem_fwd(g, 0)[i + t]);
            assert(w[k - t] == rem_fwd(g, 0)[p - (k - t)]);
        }
        lemma_reverse_first_match(w, v, k, a, b);
    }
    assert(partner(b) == a);
    assert(matches_at(lines, l2 as int, c2 as int, k));
    assert(v[k].0 == l1 && v[k].1 == c1);
}

/// A walk that starts on `p`, meets neither `p` nor `q` after it, and meets
/// `q` at item `m`: its balance is 1 up to before `m` and 0 at `m`.
proof fn lemma_simple_pair_balance(x: Seq<(int, int, char)>, m: int, p: char, q: char, k: int)
    requires
        p != q,
        0 < m < x.len(),
        x[0].2 == p,
        forall|j: int| 0 < j < m ==> (#[trigger] x[j]).2 != p && x[j].2 != q,
        x[m].2 == q,
        0 <= k <= m,
    ensures
        balance(x.take(k + 1), p, q) == if k < m {
            1int
        } else {
            0int
        },
    decreases k,
{
    lemma_balance_take(x, k, p, q);
    if k > 0 {
        lemma_simple_pair_balance(x, m, p, q, k - 1);
    }
}

/// Where item `m` of the walk from a bracket is the first balance point,
/// the search finds exactly that item's place, and it runs to its end.
proof fn lemma_found_at(lines: Seq<Seq<char>>, sl: int, sc: int, m: int)
    requires
        on_bracket(lines, sl, sc),
        0 <= m < walk(lines, sl, sc).len(),
        closes_at(lines, sl, sc, m),
        forall|j: int| 0 <= j < m ==> !closes_at(lines, sl, sc, j),
        forall|j: int|
            0 <= j < m ==> balance(
                #[trigger] walk(lines, sl, sc).take(j + 1),
                start_char(lines, sl, sc),
                partner(start_char(lines, sl, sc)),
            ) <= 1,
    ensures
        walk_completes(lines, sl, sc),
        forall|r: Option<(usize, usize)>|
            #[trigger] bracket_found(lines, sl, sc, r) ==> (r matches Some((l, c)) && l == walk(lines, sl, sc)[m].0
                && c == walk(lines, sl, sc)[m].1),
{
    let w = walk(lines, sl, sc);
    let a = start_char(lines, sl, sc);
    assert forall|k: int|
        #![trigger w.take(k + 1)]
        0 <= k < w.len() && (forall|j: int| 0 <= j < k ==> !closes_at(lines, sl, sc, j)) implies balance(
        w.take(k + 1),
        a,
        partner(a),
    ) <= i32::MAX by {
        if k > m {
            assert(!closes_at(lines, sl, sc, m));
        } else if k == m {
        } else {
        }
    }
    assert forall|r: Option<(usize, usize)>| #[trigger] bracket_found(lines, sl, sc, r) implies (r matches Some((l, c))
        && l == w[m].0 && c == w[m].1) by {
        match r {
            Some((l, c)) => {
                let k = choose|k: int|
                    #![trigger w[k]]
                    matches_at(lines, sl, sc, k) && w[k].0 == l && w[k].1 == c;
                if k < m {
                    assert(!closes_at(lines, sl, sc, k));
                } else if k > m {
                    assert(!closes_at(lines, sl, sc, m));
                }
            },
            None => {
                assert(!closes_at(lines, sl, sc, m));
            },
        }
    }
}

/// On a line where column `a` holds an opening bracket and column `b`
/// after it its closing partner, with neither of the two between them,
/// the search from `a` finds `b` and the search from `b` finds `a`; both
/// searches run to their end. This holds for `()`, `[]` and `{}` alike.
pub proof fn law_bracket_pair_found(lines: Seq<Seq<char>>, sl: usize, a: usize, b: usize, o: char, c: char)
    requires
        sl < lines.len(),
        (o == '(' && c == ')') || (o == '[' && c == ']') || (o == '{' && c == '}'),
        a < b < heads(lines[sl as int]).len(),
        heads(lines[sl as int])[a as int] == o,
        heads(lines[sl as int])[b as int] == c,
        forall|j: int| a < j < b ==> #[trigger] heads(lines[sl as int])[j] != o && heads(lines[sl as int])[j] != c,
    ensures
        walk_completes(lines, sl as int, a as int),
        walk_completes(lines, sl as int, b as int),
        forall|r: Option<(usize, usize)>| #[trigger] bracket_found(lines, sl as int, a as int, r) ==> r == Some((sl, b)),
        forall|r: Option<(usize, usize)>| #[trigger] bracket_found(lines, sl as int, b as int, r) ==> r == Some((sl, a)),
{
    let g = grid(lines);
    let hs = heads(lines[sl as int]);
    assert(g[sl as int] == hs);
    let m = (b - a) as int;
    lemma_offset_nonneg(g, sl as int);
    // From `a`: forward.
    assert(start_col(lines, sl as int, a as int) == a);
    assert(start_char(lines, sl as int, a as int) == o);
    let w = walk(lines, sl as int, a as int);
    lemma_walk_fwd(g, sl as int, a as int);
    assert(w == row_fwd(g, sl as int, a as int) + rem_fwd(g, sl + 1));
    assert forall|k: int| 0 <= k <= m implies #[trigger] w[k] == (sl as int, a + k, hs[a + k]) by {
        lemma_pos(g, sl as int, a + k);
    }
    assert forall|j: int| 0 < j < m implies (#[trigger] w[j]).2 != o && w[j].2 != c by {
        assert(w[j] == (sl as int, a + j, hs[a + j]));
    }
    assert(w[0] == (sl as int, a as int, hs[a as int]));
    assert(w[m] == (sl as int, b as int, hs[b as int]));
    assert forall|k: int| 0 <= k <= m implies balance(#[trigger] w.take(k + 1), o, c) == if k < m {
        1int
    } else {
        0int
    } by {
        lemma_simple_pair_balance(w, m, o, c, k);
    }
    assert(partner(o) == c);
    lemma_found_at(lines, sl as int, a as int, m);
    // From `b`: backward.
    assert(start_col(lines, sl as int, b as int) == b);
    assert(start_char(lines, sl as int, b as int) == c);
    let v = walk(lines, sl as int, b as int);
    lemma_walk_bwd(g, sl as int, b as int);
    assert(v == row_bwd(g, sl as int, b as int) + rem_bwd(g, sl as int));
    assert forall|k: int| 0 <= k <= m implies #[trigger] v[k] == (sl as int, b - k, hs[b - k]) by {
        lemma_pos(g, sl as int, b - k);
    }
    assert forall|j: int| 0 < j < m implies (#[trigger] v[j]).2 != c && v[j].2 != o by {
        assert(v[j] == (sl as int, b - j, hs[b - j]));
    }
    assert(v[0] == (sl as int, b as int, hs[b as int]));
    assert(v[m] == (sl as int, a as int, hs[a as int]));
    assert forall|k: int| 0 <= k <= m implies balance(#[trigger] v.take(k + 1), c, o) == if k < m {
        1int
    } else {
        0int
    } by {
        lemma_simple_pair_balance(v, m, c, o, k);
    }
    assert(partner(c) == o);
    lemma_found_at(lines, sl as int, b as int, m);
}

} // verus!
