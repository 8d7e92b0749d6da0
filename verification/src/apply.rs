//! Applying SEARCH/REPLACE blocks to the text of a file: an exact match is
//! replaced in place; otherwise a unique whitespace-insensitive line match is
//! replaced with the indentation of the file kept.

use vstd::prelude::*;
use crate::fmt::{decimal, decimal_chars};
use crate::text::{
    chars_of, clone_chars, copy_range, ends_with, ends_with_exec, extend_from, find, find_exec, join_lines,
    join_with_newlines, lines, lviews, split_lines, trim, trimmed, chars_eq, string_of,
    lemma_find_from_spec, occurs_at,
};

verus! {

broadcast use vstd::string::group_string_axioms;

// ---------------------------------------------------------------------------
// Edit distance
// ---------------------------------------------------------------------------

pub open spec fn min2(x: int, y: int) -> int {
    if x <= y {
        x
    } else {
        y
    }
}

/// The Levenshtein distance between `a` and `b`: the fewest single-character
/// insertions, deletions and substitutions that turn one into the other.
pub open spec fn lev(a: Seq<char>, b: Seq<char>) -> nat
    decreases a.len() + b.len(),
{
    if a.len() == 0 {
        b.len()
    } else if b.len() == 0 {
        a.len()
    } else {
        let cost: int = if a.last() == b.last() {
            0
        } else {
            1
        };
        min2(
            min2(lev(a.drop_last(), b) as int + 1, lev(a, b.drop_last()) as int + 1),
            lev(a.drop_last(), b.drop_last()) as int + cost,
        ) as nat
    }
}

pub proof fn lemma_lev_bound(a: Seq<char>, b: Seq<char>)
    ensures
        lev(a, b) <= if a.len() >= b.len() {
            a.len()
        } else {
            b.len()
        },
    decreases a.len() + b.len(),
{
    if a.len() > 0 && b.len() > 0 {
        lemma_lev_bound(a.drop_last(), b.drop_last());
    }
}

/// The Levenshtein distance between `a` and `b`.
pub fn levenshtein_distance(a: &[char], b: &[char]) -> (d: usize)
    ensures
        d == lev(a@, b@),
{
    let n = b.len();
    // prev[j] == lev(a[..i], b[..j]) once row i is built
    let mut prev: Vec<usize> = Vec::new();
    let mut j: usize = 0;
    while j < n
        invariant
            j <= n,
            n == b.len(),
            prev@.len() == j,
            forall|k: int| 0 <= k < j ==> prev@[k] == lev(a@.take(0), b@.take(k)),
        decreases n - j,
    {
        proof {
            assert(a@.take(0).len() == 0);
        }
        prev.push(j);
        j += 1;
    }
    proof {
        assert(a@.take(0).len() == 0);
    }
    prev.push(n);
    assert(prev@.len() == n + 1);
    let mut i: usize = 0;
    while i < a.len()
        invariant
            i <= a.len(),
            n == b.len(),
            n + 1 == prev.len(),
            prev@.len() == n + 1,
            forall|k: int| 0 <= k <= n ==> prev@[k] == lev(a@.take(i as int), b@.take(k)),
        decreases a.len() - i,
    {
        let mut cur: Vec<usize> = Vec::new();
        proof {
            assert(b@.take(0).len() == 0);
        }
        cur.push(i + 1);
        let mut j: usize = 1;
        while j <= n
            invariant
                i < a.len(),
                1 <= j <= n + 1,
                n == b.len(),
                n + 1 == prev.len(),
                prev@.len() == n + 1,
                cur@.len() == j,
                forall|k: int| 0 <= k <= n ==> prev@[k] == lev(a@.take(i as int), b@.take(k)),
                forall|k: int| 0 <= k < j ==> cur@[k] == lev(a@.take(i + 1), b@.take(k)),
            decreases n + 1 - j,
        {
            let ghost ai = a@.take(i + 1);
            let ghost bj = b@.take(j as int);
            proof {
                assert(ai.drop_last() =~= a@.take(i as int));
                assert(bj.drop_last() =~= b@.take(j - 1));
                assert(ai.last() == a@[i as int]);
                assert(bj.last() == b@[j - 1]);
                lemma_lev_bound(a@.take(i as int), b@.take(j - 1));
            }
            let cost: usize = if a[i] == b[j - 1] {
                0
            } else {
                1
            };
            let up = prev[j];
            let left = cur[j - 1];
            let diag = prev[j - 1];
            let m = if up <= left {
                up
            } else {
                left
            };
            let d2 = diag + cost;
            let v = if m < d2 {
                m + 1
            } else {
                d2
            };
            cur.push(v);
            j += 1;
        }
        prev = cur;
        i += 1;
    }
    assert(a@.take(a.len() as int) =~= a@);
    assert(b@.take(n as int) =~= b@);
    prev[n]
}


// ---------------------------------------------------------------------------
// Specification of block application
// ---------------------------------------------------------------------------

/// The number of spaces and tabs that `s` starts with.
pub open spec fn leading_indent(s: Seq<char>) -> nat
    decreases s.len(),
{
    if s.len() > 0 && (s[0] == ' ' || s[0] == '\t') {
        1 + leading_indent(s.drop_first())
    } else {
        0
    }
}

/// The search lines equal the file lines from `i` on, up to surrounding
/// whitespace.
pub open spec fn lines_match_at(fl: Seq<Seq<char>>, sl: Seq<Seq<char>>, i: int) -> bool {
    forall|j: int| 0 <= j < sl.len() ==> #[trigger] trim(fl[i + j]) == trim(sl[j])
}

/// The match positions below `n`, in increasing order.
pub open spec fn positions_upto(fl: Seq<Seq<char>>, sl: Seq<Seq<char>>, n: int) -> Seq<int>
    decreases n,
{
    if n <= 0 {
        Seq::empty()
    } else if lines_match_at(fl, sl, n - 1) {
        positions_upto(fl, sl, n - 1).push(n - 1)
    } else {
        positions_upto(fl, sl, n - 1)
    }
}

/// Every position where the search lines match the file lines.
pub open spec fn match_positions(fl: Seq<Seq<char>>, sl: Seq<Seq<char>>) -> Seq<int> {
    positions_upto(fl, sl, fl.len() - sl.len() + 1)
}

/// The first of the lines below `n` whose trimmed text is nearest to
/// `target` by edit distance, with that distance.
pub open spec fn closest_upto(fl: Seq<Seq<char>>, target: Seq<char>, n: int) -> (int, nat)
    decreases n,
{
    if n <= 1 {
        (0, lev(trim(fl[0]), target))
    } else {
        let (bi, bd) = closest_upto(fl, target, n - 1);
        let d = lev(trim(fl[n - 1]), target);
        if d < bd {
            (n - 1, d)
        } else {
            (bi, bd)
        }
    }
}

/// The index of the first file line nearest to `target`.
pub open spec fn closest_line(fl: Seq<Seq<char>>, target: Seq<char>) -> int {
    closest_upto(fl, target, fl.len() as int).0
}

pub open spec fn indent_line(l: Seq<char>, prefix: Seq<char>) -> Seq<char> {
    if trim(l).len() > 0 {
        prefix + l
    } else {
        l
    }
}

/// Each non-blank line with `prefix` in front.
pub open spec fn reindent(ls: Seq<Seq<char>>, prefix: Seq<char>) -> Seq<Seq<char>> {
    Seq::new(ls.len(), |k: int| indent_line(ls[k], prefix))
}

/// The indentation that the matched file lines have beyond the search lines.
pub open spec fn extra_indent(fl: Seq<Seq<char>>, sl: Seq<Seq<char>>, start: int) -> Seq<char> {
    let actual = leading_indent(fl[start]);
    let wanted = leading_indent(sl[0]);
    if actual > wanted {
        fl[start].take(actual - wanted)
    } else {
        Seq::empty()
    }
}

/// The file text with the lines matched at `start` replaced by the replace
/// lines, indented like the file; a final newline of the original text is
/// kept.
pub open spec fn line_replace(
    orig: Seq<char>,
    fl: Seq<Seq<char>>,
    sl: Seq<Seq<char>>,
    start: int,
    replace: Seq<char>,
) -> Seq<char> {
    let prefix = extra_indent(fl, sl, start);
    let result = fl.take(start) + reindent(lines(replace), prefix) + fl.skip(start + sl.len());
    let joined = join_lines(result);
    if ends_with(orig, seq!['\n']) && !ends_with(joined, seq!['\n']) {
        joined.push('\n')
    } else {
        joined
    }
}

/// Why a patch could not be applied.
pub enum ApplyFailure {
    MissingSeparator,
    MissingTerminator,
    EmptySearch,
    SearchTooLarge,
    NotFound { search: Seq<char>, line: int, closest: Seq<char> },
    Ambiguous { count: int },
    NoBlocks,
}

/// One block applied to the current text `cur` (`orig` is the text before
/// any block was applied).
pub open spec fn apply_block(orig: Seq<char>, cur: Seq<char>, search: Seq<char>, replace: Seq<char>) -> Result<Seq<char>, ApplyFailure> {
    if search.len() == 0 {
        Err(ApplyFailure::EmptySearch)
    } else {
        match find(cur, search) {
            Some(idx) => Ok(cur.take(idx) + replace + cur.skip(idx + search.len())),
            None => {
                let fl = lines(cur);
                let sl = lines(search);
                if sl.len() == 0 || sl.len() > fl.len() {
                    Err(ApplyFailure::SearchTooLarge)
                } else {
                    let ms = match_positions(fl, sl);
                    if ms.len() == 1 {
                        Ok(line_replace(orig, fl, sl, ms[0], replace))
                    } else if ms.len() == 0 {
                        let c = closest_line(fl, trim(sl[0]));
                        Err(ApplyFailure::NotFound { search, line: c, closest: fl[c] })
                    } else {
                        Err(ApplyFailure::Ambiguous { count: ms.len() as int })
                    }
                }
            },
        }
    }
}

/// A block whose SEARCH text occurs exactly in the current text replaces
/// its first occurrence only: the result is the text before that
/// occurrence, the REPLACE text, then the rest of the text as it was, even
/// where the rest holds the SEARCH text again.
pub proof fn law_exact_block_replaces_first_occurrence(
    orig: Seq<char>,
    cur: Seq<char>,
    search: Seq<char>,
    replace: Seq<char>,
    idx: int,
)
    requires
        search.len() > 0,
        0 <= idx,
        idx + search.len() <= cur.len(),
        cur.subrange(idx, idx + search.len()) == search,
        forall|j: int| 0 <= j < idx ==> #[trigger] cur.subrange(j, j + search.len()) != search,
    ensures
        apply_block(orig, cur, search, replace) == Ok::<Seq<char>, ApplyFailure>(
            cur.subrange(0, idx) + replace + cur.subrange(idx + search.len(), cur.len() as int),
        ),
{
    crate::text::lemma_find_from_spec(cur, search, 0);
    assert(crate::text::occurs_at(cur, search, idx));
    match find(cur, search) {
        Some(i) => {
            if i < idx {
                assert(crate::text::occurs_at(cur, search, i));
                assert(cur.subrange(i, i + search.len()) == search);
                assert(false);
            }
            assert(i == idx);
            assert(cur.take(idx) =~= cur.subrange(0, idx));
            assert(cur.skip(idx + search.len()) =~= cur.subrange(idx + search.len(), cur.len() as int));
        },
        None => {
            assert(false);
        },
    }
}

/// The first line at or after `i` whose trimmed text is `m`.
pub open spec fn find_trimmed(ls: Seq<Seq<char>>, m: Seq<char>, i: int) -> Option<int>
    decreases ls.len() - i,
{
    if i < 0 || i >= ls.len() {
        None
    } else if trim(ls[i]) == m {
        Some(i)
    } else {
        find_trimmed(ls, m, i + 1)
    }
}

pub proof fn lemma_find_trimmed(ls: Seq<Seq<char>>, m: Seq<char>, i: int)
    ensures
        find_trimmed(ls, m, i) matches Some(k) ==> i <= k < ls.len() && trim(ls[k]) == m,
    decreases ls.len() - i,
{
    if 0 <= i < ls.len() && trim(ls[i]) != m {
        lemma_find_trimmed(ls, m, i + 1);
    }
}

/// The blocks from patch line `i` on applied to `cur`, `count` blocks having
/// been applied before.
pub open spec fn apply_from(
    ls: Seq<Seq<char>>,
    i: int,
    orig: Seq<char>,
    cur: Seq<char>,
    count: nat,
) -> Result<(Seq<char>, nat), ApplyFailure>
    decreases ls.len() - i,
{
    if i < 0 || i >= ls.len() {
        if count == 0 {
            Err(ApplyFailure::NoBlocks)
        } else {
            Ok((cur, count))
        }
    } else if trim(ls[i]) != "<<<<<<< SEARCH"@ {
        apply_from(ls, i + 1, orig, cur, count)
    } else {
        match find_trimmed(ls, "======="@, i + 1) {
            None => Err(ApplyFailure::MissingSeparator),
            Some(sep) => match find_trimmed(ls, ">>>>>>> REPLACE"@, sep + 1) {
                None => Err(ApplyFailure::MissingTerminator),
                Some(end) => {
                    proof {
                        lemma_find_trimmed(ls, "======="@, i + 1);
                        lemma_find_trimmed(ls, ">>>>>>> REPLACE"@, sep + 1);
                    }
                    let search = join_lines(ls.subrange(i + 1, sep));
                    let replace = join_lines(ls.subrange(sep + 1, end));
                    match apply_block(orig, cur, search, replace) {
                        Err(e) => Err(e),
                        Ok(next) => apply_from(ls, end + 1, orig, next, count + 1),
                    }
                },
            },
        }
    }
}

/// Every SEARCH/REPLACE block of `patch` applied in turn to `content`: the
/// new text and the number of blocks, or the first failure.
pub open spec fn apply_blocks(content: Seq<char>, patch: Seq<char>) -> Result<(Seq<char>, nat), ApplyFailure> {
    apply_from(lines(patch), 0, content, content, 0)
}

proof fn lemma_find_trimmed_at(ls: Seq<Seq<char>>, m: Seq<char>, i: int, k: int)
    requires
        0 <= i <= k < ls.len(),
        trim(ls[k]) == m,
        forall|j: int| i <= j < k ==> trim(#[trigger] ls[j]) != m,
    ensures
        find_trimmed(ls, m, i) == Some(k),
    decreases k - i,
{
    if i < k {
        lemma_find_trimmed_at(ls, m, i + 1, k);
    }
}

/// A patch of one SEARCH/REPLACE block whose SEARCH text occurs exactly in
/// the file replaces the first occurrence only: the file's text before it,
/// then the REPLACE text, then the rest of the file unchanged, one block
/// applied.
pub proof fn law_single_block_patch(
    content: Seq<char>,
    patch: Seq<char>,
    sl: Seq<Seq<char>>,
    rl: Seq<Seq<char>>,
    idx: int,
)
    requires
        ({
            let ls = lines(patch);
            &&& ls.len() == sl.len() + rl.len() + 3
            &&& trim(ls[0]) == "<<<<<<< SEARCH"@
            &&& forall|k: int| 0 <= k < sl.len() ==> ls[1 + k] == #[trigger] sl[k] && trim(sl[k]) != "======="@
            &&& trim(ls[1 + sl.len() as int]) == "======="@
            &&& forall|k: int|
                0 <= k < rl.len() ==> ls[2 + sl.len() + k] == #[trigger] rl[k] && trim(rl[k]) != ">>>>>>> REPLACE"@
            &&& trim(ls[ls.len() - 1]) == ">>>>>>> REPLACE"@
        }),
        join_lines(sl).len() > 0,
        0 <= idx,
        idx + join_lines(sl).len() <= content.len(),
        content.subrange(idx, idx + join_lines(sl).len()) == join_lines(sl),
        forall|j: int| 0 <= j < idx ==> #[trigger] content.subrange(j, j + join_lines(sl).len()) != join_lines(sl),
    ensures
        apply_blocks(content, patch) == Ok::<(Seq<char>, nat), ApplyFailure>(
            (
                content.subrange(0, idx) + join_lines(rl) + content.subrange(
                    idx + join_lines(sl).len(),
                    content.len() as int,
                ),
                1,
            ),
        ),
{
    let ls = lines(patch);
    let sep: int = 1 + sl.len() as int;
    let end: int = ls.len() - 1;
    assert forall|j: int| 1 <= j < sep implies trim(#[trigger] ls[j]) != "======="@ by {
        assert(ls[1 + (j - 1)] == sl[j - 1]);
    }
    lemma_find_trimmed_at(ls, "======="@, 1, sep);
    assert forall|j: int| sep + 1 <= j < end implies trim(#[trigger] ls[j]) != ">>>>>>> REPLACE"@ by {
        assert(ls[2 + sl.len() + (j - sep - 1)] == rl[j - sep - 1]);
    }
    lemma_find_trimmed_at(ls, ">>>>>>> REPLACE"@, sep + 1, end);
    assert(ls.subrange(1, sep) =~= sl);
    assert(ls.subrange(sep + 1, end) =~= rl);
    law_exact_block_replaces_first_occurrence(content, content, join_lines(sl), join_lines(rl), idx);
    let next = content.subrange(0, idx) + join_lines(rl) + content.subrange(
        idx + join_lines(sl).len(),
        content.len() as int,
    );
    assert(apply_block(content, content, join_lines(ls.subrange(1, sep)), join_lines(ls.subrange(sep + 1, end)))
        == Ok::<Seq<char>, ApplyFailure>(next));
    assert(apply_from(ls, end + 1, content, next, 1) == Ok::<(Seq<char>, nat), ApplyFailure>((next, 1nat)));
    assert(apply_from(ls, 0, content, content, 0) == apply_from(ls, end + 1, content, next, 1));
}


// ---------------------------------------------------------------------------
// Executable block application
// ---------------------------------------------------------------------------

/// Why a patch could not be applied.
#[derive(Debug)]
pub enum PatchError {
    MissingSeparator,
    MissingTerminator,
    EmptySearch,
    SearchTooLarge,
    NotFound { search: String, line: usize, closest: String },
    Ambiguous { count: usize },
    NoBlocks,
}

impl View for PatchError {
    type V = ApplyFailure;

    open spec fn view(&self) -> ApplyFailure {
        match self {
            PatchError::MissingSeparator => ApplyFailure::MissingSeparator,
            PatchError::MissingTerminator => ApplyFailure::MissingTerminator,
            PatchError::EmptySearch => ApplyFailure::EmptySearch,
            PatchError::SearchTooLarge => ApplyFailure::SearchTooLarge,
            PatchError::NotFound { search, line, closest } => ApplyFailure::NotFound {
                search: search@,
                line: *line as int,
                closest: closest@,
            },
            PatchError::Ambiguous { count } => ApplyFailure::Ambiguous { count: *count as int },
            PatchError::NoBlocks => ApplyFailure::NoBlocks,
        }
    }
}

fn leading_indent_exec(s: &[char]) -> (r: usize)
    ensures
        r == leading_indent(s@),
        r <= s.len(),
{
    let mut a: usize = 0;
    assert(s@.skip(0) =~= s@);
    while a < s.len() && (s[a] == ' ' || s[a] == '\t')
        invariant
            a <= s.len(),
            leading_indent(s@) == a + leading_indent(s@.skip(a as int)),
        decreases s.len() - a,
    {
        assert(s@.skip(a as int).drop_first() =~= s@.skip(a + 1));
        a += 1;
    }
    a
}

fn lines_match_at_exec(fl: &Vec<Vec<char>>, sl: &Vec<Vec<char>>, i: usize) -> (r: bool)
    requires
        i + sl.len() <= fl.len(),
    ensures
        r == lines_match_at(lviews(fl@), lviews(sl@), i as int),
{
    let ghost flv = lviews(fl@);
    let ghost slv = lviews(sl@);
    let mut j: usize = 0;
    while j < sl.len()
        invariant
            j <= sl.len(),
            i + sl.len() <= fl.len(),
            flv == lviews(fl@),
            slv == lviews(sl@),
            forall|k: int| 0 <= k < j ==> #[trigger] trim(flv[i + k]) == trim(slv[k]),
        decreases sl.len() - j,
    {
        let a = trimmed(fl[i + j].as_slice());
        let b = trimmed(sl[j].as_slice());
        if !chars_eq(a.as_slice(), b.as_slice()) {
            assert(trim(flv[i + j]) != trim(slv[j as int]));
            return false;
        }
        j += 1;
    }
    true
}

pub open spec fn ints(v: Seq<usize>) -> Seq<int> {
    Seq::new(v.len(), |k: int| v[k] as int)
}

fn match_positions_exec(fl: &Vec<Vec<char>>, sl: &Vec<Vec<char>>) -> (r: Vec<usize>)
    requires
        0 < sl.len() <= fl.len(),
    ensures
        ints(r@) == match_positions(lviews(fl@), lviews(sl@)),
        forall|k: int| 0 <= k < r@.len() ==> r@[k] + sl.len() <= fl.len(),
{
    let ghost flv = lviews(fl@);
    let ghost slv = lviews(sl@);
    let last = fl.len() - sl.len();
    let mut r: Vec<usize> = Vec::new();
    let mut i: usize = 0;
    while i < last + 1
        invariant
            i <= last + 1,
            last == fl.len() - sl.len(),
            0 < sl.len() <= fl.len(),
            flv == lviews(fl@),
            slv == lviews(sl@),
            ints(r@) == positions_upto(flv, slv, i as int),
            forall|k: int| 0 <= k < r@.len() ==> r@[k] + sl.len() <= fl.len(),
        decreases last + 1 - i,
    {
        if lines_match_at_exec(fl, sl, i) {
            let ghost before = r@;
            r.push(i);
            assert(ints(r@) =~= ints(before).push(i as int));
        }
        i += 1;
    }
    r
}

fn closest_line_exec(fl: &Vec<Vec<char>>, target: &[char]) -> (r: usize)
    requires
        fl.len() > 0,
    ensures
        r as int == closest_line(lviews(fl@), target@),
        r < fl.len(),
{
    let ghost flv = lviews(fl@);
    let t0 = trimmed(fl[0].as_slice());
    let mut best: usize = 0;
    let mut best_d = levenshtein_distance(t0.as_slice(), target);
    let mut k: usize = 1;
    while k < fl.len()
        invariant
            1 <= k <= fl.len(),
            flv == lviews(fl@),
            best < fl.len(),
            closest_upto(flv, target@, k as int) == (best as int, best_d as nat),
        decreases fl.len() - k,
    {
        let t = trimmed(fl[k].as_slice());
        let d = levenshtein_distance(t.as_slice(), target);
        if d < best_d {
            best = k;
            best_d = d;
        }
        k += 1;
    }
    best
}

fn indent_line_exec(l: &Vec<char>, prefix: &Vec<char>) -> (r: Vec<char>)
    ensures
        r@ == indent_line(l@, prefix@),
{
    let t = trimmed(l.as_slice());
    if t.len() > 0 {
        let mut r = copy_range(prefix.as_slice(), 0, prefix.len());
        assert(r@ =~= prefix@);
        extend_from(&mut r, l.as_slice());
        r
    } else {
        let r = copy_range(l.as_slice(), 0, l.len());
        assert(r@ =~= l@);
        r
    }
}

fn line_replace_exec(
    orig: &Vec<char>,
    fl: &Vec<Vec<char>>,
    sl: &Vec<Vec<char>>,
    start: usize,
    replace: &Vec<char>,
) -> (r: Vec<char>)
    requires
        sl.len() > 0,
        start + sl.len() <= fl.len(),
    ensures
        r@ == line_replace(orig@, lviews(fl@), lviews(sl@), start as int, replace@),
{
    let ghost flv = lviews(fl@);
    let ghost slv = lviews(sl@);
    let actual = leading_indent_exec(fl[start].as_slice());
    let wanted = leading_indent_exec(sl[0].as_slice());
    let prefix = if actual > wanted {
        copy_range(fl[start].as_slice(), 0, actual - wanted)
    } else {
        Vec::new()
    };
    assert(prefix@ == extra_indent(flv, slv, start as int)) by {
        if actual > wanted {
            assert(fl[start as int]@.subrange(0, actual - wanted) =~= fl[start as int]@.take(
                actual - wanted,
            ));
        } else {
            assert(prefix@ =~= Seq::<char>::empty());
        }
    }
    let rl = split_lines(replace.as_slice());
    let ghost rlv = lviews(rl@);
    let mut result: Vec<Vec<char>> = Vec::new();
    let mut k: usize = 0;
    while k < start
        invariant
            k <= start,
            start + sl.len() <= fl.len(),
            flv == lviews(fl@),
            lviews(result@) == flv.take(k as int),
        decreases start - k,
    {
        let l = clone_chars(&fl[k]);
        let ghost before = result@;
        result.push(l);
        assert(lviews(result@) =~= lviews(before).push(fl[k as int]@));
        assert(flv.take(k + 1) =~= flv.take(k as int).push(flv[k as int]));
        k += 1;
    }
    let mut k: usize = 0;
    while k < rl.len()
        invariant
            k <= rl.len(),
            flv == lviews(fl@),
            rlv == lviews(rl@),
            lviews(result@) == flv.take(start as int) + reindent(rlv, prefix@).take(k as int),
        decreases rl.len() - k,
    {
        let l = indent_line_exec(&rl[k], &prefix);
        let ghost before = result@;
        result.push(l);
        assert(lviews(result@) =~= lviews(before).push(l@));
        assert(reindent(rlv, prefix@).take(k + 1) =~= reindent(rlv, prefix@).take(k as int).push(
            indent_line(rlv[k as int], prefix@),
        ));
        k += 1;
    }
    assert(reindent(rlv, prefix@).take(rl.len() as int) =~= reindent(rlv, prefix@));
    let end = start + sl.len();
    let mut k: usize = end;
    while k < fl.len()
        invariant
            end <= k <= fl.len(),
            end == start + sl.len(),
            flv == lviews(fl@),
            lviews(result@) == flv.take(start as int) + reindent(rlv, prefix@) + flv.subrange(
                end as int,
                k as int,
            ),
        decreases fl.len() - k,
    {
        let l = clone_chars(&fl[k]);
        let ghost before = result@;
        result.push(l);
        assert(lviews(result@) =~= lviews(before).push(fl[k as int]@));
        assert(flv.subrange(end as int, k + 1) =~= flv.subrange(end as int, k as int).push(
            flv[k as int],
        ));
        k += 1;
    }
    assert(flv.subrange(end as int, fl.len() as int) =~= flv.skip(end as int));
    let mut joined = join_with_newlines(&result);
    let nl = vec!['\n'];
    assert(nl@ =~= seq!['\n']);
    if ends_with_exec(orig.as_slice(), nl.as_slice()) && !ends_with_exec(
        joined.as_slice(),
        nl.as_slice(),
    ) {
        joined.push('\n');
    }
    joined
}

fn apply_block_exec(orig: &Vec<char>, cur: &Vec<char>, search: &Vec<char>, replace: &Vec<char>) -> (r: Result<Vec<char>, PatchError>)
    ensures
        match r {
            Ok(next) => apply_block(orig@, cur@, search@, replace@) == Ok::<Seq<char>, ApplyFailure>(next@),
            Err(e) => apply_block(orig@, cur@, search@, replace@) == Err::<Seq<char>, ApplyFailure>(e@),
        },
{
    if search.len() == 0 {
        return Err(PatchError::EmptySearch);
    }
    match find_exec(cur.as_slice(), search.as_slice()) {
        Some(idx) => {
            proof {
                lemma_find_from_spec(cur@, search@, 0);
                assert(occurs_at(cur@, search@, idx as int));
                assert(idx + search@.len() <= cur@.len());
                assert(search@.len() == search.len());
                assert(cur@.len() == cur.len());
            }
            let mut next = copy_range(cur.as_slice(), 0, idx);
            extend_from(&mut next, replace.as_slice());
            let tail = copy_range(cur.as_slice(), idx + search.len(), cur.len());
            extend_from(&mut next, tail.as_slice());
            assert(next@ =~= cur@.take(idx as int) + replace@ + cur@.skip(idx + search@.len()));
            Ok(next)
        },
        None => {
            let fl = split_lines(cur.as_slice());
            let sl = split_lines(search.as_slice());
            if sl.len() == 0 || sl.len() > fl.len() {
                return Err(PatchError::SearchTooLarge);
            }
            let ms = match_positions_exec(&fl, &sl);
            if ms.len() == 1 {
                assert(ints(ms@)[0] == ms@[0] as int);
                Ok(line_replace_exec(orig, &fl, &sl, ms[0], replace))
            } else if ms.len() == 0 {
                let t = trimmed(sl[0].as_slice());
                let c = closest_line_exec(&fl, t.as_slice());
                Err(PatchError::NotFound {
                    search: string_of(search.as_slice()),
                    line: c,
                    closest: string_of(fl[c].as_slice()),
                })
            } else {
                Err(PatchError::Ambiguous { count: ms.len() })
            }
        },
    }
}

fn find_trimmed_exec(ls: &Vec<Vec<char>>, m: &Vec<char>, i: usize) -> (r: Option<usize>)
    ensures
        r matches Some(k) ==> find_trimmed(lviews(ls@), m@, i as int) == Some(k as int) && k < ls.len(),
        r is None ==> find_trimmed(lviews(ls@), m@, i as int) is None,
{
    let ghost lsv = lviews(ls@);
    let mut k = i;
    while k < ls.len()
        invariant
            i <= k,
            lsv == lviews(ls@),
            find_trimmed(lsv, m@, i as int) == find_trimmed(lsv, m@, k as int),
        decreases ls.len() - k,
    {
        let t = trimmed(ls[k].as_slice());
        if chars_eq(t.as_slice(), m.as_slice()) {
            return Some(k);
        }
        k += 1;
    }
    None
}

/// Applies every SEARCH/REPLACE block of `patch_text` to `content`, in
/// order: the new text and the number of blocks applied, or why it failed.
pub fn apply_patch_text(content: &str, patch_text: &str) -> (r: Result<(String, usize), PatchError>)
    ensures
        match r {
            Ok((s, n)) => apply_blocks(content@, patch_text@) == Ok::<(Seq<char>, nat), ApplyFailure>((s@, n as nat)),
            Err(e) => apply_blocks(content@, patch_text@) == Err::<(Seq<char>, nat), ApplyFailure>(e@),
        },
{
    let orig = chars_of(content);
    let pt = chars_of(patch_text);
    let ls = split_lines(pt.as_slice());
    let ghost lsv = lviews(ls@);
    let m_search = chars_of("<<<<<<< SEARCH");
    let m_sep = chars_of("=======");
    let m_end = chars_of(">>>>>>> REPLACE");
    let mut cur = copy_range(orig.as_slice(), 0, orig.len());
    assert(cur@ =~= orig@);
    let mut count: usize = 0;
    let mut i: usize = 0;
    while i < ls.len()
        invariant
            i <= ls.len(),
            count <= i,
            lsv == lviews(ls@),
            lsv == lines(patch_text@),
            orig@ == content@,
            m_search@ == "<<<<<<< SEARCH"@,
            m_sep@ == "======="@,
            m_end@ == ">>>>>>> REPLACE"@,
            apply_blocks(content@, patch_text@) == apply_from(lsv, i as int, orig@, cur@, count as nat),
        decreases ls.len() - i,
    {
        let t = trimmed(ls[i].as_slice());
        if !chars_eq(t.as_slice(), m_search.as_slice()) {
            i += 1;
            continue;
        }
        let sep = match find_trimmed_exec(&ls, &m_sep, i + 1) {
            Some(s) => s,
            None => return Err(PatchError::MissingSeparator),
        };
        let end = match find_trimmed_exec(&ls, &m_end, sep + 1) {
            Some(e) => e,
            None => return Err(PatchError::MissingTerminator),
        };
        proof {
            lemma_find_trimmed(lsv, m_sep@, i + 1);
            lemma_find_trimmed(lsv, m_end@, sep + 1);
        }
        let mut search_lines: Vec<Vec<char>> = Vec::new();
        let mut k = i + 1;
        while k < sep
            invariant
                i + 1 <= k <= sep,
                sep < ls.len(),
                lsv == lviews(ls@),
                lviews(search_lines@) == lsv.subrange(i + 1, k as int),
            decreases sep - k,
        {
            let l = clone_chars(&ls[k]);
            let ghost before = search_lines@;
            search_lines.push(l);
            assert(lviews(search_lines@) =~= lviews(before).push(ls[k as int]@));
            assert(lsv.subrange(i + 1, k + 1) =~= lsv.subrange(i + 1, k as int).push(lsv[k as int]));
            k += 1;
        }
        let mut replace_lines: Vec<Vec<char>> = Vec::new();
        let mut k = sep + 1;
        while k < end
            invariant
                sep + 1 <= k <= end,
                end < ls.len(),
                lsv == lviews(ls@),
                lviews(replace_lines@) == lsv.subrange(sep + 1, k as int),
            decreases end - k,
        {
            let l = clone_chars(&ls[k]);
            let ghost before = replace_lines@;
            replace_lines.push(l);
            assert(lviews(replace_lines@) =~= lviews(before).push(ls[k as int]@));
            assert(lsv.subrange(sep + 1, k + 1) =~= lsv.subrange(sep + 1, k as int).push(
                lsv[k as int],
            ));
            k += 1;
        }
        let search = join_with_newlines(&search_lines);
        let replace = join_with_newlines(&replace_lines);
        match apply_block_exec(&orig, &cur, &search, &replace) {
            Ok(next) => {
                cur = next;
                count += 1;
                i = end + 1;
            },
            Err(e) => return Err(e),
        }
    }
    if count == 0 {
        return Err(PatchError::NoBlocks);
    }
    Ok((string_of(cur.as_slice()), count))
}


// ---------------------------------------------------------------------------
// Messages
// ---------------------------------------------------------------------------

/// The text reported for a failure on the file `path`.
pub open spec fn failure_text(e: ApplyFailure, path: Seq<char>) -> Seq<char> {
    match e {
        ApplyFailure::MissingSeparator => "Malformed patch: Missing '=======' separator in "@ + path,
        ApplyFailure::MissingTerminator => "Malformed patch: Missing '>>>>>>> REPLACE' terminator in "@
            + path,
        ApplyFailure::EmptySearch => "SEARCH block cannot be empty"@,
        ApplyFailure::SearchTooLarge => "SEARCH block not found in "@ + path
            + ". The search block is larger than the file or empty."@,
        ApplyFailure::NotFound { search, line, closest } => "SEARCH block not found in "@ + path
            + ".\nExpected:\n"@ + search
            + "\nMake sure the text matches the code exactly.\nClosest match at line "@ + decimal(
            (line + 1) as nat,
        ) + ": "@ + closest,
        ApplyFailure::Ambiguous { count } => "Ambiguous match: SEARCH block found "@ + decimal(
            count as nat,
        ) + " times in "@ + path
            + ". Add more surrounding context lines to make it unique."@,
        ApplyFailure::NoBlocks => "No valid SEARCH/REPLACE blocks found in patch text"@,
    }
}

/// The text reported when `count` blocks were applied to `path`.
pub open spec fn success_text(path: Seq<char>, count: nat) -> Seq<char> {
    "Patched "@ + path + " ("@ + decimal(count) + " block(s) applied)"@
}

fn push_str(v: &mut Vec<char>, s: &str)
    ensures
        final(v)@ == old(v)@ + s@,
{
    let c = chars_of(s);
    extend_from(v, c.as_slice());
}

impl PatchError {
    /// The message for this failure on the file `path`.
    pub fn message(&self, path: &str) -> (r: String)
        ensures
            r@ == failure_text(self@, path@),
    {
        let mut v: Vec<char> = Vec::new();
        match self {
            PatchError::MissingSeparator => {
                push_str(&mut v, "Malformed patch: Missing '=======' separator in ");
                push_str(&mut v, path);
            },
            PatchError::MissingTerminator => {
                push_str(&mut v, "Malformed patch: Missing '>>>>>>> REPLACE' terminator in ");
                push_str(&mut v, path);
            },
            PatchError::EmptySearch => {
                push_str(&mut v, "SEARCH block cannot be empty");
            },
            PatchError::SearchTooLarge => {
                push_str(&mut v, "SEARCH block not found in ");
                push_str(&mut v, path);
                push_str(&mut v, ". The search block is larger than the file or empty.");
            },
            PatchError::NotFound { search, line, closest } => {
                push_str(&mut v, "SEARCH block not found in ");
                push_str(&mut v, path);
                push_str(&mut v, ".\nExpected:\n");
                push_str(&mut v, search.as_str());
                push_str(&mut v, "\nMake sure the text matches the code exactly.\nClosest match at line ");
                let d = decimal_chars(*line as u128 + 1);
                extend_from(&mut v, d.as_slice());
                push_str(&mut v, ": ");
                push_str(&mut v, closest.as_str());
            },
            PatchError::Ambiguous { count } => {
                push_str(&mut v, "Ambiguous match: SEARCH block found ");
                let d = decimal_chars(*count as u128);
                extend_from(&mut v, d.as_slice());
                push_str(&mut v, " times in ");
                push_str(&mut v, path);
                push_str(&mut v, ". Add more surrounding context lines to make it unique.");
            },
            PatchError::NoBlocks => {
                push_str(&mut v, "No valid SEARCH/REPLACE blocks found in patch text");
            },
        }
        assert(v@ =~= failure_text(self@, path@));
        string_of(v.as_slice())
    }
}

/// The message for `count` blocks applied to `path`.
pub fn success_message(path: &str, count: usize) -> (r: String)
    ensures
        r@ == success_text(path@, count as nat),
{
    let mut v: Vec<char> = Vec::new();
    push_str(&mut v, "Patched ");
    push_str(&mut v, path);
    push_str(&mut v, " (");
    let d = decimal_chars(count as u128);
    extend_from(&mut v, d.as_slice());
    push_str(&mut v, " block(s) applied)");
    assert(v@ =~= success_text(path@, count as nat));
    string_of(v.as_slice())
}

} // verus!
