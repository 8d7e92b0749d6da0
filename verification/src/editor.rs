//! The input line editor: a character buffer with a cursor, kill commands,
//! prefix-filtered history and tab completion.

use vstd::prelude::*;
use crate::text::{
    chars_of, clone_chars, copy_range, extend_from, is_whitespace, is_ws, lines, lviews,
    split_lines, starts_with, starts_with_exec, string_of, trim, trim_end, trimmed,
    trimmed_end, views,
};

verus! {

broadcast use vstd::string::group_string_axioms;

/// The model of the editor.
pub struct EditorState {
    pub buffer: Seq<char>,
    pub cursor: int,
    pub history: Seq<Seq<char>>,
    pub index: Option<int>,
    pub saved: Seq<char>,
}

/// A single-line editor with history.
pub struct LineEditor {
    buffer: Vec<char>,
    cursor_pos: usize,
    history: Vec<Vec<char>>,
    history_index: Option<usize>,
    saved_buffer: Vec<char>,
}

impl View for LineEditor {
    type V = EditorState;

    closed spec fn view(&self) -> EditorState {
        EditorState {
            buffer: self.buffer@,
            cursor: self.cursor_pos as int,
            history: lviews(self.history@),
            index: match self.history_index {
                Some(i) => Some(i as int),
                None => None,
            },
            saved: self.saved_buffer@,
        }
    }
}

pub open spec fn with_buffer(st: EditorState, buffer: Seq<char>, cursor: int) -> EditorState {
    EditorState { buffer, cursor, ..st }
}

/// The latest entry before `start` that begins with `prefix`.
pub open spec fn prev_match(h: Seq<Seq<char>>, prefix: Seq<char>, start: int) -> Option<int>
    decreases start,
{
    if start <= 0 {
        None
    } else if starts_with(h[start - 1], prefix) {
        Some(start - 1)
    } else {
        prev_match(h, prefix, start - 1)
    }
}

/// The earliest entry at or after `start` that begins with `prefix`.
pub open spec fn next_match(h: Seq<Seq<char>>, prefix: Seq<char>, start: int) -> Option<int>
    decreases h.len() - start,
{
    if start < 0 || start >= h.len() {
        None
    } else if starts_with(h[start], prefix) {
        Some(start)
    } else {
        next_match(h, prefix, start + 1)
    }
}

pub proof fn lemma_prev_match(h: Seq<Seq<char>>, prefix: Seq<char>, start: int)
    requires
        start <= h.len(),
    ensures
        prev_match(h, prefix, start) matches Some(i) ==> 0 <= i < start && starts_with(h[i], prefix),
    decreases start,
{
    if start > 0 && !starts_with(h[start - 1], prefix) {
        lemma_prev_match(h, prefix, start - 1);
    }
}

pub proof fn lemma_next_match(h: Seq<Seq<char>>, prefix: Seq<char>, start: int)
    requires
        0 <= start,
    ensures
        next_match(h, prefix, start) matches Some(i) ==> start <= i < h.len() && starts_with(h[i], prefix),
    decreases h.len() - start,
{
    if start < h.len() && !starts_with(h[start], prefix) {
        lemma_next_match(h, prefix, start + 1);
    }
}

pub open spec fn spec_history_up(st: EditorState) -> EditorState {
    if st.history.len() == 0 {
        st
    } else {
        let saved = if st.index is None {
            st.buffer
        } else {
            st.saved
        };
        let start = match st.index {
            Some(i) => i,
            None => st.history.len() as int,
        };
        match prev_match(st.history, saved, start) {
            Some(i) => EditorState {
                buffer: st.history[i],
                cursor: st.history[i].len() as int,
                index: Some(i),
                saved,
                ..st
            },
            None => EditorState { saved, ..st },
        }
    }
}

pub open spec fn spec_history_down(st: EditorState) -> EditorState {
    match st.index {
        None => st,
        Some(idx) => match next_match(st.history, st.saved, idx + 1) {
            Some(i) => EditorState {
                buffer: st.history[i],
                cursor: st.history[i].len() as int,
                index: Some(i),
                ..st
            },
            None => EditorState {
                buffer: st.saved,
                cursor: st.saved.len() as int,
                index: None,
                ..st
            },
        },
    }
}

/// No entry after the one `prev_match` finds, and before `start`, begins
/// with the prefix.
proof fn lemma_prev_match_latest(h: Seq<Seq<char>>, prefix: Seq<char>, start: int, i: int)
    requires
        start <= h.len(),
        prev_match(h, prefix, start) == Some(i),
    ensures
        forall|j: int| i < j < start ==> !starts_with(#[trigger] h[j], prefix),
    decreases start,
{
    if start > 0 && !starts_with(h[start - 1], prefix) {
        lemma_prev_match_latest(h, prefix, start - 1, i);
    }
}

/// With no entry from `start` on beginning with the prefix, `next_match`
/// finds none.
proof fn lemma_next_match_none(h: Seq<Seq<char>>, prefix: Seq<char>, start: int)
    requires
        0 <= start,
        forall|j: int| start <= j < h.len() ==> !starts_with(#[trigger] h[j], prefix),
    ensures
        next_match(h, prefix, start) is None,
    decreases h.len() - start,
{
    if start < h.len() {
        lemma_next_match_none(h, prefix, start + 1);
    }
}

/// One step down the history right after one step up from the typed text
/// gives that text back, with the cursor at its end when the step up found
/// an entry, and leaves the history.
pub proof fn law_history_down_undoes_up(st: EditorState)
    requires
        st.index is None,
    ensures
        spec_history_down(spec_history_up(st)).buffer == st.buffer,
        spec_history_down(spec_history_up(st)).index is None,
        spec_history_down(spec_history_up(st)).history == st.history,
        prev_match(st.history, st.buffer, st.history.len() as int) is Some ==> spec_history_down(
            spec_history_up(st),
        ).cursor == st.buffer.len(),
{
    let n = st.history.len() as int;
    if n > 0 {
        match prev_match(st.history, st.buffer, n) {
            Some(i) => {
                lemma_prev_match(st.history, st.buffer, n);
                lemma_prev_match_latest(st.history, st.buffer, n, i);
                lemma_next_match_none(st.history, st.buffer, i + 1);
            },
            None => {},
        }
    }
}

/// The history after `content` was submitted: blank input and a repeat of
/// the last entry are not recorded.
pub open spec fn record(history: Seq<Seq<char>>, content: Seq<char>) -> Seq<Seq<char>> {
    if trim(content).len() > 0 && (history.len() == 0 || history.last() != content) {
        history.push(content)
    } else {
        history
    }
}

/// The length of the common prefix of `a` and `b`.
pub open spec fn common_prefix_len(a: Seq<char>, b: Seq<char>) -> nat
    decreases a.len(),
{
    if a.len() == 0 || b.len() == 0 || a[0] != b[0] {
        0
    } else {
        1 + common_prefix_len(a.drop_first(), b.drop_first())
    }
}

/// The candidates that begin with `input`, in order.
pub open spec fn matching(cands: Seq<Seq<char>>, input: Seq<char>) -> Seq<Seq<char>>
    decreases cands.len(),
{
    if cands.len() == 0 {
        Seq::empty()
    } else if starts_with(cands.last(), input) {
        matching(cands.drop_last(), input).push(cands.last())
    } else {
        matching(cands.drop_last(), input)
    }
}

/// The longest prefix that the first match shares with every other match.
pub open spec fn shared_prefix_len(ms: Seq<Seq<char>>, n: int) -> nat
    decreases n,
{
    if n <= 1 {
        ms[0].len()
    } else {
        let p = shared_prefix_len(ms, n - 1);
        let c = common_prefix_len(ms[0], ms[n - 1]);
        if c < p {
            c
        } else {
            p
        }
    }
}

pub open spec fn spec_tab_complete(st: EditorState, cands: Seq<Seq<char>>) -> EditorState {
    let input = st.buffer.take(st.cursor);
    let ms = matching(cands, input);
    if ms.len() == 0 {
        st
    } else if ms.len() == 1 {
        with_buffer(st, ms[0], ms[0].len() as int)
    } else {
        let l = shared_prefix_len(ms, ms.len() as int);
        if l > input.len() {
            with_buffer(st, ms[0].take(l as int), l as int)
        } else {
            st
        }
    }
}

proof fn lemma_cpl(a: Seq<char>, b: Seq<char>)
    ensures
        common_prefix_len(a, b) <= a.len(),
        common_prefix_len(a, b) <= b.len(),
        forall|i: int| 0 <= i < common_prefix_len(a, b) ==> a[i] == b[i],
        common_prefix_len(a, b) < a.len() && common_prefix_len(a, b) < b.len() ==> a[common_prefix_len(a, b) as int]
            != b[common_prefix_len(a, b) as int],
    decreases a.len(),
{
    if a.len() > 0 && b.len() > 0 && a[0] == b[0] {
        lemma_cpl(a.drop_first(), b.drop_first());
        assert forall|i: int| 0 <= i < common_prefix_len(a, b) implies a[i] == b[i] by {
            if i > 0 {
                assert(a[i] == a.drop_first()[i - 1]);
                assert(b[i] == b.drop_first()[i - 1]);
            }
        }
    }
}

/// Two texts that begin with `p` share at least `p`.
proof fn lemma_cpl_at_least(a: Seq<char>, b: Seq<char>, p: Seq<char>)
    requires
        starts_with(a, p),
        starts_with(b, p),
    ensures
        common_prefix_len(a, b) >= p.len(),
    decreases p.len(),
{
    if p.len() > 0 {
        assert(a[0] == a.take(p.len() as int)[0]);
        assert(b[0] == b.take(p.len() as int)[0]);
        assert(a.drop_first().take(p.len() - 1) =~= a.take(p.len() as int).drop_first());
        assert(b.drop_first().take(p.len() - 1) =~= b.take(p.len() as int).drop_first());
        lemma_cpl_at_least(a.drop_first(), b.drop_first(), p.drop_first());
    }
}

/// The matches are candidates that begin with the input, and every such
/// candidate is among them.
proof fn lemma_matching(cands: Seq<Seq<char>>, input: Seq<char>)
    ensures
        forall|t: int|
            0 <= t < matching(cands, input).len() ==> starts_with(#[trigger] matching(cands, input)[t], input)
                && cands.contains(matching(cands, input)[t]),
        forall|k: int|
            0 <= k < cands.len() && starts_with(#[trigger] cands[k], input) ==> matching(cands, input).contains(cands[k]),
    decreases cands.len(),
{
    if cands.len() > 0 {
        let d = cands.drop_last();
        lemma_matching(d, input);
        let ms = matching(cands, input);
        let md = matching(d, input);
        assert forall|t: int| 0 <= t < ms.len() implies starts_with(#[trigger] ms[t], input) && cands.contains(ms[t]) by {
            if t < md.len() {
                assert(ms[t] == md[t]);
                let k = choose|k: int| 0 <= k < d.len() && d[k] == md[t];
                assert(cands[k] == ms[t]);
            } else {
                assert(ms[t] == cands.last());
                assert(cands[cands.len() - 1] == ms[t]);
            }
        }
        assert forall|k: int| 0 <= k < cands.len() && starts_with(#[trigger] cands[k], input) implies ms.contains(cands[k]) by {
            if k < d.len() {
                assert(d[k] == cands[k]);
                let t = choose|t: int| 0 <= t < md.len() && md[t] == d[k];
                assert(ms[t] == md[t]);
            } else {
                assert(ms[ms.len() - 1] == cands[k]);
            }
        }
    }
}

/// With only candidate `k` beginning with the input, it is the one match.
proof fn lemma_matching_one(cands: Seq<Seq<char>>, input: Seq<char>, k: int)
    requires
        0 <= k < cands.len(),
        starts_with(cands[k], input),
        forall|j: int| 0 <= j < cands.len() && j != k ==> !starts_with(#[trigger] cands[j], input),
    ensures
        matching(cands, input) == seq![cands[k]],
    decreases cands.len(),
{
    let d = cands.drop_last();
    if k == cands.len() - 1 {
        lemma_matching(d, input);
        if matching(d, input).len() > 0 {
            let t = matching(d, input)[0];
            let j = choose|j: int| 0 <= j < d.len() && d[j] == t;
            assert(cands[j] == t);
        }
        assert(matching(cands, input) =~= seq![cands[k]]);
    } else {
        assert forall|j: int| 0 <= j < d.len() && j != k implies !starts_with(#[trigger] d[j], input) by {
            assert(d[j] == cands[j]);
        }
        assert(d[k] == cands[k]);
        lemma_matching_one(d, input, k);
        assert(!starts_with(cands[cands.len() - 1], input));
    }
}

/// Two candidates that begin with the input give two matches.
proof fn lemma_matching_two(cands: Seq<Seq<char>>, input: Seq<char>, i: int, j: int)
    requires
        0 <= i < j < cands.len(),
        starts_with(cands[i], input),
        starts_with(cands[j], input),
    ensures
        matching(cands, input).len() >= 2,
    decreases cands.len(),
{
    let d = cands.drop_last();
    assert(d.len() == cands.len() - 1);
    if j == cands.len() - 1 {
        assert(d[i] == cands[i]);
        lemma_matching(d, input);
        assert(matching(d, input).contains(d[i]));
    } else {
        assert(d[i] == cands[i]);
        assert(d[j] == cands[j]);
        lemma_matching_two(d, input, i, j);
    }
}

/// What the shared prefix of the matches is: at most the common prefix of
/// the first with each match, and equal to one of them.
proof fn lemma_shared_prefix(ms: Seq<Seq<char>>, n: int)
    requires
        1 <= n <= ms.len(),
    ensures
        forall|t: int| 0 <= t < n ==> shared_prefix_len(ms, n) <= common_prefix_len(ms[0], #[trigger] ms[t]),
        exists|t: int| 0 <= t < n && shared_prefix_len(ms, n) == common_prefix_len(ms[0], #[trigger] ms[t]),
    decreases n,
{
    if n == 1 {
        lemma_cpl_self(ms[0]);
        assert(shared_prefix_len(ms, 1) == common_prefix_len(ms[0], ms[0]));
    } else {
        lemma_shared_prefix(ms, n - 1);
        if common_prefix_len(ms[0], ms[n - 1]) < shared_prefix_len(ms, n - 1) {
            assert(shared_prefix_len(ms, n) == common_prefix_len(ms[0], ms[n - 1]));
        } else {
            let t = choose|t: int| 0 <= t < n - 1 && shared_prefix_len(ms, n - 1) == common_prefix_len(ms[0], #[trigger] ms[t]);
            assert(shared_prefix_len(ms, n) == common_prefix_len(ms[0], ms[t]));
        }
    }
}

proof fn lemma_cpl_self(a: Seq<char>)
    ensures
        common_prefix_len(a, a) == a.len(),
    decreases a.len(),
{
    if a.len() > 0 {
        lemma_cpl_self(a.drop_first());
    }
}

/// The case of two or more candidates beginning with the input.
#[verifier::rlimit(50)]
proof fn lemma_tab_many(st: EditorState, cands: Seq<Seq<char>>, i: int, j: int)
    requires
        0 <= st.cursor <= st.buffer.len(),
        0 <= i < j < cands.len(),
        starts_with(cands[i], st.buffer.take(st.cursor)),
        starts_with(cands[j], st.buffer.take(st.cursor)),
    ensures
        ({
            let input = st.buffer.take(st.cursor);
            let r = spec_tab_complete(st, cands);
            let out = r.buffer.take(r.cursor);
            &&& starts_with(out, input)
            &&& forall|k: int| 0 <= k < cands.len() && starts_with(#[trigger] cands[k], input) ==> starts_with(cands[k], out)
            &&& exists|i: int, j: int|
                0 <= i < cands.len() && 0 <= j < cands.len() && starts_with(#[trigger] cands[i], input)
                    && starts_with(#[trigger] cands[j], input) && (cands[i].len() == out.len() || cands[j].len()
                    == out.len() || cands[i][out.len() as int] != cands[j][out.len() as int])
            &&& if out.len() > input.len() {
                r.buffer == out && r.cursor == out.len()
            } else {
                r == st
            }
        }),
{
    let input = st.buffer.take(st.cursor);
    let ms = matching(cands, input);
    lemma_matching(cands, input);
    let r = spec_tab_complete(st, cands);
    lemma_matching_two(cands, input, i, j);
    let n = ms.len() as int;
    lemma_shared_prefix(ms, n);
    let l = shared_prefix_len(ms, n);
    assert forall|t: int| 0 <= t < n implies common_prefix_len(ms[0], #[trigger] ms[t]) >= input.len() by {
        assert(starts_with(ms[t], input));
        assert(starts_with(ms[0], input));
        lemma_cpl_at_least(ms[0], ms[t], input);
    }
    let t0 = choose|t: int| 0 <= t < n && l == common_prefix_len(ms[0], #[trigger] ms[t]);
    assert(l >= input.len());
    lemma_cpl(ms[0], ms[t0]);
    let out = r.buffer.take(r.cursor);
    if l > input.len() {
        assert(out =~= ms[0].take(l as int));
    } else {
        assert(out =~= input);
    }
    assert(out.len() == l);
    // `out` begins every match.
    assert forall|t: int| 0 <= t < n implies starts_with(#[trigger] ms[t], out) by {
        lemma_cpl(ms[0], ms[t]);
        assert(starts_with(ms[0], input));
        assert(starts_with(ms[t], input));
        assert forall|q: int| 0 <= q < out.len() implies ms[t].take(out.len() as int)[q] == out[q] by {
            if l > input.len() {
                assert(out[q] == ms[0][q]);
            } else {
                assert(out[q] == input[q]);
                assert(ms[t].take(input.len() as int)[q] == input[q]);
            }
        }
        assert(ms[t].take(out.len() as int) =~= out);
    }
    assert forall|k: int| 0 <= k < cands.len() && starts_with(#[trigger] cands[k], input) implies starts_with(
        cands[k],
        out,
    ) by {
        let t = choose|t: int| 0 <= t < n && ms[t] == cands[k];
    }
    // No longer text begins them all.
    let a = choose|k: int| 0 <= k < cands.len() && cands[k] == ms[0];
    let b = choose|k: int| 0 <= k < cands.len() && cands[k] == ms[t0];
    assert(starts_with(cands[a], input));
    assert(starts_with(cands[b], input));
    assert(cands[a].len() == out.len() || cands[b].len() == out.len() || cands[a][out.len() as int]
        != cands[b][out.len() as int]);
    assert(starts_with(out, input)) by {
        if l > input.len() {
            assert(starts_with(ms[0], input));
            assert(out.take(input.len() as int) =~= ms[0].take(input.len() as int));
        } else {
            assert(out.take(input.len() as int) =~= input);
        }
    }
}

proof fn lemma_tab_none(st: EditorState, cands: Seq<Seq<char>>)
    requires
        forall|k: int| 0 <= k < cands.len() ==> !starts_with(#[trigger] cands[k], st.buffer.take(st.cursor)),
    ensures
        spec_tab_complete(st, cands) == st,
{
    let input = st.buffer.take(st.cursor);
    let ms = matching(cands, input);
    lemma_matching(cands, input);
    if ms.len() > 0 {
        let k = choose|k: int| 0 <= k < cands.len() && cands[k] == ms[0];
        assert(starts_with(ms[0], input));
    }
}

proof fn lemma_tab_one(st: EditorState, cands: Seq<Seq<char>>, k: int)
    requires
        0 <= k < cands.len(),
        starts_with(cands[k], st.buffer.take(st.cursor)),
        forall|j: int| 0 <= j < cands.len() && j != k ==> !starts_with(#[trigger] cands[j], st.buffer.take(st.cursor)),
    ensures
        spec_tab_complete(st, cands).buffer == cands[k],
        spec_tab_complete(st, cands).cursor == cands[k].len(),
{
    lemma_matching_one(cands, st.buffer.take(st.cursor), k);
}

proof fn lemma_tab_cursor(st: EditorState, cands: Seq<Seq<char>>)
    requires
        0 <= st.cursor <= st.buffer.len(),
    ensures
        0 <= spec_tab_complete(st, cands).cursor <= spec_tab_complete(st, cands).buffer.len(),
{
    let ms = matching(cands, st.buffer.take(st.cursor));
    if ms.len() >= 2 {
        lemma_shared_prefix(ms, ms.len() as int);
        lemma_cpl(ms[0], ms[0]);
    }
}

/// Tab completion from the text before the cursor: with no candidate
/// beginning with it nothing changes; with one, the input becomes that
/// candidate; with two or more, the new text before the cursor still
/// begins with the input, begins every candidate that the input begins,
/// and is their longest such text (two of those candidates end there or
/// differ right after it); the line is changed only when that text is
/// longer than the input, and then holds just that text.
#[verifier::rlimit(60)]
pub proof fn law_tab_complete(st: EditorState, cands: Seq<Seq<char>>)
    requires
        0 <= st.cursor <= st.buffer.len(),
    ensures
        ({
            let input = st.buffer.take(st.cursor);
            let r = spec_tab_complete(st, cands);
            let out = r.buffer.take(r.cursor);
            &&& 0 <= r.cursor <= r.buffer.len()
            &&& (forall|k: int| 0 <= k < cands.len() ==> !starts_with(#[trigger] cands[k], input)) ==> r == st
            &&& forall|k: int|
                0 <= k < cands.len() && starts_with(cands[k], input) && (forall|j: int|
                    0 <= j < cands.len() && j != k ==> !starts_with(#[trigger] cands[j], input)) ==> r.buffer
                    == #[trigger] cands[k] && r.cursor == cands[k].len()
            &&& (exists|i: int, j: int|
                0 <= i < j < cands.len() && starts_with(#[trigger] cands[i], input) && starts_with(
                    #[trigger] cands[j],
                    input,
                )) ==> {
                &&& starts_with(out, input)
                &&& forall|k: int| 0 <= k < cands.len() && starts_with(#[trigger] cands[k], input) ==> starts_with(cands[k], out)
                &&& exists|i: int, j: int|
                    0 <= i < cands.len() && 0 <= j < cands.len() && starts_with(#[trigger] cands[i], input)
                        && starts_with(#[trigger] cands[j], input) && (cands[i].len() == out.len() || cands[j].len()
                        == out.len() || cands[i][out.len() as int] != cands[j][out.len() as int])
                &&& if out.len() > input.len() {
                    r.buffer == out && r.cursor == out.len()
                } else {
                    r == st
                }
            }
        }),
{
    lemma_tab_cursor(st, cands);
    let input = st.buffer.take(st.cursor);
    let r = spec_tab_complete(st, cands);
    assert forall|k: int|
        0 <= k < cands.len() && starts_with(cands[k], input) && (forall|j: int|
            0 <= j < cands.len() && j != k ==> !starts_with(#[trigger] cands[j], input)) implies r.buffer
        == #[trigger] cands[k] && r.cursor == cands[k].len() by {
        lemma_tab_one(st, cands, k);
    }
    if forall|k: int| 0 <= k < cands.len() ==> !starts_with(#[trigger] cands[k], input) {
        lemma_tab_none(st, cands);
    }
    if exists|i: int, j: int|
        0 <= i < j < cands.len() && starts_with(#[trigger] cands[i], input) && starts_with(#[trigger] cands[j], input) {
        let (i, j) = choose|i: int, j: int|
            0 <= i < j < cands.len() && starts_with(#[trigger] cands[i], input) && starts_with(#[trigger] cands[j], input);
        lemma_tab_many(st, cands, i, j);
    }
}

/// The index of the last whitespace character in `s`.
pub open spec fn last_ws(s: Seq<char>) -> Option<int>
    decreases s.len(),
{
    if s.len() == 0 {
        None
    } else if is_ws(s.last()) {
        Some(s.len() - 1)
    } else {
        last_ws(s.drop_last())
    }
}

/// Where a backward word kill stops: just after the last whitespace before
/// the word that ends at the cursor.
pub open spec fn word_start(st: EditorState) -> int {
    let t = trim_end(st.buffer.take(st.cursor));
    match last_ws(t) {
        Some(p) => p + 1,
        None => 0,
    }
}

/// Killing the word before the cursor is well defined: the whitespace that
/// bounds it is a single-byte character (`kill_word_back` steps one byte
/// past it).
pub open spec fn kill_word_ok(st: EditorState) -> bool {
    let t = trim_end(st.buffer.take(st.cursor));
    match last_ws(t) {
        Some(p) => (t[p] as u32) < 0x80,
        None => true,
    }
}

impl LineEditor {
    /// The cursor lies within the text and the history position within
    /// the history.
    pub closed spec fn wf(&self) -> bool {
        &&& self.cursor_pos <= self.buffer.len()
        &&& match self.history_index {
            Some(i) => i < self.history.len(),
            None => true,
        }
    }

    /// In a well-formed editor the cursor lies within the text.
    pub proof fn lemma_cursor_in_text(&self)
        requires
            self.wf(),
        ensures
            0 <= self@.cursor <= self@.buffer.len(),
    {
    }

    /// An empty editor with no history.
    pub fn new() -> (r: LineEditor)
        ensures
            r.wf(),
            r@.buffer.len() == 0,
            r@.cursor == 0,
            r@.history.len() == 0,
            r@.index is None,
            r@.saved.len() == 0,
    {
        let r = LineEditor {
            buffer: Vec::new(),
            cursor_pos: 0,
            history: Vec::new(),
            history_index: None,
            saved_buffer: Vec::new(),
        };
        assert(lviews(r.history@) =~= Seq::<Seq<char>>::empty());
        r
    }

    /// The text being edited.
    pub fn content(&self) -> (r: String)
        ensures
            r@ == self@.buffer,
    {
        string_of(self.buffer.as_slice())
    }

    /// The cursor's column in characters.
    pub fn cursor_display_col(&self) -> (n: usize)
        ensures
            n == self@.cursor,
    {
        self.cursor_pos
    }

    pub fn is_empty(&self) -> (b: bool)
        ensures
            b == (self@.buffer.len() == 0),
    {
        self.buffer.len() == 0
    }

    /// Inserts `c` at the cursor and moves past it.
    pub fn insert_char(&mut self, c: char)
        requires
            old(self).wf(),
        ensures
            final(self).wf(),
            final(self)@ == with_buffer(
                old(self)@,
                old(self)@.buffer.insert(old(self)@.cursor, c),
                old(self)@.cursor + 1,
            ),
    {
        self.buffer.insert(self.cursor_pos, c);
        assert(self.cursor_pos < self.buffer.len());
        self.cursor_pos = self.cursor_pos + 1;
    }

    /// Deletes the character before the cursor.
    pub fn backspace(&mut self)
        requires
            old(self).wf(),
        ensures
            final(self).wf(),
            final(self)@ == if old(self)@.cursor > 0 {
                with_buffer(
                    old(self)@,
                    old(self)@.buffer.remove(old(self)@.cursor - 1),
                    old(self)@.cursor - 1,
                )
            } else {
                old(self)@
            },
    {
        if self.cursor_pos > 0 {
            let prev = self.cursor_pos - 1;
            self.buffer.remove(prev);
            self.cursor_pos = prev;
        }
    }

    /// Deletes the character under the cursor.
    pub fn delete(&mut self)
        requires
            old(self).wf(),
        ensures
            final(self).wf(),
            final(self)@ == if old(self)@.cursor < old(self)@.buffer.len() {
                with_buffer(old(self)@, old(self)@.buffer.remove(old(self)@.cursor), old(self)@.cursor)
            } else {
                old(self)@
            },
    {
        if self.cursor_pos < self.buffer.len() {
            self.buffer.remove(self.cursor_pos);
        }
    }

    pub fn move_left(&mut self)
        requires
            old(self).wf(),
        ensures
            final(self).wf(),
            final(self)@ == if old(self)@.cursor > 0 {
                with_buffer(old(self)@, old(self)@.buffer, old(self)@.cursor - 1)
            } else {
                old(self)@
            },
    {
        if self.cursor_pos > 0 {
            self.cursor_pos = self.cursor_pos - 1;
        }
    }

    pub fn move_right(&mut self)
        requires
            old(self).wf(),
        ensures
            final(self).wf(),
            final(self)@ == if old(self)@.cursor < old(self)@.buffer.len() {
                with_buffer(old(self)@, old(self)@.buffer, old(self)@.cursor + 1)
            } else {
                old(self)@
            },
    {
        if self.cursor_pos < self.buffer.len() {
            self.cursor_pos = self.cursor_pos + 1;
        }
    }

    pub fn move_home(&mut self)
        requires
            old(self).wf(),
        ensures
            final(self).wf(),
            final(self)@ == with_buffer(old(self)@, old(self)@.buffer, 0),
    {
        self.cursor_pos = 0;
    }

    pub fn move_end(&mut self)
        requires
            old(self).wf(),
        ensures
            final(self).wf(),
            final(self)@ == with_buffer(old(self)@, old(self)@.buffer, old(self)@.buffer.len() as int),
    {
        self.cursor_pos = self.buffer.len();
    }

    pub fn clear(&mut self)
        requires
            old(self).wf(),
        ensures
            final(self).wf(),
            final(self)@ == with_buffer(old(self)@, Seq::empty(), 0),
    {
        self.buffer = Vec::new();
        self.cursor_pos = 0;
    }

    /// Takes the text out of the editor and records it in the history.
    pub fn submit(&mut self) -> (content: String)
        requires
            old(self).wf(),
        ensures
            final(self).wf(),
            content@ == old(self)@.buffer,
            final(self)@ == (EditorState {
                buffer: Seq::empty(),
                cursor: 0,
                history: record(old(self)@.history, old(self)@.buffer),
                index: None,
                saved: Seq::empty(),
            }),
    {
        let mut content: Vec<char> = Vec::new();
        std::mem::swap(&mut content, &mut self.buffer);
        self.cursor_pos = 0;
        self.history_index = None;
        let t = trimmed(content.as_slice());
        if t.len() > 0 {
            let n = self.history.len();
            let repeat = n > 0 && crate::text::chars_eq(self.history[n - 1].as_slice(), content.as_slice());
            if !repeat {
                let ghost before = self.history@;
                self.history.push(clone_chars(&content));
                assert(lviews(self.history@) =~= lviews(before).push(content@));
            }
        }
        self.saved_buffer = Vec::new();
        string_of(content.as_slice())
    }

    /// Recalls the latest earlier entry that begins with the text typed
    /// before history browsing started.
    pub fn history_up(&mut self)
        requires
            old(self).wf(),
        ensures
            final(self).wf(),
            final(self)@ == spec_history_up(old(self)@),
    {
        if self.history.len() == 0 {
            return;
        }
        if self.history_index.is_none() {
            self.saved_buffer = clone_chars(&self.buffer);
        }
        let ghost mid = self@;
        assert(mid == (EditorState { saved: mid.saved, ..old(self)@ }));
        assert(mid.saved == (if old(self)@.index is None {
            old(self)@.buffer
        } else {
            old(self)@.saved
        }));
        let start = match self.history_index {
            Some(i) => i,
            None => self.history.len(),
        };
        let ghost h = lviews(self.history@);
        assert(h == old(self)@.history);
        assert(start as int == match old(self)@.index {
            Some(i) => i,
            None => old(self)@.history.len() as int,
        });
        proof {
            lemma_prev_match(h, self.saved_buffer@, start as int);
        }
        let mut i = start;
        while i > 0
            invariant
                i <= start <= self.history.len(),
                h == lviews(self.history@),
                self@ == mid,
                self.wf(),
                old(self)@.history.len() > 0,
                h == old(self)@.history,
                mid == (EditorState { saved: mid.saved, ..old(self)@ }),
                mid.saved == (if old(self)@.index is None {
                    old(self)@.buffer
                } else {
                    old(self)@.saved
                }),
                start as int == match old(self)@.index {
                    Some(i) => i,
                    None => old(self)@.history.len() as int,
                },
                prev_match(h, self.saved_buffer@, start as int) == prev_match(
                    h,
                    self.saved_buffer@,
                    i as int,
                ),
            decreases i,
        {
            assert(h[i - 1] == self.history@[i - 1]@);
            if starts_with_exec(self.history[i - 1].as_slice(), self.saved_buffer.as_slice()) {
                self.history_index = Some(i - 1);
                self.buffer = clone_chars(&self.history[i - 1]);
                self.cursor_pos = self.buffer.len();
                assert(prev_match(h, mid.saved, i as int) == Some(i - 1));
                assert(prev_match(h, mid.saved, start as int) == Some(i - 1));
                assert(self@.history == h);
                assert(self@.buffer == h[i - 1]);
                assert(self@.index == Some(i - 1));
                assert(self@.saved == mid.saved);
                return;
            }
            i -= 1;
        }
    }

    /// Recalls the next later entry that begins with the saved text, or the
    /// saved text itself past the last one.
    pub fn history_down(&mut self)
        requires
            old(self).wf(),
        ensures
            final(self).wf(),
            final(self)@ == spec_history_down(old(self)@),
    {
        match self.history_index {
            None => {
                return;
            },
            Some(idx) => {
                let ghost h = lviews(self.history@);
                let mut i = idx + 1;
                while i < self.history.len()
                    invariant
                        idx + 1 <= i <= self.history.len(),
                        h == lviews(self.history@),
                        self@ == old(self)@,
                        self.wf(),
                        self.history_index == Some(idx),
                        next_match(h, self.saved_buffer@, idx + 1) == next_match(
                            h,
                            self.saved_buffer@,
                            i as int,
                        ),
                    decreases self.history.len() - i,
                {
                    if starts_with_exec(self.history[i].as_slice(), self.saved_buffer.as_slice()) {
                        self.history_index = Some(i);
                        self.buffer = clone_chars(&self.history[i]);
                        self.cursor_pos = self.buffer.len();
                        return;
                    }
                    i += 1;
                }
                self.history_index = None;
                self.buffer = clone_chars(&self.saved_buffer);
                self.cursor_pos = self.buffer.len();
            },
        }
    }

    /// Completes the text before the cursor from `candidates`: a single
    /// match replaces the text, several extend it to their common prefix.
    pub fn tab_complete(&mut self, candidates: &[&str])
        requires
            old(self).wf(),
        ensures
            final(self).wf(),
            final(self)@ == spec_tab_complete(
                old(self)@,
                Seq::new(candidates@.len(), |i: int| candidates@[i]@),
            ),
    {
        let ghost cands = Seq::new(candidates@.len(), |i: int| candidates@[i]@);
        let input = copy_range(self.buffer.as_slice(), 0, self.cursor_pos);
        assert(input@ =~= self@.buffer.take(self@.cursor));
        let mut ms: Vec<Vec<char>> = Vec::new();
        let mut k: usize = 0;
        while k < candidates.len()
            invariant
                k <= candidates.len(),
                cands == Seq::new(candidates@.len(), |i: int| candidates@[i]@),
                lviews(ms@) == matching(cands.take(k as int), input@),
            decreases candidates.len() - k,
        {
            let c = chars_of(candidates[k]);
            proof {
                assert(cands.take(k + 1).drop_last() =~= cands.take(k as int));
                assert(cands.take(k + 1).last() == c@);
            }
            if starts_with_exec(c.as_slice(), input.as_slice()) {
                let ghost before = ms@;
                ms.push(c);
                assert(lviews(ms@) =~= lviews(before).push(cands[k as int]));
            }
            k += 1;
        }
        assert(cands.take(candidates.len() as int) =~= cands);
        let ghost msv = lviews(ms@);
        if ms.len() == 0 {
            return;
        }
        if ms.len() == 1 {
            self.buffer = clone_chars(&ms[0]);
            self.cursor_pos = self.buffer.len();
            return;
        }
        let mut l = ms[0].len();
        let mut j: usize = 1;
        while j < ms.len()
            invariant
                1 <= j <= ms.len(),
                msv == lviews(ms@),
                l == shared_prefix_len(msv, j as int),
                l <= ms@[0]@.len(),
            decreases ms.len() - j,
        {
            let c = common_prefix(ms[0].as_slice(), ms[j].as_slice());
            if c < l {
                l = c;
            }
            j += 1;
        }
        if l > input.len() {
            let b = copy_range(ms[0].as_slice(), 0, l);
            assert(b@ =~= msv[0].take(l as int));
            self.buffer = b;
            self.cursor_pos = l;
        }
    }

    /// Deletes from the cursor to the end.
    pub fn kill_to_end(&mut self)
        requires
            old(self).wf(),
        ensures
            final(self).wf(),
            final(self)@ == with_buffer(
                old(self)@,
                old(self)@.buffer.take(old(self)@.cursor),
                old(self)@.cursor,
            ),
    {
        self.buffer.truncate(self.cursor_pos);
    }

    /// Deletes from the start to the cursor.
    pub fn kill_to_start(&mut self)
        requires
            old(self).wf(),
        ensures
            final(self).wf(),
            final(self)@ == with_buffer(old(self)@, old(self)@.buffer.skip(old(self)@.cursor), 0),
    {
        let rest = copy_range(self.buffer.as_slice(), self.cursor_pos, self.buffer.len());
        assert(rest@ =~= self@.buffer.skip(self@.cursor));
        self.buffer = rest;
        self.cursor_pos = 0;
    }

    /// Deletes the word before the cursor (and the blanks after it).
    pub fn kill_word_back(&mut self)
        requires
            old(self).wf(),
            kill_word_ok(old(self)@),
        ensures
            final(self).wf(),
            final(self)@ == if old(self)@.cursor == 0 {
                old(self)@
            } else {
                let w = word_start(old(self)@);
                with_buffer(
                    old(self)@,
                    old(self)@.buffer.take(w) + old(self)@.buffer.skip(old(self)@.cursor),
                    w,
                )
            },
    {
        if self.cursor_pos == 0 {
            return;
        }
        let text = copy_range(self.buffer.as_slice(), 0, self.cursor_pos);
        let t = trimmed_end(text.as_slice());
        proof {
            assert(text@ =~= self@.buffer.take(self@.cursor));
            lemma_trim_end_len(text@);
        }
        let mut p = t.len();
        assert(t@.take(t.len() as int) =~= t@);
        while p > 0 && !is_whitespace(t[p - 1])
            invariant
                p <= t.len(),
                last_ws(t@) == last_ws(t@.take(p as int)),
            decreases p,
        {
            assert(t@.take(p as int).drop_last() =~= t@.take(p - 1));
            p -= 1;
        }
        assert(t@.take(t.len() as int) =~= t@);
        let pos = p;
        proof {
            if p > 0 {
                assert(last_ws(t@.take(p as int)) == Some(p - 1));
            } else {
                assert(last_ws(t@.take(0)) is None);
            }
        }
        let mut nb = copy_range(self.buffer.as_slice(), 0, pos);
        let tail = copy_range(self.buffer.as_slice(), self.cursor_pos, self.buffer.len());
        extend_from(&mut nb, tail.as_slice());
        assert(nb@ =~= self@.buffer.take(pos as int) + self@.buffer.skip(self@.cursor));
        self.buffer = nb;
        self.cursor_pos = pos;
    }

    /// Replaces the history with `entries`.
    pub fn set_history(&mut self, entries: &Vec<String>)
        requires
            old(self).wf(),
        ensures
            final(self).wf(),
            final(self)@ == (EditorState { history: views(entries@), index: None, ..old(self)@ }),
    {
        let h = crate::text::chars_of_each(entries);
        self.history_index = None;
        self.history = h;
    }

    /// Adds the non-blank lines of old-style history text, trimmed.
    pub fn append_history_lines(&mut self, content: &str)
        requires
            old(self).wf(),
        ensures
            final(self).wf(),
            final(self)@ == (EditorState {
                history: old(self)@.history + nonblank_trimmed(lines(content@)),
                ..old(self)@
            }),
    {
        let c = chars_of(content);
        let ls = split_lines(c.as_slice());
        let ghost lsv = lviews(ls@);
        let ghost h0 = self@.history;
        let mut i: usize = 0;
        while i < ls.len()
            invariant
                i <= ls.len(),
                lsv == lviews(ls@),
                lsv == lines(content@),
                self@ == (EditorState { history: h0 + nonblank_trimmed(lsv.take(i as int)), ..old(self)@ }),
                self.cursor_pos <= self.buffer.len(),
                match self.history_index {
                    Some(k) => k < self.history.len(),
                    None => true,
                },
            decreases ls.len() - i,
        {
            let t = trimmed(ls[i].as_slice());
            proof {
                assert(lsv.take(i + 1).drop_last() =~= lsv.take(i as int));
            }
            if t.len() > 0 {
                let ghost before = self.history@;
                self.history.push(t);
                assert(lviews(self.history@) =~= lviews(before).push(trim(lsv[i as int])));
            }
            i += 1;
        }
        assert(lsv.take(ls.len() as int) =~= lsv);
    }

    /// The entries that are saved: the last 500.
    pub fn history_to_save(&self) -> (r: Vec<String>)
        ensures
            views(r@) == self@.history.skip(
                if self@.history.len() > 500 {
                    self@.history.len() - 500
                } else {
                    0
                },
            ),
    {
        let n = self.history.len();
        let start = if n > 500 {
            n - 500
        } else {
            0
        };
        let mut r: Vec<String> = Vec::new();
        let mut i = start;
        let ghost h = lviews(self.history@);
        while i < n
            invariant
                start <= i <= n,
                n == self.history.len(),
                h == lviews(self.history@),
                views(r@) == h.subrange(start as int, i as int),
            decreases n - i,
        {
            let ghost before = r@;
            r.push(string_of(self.history[i].as_slice()));
            assert(views(r@) =~= views(before).push(h[i as int]));
            assert(h.subrange(start as int, i + 1) =~= h.subrange(start as int, i as int).push(h[i as int]));
            i += 1;
        }
        assert(h.subrange(start as int, n as int) =~= h.skip(start as int));
        r
    }
}

/// The non-blank lines, trimmed.
pub open spec fn nonblank_trimmed(ls: Seq<Seq<char>>) -> Seq<Seq<char>>
    decreases ls.len(),
{
    if ls.len() == 0 {
        Seq::empty()
    } else if trim(ls.last()).len() > 0 {
        nonblank_trimmed(ls.drop_last()).push(trim(ls.last()))
    } else {
        nonblank_trimmed(ls.drop_last())
    }
}

proof fn lemma_trim_end_len(s: Seq<char>)
    ensures
        trim_end(s).len() <= s.len(),
        trim_end(s) == s.take(trim_end(s).len() as int),
    decreases s.len(),
{
    if s.len() > 0 && is_ws(s.last()) {
        lemma_trim_end_len(s.drop_last());
        assert(s.drop_last().take(trim_end(s).len() as int) =~= s.take(trim_end(s).len() as int));
    } else {
        assert(s.take(s.len() as int) =~= s);
    }
}

/// The length of the common prefix of `a` and `b`.
fn common_prefix(a: &[char], b: &[char]) -> (n: usize)
    ensures
        n == common_prefix_len(a@, b@),
        n <= a.len(),
{
    let mut k: usize = 0;
    assert(a@.skip(0) =~= a@);
    assert(b@.skip(0) =~= b@);
    while k < a.len() && k < b.len() && a[k] == b[k]
        invariant
            k <= a.len(),
            k <= b.len(),
            common_prefix_len(a@, b@) == k + common_prefix_len(a@.skip(k as int), b@.skip(k as int)),
        decreases a.len() - k,
    {
        assert(a@.skip(k as int).drop_first() =~= a@.skip(k + 1));
        assert(b@.skip(k as int).drop_first() =~= b@.skip(k + 1));
        k += 1;
    }
    k
}

} // verus!
