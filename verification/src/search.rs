//! Incremental search over the active buffer: which lines a query finds,
//! the search line's keys, and stepping through the matches with `n`/`N`.

use vstd::prelude::*;
use crate::agent::{lowercase, spec_lowercase};
use crate::editor::{kill_word_ok, word_start, with_buffer, EditorState, LineEditor};
use crate::insert_mode::is_ctrl_letter;
use crate::keymap::{Key, Modifiers};
use crate::text::{chars_of, contains, contains_exec, views};

verus! {

/// The indices below `n` of the lines whose lowercased text contains the
/// lowercased query, in order.
pub open spec fn matches_upto(lines: Seq<Seq<char>>, q: Seq<char>, n: int) -> Seq<usize>
    decreases n,
{
    if n <= 0 {
        Seq::empty()
    } else {
        let prev = matches_upto(lines, q, n - 1);
        if contains(spec_lowercase(lines[n - 1]), spec_lowercase(q)) {
            prev.push((n - 1) as usize)
        } else {
            prev
        }
    }
}

/// The lines a query finds, case-insensitively.
pub open spec fn search_matches(lines: Seq<Seq<char>>, q: Seq<char>) -> Seq<usize> {
    matches_upto(lines, q, lines.len() as int)
}

/// The indices of the lines of `lines` that `query` finds.
pub fn find_matches(lines: &Vec<String>, query: &str) -> (r: Vec<usize>)
    ensures
        r@ == search_matches(views(lines@), query@),
{
    let ql = chars_of(lowercase(query).as_str());
    let mut r: Vec<usize> = Vec::new();
    let ghost vs = views(lines@);
    let mut i: usize = 0;
    while i < lines.len()
        invariant
            i <= lines.len(),
            vs == views(lines@),
            ql@ == spec_lowercase(query@),
            r@ == matches_upto(vs, query@, i as int),
        decreases lines.len() - i,
    {
        let l = chars_of(lowercase(lines[i].as_str()).as_str());
        assert(vs[i as int] == lines@[i as int]@);
        if contains_exec(l.as_slice(), ql.as_slice()) {
            r.push(i);
        }
        i += 1;
    }
    r
}

fn same_indices(a: &Vec<usize>, b: &Vec<usize>) -> (r: bool)
    ensures
        r == (a@ == b@),
{
    if a.len() != b.len() {
        return false;
    }
    let mut i: usize = 0;
    while i < a.len()
        invariant
            i <= a.len(),
            a.len() == b.len(),
            forall|k: int| 0 <= k < i ==> a@[k] == b@[k],
        decreases a.len() - i,
    {
        if a[i] != b[i] {
            return false;
        }
        i += 1;
    }
    assert(a@ =~= b@);
    true
}

/// The model of the search state.
pub struct SearchView {
    pub query: Option<Seq<char>>,
    pub matches: Seq<usize>,
    pub idx: Option<usize>,
}

/// The last query, the lines it found, and which of them is current.
pub struct SearchState {
    query: Option<String>,
    matches: Vec<usize>,
    idx: Option<usize>,
}

impl View for SearchState {
    type V = SearchView;

    closed spec fn view(&self) -> SearchView {
        SearchView {
            query: match self.query {
                Some(q) => Some(q@),
                None => None,
            },
            matches: self.matches@,
            idx: self.idx,
        }
    }
}

/// The current match, when there is one, is one of the matches.
pub open spec fn search_wf(s: SearchView) -> bool {
    &&& s.matches.len() <= usize::MAX
    &&& match s.idx {
        Some(i) => i < s.matches.len(),
        None => true,
    }
}

/// What a new query does to the search: the state after it, and the line
/// the cursor jumps to. The current match goes back to the first one only
/// when the set of matching lines changed.
pub open spec fn update_spec(s: SearchView, lines: Seq<Seq<char>>, q: Seq<char>) -> (SearchView, Option<usize>) {
    if q.len() == 0 {
        (SearchView { query: None, matches: Seq::empty(), idx: None }, None)
    } else {
        let m = search_matches(lines, q);
        if m != s.matches {
            if m.len() == 0 {
                (SearchView { query: Some(q), matches: m, idx: None }, None)
            } else {
                (SearchView { query: Some(q), matches: m, idx: Some(0) }, Some(m[0]))
            }
        } else {
            (SearchView { query: Some(q), matches: m, idx: s.idx }, None)
        }
    }
}

/// `n`: the next match, wrapping to the first.
pub open spec fn next_spec(s: SearchView) -> (SearchView, Option<usize>) {
    match s.idx {
        Some(i) if s.matches.len() > 0 => {
            let j = ((i + 1) % (s.matches.len() as int)) as usize;
            (SearchView { idx: Some(j), ..s }, Some(s.matches[j as int]))
        },
        _ => (s, None),
    }
}

/// `N`: the previous match, wrapping to the last.
pub open spec fn prev_spec(s: SearchView) -> (SearchView, Option<usize>) {
    match s.idx {
        Some(i) if s.matches.len() > 0 => {
            let j = if i == 0 { (s.matches.len() - 1) as usize } else { (i - 1) as usize };
            (SearchView { idx: Some(j), ..s }, Some(s.matches[j as int]))
        },
        _ => (s, None),
    }
}

impl SearchState {
    /// No search yet.
    pub fn new() -> (r: SearchState)
        ensures
            r@ == (SearchView { query: None, matches: Seq::empty(), idx: None }),
    {
        SearchState { query: None, matches: Vec::new(), idx: None }
    }

    pub fn query(&self) -> (r: Option<String>)
        ensures
            match r {
                Some(q) => self@.query == Some(q@),
                None => self@.query is None,
            },
    {
        match &self.query {
            Some(q) => Some(q.clone()),
            None => None,
        }
    }

    pub fn matches(&self) -> (r: &Vec<usize>)
        ensures
            r@ == self@.matches,
    {
        &self.matches
    }

    pub fn current(&self) -> (r: Option<usize>)
        ensures
            r == self@.idx,
    {
        self.idx
    }

    /// Runs `query` over `lines`; returns the line the cursor jumps to.
    pub fn update(&mut self, lines: &Vec<String>, query: &str) -> (target: Option<usize>)
        requires
            search_wf(old(self)@),
        ensures
            search_wf(final(self)@),
            (final(self)@, target) == update_spec(old(self)@, views(lines@), query@),
    {
        let qc = chars_of(query);
        if qc.len() == 0 {
            self.query = None;
            self.matches = Vec::new();
            self.idx = None;
            assert(self@.matches =~= Seq::<usize>::empty());
            return None;
        }
        let m = find_matches(lines, query);
        let changed = !same_indices(&m, &self.matches);
        self.query = Some(query.to_string());
        self.matches = m;
        if changed {
            if self.matches.len() == 0 {
                self.idx = None;
                None
            } else {
                self.idx = Some(0);
                Some(self.matches[0])
            }
        } else {
            None
        }
    }

    /// Steps to the next match (`n`); returns the line the cursor jumps to.
    pub fn next_match(&mut self) -> (target: Option<usize>)
        requires
            search_wf(old(self)@),
        ensures
            search_wf(final(self)@),
            (final(self)@, target) == next_spec(old(self)@),
    {
        match self.idx {
            Some(i) => {
                if self.matches.len() > 0 {
                    let j = (i + 1) % self.matches.len();
                    self.idx = Some(j);
                    Some(self.matches[j])
                } else {
                    None
                }
            },
            None => None,
        }
    }

    /// Steps to the previous match (`N`); returns the line the cursor jumps to.
    pub fn prev_match(&mut self) -> (target: Option<usize>)
        requires
            search_wf(old(self)@),
        ensures
            search_wf(final(self)@),
            (final(self)@, target) == prev_spec(old(self)@),
    {
        match self.idx {
            Some(i) => {
                if self.matches.len() > 0 {
                    let j = if i == 0 { self.matches.len() - 1 } else { i - 1 };
                    self.idx = Some(j);
                    Some(self.matches[j])
                } else {
                    None
                }
            },
            None => None,
        }
    }
}

/// Every line a search finds exists and holds the query, whatever the case
/// of either; the lines come in order, each once; and no line that holds
/// the query is left out.
pub proof fn lemma_matches_sound(lines: Seq<Seq<char>>, q: Seq<char>, n: int)
    requires
        0 <= n <= lines.len(),
        lines.len() <= usize::MAX,
    ensures
        forall|k: int|
            #![trigger matches_upto(lines, q, n)[k]]
            0 <= k < matches_upto(lines, q, n).len() ==> 0 <= matches_upto(lines, q, n)[k] < n
                && contains(spec_lowercase(lines[matches_upto(lines, q, n)[k] as int]), spec_lowercase(q)),
        forall|a: int, b: int|
            0 <= a < b < matches_upto(lines, q, n).len() ==> #[trigger] matches_upto(lines, q, n)[a]
                < #[trigger] matches_upto(lines, q, n)[b],
        forall|i: int|
            0 <= i < n && contains(spec_lowercase(lines[i]), spec_lowercase(q)) ==> matches_upto(
                lines,
                q,
                n,
            ).contains(i as usize),
    decreases n,
{
    if n > 0 {
        lemma_matches_sound(lines, q, n - 1);
        let prev = matches_upto(lines, q, n - 1);
        let cur = matches_upto(lines, q, n);
        assert forall|k: int| 0 <= k < cur.len() implies 0 <= cur[k] < n && contains(
            spec_lowercase(lines[cur[k] as int]),
            spec_lowercase(q),
        ) by {
            if k < prev.len() {
                assert(cur[k] == prev[k]);
            }
        }
        assert forall|a: int, b: int| 0 <= a < b < cur.len() implies cur[a] < cur[b] by {
            assert(cur[a] == prev[a]);
            if b < prev.len() {
                assert(cur[b] == prev[b]);
            }
        }
        assert forall|i: int|
            0 <= i < n && contains(spec_lowercase(lines[i]), spec_lowercase(q)) implies cur.contains(
            i as usize,
        ) by {
            if i < n - 1 {
                let k = choose|k: int| 0 <= k < prev.len() && prev[k] == i as usize;
                assert(cur[k] == i as usize);
            } else {
                assert(cur[cur.len() - 1] == i as usize);
            }
        }
    }
}

/// `N` undoes `n`: stepping to the next match and back returns to the same
/// match (and the cursor to its line).
pub proof fn lemma_prev_undoes_next(s: SearchView)
    requires
        search_wf(s),
        s.idx is Some,
    ensures
        prev_spec(next_spec(s).0).0 == s,
        prev_spec(next_spec(s).0).1 == Some(s.matches[s.idx->0 as int]),
{
    let len = s.matches.len() as int;
    let i = s.idx->0 as int;
    let j: int = if i + 1 < len {
        assert((i + 1) % len == i + 1) by (nonlinear_arith)
            requires
                0 <= i + 1 < len,
        ;
        i + 1
    } else {
        assert((i + 1) % len == 0) by (nonlinear_arith)
            requires
                i + 1 == len,
                len > 0,
        ;
        0
    };
    let n1 = next_spec(s).0;
    assert(n1.idx == Some(j as usize));
    assert(n1.matches == s.matches);
    let back: int = if j == 0 { len - 1 } else { j - 1 };
    assert(back == i);
    assert(prev_spec(n1).0.idx == Some(i as usize));
}

/// `n` undoes `N`.
pub proof fn lemma_next_undoes_prev(s: SearchView)
    requires
        search_wf(s),
        s.idx is Some,
    ensures
        next_spec(prev_spec(s).0).0 == s,
        next_spec(prev_spec(s).0).1 == Some(s.matches[s.idx->0 as int]),
{
    let len = s.matches.len() as int;
    let i = s.idx->0 as int;
    let j = if i == 0 { len - 1 } else { i - 1 };
    let p1 = prev_spec(s).0;
    assert(p1.idx == Some(j as usize));
    assert(p1.matches == s.matches);
    if j + 1 < len {
        assert((j + 1) % len == j + 1) by (nonlinear_arith)
            requires
                0 <= j + 1 < len,
        ;
    } else {
        assert((j + 1) % len == 0) by (nonlinear_arith)
            requires
                j + 1 == len,
                len > 0,
        ;
    }
    assert(next_spec(p1).0.idx == Some(i as usize));
}

/// Typing the same query again keeps the current match where it was.
pub proof fn lemma_same_query_keeps_match(s: SearchView, lines: Seq<Seq<char>>, q: Seq<char>)
    requires
        q.len() > 0,
        s.matches == search_matches(lines, q),
    ensures
        update_spec(s, lines, q).0.idx == s.idx,
        update_spec(s, lines, q).1 is None,
{
}

/// What a key on the search line does: the editor after it, whether the
/// search line closes, and whether the search is run again.
pub open spec fn search_key_spec(st: EditorState, key: Key, m: Modifiers) -> (EditorState, bool, bool) {
    if m.ctrl {
        let st2 = if is_ctrl_letter(key, 'a', 'A') {
            with_buffer(st, st.buffer, 0)
        } else if is_ctrl_letter(key, 'e', 'E') {
            with_buffer(st, st.buffer, st.buffer.len() as int)
        } else if is_ctrl_letter(key, 'u', 'U') {
            with_buffer(st, st.buffer.skip(st.cursor), 0)
        } else if is_ctrl_letter(key, 'k', 'K') {
            with_buffer(st, st.buffer.take(st.cursor), st.cursor)
        } else if is_ctrl_letter(key, 'w', 'W') {
            if st.cursor == 0 {
                st
            } else {
                let w = word_start(st);
                with_buffer(st, st.buffer.take(w) + st.buffer.skip(st.cursor), w)
            }
        } else {
            st
        };
        (st2, false, false)
    } else {
        match key {
            Key::Esc => (with_buffer(st, Seq::empty(), 0), true, false),
            Key::Enter => (
                EditorState {
                    buffer: Seq::empty(),
                    cursor: 0,
                    history: crate::editor::record(st.history, st.buffer),
                    index: None,
                    saved: Seq::empty(),
                },
                true,
                false,
            ),
            Key::Backspace => {
                let st2 = if st.cursor > 0 {
                    with_buffer(st, st.buffer.remove(st.cursor - 1), st.cursor - 1)
                } else {
                    st
                };
                (st2, st2.buffer.len() == 0, true)
            },
            Key::Char(ch) => (with_buffer(st, st.buffer.insert(st.cursor, ch), st.cursor + 1), false, true),
            Key::Left => (if st.cursor > 0 { with_buffer(st, st.buffer, st.cursor - 1) } else { st }, false, false),
            Key::Right => (
                if st.cursor < st.buffer.len() { with_buffer(st, st.buffer, st.cursor + 1) } else { st },
                false,
                false,
            ),
            Key::Home => (with_buffer(st, st.buffer, 0), false, false),
            Key::End => (with_buffer(st, st.buffer, st.buffer.len() as int), false, false),
            _ => (st, false, false),
        }
    }
}

/// What a search-line key did.
#[derive(Debug, Clone, Copy, PartialEq, Eq, Structural)]
pub struct SearchKeyOutcome {
    /// The search line closed: back to normal mode.
    pub to_normal: bool,
    /// The line the cursor jumps to.
    pub target: Option<usize>,
}

/// Handles a key on the search line; a key that edits the query runs the
/// search again over `lines`.
pub fn search_key(
    editor: &mut LineEditor,
    search: &mut SearchState,
    lines: &Vec<String>,
    key: Key,
    m: Modifiers,
) -> (r: SearchKeyOutcome)
    requires
        old(editor).wf(),
        search_wf(old(search)@),
        m.ctrl && is_ctrl_letter(key, 'w', 'W') ==> kill_word_ok(old(editor)@),
    ensures
        final(editor).wf(),
        search_wf(final(search)@),
        ({
            let (st, to_normal, refresh) = search_key_spec(old(editor)@, key, m);
            &&& final(editor)@ == st
            &&& r.to_normal == to_normal
            &&& if refresh {
                (final(search)@, r.target) == update_spec(old(search)@, views(lines@), st.buffer)
            } else {
                final(search)@ == old(search)@ && r.target is None
            }
        }),
{
    proof {
        editor.lemma_cursor_in_text();
    }
    if m.ctrl {
        match key {
            Key::Char(c) => {
                if c == 'a' || c == 'A' {
                    editor.move_home();
                } else if c == 'e' || c == 'E' {
                    editor.move_end();
                } else if c == 'u' || c == 'U' {
                    editor.kill_to_start();
                } else if c == 'k' || c == 'K' {
                    editor.kill_to_end();
                } else if c == 'w' || c == 'W' {
                    editor.kill_word_back();
                }
            },
            _ => {},
        }
        return SearchKeyOutcome { to_normal: false, target: None };
    }
    match key {
        Key::Esc => {
            editor.clear();
            SearchKeyOutcome { to_normal: true, target: None }
        },
        Key::Enter => {
            let _ = editor.submit();
            SearchKeyOutcome { to_normal: true, target: None }
        },
        Key::Backspace => {
            editor.backspace();
            let to_normal = editor.is_empty();
            let q = editor.content();
            let target = search.update(lines, q.as_str());
            SearchKeyOutcome { to_normal, target }
        },
        Key::Char(ch) => {
            editor.insert_char(ch);
            let q = editor.content();
            let target = search.update(lines, q.as_str());
            SearchKeyOutcome { to_normal: false, target }
        },
        Key::Left => {
            editor.move_left();
            SearchKeyOutcome { to_normal: false, target: None }
        },
        Key::Right => {
            editor.move_right();
            SearchKeyOutcome { to_normal: false, target: None }
        },
        Key::Home => {
            editor.move_home();
            SearchKeyOutcome { to_normal: false, target: None }
        },
        Key::End => {
            editor.move_end();
            SearchKeyOutcome { to_normal: false, target: None }
        },
        _ => SearchKeyOutcome { to_normal: false, target: None },
    }
}

} // verus!
