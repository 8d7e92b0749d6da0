//! The two-pane git views: the commit log (commits on the left, the open
//! commit on the right, commits picked for copying) and the side-by-side
//! diff, with their keys, scrolling and pane widths.

use vstd::prelude::*;
use crate::diffrows::{rows_view, DiffRow, RowView};
use crate::keymap::Key;
use crate::text::{
    chars_of, ends_with, lines, push_str_chars, split_lines, string_of, trim, trimmed, views,
};

verus! {

broadcast use vstd::string::group_string_axioms;

pub open spec fn sat_sub(a: int, b: int) -> int {
    if a >= b {
        a - b
    } else {
        0
    }
}

/// The rows a pane shows below its header: the response area less two.
pub open spec fn page_rows(area_height: int) -> int {
    sat_sub(area_height, 2)
}

/// Where the divider between the panes stands, and the widths of the
/// left and right panes: the active pane gets six tenths of the width.
pub open spec fn split_spec(term_width: int, left_active: bool) -> (int, int, int) {
    let ratio = if left_active { 6int } else { 4int };
    let split_x = term_width * ratio / 10;
    (split_x, sat_sub(split_x, 1), sat_sub(sat_sub(term_width, split_x), 1))
}

pub fn pane_split(term_width: usize, left_active: bool) -> (r: (usize, usize, usize))
    requires
        term_width <= usize::MAX / 10,
    ensures
        (r.0 as int, r.1 as int, r.2 as int) == split_spec(term_width as int, left_active),
{
    let ratio: usize = if left_active { 6 } else { 4 };
    assert(term_width * ratio <= usize::MAX) by (nonlinear_arith)
        requires
            term_width <= usize::MAX / 10,
            ratio <= 6,
    ;
    let split_x = term_width * ratio / 10;
    assert(split_x <= term_width) by (nonlinear_arith)
        requires
            split_x == term_width * ratio / 10,
            ratio <= 6,
    ;
    (split_x, split_x.saturating_sub(1), term_width.saturating_sub(split_x).saturating_sub(1))
}

// ---------------------------------------------------------------- the log

/// The number of UTF-8 bytes of `c`.
pub open spec fn utf8_len(c: char) -> nat {
    if (c as u32) < 0x80 {
        1
    } else if (c as u32) < 0x800 {
        2
    } else if (c as u32) < 0x10000 {
        3
    } else {
        4
    }
}

/// The characters that make up the first `n` bytes of `s`, when `n` falls
/// on a character boundary within `s` (`str::get(..n)`).
pub open spec fn byte_prefix(s: Seq<char>, n: int) -> Option<Seq<char>>
    decreases s.len(),
{
    if n == 0 {
        Some(Seq::empty())
    } else if n < 0 || s.len() == 0 {
        None
    } else {
        match byte_prefix(s.drop_first(), n - utf8_len(s[0])) {
            Some(p) => Some(seq![s[0]] + p),
            None => None,
        }
    }
}

/// The short hash the log picks for a commit: its first seven bytes, or
/// the whole text when those do not end on a character.
pub open spec fn short_hash(commit: Seq<char>) -> Seq<char> {
    match byte_prefix(commit, 7) {
        Some(p) => p,
        None => commit,
    }
}

fn utf8_len_exec(c: char) -> (r: usize)
    ensures
        r == utf8_len(c),
{
    let u = c as u32;
    if u < 0x80 {
        1
    } else if u < 0x800 {
        2
    } else if u < 0x10000 {
        3
    } else {
        4
    }
}

pub fn short_hash_of(commit: &str) -> (r: String)
    ensures
        r@ == short_hash(commit@),
{
    let c = chars_of(commit);
    let mut out: Vec<char> = Vec::new();
    let mut left: usize = 7;
    let mut i: usize = 0;
    proof {
        assert(c@.skip(0) =~= c@);
        match byte_prefix(c@, 7) {
            Some(p) => assert(out@ + p =~= p),
            None => {},
        }
    }
    while i < c.len() && left > 0
        invariant
            i <= c.len(),
            left <= 7,
            c@ == commit@,
            byte_prefix(c@, 7) == match byte_prefix(c@.skip(i as int), left as int) {
                Some(p) => Some(out@ + p),
                None => None,
            },
        decreases c.len() - i,
    {
        let l = utf8_len_exec(c[i]);
        assert(c@.skip(i as int).drop_first() =~= c@.skip(i + 1));
        assert(c@.skip(i as int)[0] == c@[i as int]);
        if l > left {
            assert(byte_prefix(c@.skip(i as int), left as int) is None);
            return string_of(c.as_slice());
        }
        proof {
            let rest = byte_prefix(c@.skip(i + 1), left - l);
            match rest {
                Some(p) => {
                    assert(out@ + (seq![c@[i as int]] + p) =~= out@.push(c@[i as int]) + p);
                },
                None => {},
            }
        }
        out.push(c[i]);
        left = left - l;
        i += 1;
    }
    if left == 0 {
        assert(out@ + Seq::<char>::empty() =~= out@);
        string_of(out.as_slice())
    } else {
        assert(c@.skip(i as int) =~= Seq::<char>::empty());
        string_of(c.as_slice())
    }
}

/// The first index where `h` occurs in `sel`.
pub open spec fn index_of(sel: Seq<Seq<char>>, h: Seq<char>) -> Option<int>
    decreases sel.len(),
{
    if sel.len() == 0 {
        None
    } else if sel[0] == h {
        Some(0)
    } else {
        match index_of(sel.drop_first(), h) {
            Some(i) => Some(i + 1),
            None => None,
        }
    }
}

/// Picking a commit that is picked already drops it; otherwise it is added
/// at the end.
pub open spec fn toggled(sel: Seq<Seq<char>>, h: Seq<char>) -> Seq<Seq<char>> {
    match index_of(sel, h) {
        Some(i) => sel.remove(i),
        None => sel.push(h),
    }
}

proof fn lemma_index_of(sel: Seq<Seq<char>>, h: Seq<char>)
    ensures
        match index_of(sel, h) {
            Some(i) => 0 <= i < sel.len() && sel[i] == h && forall|k: int| 0 <= k < i ==> sel[k] != h,
            None => forall|k: int| 0 <= k < sel.len() ==> sel[k] != h,
        },
    decreases sel.len(),
{
    if sel.len() > 0 && sel[0] != h {
        lemma_index_of(sel.drop_first(), h);
        match index_of(sel.drop_first(), h) {
            Some(i) => {
                assert forall|k: int| 0 <= k < i + 1 implies sel[k] != h by {
                    if k > 0 {
                        assert(sel[k] == sel.drop_first()[k - 1]);
                    }
                }
            },
            None => {
                assert forall|k: int| 0 <= k < sel.len() implies sel[k] != h by {
                    if k > 0 {
                        assert(sel[k] == sel.drop_first()[k - 1]);
                    }
                }
            },
        }
    }
}

/// Picking a commit twice leaves the picked commits as they were, when it
/// was not picked before.
pub proof fn lemma_toggle_twice(sel: Seq<Seq<char>>, h: Seq<char>)
    requires
        index_of(sel, h) is None,
    ensures
        toggled(toggled(sel, h), h) == sel,
{
    lemma_index_of(sel, h);
    let t = sel.push(h);
    lemma_index_of(t, h);
    assert(forall|k: int| 0 <= k < sel.len() ==> t[k] == sel[k]);
    assert(t[sel.len() as int] == h);
    assert(index_of(t, h) == Some(sel.len() as int));
    assert(t.remove(sel.len() as int) =~= sel);
}

/// The model of the log view.
pub struct GlogView {
    pub left_active: bool,
    pub left_cursor: int,
    pub right_scroll: int,
    pub right_cursor: int,
    pub selected: Seq<Seq<char>>,
}

/// The log view's panes and the commits picked for copying.
pub struct GlogState {
    left_active: bool,
    left_cursor: usize,
    right_scroll: usize,
    right_cursor: usize,
    selected: Vec<String>,
}

impl View for GlogState {
    type V = GlogView;

    closed spec fn view(&self) -> GlogView {
        GlogView {
            left_active: self.left_active,
            left_cursor: self.left_cursor as int,
            right_scroll: self.right_scroll as int,
            right_cursor: self.right_cursor as int,
            selected: views(self.selected@),
        }
    }
}

/// What a key in the log view asks of the REPL.
#[derive(Debug, Clone, Copy, PartialEq, Eq, Structural)]
pub enum GlogAction {
    Stay,
    /// Back to normal mode.
    ToNormal,
    /// Copy the files of the picked commits, then back to normal mode.
    CopySelected,
    /// Nothing is picked: say so and go back to normal mode.
    NothingSelected,
}

/// The left cursor moved to `c`: the right pane starts again at the top.
pub open spec fn left_moved(s: GlogView, c: int) -> GlogView {
    GlogView { left_cursor: c, right_scroll: 0, right_cursor: 0, ..s }
}

pub open spec fn glog_key_spec(s: GlogView, commits: Seq<Seq<char>>, key: Key, area_height: int) -> (
    GlogView,
    GlogAction,
) {
    let last = sat_sub(commits.len() as int, 1);
    let vis = page_rows(area_height);
    match key {
        Key::Tab => (GlogView { left_active: !s.left_active, ..s }, GlogAction::Stay),
        Key::Esc => (s, GlogAction::ToNormal),
        Key::Char('q') => (s, GlogAction::ToNormal),
        Key::Char('j') | Key::Down => if s.left_active {
            (if s.left_cursor < last { left_moved(s, s.left_cursor + 1) } else { s }, GlogAction::Stay)
        } else {
            (GlogView { right_cursor: s.right_cursor + 1, ..s }, GlogAction::Stay)
        },
        Key::Char('k') | Key::Up => if s.left_active {
            (if s.left_cursor > 0 { left_moved(s, s.left_cursor - 1) } else { s }, GlogAction::Stay)
        } else {
            (GlogView { right_cursor: sat_sub(s.right_cursor, 1), ..s }, GlogAction::Stay)
        },
        Key::PageDown => if s.left_active {
            (left_moved(s, if s.left_cursor + vis < last { s.left_cursor + vis } else { last }), GlogAction::Stay)
        } else {
            (GlogView { right_cursor: s.right_cursor + vis, ..s }, GlogAction::Stay)
        },
        Key::PageUp => if s.left_active {
            (left_moved(s, sat_sub(s.left_cursor, vis)), GlogAction::Stay)
        } else {
            (GlogView { right_cursor: sat_sub(s.right_cursor, vis), ..s }, GlogAction::Stay)
        },
        Key::Char('c') => (s, if s.selected.len() > 0 { GlogAction::CopySelected } else { GlogAction::NothingSelected }),
        Key::Char(' ') => if s.left_active {
            let picked = GlogView { selected: toggled(s.selected, short_hash(commits[s.left_cursor])), ..s };
            (if s.left_cursor < last { left_moved(picked, s.left_cursor + 1) } else { picked }, GlogAction::Stay)
        } else {
            (s, GlogAction::Stay)
        },
        _ => (s, GlogAction::Stay),
    }
}

impl GlogState {
    /// The left pane active, both cursors at the top, nothing picked.
    pub fn new() -> (r: GlogState)
        ensures
            r@ == (GlogView {
                left_active: true,
                left_cursor: 0,
                right_scroll: 0,
                right_cursor: 0,
                selected: Seq::empty(),
            }),
    {
        let r = GlogState {
            left_active: true,
            left_cursor: 0,
            right_scroll: 0,
            right_cursor: 0,
            selected: Vec::new(),
        };
        assert(views(r.selected@) =~= Seq::<Seq<char>>::empty());
        r
    }

    pub fn left_active(&self) -> (b: bool)
        ensures
            b == self@.left_active,
    {
        self.left_active
    }

    pub fn left_cursor(&self) -> (n: usize)
        ensures
            n == self@.left_cursor,
    {
        self.left_cursor
    }

    pub fn right_cursor(&self) -> (n: usize)
        ensures
            n == self@.right_cursor,
    {
        self.right_cursor
    }

    pub fn right_scroll(&self) -> (n: usize)
        ensures
            n == self@.right_scroll,
    {
        self.right_scroll
    }

    pub fn selected(&self) -> (r: &Vec<String>)
        ensures
            views(r@) == self@.selected,
    {
        &self.selected
    }

    /// Forgets the picked commits (after they were copied).
    pub fn clear_selected(&mut self)
        ensures
            final(self)@ == (GlogView { selected: Seq::empty(), ..old(self)@ }),
    {
        self.selected = Vec::new();
        assert(views(self.selected@) =~= Seq::<Seq<char>>::empty());
    }

    /// Handles a key in the log view over `commits`, with `area_height`
    /// rows for the panes.
    pub fn key(&mut self, commits: &Vec<String>, key: Key, area_height: usize) -> (r: GlogAction)
        requires
            old(self)@.left_cursor + area_height < usize::MAX,
            old(self)@.right_cursor + area_height < usize::MAX,
            key == Key::Char(' ') && old(self)@.left_active ==> old(self)@.left_cursor < commits.len(),
        ensures
            (final(self)@, r) == glog_key_spec(old(self)@, views(commits@), key, area_height as int),
    {
        let last = commits.len().saturating_sub(1);
        let vis = area_height.saturating_sub(2);
        match key {
            Key::Tab => {
                self.left_active = !self.left_active;
                GlogAction::Stay
            },
            Key::Esc => GlogAction::ToNormal,
            Key::Char('q') => GlogAction::ToNormal,
            Key::Char('j') | Key::Down => {
                if self.left_active {
                    if self.left_cursor < last {
                        self.left_cursor += 1;
                        self.right_scroll = 0;
                        self.right_cursor = 0;
                    }
                } else {
                    self.right_cursor += 1;
                }
                GlogAction::Stay
            },
            Key::Char('k') | Key::Up => {
                if self.left_active {
                    if self.left_cursor > 0 {
                        self.left_cursor -= 1;
                        self.right_scroll = 0;
                        self.right_cursor = 0;
                    }
                } else {
                    self.right_cursor = self.right_cursor.saturating_sub(1);
                }
                GlogAction::Stay
            },
            Key::PageDown => {
                if self.left_active {
                    let t = self.left_cursor + vis;
                    self.left_cursor = if t < last { t } else { last };
                    self.right_scroll = 0;
                    self.right_cursor = 0;
                } else {
                    self.right_cursor += vis;
                }
                GlogAction::Stay
            },
            Key::PageUp => {
                if self.left_active {
                    self.left_cursor = self.left_cursor.saturating_sub(vis);
                    self.right_scroll = 0;
                    self.right_cursor = 0;
                } else {
                    self.right_cursor = self.right_cursor.saturating_sub(vis);
                }
                GlogAction::Stay
            },
            Key::Char('c') => {
                if self.selected.len() > 0 {
                    GlogAction::CopySelected
                } else {
                    GlogAction::NothingSelected
                }
            },
            Key::Char(' ') => {
                if self.left_active {
                    let h = short_hash_of(commits[self.left_cursor].as_str());
                    proof {
                        assert(views(commits@)[self@.left_cursor] == commits@[self.left_cursor as int]@);
                    }
                    self.toggle(h);
                    if self.left_cursor < last {
                        self.left_cursor += 1;
                        self.right_scroll = 0;
                        self.right_cursor = 0;
                    }
                }
                GlogAction::Stay
            },
            _ => GlogAction::Stay,
        }
    }

    fn toggle(&mut self, h: String)
        ensures
            final(self)@ == (GlogView { selected: toggled(old(self)@.selected, h@), ..old(self)@ }),
    {
        let ghost sel = self@.selected;
        let mut i: usize = 0;
        assert(sel.skip(0) =~= sel);
        while i < self.selected.len()
            invariant
                i <= self.selected.len(),
                sel == views(self.selected@),
                self.left_active == old(self).left_active,
                self.left_cursor == old(self).left_cursor,
                self.right_scroll == old(self).right_scroll,
                self.right_cursor == old(self).right_cursor,
                self.selected@ == old(self).selected@,
                index_of(sel, h@) == match index_of(sel.skip(i as int), h@) {
                    Some(k) => Some(k + i),
                    None => None,
                },
            decreases self.selected.len() - i,
        {
            assert(sel.skip(i as int)[0] == sel[i as int]);
            assert(sel[i as int] == self.selected@[i as int]@);
            if crate::text::chars_eq(chars_of(self.selected[i].as_str()).as_slice(), chars_of(h.as_str()).as_slice()) {
                let _ = self.selected.remove(i);
                proof {
                    assert(views(self.selected@) =~= sel.remove(i as int));
                }
                return;
            }
            assert(sel.skip(i as int).drop_first() =~= sel.skip(i + 1));
            i += 1;
        }
        assert(sel.skip(i as int) =~= Seq::<Seq<char>>::empty());
        self.selected.push(h);
        assert(views(self.selected@) =~= sel.push(h@));
    }
}

/// The files that `git show --name-only` listed for the picked commits,
/// each once, in the order first seen.
pub open spec fn changed_files_acc(outputs: Seq<Seq<char>>) -> Seq<Seq<char>>
    decreases outputs.len(),
{
    if outputs.len() == 0 {
        Seq::empty()
    } else {
        add_names(changed_files_acc(outputs.drop_last()), lines(outputs.last()))
    }
}

/// `names` with each trimmed, non-empty entry of `ls` that is not there yet.
pub open spec fn add_names(names: Seq<Seq<char>>, ls: Seq<Seq<char>>) -> Seq<Seq<char>>
    decreases ls.len(),
{
    if ls.len() == 0 {
        names
    } else {
        let before = add_names(names, ls.drop_last());
        let f = trim(ls.last());
        if f.len() > 0 && !before.contains(f) {
            before.push(f)
        } else {
            before
        }
    }
}

fn contains_name(names: &Vec<Vec<char>>, f: &Vec<char>) -> (r: bool)
    ensures
        r == names@.map_values(|v: Vec<char>| v@).contains(f@),
{
    let ghost nv = names@.map_values(|v: Vec<char>| v@);
    let mut i: usize = 0;
    while i < names.len()
        invariant
            i <= names.len(),
            nv == names@.map_values(|v: Vec<char>| v@),
            forall|k: int| 0 <= k < i ==> nv[k] != f@,
        decreases names.len() - i,
    {
        if crate::text::chars_eq(names[i].as_slice(), f.as_slice()) {
            assert(nv[i as int] == f@);
            return true;
        }
        i += 1;
    }
    false
}

/// The files named in the outputs of `git show --name-only`, one per line.
pub fn changed_files(outputs: &Vec<String>) -> (r: Vec<String>)
    ensures
        views(r@) == changed_files_acc(views(outputs@)),
{
    let ghost ov = views(outputs@);
    let mut names: Vec<Vec<char>> = Vec::new();
    let mut o: usize = 0;
    while o < outputs.len()
        invariant
            o <= outputs.len(),
            ov == views(outputs@),
            names@.map_values(|v: Vec<char>| v@) == changed_files_acc(ov.take(o as int)),
        decreases outputs.len() - o,
    {
        let ls = split_lines(chars_of(outputs[o].as_str()).as_slice());
        let ghost lv = ls@.map_values(|l: Vec<char>| l@);
        let ghost base = names@.map_values(|v: Vec<char>| v@);
        assert(ov.take(o + 1).drop_last() =~= ov.take(o as int));
        assert(ov.take(o + 1).last() == outputs@[o as int]@);
        let mut j: usize = 0;
        while j < ls.len()
            invariant
                j <= ls.len(),
                lv == ls@.map_values(|l: Vec<char>| l@),
                names@.map_values(|v: Vec<char>| v@) == add_names(base, lv.take(j as int)),
            decreases ls.len() - j,
        {
            let f = trimmed(ls[j].as_slice());
            assert(lv.take(j + 1).drop_last() =~= lv.take(j as int));
            if f.len() > 0 && !contains_name(&names, &f) {
                let ghost before = names@;
                names.push(f);
                assert(names@.map_values(|v: Vec<char>| v@) =~= before.map_values(|v: Vec<char>| v@).push(
                    trim(lv[j as int]),
                ));
            }
            j += 1;
        }
        assert(lv.take(ls.len() as int) =~= lv);
        o += 1;
    }
    assert(ov.take(outputs.len() as int) =~= ov);
    let mut r: Vec<String> = Vec::new();
    let mut k: usize = 0;
    while k < names.len()
        invariant
            k <= names.len(),
            views(r@) =~= names@.map_values(|v: Vec<char>| v@).take(k as int),
        decreases names.len() - k,
    {
        let ghost before = r@;
        r.push(string_of(names[k].as_slice()));
        assert(views(r@) =~= views(before).push(names@[k as int]@));
        k += 1;
    }
    r
}

/// What is copied for one file: a `// name` header, then the file's text
/// ending in a newline, or a note that it could not be read.
pub open spec fn file_block(name: Seq<char>, content: Option<Seq<char>>) -> Seq<char> {
    "// "@ + name + seq!['\n'] + match content {
        Some(c) => if ends_with(c, seq!['\n']) {
            c
        } else {
            c.push('\n')
        },
        None => "<failed to read file>\n"@,
    }
}

pub open spec fn clipboard_text(names: Seq<Seq<char>>, contents: Seq<Option<Seq<char>>>) -> Seq<char>
    decreases names.len(),
{
    if names.len() == 0 || contents.len() < names.len() {
        Seq::empty()
    } else {
        clipboard_text(names.drop_last(), contents.drop_last()) + file_block(names.last(), contents.last())
    }
}

pub open spec fn opt_views(v: Seq<Option<String>>) -> Seq<Option<Seq<char>>> {
    Seq::new(v.len(), |i: int| match v[i] {
        Some(s) => Some(s@),
        None => None,
    })
}

/// The text copied for the picked commits' files; `contents[i]` is the
/// text of `names[i]`, `None` where it could not be read.
pub fn clipboard_content(names: &Vec<String>, contents: &Vec<Option<String>>) -> (r: String)
    requires
        names.len() == contents.len(),
    ensures
        r@ == clipboard_text(views(names@), opt_views(contents@)),
{
    let ghost nv = views(names@);
    let ghost cv = opt_views(contents@);
    let mut out: Vec<char> = Vec::new();
    let mut i: usize = 0;
    while i < names.len()
        invariant
            i <= names.len(),
            names.len() == contents.len(),
            nv == views(names@),
            cv == opt_views(contents@),
            out@ == clipboard_text(nv.take(i as int), cv.take(i as int)),
        decreases names.len() - i,
    {
        assert(nv.take(i + 1).drop_last() =~= nv.take(i as int));
        assert(cv.take(i + 1).drop_last() =~= cv.take(i as int));
        let ghost before = out@;
        push_str_chars(&mut out, "// ");
        push_str_chars(&mut out, names[i].as_str());
        out.push('\n');
        match &contents[i] {
            Some(c) => {
                let cc = chars_of(c.as_str());
                assert(cc@ == c@);
                let ends = cc.len() > 0 && cc[cc.len() - 1] == '\n';
                proof {
                    if cc.len() > 0 {
                        assert(c@.skip(c@.len() - 1) =~= seq![c@.last()]);
                        assert(cc[cc.len() - 1] == c@.last());
                        if !ends {
                            assert(c@.skip(c@.len() - 1)[0] != '\n');
                        }
                    }
                    assert(ends == ends_with(c@, seq!['\n']));
                }
                push_str_chars(&mut out, c.as_str());
                if !ends {
                    out.push('\n');
                }
            },
            None => {
                push_str_chars(&mut out, "<failed to read file>\n");
            },
        }
        proof {
            reveal_strlit("// ");
            reveal_strlit("<failed to read file>\n");
            assert(out@ =~= before + file_block(nv[i as int], cv[i as int]));
        }
        i += 1;
    }
    assert(nv.take(names.len() as int) =~= nv);
    assert(cv.take(names.len() as int) =~= cv);
    string_of(out.as_slice())
}

// --------------------------------------------------------------- the diff

pub open spec fn is_change(r: RowView) -> bool {
    !(r is Equal)
}

/// The first changed row after `from`.
pub open spec fn next_change(rows: Seq<RowView>, from: int) -> Option<int>
    decreases rows.len() - from,
{
    if from + 1 >= rows.len() || from + 1 < 0 {
        None
    } else if is_change(rows[from + 1]) {
        Some(from + 1)
    } else {
        next_change(rows, from + 1)
    }
}

/// The last changed row before `from`.
pub open spec fn prev_change(rows: Seq<RowView>, from: int) -> Option<int>
    decreases from,
{
    if from <= 0 {
        None
    } else if is_change(rows[from - 1]) {
        Some(from - 1)
    } else {
        prev_change(rows, from - 1)
    }
}

/// The model of the diff view.
pub struct GdiffView {
    pub left_active: bool,
    pub cursor: int,
}

pub open spec fn gdiff_key_spec(s: GdiffView, rows: Seq<RowView>, key: Key, area_height: int) -> (GdiffView, bool) {
    let last = sat_sub(rows.len() as int, 1);
    let vis = page_rows(area_height);
    match key {
        Key::Tab => (GdiffView { left_active: !s.left_active, ..s }, false),
        Key::Esc | Key::Char('q') => (s, true),
        Key::Char('j') | Key::Down => (
            if s.cursor < last { GdiffView { cursor: s.cursor + 1, ..s } } else { s },
            false,
        ),
        Key::Char('k') | Key::Up => (GdiffView { cursor: sat_sub(s.cursor, 1), ..s }, false),
        Key::Char('l') => (
            match next_change(rows, s.cursor) {
                Some(i) => GdiffView { cursor: i, ..s },
                None => s,
            },
            false,
        ),
        Key::Char('h') => (
            match prev_change(rows, s.cursor) {
                Some(i) => GdiffView { cursor: i, ..s },
                None => s,
            },
            false,
        ),
        Key::PageDown | Key::Char(' ') => (
            GdiffView { cursor: if s.cursor + vis < last { s.cursor + vis } else { last }, ..s },
            false,
        ),
        Key::PageUp => (GdiffView { cursor: sat_sub(s.cursor, vis), ..s }, false),
        _ => (s, false),
    }
}

/// The diff view's active pane and its row cursor.
#[derive(Debug, Clone, Copy, PartialEq, Eq, Structural)]
pub struct GdiffState {
    pub left_active: bool,
    pub cursor: usize,
}

impl GdiffState {
    pub open spec fn model(self) -> GdiffView {
        GdiffView { left_active: self.left_active, cursor: self.cursor as int }
    }

    /// Handles a key in the diff view over `rows`; returns whether the view
    /// closes (back to normal mode).
    pub fn key(&mut self, rows: &Vec<DiffRow>, key: Key, area_height: usize) -> (to_normal: bool)
        requires
            old(self).cursor <= rows.len(),
            old(self).cursor + area_height < usize::MAX,
        ensures
            (final(self).model(), to_normal) == gdiff_key_spec(old(self).model(), rows_view(rows@), key, area_height as int),
            final(self).cursor <= rows.len(),
    {
        let ghost rv = rows_view(rows@);
        let last = rows.len().saturating_sub(1);
        let vis = area_height.saturating_sub(2);
        match key {
            Key::Tab => {
                self.left_active = !self.left_active;
                false
            },
            Key::Esc | Key::Char('q') => true,
            Key::Char('j') | Key::Down => {
                if self.cursor < last {
                    self.cursor += 1;
                }
                false
            },
            Key::Char('k') | Key::Up => {
                self.cursor = self.cursor.saturating_sub(1);
                false
            },
            Key::Char('l') => {
                let mut i = self.cursor + 1;
                while i < rows.len()
                    invariant
                        key == Key::Char('l'),
                        self.cursor + 1 <= i,
                        i <= rows.len() || i == self.cursor + 1,
                        self.cursor == old(self).cursor,
                        self.left_active == old(self).left_active,
                        self.cursor <= rows.len(),
                        rv == rows_view(rows@),
                        next_change(rv, self.cursor as int) == next_change(rv, i - 1),
                    decreases rows.len() - i,
                {
                    let eq = match &rows[i] {
                        DiffRow::Equal(_) => true,
                        _ => false,
                    };
                    assert(rv[i as int] == rows@[i as int]@);
                    assert(eq == !is_change(rv[i as int]));
                    if !eq {
                        assert(next_change(rv, i - 1) == Some(i as int));
                        self.cursor = i;
                        return false;
                    }
                    i += 1;
                }
                false
            },
            Key::Char('h') => {
                if self.cursor > 0 {
                    let mut i = self.cursor;
                    while i > 0
                        invariant
                            key == Key::Char('h'),
                            i <= self.cursor,
                            self.cursor <= rows.len(),
                            self.cursor == old(self).cursor,
                            self.left_active == old(self).left_active,
                            rv == rows_view(rows@),
                            prev_change(rv, self.cursor as int) == prev_change(rv, i as int),
                        decreases i,
                    {
                        let eq = match &rows[i - 1] {
                            DiffRow::Equal(_) => true,
                            _ => false,
                        };
                        assert(rv[i - 1] == rows@[i - 1]@);
                        assert(eq == !is_change(rv[i - 1]));
                        if !eq {
                            assert(prev_change(rv, i as int) == Some(i - 1));
                            self.cursor = i - 1;
                            return false;
                        }
                        i -= 1;
                    }
                }
                false
            },
            Key::PageDown | Key::Char(' ') => {
                let t = self.cursor + vis;
                self.cursor = if t < last { t } else { last };
                false
            },
            Key::PageUp => {
                self.cursor = self.cursor.saturating_sub(vis);
                false
            },
            _ => false,
        }
    }
}

/// `l` lands on the first changed row after the cursor: every row it skips
/// is unchanged.
pub proof fn lemma_next_change(rows: Seq<RowView>, from: int)
    requires
        0 <= from,
    ensures
        match next_change(rows, from) {
            Some(i) => from < i < rows.len() && is_change(rows[i]) && forall|k: int|
                from < k < i ==> !is_change(#[trigger] rows[k]),
            None => forall|k: int| from < k < rows.len() ==> !is_change(#[trigger] rows[k]),
        },
    decreases rows.len() - from,
{
    if from + 1 < rows.len() && !is_change(rows[from + 1]) {
        lemma_next_change(rows, from + 1);
    }
}

/// `h` lands on the last changed row before the cursor: every row it skips
/// is unchanged.
pub proof fn lemma_prev_change(rows: Seq<RowView>, from: int)
    requires
        from <= rows.len(),
    ensures
        match prev_change(rows, from) {
            Some(i) => 0 <= i < from && is_change(rows[i]) && forall|k: int|
                i < k < from ==> !is_change(#[trigger] rows[k]),
            None => forall|k: int| 0 <= k < from ==> !is_change(#[trigger] rows[k]),
        },
    decreases from,
{
    if from > 0 && !is_change(rows[from - 1]) {
        lemma_prev_change(rows, from - 1);
    }
}

/// The first row the diff shows so that the cursor row is on screen:
/// clamped to the last full page, then moved just enough to show the cursor.
pub open spec fn gdiff_scroll_spec(scroll: int, cursor: int, rows: int, visible: int) -> int {
    let max_scroll = sat_sub(rows, visible);
    let s = if scroll > max_scroll { max_scroll } else { scroll };
    if cursor < s {
        cursor
    } else if cursor >= s + visible {
        cursor + 1 - visible
    } else {
        s
    }
}

pub fn gdiff_scroll(scroll: usize, cursor: usize, rows: usize, visible: usize) -> (r: usize)
    requires
        scroll + visible <= usize::MAX,
        cursor + 1 <= usize::MAX,
    ensures
        r == gdiff_scroll_spec(scroll as int, cursor as int, rows as int, visible as int),
{
    let max_scroll = rows.saturating_sub(visible);
    let s = if scroll > max_scroll { max_scroll } else { scroll };
    if cursor < s {
        cursor
    } else if cursor >= s + visible {
        cursor + 1 - visible
    } else {
        s
    }
}

} // verus!
