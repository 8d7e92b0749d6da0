//! Insert mode: the keys that edit the input line, the completion of
//! `/skill` names, and the candidates offered for it.

use vstd::prelude::*;
use crate::editor::{kill_word_ok, spec_history_down, spec_history_up, with_buffer, EditorState, LineEditor};
use crate::keymap::{is_char, Key, Modifiers};
use crate::text::{chars_of, contains, ends_with, starts_with, string_of, strip_start_char, views};

verus! {

broadcast use vstd::string::group_string_axioms;

/// The completion of a `/skill` name: whether it is on, the candidates,
/// the prefix they were found for, and the one shown.
#[derive(Debug, Clone)]
pub struct Completion {
    pub active: bool,
    pub candidates: Vec<String>,
    pub prefix: String,
    pub idx: usize,
}

pub struct CompletionView {
    pub active: bool,
    pub candidates: Seq<Seq<char>>,
    pub prefix: Seq<char>,
    pub idx: nat,
}

impl Completion {
    pub open spec fn view(&self) -> CompletionView {
        CompletionView { active: self.active, candidates: views(self.candidates@), prefix: self.prefix@, idx: self.idx as nat }
    }

    /// An active completion shows one of its candidates.
    pub open spec fn wf(&self) -> bool {
        self.active ==> self.idx < self.candidates@.len()
    }

    pub fn new() -> (r: Completion)
        ensures
            r.wf(),
            !r.active,
            r.candidates@.len() == 0,
    {
        Completion { active: false, candidates: Vec::new(), prefix: String::new(), idx: 0 }
    }
}

/// What insert mode asks of the REPL after a key.
#[derive(Debug, Clone, PartialEq, Eq)]
pub enum InsertAction {
    Nothing,
    /// Back to normal mode.
    ToNormal,
    /// Send the typed text.
    Submit(String),
    /// Read the clipboard for patches.
    PasteFromClipboard,
    /// Find the skills whose names start with this prefix, then call
    /// `offer_skills`.
    LookUpSkills(String),
    /// Show the popup of the skill's subcommands.
    SkillPopup,
    /// Tell that no skill matches.
    NoSkillFound,
}

/// The model of an action.
pub enum ActionView {
    Nothing,
    ToNormal,
    Submit(Seq<char>),
    PasteFromClipboard,
    LookUpSkills(Seq<char>),
    SkillPopup,
    NoSkillFound,
}

pub open spec fn action_view(a: InsertAction) -> ActionView {
    match a {
        InsertAction::Nothing => ActionView::Nothing,
        InsertAction::ToNormal => ActionView::ToNormal,
        InsertAction::Submit(t) => ActionView::Submit(t@),
        InsertAction::PasteFromClipboard => ActionView::PasteFromClipboard,
        InsertAction::LookUpSkills(p) => ActionView::LookUpSkills(p@),
        InsertAction::SkillPopup => ActionView::SkillPopup,
        InsertAction::NoSkillFound => ActionView::NoSkillFound,
    }
}

/// The editor after `s` is typed at the cursor.
pub open spec fn typed(st: EditorState, s: Seq<char>) -> EditorState {
    with_buffer(st, st.buffer.take(st.cursor) + s + st.buffer.skip(st.cursor), st.cursor + s.len())
}

/// Types `s` at the cursor.
pub fn type_str(editor: &mut LineEditor, s: &str)
    requires
        old(editor).wf(),
    ensures
        final(editor).wf(),
        final(editor)@ == typed(old(editor)@, s@),
{
    let c = chars_of(s);
    let ghost st = editor@;
    proof {
        editor.lemma_cursor_in_text();
    }
    let mut i: usize = 0;
    assert(st.buffer.take(st.cursor) + c@.take(0) + st.buffer.skip(st.cursor) =~= st.buffer);
    while i < c.len()
        invariant
            i <= c@.len(),
            editor.wf(),
            0 <= st.cursor <= st.buffer.len(),
            editor@ == typed(st, c@.take(i as int)),
        decreases c.len() - i,
    {
        let ghost before = editor@;
        editor.insert_char(c[i]);
        proof {
            let pre = st.buffer.take(st.cursor);
            let post = st.buffer.skip(st.cursor);
            assert(before.buffer == pre + c@.take(i as int) + post);
            assert(before.cursor == st.cursor + i);
            assert(before.buffer.insert(before.cursor, c@[i as int]) =~= pre + c@.take(i + 1) + post);
        }
        i += 1;
    }
    assert(c@.take(c.len() as int) =~= c@);
}

/// The editor after its text up to the cursor is replaced by `s`.
pub open spec fn replaced_head(st: EditorState, s: Seq<char>) -> EditorState {
    with_buffer(st, s + st.buffer.skip(st.cursor), s.len() as int)
}

fn replace_head(editor: &mut LineEditor, s: &str)
    requires
        old(editor).wf(),
    ensures
        final(editor).wf(),
        final(editor)@ == replaced_head(old(editor)@, s@),
{
    let ghost st = editor@;
    editor.kill_to_start();
    type_str(editor, s);
    proof {
        assert(Seq::<char>::empty() + s@ + st.buffer.skip(st.cursor).skip(0) =~= s@ + st.buffer.skip(st.cursor));
        assert(st.buffer.skip(st.cursor).take(0) =~= Seq::<char>::empty());
    }
}

pub open spec fn cleared(c: CompletionView) -> CompletionView {
    CompletionView { active: false, candidates: Seq::empty(), ..c }
}

/// The skill name typed so far: the text after its leading `/`s, when the
/// text starts with `/` and holds no space.
pub open spec fn skill_prefix(text: Seq<char>) -> Option<Seq<char>> {
    if text.len() > 0 && text[0] == '/' && !text.contains(' ') {
        Some(strip_start_char(text, '/'))
    } else {
        None
    }
}

pub open spec fn is_ctrl_letter(key: Key, lower: char, upper: char) -> bool {
    is_char(key, lower) || is_char(key, upper)
}

/// What a key does in insert mode: the editor, the completion and the
/// action after it.
pub open spec fn insert_spec(st: EditorState, c: CompletionView, key: Key, m: Modifiers) -> (
    EditorState,
    CompletionView,
    ActionView,
) {
    if m.ctrl {
        let st2 = if is_ctrl_letter(key, 'a', 'A') {
            with_buffer(st, st.buffer, 0)
        } else if is_ctrl_letter(key, 'e', 'E') {
            with_buffer(st, st.buffer, st.buffer.len() as int)
        } else if is_ctrl_letter(key, 'u', 'U') {
            with_buffer(st, st.buffer.skip(st.cursor), 0)
        } else if is_ctrl_letter(key, 'k', 'K') {
            with_buffer(st, st.buffer.take(st.cursor), st.cursor)
        } else if is_ctrl_letter(key, 'w', 'W') {
            if st.cursor == 0 {
                st
            } else {
                let w = crate::editor::word_start(st);
                with_buffer(st, st.buffer.take(w) + st.buffer.skip(st.cursor), w)
            }
        } else {
            st
        };
        (st2, c, ActionView::Nothing)
    } else if m.alt && (is_ctrl_letter(key, 'v', 'V') || is_ctrl_letter(key, 'p', 'P')) {
        (st, c, ActionView::PasteFromClipboard)
    } else {
        match key {
            Key::Esc => (st, cleared(c), ActionView::ToNormal),
            Key::Tab => match skill_prefix(st.buffer) {
                Some(p) => if !c.active || c.prefix != p {
                    (st, c, ActionView::LookUpSkills(p))
                } else {
                    let n: int = ((c.idx + 1) as int) % (c.candidates.len() as int);
                    (replaced_head(st, c.candidates[n]), CompletionView { idx: n as nat, ..c }, ActionView::Nothing)
                },
                None => (st, c, ActionView::Nothing),
            },
            Key::Right => if c.active && c.candidates.len() > 0 {
                (
                    if !ends_with(st.buffer, " "@) && !st.buffer.contains(' ') { typed(st, " "@) } else { st },
                    c,
                    ActionView::SkillPopup,
                )
            } else {
                (
                    if st.cursor < st.buffer.len() { with_buffer(st, st.buffer, st.cursor + 1) } else { st },
                    c,
                    ActionView::Nothing,
                )
            },
            Key::Enter => if m.shift || m.alt {
                (typed(st, "\n"@), cleared(c), ActionView::Nothing)
            } else {
                (
                    EditorState {
                        buffer: Seq::empty(),
                        cursor: 0,
                        history: crate::editor::record(st.history, st.buffer),
                        index: None,
                        saved: Seq::empty(),
                    },
                    cleared(c),
                    ActionView::Submit(st.buffer),
                )
            },
            Key::Char(ch) => (typed(st, seq![ch]), cleared(c), ActionView::Nothing),
            Key::Backspace => (
                if st.cursor > 0 { with_buffer(st, st.buffer.remove(st.cursor - 1), st.cursor - 1) } else { st },
                cleared(c),
                ActionView::Nothing,
            ),
            Key::Delete => (
                if st.cursor < st.buffer.len() { with_buffer(st, st.buffer.remove(st.cursor), st.cursor) } else { st },
                CompletionView { active: false, ..c },
                ActionView::Nothing,
            ),
            Key::Left => (
                if st.cursor > 0 { with_buffer(st, st.buffer, st.cursor - 1) } else { st },
                c,
                ActionView::Nothing,
            ),
            Key::Home => (with_buffer(st, st.buffer, 0), c, ActionView::Nothing),
            Key::End => (with_buffer(st, st.buffer, st.buffer.len() as int), c, ActionView::Nothing),
            Key::Up => (spec_history_up(st), c, ActionView::Nothing),
            Key::Down => (spec_history_down(st), c, ActionView::Nothing),
            _ => (st, c, ActionView::Nothing),
        }
    }
}

pub open spec fn same_completion(a: CompletionView, b: CompletionView) -> bool {
    a.active == b.active && a.candidates == b.candidates && a.prefix == b.prefix && a.idx == b.idx
}

fn clear_completion(comp: &mut Completion)
    ensures
        same_completion(final(comp).view(), cleared(old(comp).view())),
        final(comp).wf(),
{
    comp.active = false;
    comp.candidates = Vec::new();
    assert(views(comp.candidates@) =~= Seq::<Seq<char>>::empty());
}

fn is_letter(key: Key, lower: char, upper: char) -> (r: bool)
    ensures
        r == is_ctrl_letter(key, lower, upper),
{
    match key {
        Key::Char(c) => c == lower || c == upper,
        _ => false,
    }
}

/// Handles a key in insert mode. Ctrl-W needs a word boundary it can step
/// over (`kill_word_ok`).
pub fn insert_key(editor: &mut LineEditor, comp: &mut Completion, key: Key, m: Modifiers) -> (r: InsertAction)
    requires
        old(editor).wf(),
        old(comp).wf(),
        m.ctrl && is_ctrl_letter(key, 'w', 'W') ==> kill_word_ok(old(editor)@),
    ensures
        final(editor).wf(),
        final(comp).wf(),
        ({
            let (st, c, a) = insert_spec(old(editor)@, old(comp).view(), key, m);
            &&& final(editor)@ == st
            &&& same_completion(final(comp).view(), c)
            &&& action_view(r) == a
        }),
{
    proof {
        editor.lemma_cursor_in_text();
    }
    if m.ctrl {
        if is_letter(key, 'a', 'A') {
            editor.move_home();
        } else if is_letter(key, 'e', 'E') {
            editor.move_end();
        } else if is_letter(key, 'u', 'U') {
            editor.kill_to_start();
        } else if is_letter(key, 'k', 'K') {
            editor.kill_to_end();
        } else if is_letter(key, 'w', 'W') {
            editor.kill_word_back();
        }
        return InsertAction::Nothing;
    }
    if m.alt && (is_letter(key, 'v', 'V') || is_letter(key, 'p', 'P')) {
        return InsertAction::PasteFromClipboard;
    }
    match key {
        Key::Esc => {
            clear_completion(comp);
            InsertAction::ToNormal
        },
        Key::Tab => {
            let text = chars_of(editor.content().as_str());
            if text.len() > 0 && text[0] == '/' && !crate::text::contains_char(text.as_slice(), ' ') {
                let p = strip_leading_slashes(text.as_slice());
                let same = crate::text::chars_eq(chars_of(comp.prefix.as_str()).as_slice(), p.as_slice());
                if !comp.active || !same {
                    InsertAction::LookUpSkills(string_of(p.as_slice()))
                } else {
                    let len = comp.candidates.len();
                    assert(comp.idx < len);
                    let n = (comp.idx + 1) % len;
                    comp.idx = n;
                    replace_head(editor, comp.candidates[n].as_str());
                    InsertAction::Nothing
                }
            } else {
                InsertAction::Nothing
            }
        },
        Key::Right => {
            if comp.active && comp.candidates.len() > 0 {
                let text = chars_of(editor.content().as_str());
                if !crate::text::ends_with_exec(text.as_slice(), chars_of(" ").as_slice())
                    && !crate::text::contains_char(text.as_slice(), ' ') {
                    type_str(editor, " ");
                }
                InsertAction::SkillPopup
            } else {
                editor.move_right();
                InsertAction::Nothing
            }
        },
        Key::Enter => {
            clear_completion(comp);
            if m.shift || m.alt {
                type_str(editor, "\n");
                InsertAction::Nothing
            } else {
                InsertAction::Submit(editor.submit())
            }
        },
        Key::Char(ch) => {
            clear_completion(comp);
            let ghost st = editor@;
            editor.insert_char(ch);
            assert(st.buffer.insert(st.cursor, ch) =~= st.buffer.take(st.cursor) + seq![ch] + st.buffer.skip(st.cursor));
            InsertAction::Nothing
        },
        Key::Backspace => {
            clear_completion(comp);
            editor.backspace();
            InsertAction::Nothing
        },
        Key::Delete => {
            comp.active = false;
            editor.delete();
            InsertAction::Nothing
        },
        Key::Left => {
            editor.move_left();
            InsertAction::Nothing
        },
        Key::Home => {
            editor.move_home();
            InsertAction::Nothing
        },
        Key::End => {
            editor.move_end();
            InsertAction::Nothing
        },
        Key::Up => {
            editor.history_up();
            InsertAction::Nothing
        },
        Key::Down => {
            editor.history_down();
            InsertAction::Nothing
        },
        _ => InsertAction::Nothing,
    }
}

fn strip_leading_slashes(s: &[char]) -> (r: Vec<char>)
    ensures
        r@ == strip_start_char(s@, '/'),
{
    let mut a: usize = 0;
    assert(s@.skip(0) =~= s@);
    while a < s.len() && s[a] == '/'
        invariant
            a <= s.len(),
            strip_start_char(s@, '/') == strip_start_char(s@.skip(a as int), '/'),
        decreases s.len() - a,
    {
        assert(s@.skip(a as int).drop_first() =~= s@.skip(a + 1));
        a += 1;
    }
    assert(s@.subrange(a as int, s.len() as int) =~= s@.skip(a as int));
    crate::text::copy_range(s, a, s.len())
}

/// Offers the skills found for `prefix` after Tab: the first one replaces
/// the typed name, or the user is told that none matches.
pub fn offer_skills(editor: &mut LineEditor, comp: &mut Completion, prefix: &str, candidates: Vec<String>) -> (r: InsertAction)
    requires
        old(editor).wf(),
    ensures
        final(editor).wf(),
        final(comp).wf(),
        final(comp).view().candidates == views(candidates@),
        final(comp).view().prefix == prefix@,
        final(comp).idx == 0,
        final(comp).active == (candidates@.len() > 0),
        candidates@.len() > 0 ==> final(editor)@ == replaced_head(old(editor)@, candidates@[0]@) && r
            == InsertAction::Nothing,
        candidates@.len() == 0 ==> final(editor)@ == old(editor)@ && r == InsertAction::NoSkillFound,
{
    let n = candidates.len();
    comp.candidates = candidates;
    comp.prefix = string_of(chars_of(prefix).as_slice());
    comp.idx = 0;
    comp.active = n > 0;
    if n > 0 {
        replace_head(editor, comp.candidates[0].as_str());
        InsertAction::Nothing
    } else {
        InsertAction::NoSkillFound
    }
}

/// `a` sorts before or with `b`: character by character, a prefix first
/// (the order of `String`).
pub open spec fn lex_le(a: Seq<char>, b: Seq<char>) -> bool
    decreases a.len(),
{
    if a.len() == 0 {
        true
    } else if b.len() == 0 {
        false
    } else if a[0] != b[0] {
        a[0] < b[0]
    } else {
        lex_le(a.drop_first(), b.drop_first())
    }
}

pub proof fn lemma_lex_total(a: Seq<char>, b: Seq<char>)
    ensures
        lex_le(a, b) || lex_le(b, a),
    decreases a.len(),
{
    if a.len() > 0 && b.len() > 0 && a[0] == b[0] {
        lemma_lex_total(a.drop_first(), b.drop_first());
    }
}

pub proof fn lemma_lex_trans(a: Seq<char>, b: Seq<char>, c: Seq<char>)
    requires
        lex_le(a, b),
        lex_le(b, c),
    ensures
        lex_le(a, c),
    decreases a.len(),
{
    if a.len() > 0 && b.len() > 0 && c.len() > 0 && a[0] == b[0] && b[0] == c[0] {
        lemma_lex_trans(a.drop_first(), b.drop_first(), c.drop_first());
    }
}

fn lex_le_exec(a: &[char], b: &[char]) -> (r: bool)
    ensures
        r == lex_le(a@, b@),
{
    let mut i: usize = 0;
    assert(a@.skip(0) =~= a@);
    assert(b@.skip(0) =~= b@);
    while i < a.len() && i < b.len() && a[i] == b[i]
        invariant
            i <= a.len(),
            i <= b.len(),
            lex_le(a@, b@) == lex_le(a@.skip(i as int), b@.skip(i as int)),
        decreases a.len() - i,
    {
        assert(a@.skip(i as int).drop_first() =~= a@.skip(i + 1));
        assert(b@.skip(i as int).drop_first() =~= b@.skip(i + 1));
        i += 1;
    }
    if i == a.len() {
        assert(a@.skip(i as int).len() == 0);
        true
    } else if i == b.len() {
        false
    } else {
        assert(a@.skip(i as int)[0] == a@[i as int]);
        assert(b@.skip(i as int)[0] == b@[i as int]);
        a[i] < b[i]
    }
}

pub open spec fn sorted_lex(s: Seq<Seq<char>>) -> bool {
    forall|i: int, j: int| 0 <= i < j < s.len() ==> lex_le(s[i], s[j])
}

/// A directory entry of the skills directory: its name, whether it is a
/// directory, and whether it holds a `SKILL.md`.
#[derive(Debug, Clone)]
pub struct SkillDir {
    pub name: String,
    pub is_dir: bool,
    pub has_skill_md: bool,
}

/// The names of the skills that start with `prefix`, in order of the
/// entries.
pub open spec fn skill_names(es: Seq<SkillDir>, prefix: Seq<char>) -> Seq<Seq<char>>
    decreases es.len(),
{
    if es.len() == 0 {
        Seq::empty()
    } else {
        let before = skill_names(es.drop_last(), prefix);
        let e = es.last();
        if e.is_dir && e.has_skill_md && starts_with(e.name@, prefix) {
            before.push(e.name@)
        } else {
            before
        }
    }
}

/// The completions offered for `/prefix`: the skills (directories holding
/// a `SKILL.md`) whose names start with it, sorted, each with a `/`.
pub fn skill_candidates(entries: &Vec<SkillDir>, prefix: &str) -> (r: Vec<String>)
    ensures
        exists|names: Seq<Seq<char>>|
            {
                &&& sorted_lex(names)
                &&& names.to_multiset() == skill_names(entries@, prefix@).to_multiset()
                &&& views(r@) == names.map_values(|n: Seq<char>| "/"@ + n)
            },
{
    let p = chars_of(prefix);
    let mut sorted: Vec<Vec<char>> = Vec::new();
    let mut i: usize = 0;
    assert(entries@.take(0) =~= Seq::<SkillDir>::empty());
    assert(sorted@.map_values(|v: Vec<char>| v@) =~= Seq::<Seq<char>>::empty());
    while i < entries.len()
        invariant
            i <= entries@.len(),
            p@ == prefix@,
            sorted_lex(sorted@.map_values(|v: Vec<char>| v@)),
            sorted@.map_values(|v: Vec<char>| v@).to_multiset() == skill_names(entries@.take(i as int), prefix@).to_multiset(),
        decreases entries.len() - i,
    {
        proof {
            assert(entries@.take(i + 1).drop_last() =~= entries@.take(i as int));
            assert(entries@.take(i + 1).last() == entries@[i as int]);
        }
        let e = &entries[i];
        let n = chars_of(e.name.as_str());
        let ghost pre_names = skill_names(entries@.take(i as int), prefix@);
        assert(n@ == entries@[i as int].name@);
        if e.is_dir && e.has_skill_md && starts_with_exec_str(n.as_slice(), p.as_slice()) {
            let ghost sv = sorted@.map_values(|v: Vec<char>| v@);
            let mut k: usize = 0;
            while k < sorted.len() && lex_le_exec(sorted[k].as_slice(), n.as_slice())
                invariant
                    k <= sorted@.len(),
                    sv == sorted@.map_values(|v: Vec<char>| v@),
                    forall|j: int| 0 <= j < k ==> lex_le(sv[j], n@),
                decreases sorted.len() - k,
            {
                k += 1;
            }
            let ghost nv = n@;
            sorted.insert(k, n);
            proof {
                let after = sorted@.map_values(|v: Vec<char>| v@);
                assert(after =~= sv.insert(k as int, nv));
                if k < sv.len() {
                    assert(!lex_le(sv[k as int], nv));
                    lemma_lex_total(sv[k as int], nv);
                }
                assert forall|a: int, b: int| 0 <= a < b < after.len() implies lex_le(after[a], after[b]) by {
                    if a < k && b == k {
                    } else if a == k && b > k {
                        assert(after[b] == sv[b - 1]);
                        if b - 1 > k {
                            lemma_lex_trans(nv, sv[k as int], sv[b - 1]);
                        }
                    } else if a < k && b > k {
                        assert(after[b] == sv[b - 1]);
                    } else if a > k {
                        assert(after[a] == sv[a - 1]);
                        assert(after[b] == sv[b - 1]);
                    }
                }
                vstd::seq_lib::to_multiset_insert(sv, k as int, nv);
                vstd::seq_lib::to_multiset_build(pre_names, nv);
                assert(skill_names(entries@.take(i + 1), prefix@) == pre_names.push(nv));
            }
        }
        i += 1;
    }
    assert(entries@.take(entries.len() as int) =~= entries@);
    let ghost names = sorted@.map_values(|v: Vec<char>| v@);
    let mut out: Vec<String> = Vec::new();
    let mut j: usize = 0;
    while j < sorted.len()
        invariant
            j <= sorted@.len(),
            names == sorted@.map_values(|v: Vec<char>| v@),
            out@.len() == j,
            forall|q: int| 0 <= q < j ==> (#[trigger] out@[q])@ == "/"@ + names[q],
        decreases sorted.len() - j,
    {
        let mut t = chars_of("/");
        crate::text::extend_from(&mut t, sorted[j].as_slice());
        out.push(string_of(t.as_slice()));
        j += 1;
    }
    assert(views(out@) =~= names.map_values(|n: Seq<char>| "/"@ + n));
    out
}

fn starts_with_exec_str(s: &[char], p: &[char]) -> (r: bool)
    ensures
        r == starts_with(s@, p@),
{
    crate::text::starts_with_exec(s, p)
}

/// Backspace undoes typing a character: the text and the cursor come
/// back as they were.
pub proof fn lemma_backspace_undoes_typing(st: EditorState, c: CompletionView, ch: char)
    requires
        0 <= st.cursor <= st.buffer.len(),
    ensures
        ({
            let plain = Modifiers { ctrl: false, alt: false, meta: false, shift: false };
            let (st1, c1, _) = insert_spec(st, c, Key::Char(ch), plain);
            let (st2, _, _) = insert_spec(st1, c1, Key::Backspace, plain);
            st2 == st
        }),
{
    let t = st.buffer.take(st.cursor) + seq![ch] + st.buffer.skip(st.cursor);
    assert(t.remove(st.cursor) =~= st.buffer);
}

/// What the command line asks of the REPL after a key.
#[derive(Debug, Clone, PartialEq, Eq)]
pub enum CommandLineAction {
    Nothing,
    /// Back to normal mode.
    ToNormal,
    /// Run this command.
    Execute(String),
}

/// What a key does on the `:` command line: the editor after it, and
/// whether it leaves the line (`None` to stay, `Some(None)` for normal
/// mode, `Some(Some(text))` to run `text`).
pub open spec fn command_line_spec(st: EditorState, key: Key, m: Modifiers) -> (EditorState, Option<Option<Seq<char>>>) {
    if m.ctrl {
        let (st2, _, _) = insert_spec(st, CompletionView { active: false, candidates: Seq::empty(), prefix: Seq::empty(), idx: 0 }, key, m);
        (st2, None)
    } else {
        match key {
            Key::Esc => (with_buffer(st, Seq::empty(), 0), Some(None)),
            Key::Tab => (crate::editor::spec_tab_complete(st, crate::misc::command_names()), None),
            Key::Enter => (
                EditorState {
                    buffer: Seq::empty(),
                    cursor: 0,
                    history: crate::editor::record(st.history, st.buffer),
                    index: None,
                    saved: Seq::empty(),
                },
                Some(Some(st.buffer)),
            ),
            Key::Backspace => {
                let st2 = if st.cursor > 0 { with_buffer(st, st.buffer.remove(st.cursor - 1), st.cursor - 1) } else { st };
                (st2, if st2.buffer.len() == 0 { Some(None) } else { None })
            },
            Key::Char(ch) => (typed(st, seq![ch]), None),
            Key::Left => (if st.cursor > 0 { with_buffer(st, st.buffer, st.cursor - 1) } else { st }, None),
            Key::Right => (if st.cursor < st.buffer.len() { with_buffer(st, st.buffer, st.cursor + 1) } else { st }, None),
            Key::Home => (with_buffer(st, st.buffer, 0), None),
            Key::End => (with_buffer(st, st.buffer, st.buffer.len() as int), None),
            Key::Up => (spec_history_up(st), None),
            Key::Down => (spec_history_down(st), None),
            _ => (st, None),
        }
    }
}

/// Handles a key on the `:` command line.
pub fn command_line_key(editor: &mut LineEditor, key: Key, m: Modifiers) -> (r: CommandLineAction)
    requires
        old(editor).wf(),
        m.ctrl && is_ctrl_letter(key, 'w', 'W') ==> kill_word_ok(old(editor)@),
    ensures
        final(editor).wf(),
        ({
            let (st, leave) = command_line_spec(old(editor)@, key, m);
            &&& final(editor)@ == st
            &&& match r {
                CommandLineAction::Nothing => leave is None,
                CommandLineAction::ToNormal => leave == Some(None::<Seq<char>>),
                CommandLineAction::Execute(t) => leave == Some(Some(t@)),
            }
        }),
{
    proof {
        editor.lemma_cursor_in_text();
    }
    if m.ctrl {
        let mut scratch = Completion::new();
        let _ = insert_key(editor, &mut scratch, key, m);
        return CommandLineAction::Nothing;
    }
    match key {
        Key::Esc => {
            editor.clear();
            CommandLineAction::ToNormal
        },
        Key::Tab => {
            let names = crate::misc::command_list();
            editor.tab_complete(names.as_slice());
            CommandLineAction::Nothing
        },
        Key::Enter => CommandLineAction::Execute(editor.submit()),
        Key::Backspace => {
            editor.backspace();
            if editor.is_empty() {
                CommandLineAction::ToNormal
            } else {
                CommandLineAction::Nothing
            }
        },
        Key::Char(ch) => {
            let ghost st = editor@;
            editor.insert_char(ch);
            assert(st.buffer.insert(st.cursor, ch) =~= st.buffer.take(st.cursor) + seq![ch] + st.buffer.skip(st.cursor));
            CommandLineAction::Nothing
        },
        Key::Left => {
            editor.move_left();
            CommandLineAction::Nothing
        },
        Key::Right => {
            editor.move_right();
            CommandLineAction::Nothing
        },
        Key::Home => {
            editor.move_home();
            CommandLineAction::Nothing
        },
        Key::End => {
            editor.move_end();
            CommandLineAction::Nothing
        },
        Key::Up => {
            editor.history_up();
            CommandLineAction::Nothing
        },
        Key::Down => {
            editor.history_down();
            CommandLineAction::Nothing
        },
        _ => CommandLineAction::Nothing,
    }
}

} // verus!
