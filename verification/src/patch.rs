//! Patch formats: parsing SEARCH/REPLACE, git/unified, skeleton and raw
//! pastes into hunks, and applying SEARCH/REPLACE blocks to file text.

use vstd::prelude::*;
use crate::text::{
    chars_eq, chars_of, clone_chars, contains, contains_char, contains_exec, copy_range, drop_trailing_empty, drop_trailing_empty_exec,
    ends_with, ends_with_exec, find, find_exec, lemma_find_from_spec, occurs_at, lines, lviews, split_lines,
    starts_with, starts_with_exec, string_of, strings_of_each, trim, trim_matches,
    trim_matches_exec, trimmed, views,
};

verus! {

broadcast use vstd::string::group_string_axioms;

// ---------------------------------------------------------------------------
// Hunks
// ---------------------------------------------------------------------------

/// The model of a hunk: a file name, the lines to find and the lines that
/// replace them.
pub struct SpecHunk {
    pub filename: Seq<char>,
    pub search: Seq<Seq<char>>,
    pub replace: Seq<Seq<char>>,
}

pub open spec fn mk_hunk(filename: Seq<char>, search: Seq<Seq<char>>, replace: Seq<Seq<char>>) -> SpecHunk {
    SpecHunk { filename, search, replace }
}

/// One hunk of a patch.
#[derive(Debug, Clone)]
pub struct PatchHunk {
    pub filename: String,
    pub search: Vec<String>,
    pub replace: Vec<String>,
}

impl View for PatchHunk {
    type V = SpecHunk;

    open spec fn view(&self) -> SpecHunk {
        mk_hunk(self.filename@, views(self.search@), views(self.replace@))
    }
}

pub open spec fn hunk_views(v: Seq<PatchHunk>) -> Seq<SpecHunk> {
    v.map_values(|h: PatchHunk| h@)
}

/// A hunk held as characters while it is being built.
pub struct RawHunk {
    pub filename: Vec<char>,
    pub search: Vec<Vec<char>>,
    pub replace: Vec<Vec<char>>,
}

impl View for RawHunk {
    type V = SpecHunk;

    open spec fn view(&self) -> SpecHunk {
        mk_hunk(self.filename@, lviews(self.search@), lviews(self.replace@))
    }
}

pub open spec fn raw_views(v: Seq<RawHunk>) -> Seq<SpecHunk> {
    v.map_values(|h: RawHunk| h@)
}

proof fn lemma_raw_views_push(v: Seq<RawHunk>, h: RawHunk)
    ensures
        raw_views(v.push(h)) == raw_views(v).push(h@),
{
    assert(raw_views(v.push(h)) =~= raw_views(v).push(h@));
}

proof fn lemma_lviews_push(v: Seq<Vec<char>>, l: Vec<char>)
    ensures
        lviews(v.push(l)) == lviews(v).push(l@),
{
    assert(lviews(v.push(l)) =~= lviews(v).push(l@));
}

/// Converts a built hunk into its public form.
fn finish_hunk(h: RawHunk) -> (r: PatchHunk)
    ensures
        r@ == h@,
{
    PatchHunk {
        filename: string_of(h.filename.as_slice()),
        search: strings_of_each(&h.search),
        replace: strings_of_each(&h.replace),
    }
}

fn finish_hunks(v: Vec<RawHunk>) -> (r: Vec<PatchHunk>)
    ensures
        hunk_views(r@) == raw_views(v@),
{
    let mut r: Vec<PatchHunk> = Vec::new();
    let mut v = v;
    let ghost orig = v@;
    let mut rest: Vec<RawHunk> = Vec::new();
    // Take the hunks from the back, then restore their order.
    while v.len() > 0
        invariant
            orig == v@ + rest@.reverse(),
        decreases v.len(),
    {
        let h = v.pop().unwrap();
        let ghost before = rest@;
        rest.push(h);
        assert(rest@.reverse() =~= seq![h] + before.reverse());
    }
    assert(orig =~= rest@.reverse());
    while rest.len() > 0
        invariant
            raw_views(orig) == hunk_views(r@) + raw_views(rest@.reverse()),
        decreases rest.len(),
    {
        let h = rest.pop().unwrap();
        let ghost before_rest = rest@;
        let ghost before_r = r@;
        let p = finish_hunk(h);
        r.push(p);
        assert(hunk_views(r@) =~= hunk_views(before_r).push(h@));
        assert(raw_views(before_rest.push(h).reverse()) =~= seq![h@] + raw_views(
            before_rest.reverse(),
        ));
        assert(before_rest.push(h).reverse() =~= seq![h] + before_rest.reverse());
    }
    assert(raw_views(rest@.reverse()) =~= Seq::<SpecHunk>::empty());
    assert(hunk_views(r@) =~= raw_views(orig));
    r
}

// ---------------------------------------------------------------------------
// Skeleton format
// ---------------------------------------------------------------------------

/// The file name on a `//--+ file:///` marker line: the rest of the line up
/// to a `[`, trimmed.
pub open spec fn skeleton_filename(line: Seq<char>) -> Seq<char> {
    let rest = line.skip("//--+ file:///"@.len() as int);
    match find(rest, seq!['[']) {
        Some(k) => trim(rest.take(k)),
        None => trim(rest),
    }
}

/// Hunks so far, the current file name, the lines of the current file.
pub type SkeletonState = (Seq<SpecHunk>, Seq<char>, Seq<Seq<char>>);

pub open spec fn skeleton_step(st: SkeletonState, line: Seq<char>) -> SkeletonState {
    let (hunks, fname, cur) = st;
    if starts_with(line, "//--+ file:///"@) {
        if fname.len() > 0 {
            (hunks.push(mk_hunk(fname, cur, Seq::empty())), skeleton_filename(line), Seq::empty())
        } else {
            (hunks, skeleton_filename(line), cur)
        }
    } else if trim(line) == "// === SKELETON MODE (COMPRESSED) ==="@ {
        st
    } else if fname.len() > 0 {
        (hunks, fname, cur.push(line))
    } else {
        st
    }
}

pub open spec fn skeleton_fold(ls: Seq<Seq<char>>) -> SkeletonState
    decreases ls.len(),
{
    if ls.len() == 0 {
        (Seq::empty(), Seq::empty(), Seq::empty())
    } else {
        skeleton_step(skeleton_fold(ls.drop_last()), ls.last())
    }
}

/// The hunks of a skeleton dump: each file marker starts a hunk whose search
/// block is the file's lines; no replace block.
pub open spec fn parse_skeleton(content: Seq<char>) -> Seq<SpecHunk> {
    let (hunks, fname, cur) = skeleton_fold(lines(content));
    if fname.len() > 0 {
        hunks.push(mk_hunk(fname, cur, Seq::empty()))
    } else {
        hunks
    }
}

fn skeleton_filename_exec(line: &[char], marker_len: usize) -> (r: Vec<char>)
    requires
        marker_len == "//--+ file:///"@.len(),
        marker_len <= line.len(),
    ensures
        r@ == skeleton_filename(line@),
{
    let rest = copy_range(line, marker_len, line.len());
    assert(rest@ =~= line@.skip(marker_len as int));
    let bracket = vec!['['];
    assert(bracket@ =~= seq!['[']);
    match find_exec(rest.as_slice(), bracket.as_slice()) {
        Some(k) => {
            proof {
                lemma_find_from_spec(rest@, bracket@, 0);
            }
            let head = copy_range(rest.as_slice(), 0, k);
            assert(head@ =~= rest@.take(k as int));
            trimmed(head.as_slice())
        },
        None => trimmed(rest.as_slice()),
    }
}

fn parse_skeleton_patches(content: &[char]) -> (r: Vec<RawHunk>)
    ensures
        raw_views(r@) == parse_skeleton(content@),
{
    let ls = split_lines(content);
    let ghost lsv = lviews(ls@);
    assert(lsv == lines(content@));
    let marker = chars_of("//--+ file:///");
    let mode_line = chars_of("// === SKELETON MODE (COMPRESSED) ===");
    let mut hunks: Vec<RawHunk> = Vec::new();
    let mut fname: Vec<char> = Vec::new();
    let mut cur: Vec<Vec<char>> = Vec::new();
    let mut i: usize = 0;
    while i < ls.len()
        invariant
            i <= ls.len(),
            lsv == lviews(ls@),
            marker@ == "//--+ file:///"@,
            mode_line@ == "// === SKELETON MODE (COMPRESSED) ==="@,
            skeleton_fold(lsv.take(i as int)) == (raw_views(hunks@), fname@, lviews(cur@)),
        decreases ls.len() - i,
    {
        let line = &ls[i];
        proof {
            assert(lsv.take(i + 1).drop_last() =~= lsv.take(i as int));
            assert(lsv.take(i + 1).last() == line@);
        }
        if starts_with_exec(line.as_slice(), marker.as_slice()) {
            let new_name = skeleton_filename_exec(line.as_slice(), marker.len());
            if fname.len() > 0 {
                let done_lines = cur;
                cur = Vec::new();
                let h = RawHunk { filename: clone_chars(&fname), search: done_lines, replace: Vec::new() };
                proof {
                    lemma_raw_views_push(hunks@, h);
                    assert(lviews(Seq::<Vec<char>>::empty()) =~= Seq::<Seq<char>>::empty());
                    assert(lviews(cur@) =~= Seq::<Seq<char>>::empty());
                }
                hunks.push(h);
            }
            fname = new_name;
        } else {
            let t = trimmed(line.as_slice());
            if chars_eq(t.as_slice(), mode_line.as_slice()) {
            } else if fname.len() > 0 {
                let l = clone_chars(line);
                proof {
                    lemma_lviews_push(cur@, l);
                }
                cur.push(l);
            }
        }
        i += 1;
    }
    assert(lsv.take(ls.len() as int) =~= lsv);
    if fname.len() > 0 {
        let h = RawHunk { filename: fname, search: cur, replace: Vec::new() };
        proof {
            lemma_raw_views_push(hunks@, h);
            assert(lviews(Seq::<Vec<char>>::empty()) =~= Seq::<Seq<char>>::empty());
        }
        hunks.push(h);
    }
    hunks
}


// ---------------------------------------------------------------------------
// SEARCH/REPLACE (aider) format
// ---------------------------------------------------------------------------

/// A name that looks like a path: it holds `/` or `.`, or ends in `.rs`.
pub open spec fn looks_like_path(s: Seq<char>) -> bool {
    s.contains('/') || s.contains('.') || ends_with(s, ".rs"@)
}

/// A file name written between backticks on the line.
pub open spec fn backtick_name(t: Seq<char>) -> Option<Seq<char>> {
    match find(t, seq!['`']) {
        Some(a) => match find(t.skip(a + 1), seq!['`']) {
            Some(b) => {
                let pot = trim(t.subrange(a + 1, a + 1 + b));
                if pot.len() > 0 && looks_like_path(pot) {
                    Some(pot)
                } else {
                    None
                }
            },
            None => None,
        },
        None => None,
    }
}

/// The rest of `t` after `p`, trimmed and without backticks.
pub open spec fn name_after(t: Seq<char>, p: Seq<char>) -> Seq<char> {
    trim_matches(trim(t.skip(p.len() as int)), '`')
}

/// A file name given by a `// `, `# `, `filename `, `filename:`, `file:` or
/// `+++ ` prefix, or a bare path on its own line.
pub open spec fn prefixed_name(t: Seq<char>) -> Option<Seq<char>> {
    if starts_with(t, "// "@) {
        let rest = t.skip("// "@.len() as int);
        if rest.len() > 0 && looks_like_path(rest) {
            Some(name_after(t, "// "@))
        } else {
            None
        }
    } else if starts_with(t, "# "@) {
        let rest = t.skip("# "@.len() as int);
        if rest.len() > 0 && looks_like_path(rest) {
            Some(name_after(t, "# "@))
        } else {
            None
        }
    } else if starts_with(t, "filename "@) {
        Some(name_after(t, "filename "@))
    } else if starts_with(t, "filename:"@) {
        Some(name_after(t, "filename:"@))
    } else if starts_with(t, "file:"@) {
        Some(name_after(t, "file:"@))
    } else if starts_with(t, "+++ b/"@) {
        Some(name_after(t, "+++ b/"@))
    } else if starts_with(t, "+++ "@) {
        Some(name_after(t, "+++ "@))
    } else if t.len() > 0 && (t.contains('/') || ends_with(t, ".rs"@) || ends_with(t, ".toml"@)
        || ends_with(t, ".md"@)) {
        Some(trim_matches(t, '`'))
    } else {
        None
    }
}

/// The file name that a line outside a block announces, if any.
pub open spec fn aider_filename(line: Seq<char>) -> Option<Seq<char>> {
    let t = trim(line);
    match backtick_name(t) {
        Some(n) => Some(n),
        None => prefixed_name(t),
    }
}

/// Finished hunks, the open hunk, the state (0 outside a block, 1 in the
/// SEARCH part, 2 in the REPLACE part) and the current file name.
pub type AiderState = (Seq<SpecHunk>, Option<SpecHunk>, int, Seq<char>);

pub open spec fn aider_step(st: AiderState, line: Seq<char>) -> AiderState {
    let (hunks, cur, state, fname) = st;
    if starts_with(line, "<<<<<<< SEARCH"@) {
        (hunks, Some(mk_hunk(fname, Seq::empty(), Seq::empty())), 1, fname)
    } else if starts_with(line, "======="@) {
        (hunks, cur, 2, fname)
    } else if starts_with(line, ">>>>>>> REPLACE"@) {
        match cur {
            Some(h) => (hunks.push(h), None, 0, fname),
            None => (hunks, None, 0, fname),
        }
    } else if state == 0 {
        match aider_filename(line) {
            Some(f) => (hunks, cur, state, f),
            None => st,
        }
    } else if state == 1 {
        match cur {
            Some(h) => (hunks, Some(mk_hunk(h.filename, h.search.push(line), h.replace)), state, fname),
            None => st,
        }
    } else {
        match cur {
            Some(h) => (hunks, Some(mk_hunk(h.filename, h.search, h.replace.push(line))), state, fname),
            None => st,
        }
    }
}

pub open spec fn aider_fold(ls: Seq<Seq<char>>) -> AiderState
    decreases ls.len(),
{
    if ls.len() == 0 {
        (Seq::empty(), None, 0, Seq::empty())
    } else {
        aider_step(aider_fold(ls.drop_last()), ls.last())
    }
}

/// A closed hunk without the empty lines at the end of its blocks.
pub open spec fn clean_hunk(h: SpecHunk) -> SpecHunk {
    mk_hunk(h.filename, drop_trailing_empty(h.search), drop_trailing_empty(h.replace))
}

/// The hunks closed by `>>>>>>> REPLACE`, in order.
pub open spec fn parse_aider(content: Seq<char>) -> Seq<SpecHunk> {
    aider_fold(lines(content)).0.map_values(|h: SpecHunk| clean_hunk(h))
}

fn skip_chars(s: &[char], n: usize) -> (r: Vec<char>)
    requires
        n <= s.len(),
    ensures
        r@ == s@.skip(n as int),
{
    let r = copy_range(s, n, s.len());
    assert(r@ =~= s@.skip(n as int));
    r
}

fn looks_like_path_exec(s: &[char]) -> (r: bool)
    ensures
        r == looks_like_path(s@),
{
    let rs = chars_of(".rs");
    contains_char(s, '/') || contains_char(s, '.') || ends_with_exec(s, rs.as_slice())
}

fn backtick_name_exec(t: &[char]) -> (r: Option<Vec<char>>)
    ensures
        r matches Some(n) ==> backtick_name(t@) == Some(n@),
        r is None ==> backtick_name(t@) is None,
{
    let tick = vec!['`'];
    assert(tick@ =~= seq!['`']);
    match find_exec(t, tick.as_slice()) {
        Some(a) => {
            proof {
                lemma_find_from_spec(t@, tick@, 0);
                assert(occurs_at(t@, tick@, a as int));
                assert(tick@.len() == 1);
                assert(a + 1 <= t@.len());
                assert(t@.len() == t.len());
            }
            let rest = skip_chars(t, a + 1);
            match find_exec(rest.as_slice(), tick.as_slice()) {
                Some(b) => {
                    proof {
                        lemma_find_from_spec(rest@, tick@, 0);
                        assert(occurs_at(rest@, tick@, b as int));
                        assert(b + 1 <= rest@.len());
                        assert(rest@.len() == rest.len());
                    }
                    let inner = copy_range(t, a + 1, a + 1 + b);
                    let pot = trimmed(inner.as_slice());
                    if pot.len() > 0 && looks_like_path_exec(pot.as_slice()) {
                        Some(pot)
                    } else {
                        None
                    }
                },
                None => None,
            }
        },
        None => None,
    }
}

fn name_after_exec(t: &[char], p: &[char]) -> (r: Vec<char>)
    requires
        p.len() <= t.len(),
    ensures
        r@ == name_after(t@, p@),
{
    let rest = skip_chars(t, p.len());
    let tr = trimmed(rest.as_slice());
    trim_matches_exec(tr.as_slice(), '`')
}

fn prefixed_name_exec(t: &[char]) -> (r: Option<Vec<char>>)
    ensures
        r matches Some(n) ==> prefixed_name(t@) == Some(n@),
        r is None ==> prefixed_name(t@) is None,
{
    let p_slash = chars_of("// ");
    let p_hash = chars_of("# ");
    let p_fname = chars_of("filename ");
    let p_fname_colon = chars_of("filename:");
    let p_file = chars_of("file:");
    let p_plus_b = chars_of("+++ b/");
    let p_plus = chars_of("+++ ");
    if starts_with_exec(t, p_slash.as_slice()) {
        let rest = skip_chars(t, p_slash.len());
        if rest.len() > 0 && looks_like_path_exec(rest.as_slice()) {
            Some(name_after_exec(t, p_slash.as_slice()))
        } else {
            None
        }
    } else if starts_with_exec(t, p_hash.as_slice()) {
        let rest = skip_chars(t, p_hash.len());
        if rest.len() > 0 && looks_like_path_exec(rest.as_slice()) {
            Some(name_after_exec(t, p_hash.as_slice()))
        } else {
            None
        }
    } else if starts_with_exec(t, p_fname.as_slice()) {
        Some(name_after_exec(t, p_fname.as_slice()))
    } else if starts_with_exec(t, p_fname_colon.as_slice()) {
        Some(name_after_exec(t, p_fname_colon.as_slice()))
    } else if starts_with_exec(t, p_file.as_slice()) {
        Some(name_after_exec(t, p_file.as_slice()))
    } else if starts_with_exec(t, p_plus_b.as_slice()) {
        Some(name_after_exec(t, p_plus_b.as_slice()))
    } else if starts_with_exec(t, p_plus.as_slice()) {
        Some(name_after_exec(t, p_plus.as_slice()))
    } else {
        let rs = chars_of(".rs");
        let toml = chars_of(".toml");
        let md = chars_of(".md");
        if t.len() > 0 && (contains_char(t, '/') || ends_with_exec(t, rs.as_slice())
            || ends_with_exec(t, toml.as_slice()) || ends_with_exec(t, md.as_slice())) {
            Some(trim_matches_exec(t, '`'))
        } else {
            None
        }
    }
}

fn aider_filename_exec(line: &[char]) -> (r: Option<Vec<char>>)
    ensures
        r matches Some(n) ==> aider_filename(line@) == Some(n@),
        r is None ==> aider_filename(line@) is None,
{
    let t = trimmed(line);
    match backtick_name_exec(t.as_slice()) {
        Some(n) => Some(n),
        None => prefixed_name_exec(t.as_slice()),
    }
}

fn clean_raw_hunk(h: RawHunk) -> (r: RawHunk)
    ensures
        r@ == clean_hunk(h@),
{
    let mut search = h.search;
    let mut replace = h.replace;
    drop_trailing_empty_exec(&mut search);
    drop_trailing_empty_exec(&mut replace);
    RawHunk { filename: h.filename, search, replace }
}

fn parse_aider_patches(content: &[char]) -> (r: Vec<RawHunk>)
    ensures
        raw_views(r@) == parse_aider(content@),
{
    let ls = split_lines(content);
    let ghost lsv = lviews(ls@);
    let m_search = chars_of("<<<<<<< SEARCH");
    let m_sep = chars_of("=======");
    let m_replace = chars_of(">>>>>>> REPLACE");
    let mut hunks: Vec<RawHunk> = Vec::new();
    let mut current: Option<RawHunk> = None;
    let mut state: u8 = 0;
    let mut fname: Vec<char> = Vec::new();
    let mut i: usize = 0;
    while i < ls.len()
        invariant
            i <= ls.len(),
            lsv == lviews(ls@),
            m_search@ == "<<<<<<< SEARCH"@,
            m_sep@ == "======="@,
            m_replace@ == ">>>>>>> REPLACE"@,
            ({
                let st = aider_fold(lsv.take(i as int));
                &&& raw_views(hunks@) == st.0.map_values(|h: SpecHunk| clean_hunk(h))
                &&& (match current {
                    Some(h) => st.1 == Some(h@),
                    None => st.1 is None,
                })
                &&& st.2 == state as int
                &&& st.3 == fname@
            }),
        decreases ls.len() - i,
    {
        let line = &ls[i];
        proof {
            assert(lsv.take(i + 1).drop_last() =~= lsv.take(i as int));
            assert(lsv.take(i + 1).last() == line@);
        }
        let ghost st = aider_fold(lsv.take(i as int));
        if starts_with_exec(line.as_slice(), m_search.as_slice()) {
            current = Some(RawHunk { filename: clone_chars(&fname), search: Vec::new(), replace: Vec::new() });
            proof {
                assert(lviews(Seq::<Vec<char>>::empty()) =~= Seq::<Seq<char>>::empty());
            }
            state = 1;
        } else if starts_with_exec(line.as_slice(), m_sep.as_slice()) {
            state = 2;
        } else if starts_with_exec(line.as_slice(), m_replace.as_slice()) {
            let taken = current;
            current = None;
            match taken {
                Some(h) => {
                    let ghost hv = h@;
                    let c = clean_raw_hunk(h);
                    proof {
                        lemma_raw_views_push(hunks@, c);
                        assert(st.0.push(hv).map_values(|h: SpecHunk| clean_hunk(h)) =~= st.0.map_values(
                            |h: SpecHunk| clean_hunk(h),
                        ).push(clean_hunk(hv)));
                    }
                    hunks.push(c);
                },
                None => {},
            }
            state = 0;
        } else if state == 0 {
            match aider_filename_exec(line.as_slice()) {
                Some(f) => {
                    fname = f;
                },
                None => {},
            }
        } else if state == 1 {
            let taken = current;
            current = None;
            match taken {
                Some(h) => {
                    let RawHunk { filename, search, replace } = h;
                    let mut search = search;
                    let l = clone_chars(line);
                    proof {
                        lemma_lviews_push(search@, l);
                    }
                    search.push(l);
                    current = Some(RawHunk { filename, search, replace });
                },
                None => {},
            }
        } else {
            let taken = current;
            current = None;
            match taken {
                Some(h) => {
                    let RawHunk { filename, search, replace } = h;
                    let mut replace = replace;
                    let l = clone_chars(line);
                    proof {
                        lemma_lviews_push(replace@, l);
                    }
                    replace.push(l);
                    current = Some(RawHunk { filename, search, replace });
                },
                None => {},
            }
        }
        i += 1;
    }
    assert(lsv.take(ls.len() as int) =~= lsv);
    hunks
}


// ---------------------------------------------------------------------------
// git / unified diff format
// ---------------------------------------------------------------------------

pub open spec fn push_open(hunks: Seq<SpecHunk>, cur: Option<SpecHunk>) -> Seq<SpecHunk> {
    match cur {
        Some(h) => hunks.push(h),
        None => hunks,
    }
}

/// Finished hunks, the open hunk, the current file name and the state
/// (1 inside a `@@` hunk).
pub type GitState = (Seq<SpecHunk>, Option<SpecHunk>, Seq<char>, int);

pub open spec fn git_step(st: GitState, line: Seq<char>) -> GitState {
    let (hunks, cur, fname, state) = st;
    if starts_with(line, "diff --git"@) {
        (push_open(hunks, cur), None, fname, 0)
    } else if starts_with(line, "+++ b/"@) {
        (hunks, cur, trim(line.skip("+++ b/"@.len() as int)), state)
    } else if starts_with(line, "+++ "@) {
        (hunks, cur, trim(line.skip("+++ "@.len() as int)), state)
    } else if starts_with(line, "@@"@) {
        (push_open(hunks, cur), Some(mk_hunk(fname, Seq::empty(), Seq::empty())), fname, 1)
    } else if starts_with(line, "-"@) && !starts_with(line, "---"@) {
        match cur {
            Some(h) if state == 1 => (
                hunks,
                Some(mk_hunk(h.filename, h.search.push(line.skip(1)), h.replace)),
                fname,
                state,
            ),
            _ => st,
        }
    } else if starts_with(line, "+"@) && !starts_with(line, "+++"@) {
        match cur {
            Some(h) if state == 1 => (
                hunks,
                Some(mk_hunk(h.filename, h.search, h.replace.push(line.skip(1)))),
                fname,
                state,
            ),
            _ => st,
        }
    } else if starts_with(line, " "@) {
        match cur {
            Some(h) if state == 1 => (
                hunks,
                Some(mk_hunk(h.filename, h.search.push(line.skip(1)), h.replace.push(line.skip(1)))),
                fname,
                state,
            ),
            _ => st,
        }
    } else {
        st
    }
}

pub open spec fn git_fold(ls: Seq<Seq<char>>) -> GitState
    decreases ls.len(),
{
    if ls.len() == 0 {
        (Seq::empty(), None, Seq::empty(), 0)
    } else {
        git_step(git_fold(ls.drop_last()), ls.last())
    }
}

/// The `@@` hunks of a git or unified diff: context lines go to both
/// blocks, `-` lines to SEARCH, `+` lines to REPLACE.
pub open spec fn parse_git(content: Seq<char>) -> Seq<SpecHunk> {
    let st = git_fold(lines(content));
    push_open(st.0, st.1)
}

/// A line that ends a hunk's body: a new file, a new `@@` hunk, or a new
/// file name.
pub open spec fn ends_hunk_body(line: Seq<char>) -> bool {
    starts_with(line, "diff --git"@) || starts_with(line, "@@"@) || starts_with(line, "+++ "@)
}

/// The old side of a hunk's body: its context and `-` lines, each without
/// its first character.
pub open spec fn old_side(body: Seq<Seq<char>>) -> Seq<Seq<char>>
    decreases body.len(),
{
    if body.len() == 0 {
        Seq::empty()
    } else {
        let l = body.last();
        old_side(body.drop_last()) + if starts_with(l, " "@) || (starts_with(l, "-"@) && !starts_with(l, "---"@)) {
            seq![l.skip(1)]
        } else {
            Seq::empty()
        }
    }
}

/// The new side of a hunk's body: its context and `+` lines, each without
/// its first character.
pub open spec fn new_side(body: Seq<Seq<char>>) -> Seq<Seq<char>>
    decreases body.len(),
{
    if body.len() == 0 {
        Seq::empty()
    } else {
        let l = body.last();
        new_side(body.drop_last()) + if starts_with(l, " "@) || (starts_with(l, "+"@) && !starts_with(l, "+++"@)) {
            seq![l.skip(1)]
        } else {
            Seq::empty()
        }
    }
}

/// How many lines begin with `@@`.
pub open spec fn hunk_headers(ls: Seq<Seq<char>>) -> nat
    decreases ls.len(),
{
    if ls.len() == 0 {
        0
    } else {
        hunk_headers(ls.drop_last()) + if starts_with(ls.last(), "@@"@) {
            1nat
        } else {
            0nat
        }
    }
}

proof fn lemma_first_char(x: Seq<char>, p: Seq<char>)
    requires
        starts_with(x, p),
        p.len() > 0,
    ensures
        x[0] == p[0],
{
    assert(x.take(p.len() as int)[0] == x[0]);
}

/// What a line's first characters rule out among the diff markers.
proof fn lemma_diff_markers(x: Seq<char>)
    ensures
        starts_with(x, "@@"@) ==> !starts_with(x, "diff --git"@) && !starts_with(x, "+++ b/"@) && !starts_with(x, "+++ "@)
            && !starts_with(x, "-"@) && !starts_with(x, "+"@) && !starts_with(x, " "@),
        starts_with(x, "+++ b/"@) ==> starts_with(x, "+++ "@),
        starts_with(x, " "@) ==> !starts_with(x, "-"@) && !starts_with(x, "+"@),
        starts_with(x, "-"@) ==> !starts_with(x, "+"@) && !starts_with(x, " "@),
        starts_with(x, "+"@) ==> !starts_with(x, "-"@) && !starts_with(x, " "@),
{
    reveal_strlit("@@");
    reveal_strlit("diff --git");
    reveal_strlit("+++ b/");
    reveal_strlit("+++ ");
    reveal_strlit("-");
    reveal_strlit("+");
    reveal_strlit(" ");
    if starts_with(x, "@@"@) {
        lemma_first_char(x, "@@"@);
        if starts_with(x, "diff --git"@) {
            lemma_first_char(x, "diff --git"@);
        }
        if starts_with(x, "+++ b/"@) {
            lemma_first_char(x, "+++ b/"@);
        }
        if starts_with(x, "+++ "@) {
            lemma_first_char(x, "+++ "@);
        }
        if starts_with(x, "-"@) {
            lemma_first_char(x, "-"@);
        }
        if starts_with(x, "+"@) {
            lemma_first_char(x, "+"@);
        }
        if starts_with(x, " "@) {
            lemma_first_char(x, " "@);
        }
    }
    if starts_with(x, "+++ b/"@) {
        assert(x.take(4) =~= x.take(6).take(4));
        assert("+++ b/"@.take(4) =~= "+++ "@);
    }
    if starts_with(x, " "@) {
        lemma_first_char(x, " "@);
        if starts_with(x, "-"@) {
            lemma_first_char(x, "-"@);
        }
        if starts_with(x, "+"@) {
            lemma_first_char(x, "+"@);
        }
    }
    if starts_with(x, "-"@) {
        lemma_first_char(x, "-"@);
        if starts_with(x, "+"@) {
            lemma_first_char(x, "+"@);
        }
    }
}

/// Without `diff --git` lines, a git or unified diff gives one hunk for
/// each `@@` line: no two `@@` hunks are joined and none is lost.
pub proof fn law_unified_hunk_count(ls: Seq<Seq<char>>)
    requires
        forall|k: int| 0 <= k < ls.len() ==> !starts_with(#[trigger] ls[k], "diff --git"@),
    ensures
        push_open(git_fold(ls).0, git_fold(ls).1).len() == hunk_headers(ls),
    decreases ls.len(),
{
    if ls.len() > 0 {
        let d = ls.drop_last();
        assert forall|k: int| 0 <= k < d.len() implies !starts_with(#[trigger] d[k], "diff --git"@) by {
            assert(d[k] == ls[k]);
        }
        law_unified_hunk_count(d);
        lemma_diff_markers(ls.last());
        assert(!starts_with(ls[ls.len() - 1], "diff --git"@));
    }
}

/// The body of an `@@` hunk, up to the next line that ends it, makes one
/// hunk: the hunks before the `@@` line are closed as they were, and the
/// new hunk, for the file named at that point, holds on its SEARCH side the
/// body's context and `-` lines and on its REPLACE side its context and
/// `+` lines, in order.
pub proof fn law_unified_hunk_body(ls: Seq<Seq<char>>, at: Seq<char>, body: Seq<Seq<char>>)
    requires
        starts_with(at, "@@"@),
        forall|k: int| 0 <= k < body.len() ==> !ends_hunk_body(#[trigger] body[k]),
    ensures
        ({
            let before = git_fold(ls);
            let after = git_fold(ls + seq![at] + body);
            &&& after.0 == push_open(before.0, before.1)
            &&& after.1 == Some(mk_hunk(before.2, old_side(body), new_side(body)))
            &&& after.2 == before.2
            &&& after.3 == 1
        }),
    decreases body.len(),
{
    let before = git_fold(ls);
    if body.len() == 0 {
        lemma_diff_markers(at);
        assert(ls + seq![at] + body =~= ls.push(at));
        assert(ls.push(at).drop_last() =~= ls);
        assert(git_fold(ls.push(at)) == git_step(before, at));
    } else {
        let d = body.drop_last();
        assert forall|k: int| 0 <= k < d.len() implies !ends_hunk_body(#[trigger] d[k]) by {
            assert(d[k] == body[k]);
        }
        law_unified_hunk_body(ls, at, d);
        let all = ls + seq![at] + body;
        assert(all.drop_last() =~= ls + seq![at] + d);
        assert(all.last() == body.last());
        let x = body.last();
        assert(!ends_hunk_body(body[body.len() - 1]));
        lemma_diff_markers(x);
        let mid = git_fold(ls + seq![at] + d);
        assert(git_fold(all) == git_step(mid, x));
        assert(old_side(d).push(x.skip(1)) =~= old_side(d) + seq![x.skip(1)]);
        assert(new_side(d).push(x.skip(1)) =~= new_side(d) + seq![x.skip(1)]);
        assert(old_side(d) + Seq::<Seq<char>>::empty() =~= old_side(d));
        assert(new_side(d) + Seq::<Seq<char>>::empty() =~= new_side(d));
    }
}

fn push_open_exec(hunks: &mut Vec<RawHunk>, cur: Option<RawHunk>)
    ensures
        raw_views(final(hunks)@) == push_open(
            raw_views(old(hunks)@),
            match cur {
                Some(h) => Some(h@),
                None => None,
            },
        ),
{
    match cur {
        Some(h) => {
            proof {
                lemma_raw_views_push(hunks@, h);
            }
            hunks.push(h);
        },
        None => {},
    }
}

pub open spec fn opt_view(o: Option<RawHunk>) -> Option<SpecHunk> {
    match o {
        Some(h) => Some(h@),
        None => None,
    }
}

fn parse_git_or_unified_patches(content: &[char]) -> (r: Vec<RawHunk>)
    ensures
        raw_views(r@) == parse_git(content@),
{
    let ls = split_lines(content);
    let ghost lsv = lviews(ls@);
    let m_diff = chars_of("diff --git");
    let m_plus_b = chars_of("+++ b/");
    let m_plus = chars_of("+++ ");
    let m_at = chars_of("@@");
    let m_minus1 = chars_of("-");
    let m_minus3 = chars_of("---");
    let m_plus1 = chars_of("+");
    let m_plus3 = chars_of("+++");
    let m_space = chars_of(" ");
    proof {
        reveal_strlit("-");
        reveal_strlit("+");
        reveal_strlit(" ");
    }
    let mut hunks: Vec<RawHunk> = Vec::new();
    let mut current: Option<RawHunk> = None;
    let mut fname: Vec<char> = Vec::new();
    let mut state: u8 = 0;
    let mut i: usize = 0;
    while i < ls.len()
        invariant
            i <= ls.len(),
            lsv == lviews(ls@),
            m_diff@ == "diff --git"@,
            m_plus_b@ == "+++ b/"@,
            m_plus@ == "+++ "@,
            m_at@ == "@@"@,
            m_minus1@ == "-"@,
            m_minus3@ == "---"@,
            m_plus1@ == "+"@,
            m_plus3@ == "+++"@,
            m_space@ == " "@,
            "-"@.len() == 1,
            "+"@.len() == 1,
            " "@.len() == 1,
            git_fold(lsv.take(i as int)) == (raw_views(hunks@), opt_view(current), fname@, state as int),
        decreases ls.len() - i,
    {
        let line = &ls[i];
        proof {
            assert(lsv.take(i + 1).drop_last() =~= lsv.take(i as int));
            assert(lsv.take(i + 1).last() == line@);
        }
        if starts_with_exec(line.as_slice(), m_diff.as_slice()) {
            let taken = current;
            current = None;
            push_open_exec(&mut hunks, taken);
            state = 0;
        } else if starts_with_exec(line.as_slice(), m_plus_b.as_slice()) {
            let rest = skip_chars(line.as_slice(), m_plus_b.len());
            fname = trimmed(rest.as_slice());
        } else if starts_with_exec(line.as_slice(), m_plus.as_slice()) {
            let rest = skip_chars(line.as_slice(), m_plus.len());
            fname = trimmed(rest.as_slice());
        } else if starts_with_exec(line.as_slice(), m_at.as_slice()) {
            let taken = current;
            current = None;
            push_open_exec(&mut hunks, taken);
            current = Some(RawHunk { filename: clone_chars(&fname), search: Vec::new(), replace: Vec::new() });
            proof {
                assert(lviews(Seq::<Vec<char>>::empty()) =~= Seq::<Seq<char>>::empty());
            }
            state = 1;
        } else if starts_with_exec(line.as_slice(), m_minus1.as_slice()) && !starts_with_exec(
            line.as_slice(),
            m_minus3.as_slice(),
        ) {
            if state == 1 {
                let taken = current;
                current = None;
                match taken {
                    Some(h) => {
                        let RawHunk { filename, search, replace } = h;
                        let mut search = search;
                        let l = skip_chars(line.as_slice(), 1);
                        proof {
                            lemma_lviews_push(search@, l);
                        }
                        search.push(l);
                        current = Some(RawHunk { filename, search, replace });
                    },
                    None => {},
                }
            }
        } else if starts_with_exec(line.as_slice(), m_plus1.as_slice()) && !starts_with_exec(
            line.as_slice(),
            m_plus3.as_slice(),
        ) {
            if state == 1 {
                let taken = current;
                current = None;
                match taken {
                    Some(h) => {
                        let RawHunk { filename, search, replace } = h;
                        let mut replace = replace;
                        let l = skip_chars(line.as_slice(), 1);
                        proof {
                            lemma_lviews_push(replace@, l);
                        }
                        replace.push(l);
                        current = Some(RawHunk { filename, search, replace });
                    },
                    None => {},
                }
            }
        } else if starts_with_exec(line.as_slice(), m_space.as_slice()) {
            if state == 1 {
                let taken = current;
                current = None;
                match taken {
                    Some(h) => {
                        let RawHunk { filename, search, replace } = h;
                        let mut search = search;
                        let mut replace = replace;
                        let l = skip_chars(line.as_slice(), 1);
                        let l2 = skip_chars(line.as_slice(), 1);
                        proof {
                            lemma_lviews_push(search@, l);
                            lemma_lviews_push(replace@, l2);
                        }
                        search.push(l);
                        replace.push(l2);
                        current = Some(RawHunk { filename, search, replace });
                    },
                    None => {},
                }
            }
        }
        i += 1;
    }
    assert(lsv.take(ls.len() as int) =~= lsv);
    push_open_exec(&mut hunks, current);
    hunks
}

// ---------------------------------------------------------------------------
// Raw pastes
// ---------------------------------------------------------------------------

/// A file name on the first non-blank line of a raw paste (already trimmed).
pub open spec fn header_name(first: Seq<char>) -> Option<Seq<char>> {
    if starts_with(first, "// "@) {
        let rest = first.skip("// "@.len() as int);
        if rest.len() > 0 && (rest.contains('/') || ends_with(rest, ".rs"@)) {
            Some(trim(rest))
        } else {
            None
        }
    } else if starts_with(first, "# "@) {
        let rest = first.skip("# "@.len() as int);
        if rest.len() > 0 && (rest.contains('/') || ends_with(rest, ".rs"@)) {
            Some(trim(rest))
        } else {
            None
        }
    } else if starts_with(first, "filename "@) {
        Some(trim(first.skip("filename "@.len() as int)))
    } else if starts_with(first, "+++ b/"@) {
        Some(trim(first.skip("+++ b/"@.len() as int)))
    } else if starts_with(first, "+++ "@) {
        Some(trim(first.skip("+++ "@.len() as int)))
    } else {
        None
    }
}

/// The index of the first line at or after `i` that is not blank.
pub open spec fn first_nonblank(ls: Seq<Seq<char>>, i: int) -> int
    decreases ls.len() - i,
{
    if i < 0 || i >= ls.len() {
        ls.len() as int
    } else if trim(ls[i]).len() == 0 {
        first_nonblank(ls, i + 1)
    } else {
        i
    }
}

/// A conflict-marker line.
pub open spec fn is_marker_line(l: Seq<char>) -> bool {
    starts_with(l, "<<<<<<<"@) || starts_with(l, "======="@) || starts_with(l, ">>>>>>>"@)
}

/// The lines that are not conflict markers.
pub open spec fn drop_markers(ls: Seq<Seq<char>>) -> Seq<Seq<char>>
    decreases ls.len(),
{
    if ls.len() == 0 {
        Seq::empty()
    } else if is_marker_line(ls.last()) {
        drop_markers(ls.drop_last())
    } else {
        drop_markers(ls.drop_last()).push(ls.last())
    }
}

/// A raw paste: an optional file-name header on the first non-blank line,
/// then the code to find (conflict markers dropped); one hunk, or none when
/// there is neither a name nor code.
pub open spec fn parse_raw(content: Seq<char>) -> Seq<SpecHunk> {
    let ls = lines(content);
    let k = first_nonblank(ls, 0);
    let hdr = if k < ls.len() {
        header_name(trim(ls[k]))
    } else {
        None
    };
    let start = if hdr is Some {
        k + 1
    } else {
        k
    };
    let fname = match hdr {
        Some(f) => f,
        None => Seq::empty(),
    };
    let search = drop_markers(ls.skip(start));
    if search.len() == 0 && fname.len() == 0 {
        Seq::empty()
    } else {
        seq![mk_hunk(fname, search, Seq::empty())]
    }
}

fn header_name_exec(first: &[char]) -> (r: Option<Vec<char>>)
    ensures
        r matches Some(n) ==> header_name(first@) == Some(n@),
        r is None ==> header_name(first@) is None,
{
    let p_slash = chars_of("// ");
    let p_hash = chars_of("# ");
    let p_fname = chars_of("filename ");
    let p_plus_b = chars_of("+++ b/");
    let p_plus = chars_of("+++ ");
    let rs = chars_of(".rs");
    if starts_with_exec(first, p_slash.as_slice()) {
        let rest = skip_chars(first, p_slash.len());
        if rest.len() > 0 && (contains_char(rest.as_slice(), '/') || ends_with_exec(
            rest.as_slice(),
            rs.as_slice(),
        )) {
            Some(trimmed(rest.as_slice()))
        } else {
            None
        }
    } else if starts_with_exec(first, p_hash.as_slice()) {
        let rest = skip_chars(first, p_hash.len());
        if rest.len() > 0 && (contains_char(rest.as_slice(), '/') || ends_with_exec(
            rest.as_slice(),
            rs.as_slice(),
        )) {
            Some(trimmed(rest.as_slice()))
        } else {
            None
        }
    } else if starts_with_exec(first, p_fname.as_slice()) {
        let rest = skip_chars(first, p_fname.len());
        Some(trimmed(rest.as_slice()))
    } else if starts_with_exec(first, p_plus_b.as_slice()) {
        let rest = skip_chars(first, p_plus_b.len());
        Some(trimmed(rest.as_slice()))
    } else if starts_with_exec(first, p_plus.as_slice()) {
        let rest = skip_chars(first, p_plus.len());
        Some(trimmed(rest.as_slice()))
    } else {
        None
    }
}

fn parse_raw_paste(content: &[char]) -> (r: Vec<RawHunk>)
    ensures
        raw_views(r@) == parse_raw(content@),
{
    let ls = split_lines(content);
    let ghost lsv = lviews(ls@);
    let mut k: usize = 0;
    while k < ls.len() && trimmed(ls[k].as_slice()).len() == 0
        invariant
            k <= ls.len(),
            lsv == lviews(ls@),
            first_nonblank(lsv, 0) == first_nonblank(lsv, k as int),
        decreases ls.len() - k,
    {
        k += 1;
    }
    assert(first_nonblank(lsv, k as int) == k);
    let hdr = if k < ls.len() {
        let t = trimmed(ls[k].as_slice());
        header_name_exec(t.as_slice())
    } else {
        None
    };
    let start = if hdr.is_some() {
        k + 1
    } else {
        k
    };
    let fname = match hdr {
        Some(f) => f,
        None => Vec::new(),
    };
    let m1 = chars_of("<<<<<<<");
    let m2 = chars_of("=======");
    let m3 = chars_of(">>>>>>>");
    let mut search: Vec<Vec<char>> = Vec::new();
    let mut j = start;
    let ghost tail = lsv.skip(start as int);
    while j < ls.len()
        invariant
            start <= j <= ls.len(),
            lsv == lviews(ls@),
            tail == lsv.skip(start as int),
            m1@ == "<<<<<<<"@,
            m2@ == "======="@,
            m3@ == ">>>>>>>"@,
            lviews(search@) == drop_markers(tail.take(j - start)),
        decreases ls.len() - j,
    {
        let line = &ls[j];
        proof {
            assert(tail.take(j + 1 - start).drop_last() =~= tail.take(j - start));
            assert(tail.take(j + 1 - start).last() == line@);
        }
        if !(starts_with_exec(line.as_slice(), m1.as_slice()) || starts_with_exec(
            line.as_slice(),
            m2.as_slice(),
        ) || starts_with_exec(line.as_slice(), m3.as_slice())) {
            let l = clone_chars(line);
            proof {
                lemma_lviews_push(search@, l);
            }
            search.push(l);
        }
        j += 1;
    }
    assert(tail.take(ls.len() - start) =~= tail);
    if search.len() == 0 && fname.len() == 0 {
        return Vec::new();
    }
    let h = RawHunk { filename: fname, search, replace: Vec::new() };
    let mut r: Vec<RawHunk> = Vec::new();
    proof {
        assert(lviews(Seq::<Vec<char>>::empty()) =~= Seq::<Seq<char>>::empty());
        lemma_raw_views_push(r@, h);
    }
    r.push(h);
    assert(raw_views(r@) =~= seq![h@]);
    r
}

// ---------------------------------------------------------------------------
// Format detection
// ---------------------------------------------------------------------------

/// The hunks of a patch text in whichever format it is written: skeleton
/// dumps, SEARCH/REPLACE blocks, git or unified diffs (when they yield a
/// hunk), and otherwise a raw paste.
pub open spec fn spec_parse_patches(content: Seq<char>) -> Seq<SpecHunk> {
    let t = trim(content);
    if contains(t, "// === SKELETON MODE"@) || contains(t, "//--+ file:///"@) {
        parse_skeleton(content)
    } else if contains(t, "<patch>"@) || contains(t, "<<<<<<< SEARCH"@) {
        parse_aider(content)
    } else if (contains(t, "diff --git"@) || contains(t, "--- "@) || contains(t, "+++ "@))
        && parse_git(content).len() > 0 {
        parse_git(content)
    } else {
        parse_raw(content)
    }
}

/// Parses a patch text into hunks.
pub fn parse_patches(content: &str) -> (r: Vec<PatchHunk>)
    ensures
        hunk_views(r@) == spec_parse_patches(content@),
{
    let c = chars_of(content);
    let t = trimmed(c.as_slice());
    let skel1 = chars_of("// === SKELETON MODE");
    let skel2 = chars_of("//--+ file:///");
    let aider1 = chars_of("<patch>");
    let aider2 = chars_of("<<<<<<< SEARCH");
    let git1 = chars_of("diff --git");
    let git2 = chars_of("--- ");
    let git3 = chars_of("+++ ");
    if contains_exec(t.as_slice(), skel1.as_slice()) || contains_exec(t.as_slice(), skel2.as_slice()) {
        return finish_hunks(parse_skeleton_patches(c.as_slice()));
    }
    if contains_exec(t.as_slice(), aider1.as_slice()) || contains_exec(t.as_slice(), aider2.as_slice()) {
        return finish_hunks(parse_aider_patches(c.as_slice()));
    }
    if contains_exec(t.as_slice(), git1.as_slice()) || contains_exec(t.as_slice(), git2.as_slice())
        || contains_exec(t.as_slice(), git3.as_slice()) {
        let hunks = parse_git_or_unified_patches(c.as_slice());
        if hunks.len() > 0 {
            return finish_hunks(hunks);
        }
    }
    finish_hunks(parse_raw_paste(c.as_slice()))
}

} // verus!
