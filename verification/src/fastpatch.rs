//! The patch run over a pasted document: inline `path="…" patch="…"` items,
//! the hash that identifies a hunk, the `patchinfo.log` of applied hunks,
//! the patcher's path check and the messages of each outcome.

use vstd::prelude::*;
use std::hash::{Hash, Hasher};
use crate::access::{access, decide_access, opt_views, path_blocked, path_has_blocked_part, res_view, Guard};
use crate::fmt::hex_fixed;
use crate::patch::{PatchHunk, SpecHunk};
use crate::text::{
    chars_of, copy_range, extend_from, find, find_exec, is_ws, join_lines, lines, push_str_chars, replace_all, replace_all_exec,
    split_lines, string_of, trim, trimmed, views,
};

verus! {

broadcast use vstd::string::group_string_axioms;

// ---------------------------------------------------------------------------
// The patcher's path check
// ---------------------------------------------------------------------------

/// Whether some normal component of `path` is one the patcher never
/// writes into: a hidden name, `target`, `node_modules`, `__pycache__`,
/// `vendor` or `.cargo`.
pub fn path_contains_blocked_dir(path: &str) -> (r: bool)
    ensures
        r == path_blocked(Guard::Patch, path@),
{
    path_has_blocked_part(Guard::Patch, path)
}

/// The patcher's access check: `decide_access` under the patcher's rule.
pub fn validate_path(
    path: &str,
    root: &str,
    target: Result<String, String>,
    allowed: &Vec<Option<String>>,
) -> (r: Result<String, String>)
    ensures
        res_view(r) == access(Guard::Patch, path@, root@, res_view(target), opt_views(allowed@)),
{
    decide_access(Guard::Patch, path, root, target, allowed)
}

// ---------------------------------------------------------------------------
// Hunk identity
// ---------------------------------------------------------------------------

/// The value that `DefaultHasher::new()` gives for a string.
pub uninterp spec fn spec_default_hash(s: Seq<char>) -> u64;

/// Hashes `s` with a fresh `DefaultHasher` (fixed keys). The result is
/// named only; nothing is said of the hash function.
#[verifier::external_body]
fn default_hash(s: &str) -> (r: u64)
    ensures
        r == spec_default_hash(s@),
{
    let mut h = std::collections::hash_map::DefaultHasher::new();
    s.hash(&mut h);
    h.finish()
}

/// The identity of a patch text: its hash as sixteen lowercase hex digits.
pub fn compute_hash(s: &str) -> (r: String)
    ensures
        r@ == hex_fixed(spec_default_hash(s@) as nat, 16),
{
    crate::fmt::hex16(default_hash(s))
}

/// The SEARCH/REPLACE block of a hunk, the text whose hash identifies it.
pub open spec fn block_text(h: SpecHunk) -> Seq<char> {
    "<<<<<<< SEARCH\n"@ + join_lines(h.search) + "\n=======\n"@ + join_lines(h.replace)
        + "\n>>>>>>> REPLACE"@
}

fn join_strings(ls: &Vec<String>) -> (r: Vec<char>)
    ensures
        r@ == join_lines(views(ls@)),
{
    let ghost vs = views(ls@);
    let mut v: Vec<char> = Vec::new();
    let mut i: usize = 0;
    while i < ls.len()
        invariant
            i <= ls.len(),
            vs == views(ls@),
            v@ == join_lines(vs.take(i as int)),
        decreases ls.len() - i,
    {
        proof {
            assert(vs.take(i + 1).drop_last() =~= vs.take(i as int));
        }
        if i > 0 {
            v.push('\n');
        }
        push_str_chars(&mut v, ls[i].as_str());
        proof {
            if i == 0 {
                assert(v@ =~= vs.take(1)[0]);
            }
        }
        i += 1;
    }
    assert(vs.take(ls.len() as int) =~= vs);
    v
}

/// The SEARCH/REPLACE block text of a hunk.
pub fn hunk_block_text(h: &PatchHunk) -> (r: String)
    ensures
        r@ == block_text(h@),
{
    let mut v: Vec<char> = Vec::new();
    push_str_chars(&mut v, "<<<<<<< SEARCH\n");
    let s = join_strings(&h.search);
    extend_from(&mut v, s.as_slice());
    push_str_chars(&mut v, "\n=======\n");
    let r = join_strings(&h.replace);
    extend_from(&mut v, r.as_slice());
    push_str_chars(&mut v, "\n>>>>>>> REPLACE");
    string_of(v.as_slice())
}

/// The identity of a hunk: the hash of its block text.
pub fn hunk_hash(h: &PatchHunk) -> (r: String)
    ensures
        r@ == hex_fixed(spec_default_hash(block_text(h@)) as nat, 16),
{
    let t = hunk_block_text(h);
    compute_hash(t.as_str())
}

// ---------------------------------------------------------------------------
// Inline patch items
// ---------------------------------------------------------------------------

/// One `path="…" patch="…"` item of a document: the whole matched text,
/// the path and the patch text.
#[derive(Clone, Debug)]
pub struct InlinePatch {
    pub whole: String,
    pub path: String,
    pub patch: String,
}

pub open spec fn inline_views(v: Seq<InlinePatch>) -> Seq<(Seq<char>, Seq<char>, Seq<char>)> {
    Seq::new(v.len(), |i: int| (v[i].whole@, v[i].path@, v[i].patch@))
}

/// The index of the first `"` at or after `j` (the length when there is
/// none).
pub open spec fn first_quote(s: Seq<char>, j: int) -> int
    decreases s.len() - j,
{
    if j < 0 || j >= s.len() {
        s.len() as int
    } else if s[j] == '"' {
        j
    } else {
        first_quote(s, j + 1)
    }
}

/// The index of the first character at or after `j` that is not
/// whitespace (the length when there is none).
pub open spec fn first_non_ws(s: Seq<char>, j: int) -> int
    decreases s.len() - j,
{
    if j < 0 || j >= s.len() {
        s.len() as int
    } else if is_ws(s[j]) {
        first_non_ws(s, j + 1)
    } else {
        j
    }
}

pub open spec fn path_open() -> Seq<char> {
    seq!['p', 'a', 't', 'h', '=', '"']
}

pub open spec fn patch_open() -> Seq<char> {
    seq!['p', 'a', 't', 'c', 'h', '=', '"']
}

/// An inline item starting at `i`: `path="`, a path of one or more
/// characters other than `"`, `"`, whitespace, `patch="`, a patch text of
/// one or more characters other than `"`, and `"`. Gives where the path
/// and the patch text lie and where the item ends.
pub open spec fn item_at(s: Seq<char>, i: int) -> Option<(int, int, int, int, int)> {
    if 0 <= i && i + 6 <= s.len() && s.subrange(i, i + 6) == path_open() {
        let e1 = first_quote(s, i + 6);
        if i + 6 < e1 < s.len() {
            let w = first_non_ws(s, e1 + 1);
            if e1 + 1 < w && w + 7 <= s.len() && s.subrange(w, w + 7) == patch_open() {
                let e2 = first_quote(s, w + 7);
                if w + 7 < e2 < s.len() {
                    Some((i + 6, e1, w + 7, e2, e2 + 1))
                } else {
                    None
                }
            } else {
                None
            }
        } else {
            None
        }
    } else {
        None
    }
}

/// The inline items of `s` from `i` on, found left to right, each search
/// going on after the item found: the whole item, its path and its patch
/// text.
pub open spec fn items_from(s: Seq<char>, i: int) -> Seq<(Seq<char>, Seq<char>, Seq<char>)>
    decreases s.len() - i,
{
    if i < 0 || i >= s.len() {
        Seq::empty()
    } else {
        match item_at(s, i) {
            Some((a, b, c, d, e)) => if e > i {
                seq![(s.subrange(i, e), s.subrange(a, b), s.subrange(c, d))] + items_from(s, e)
            } else {
                Seq::empty()
            },
            None => items_from(s, i + 1),
        }
    }
}

fn first_quote_exec(s: &[char], j: usize) -> (r: usize)
    requires
        j <= s@.len(),
    ensures
        r == first_quote(s@, j as int),
        j <= r <= s@.len(),
    decreases s.len() - j,
{
    if j >= s.len() {
        s.len()
    } else if s[j] == '"' {
        j
    } else {
        first_quote_exec(s, j + 1)
    }
}

fn first_non_ws_exec(s: &[char], j: usize) -> (r: usize)
    requires
        j <= s@.len(),
    ensures
        r == first_non_ws(s@, j as int),
        j <= r <= s@.len(),
    decreases s.len() - j,
{
    if j >= s.len() {
        s.len()
    } else if crate::text::is_whitespace(s[j]) {
        first_non_ws_exec(s, j + 1)
    } else {
        j
    }
}

fn opens_at(s: &[char], i: usize, open: &[char]) -> (r: bool)
    ensures
        r == (i + open@.len() <= s@.len() && s@.subrange(i as int, i + open@.len()) == open@),
{
    let n = s.len();
    if i > n || open.len() > n - i {
        return false;
    }
    let mut k: usize = 0;
    while k < open.len()
        invariant
            k <= open@.len(),
            n == s@.len(),
            i + open@.len() <= s@.len(),
            forall|m: int| 0 <= m < k ==> s@[i + m] == open@[m],
        decreases open.len() - k,
    {
        if s[i + k] != open[k] {
            assert(s@.subrange(i as int, i + open@.len())[k as int] != open@[k as int]);
            return false;
        }
        k += 1;
    }
    assert(s@.subrange(i as int, i + open@.len()) =~= open@);
    true
}

fn item_at_exec(s: &[char], i: usize) -> (r: Option<(usize, usize, usize, usize, usize)>)
    requires
        i < s@.len(),
    ensures
        match r {
            Some((a, b, c, d, e)) => item_at(s@, i as int) == Some((a as int, b as int, c as int, d as int, e as int)),
            None => item_at(s@, i as int) is None,
        },
{
    let po = vec!['p', 'a', 't', 'h', '=', '"'];
    let co = vec!['p', 'a', 't', 'c', 'h', '=', '"'];
    assert(po@ =~= path_open());
    assert(co@ =~= patch_open());
    let n = s.len();
    if !opens_at(s, i, po.as_slice()) {
        return None;
    }
    assert(i + 6 <= n);
    let e1 = first_quote_exec(s, i + 6);
    if !(i + 6 < e1 && e1 < s.len()) {
        return None;
    }
    let w = first_non_ws_exec(s, e1 + 1);
    if !(e1 + 1 < w) || !opens_at(s, w, co.as_slice()) {
        return None;
    }
    let e2 = first_quote_exec(s, w + 7);
    if !(w + 7 < e2 && e2 < s.len()) {
        return None;
    }
    Some((i + 6, e1, w + 7, e2, e2 + 1))
}

/// The inline `path="…" patch="…"` items of `content`, in order: the whole
/// item, its path and its patch text.
pub fn inline_items(content: &str) -> (r: Vec<InlinePatch>)
    ensures
        inline_views(r@) == items_from(content@, 0),
{
    let s = chars_of(content);
    let mut out: Vec<InlinePatch> = Vec::new();
    let mut i: usize = 0;
    while i < s.len()
        invariant
            i <= s@.len(),
            s@ == content@,
            inline_views(out@) + items_from(s@, i as int) == items_from(s@, 0),
        decreases s.len() - i,
    {
        match item_at_exec(s.as_slice(), i) {
            Some((a, b, c, d, e)) => {
                let ghost before = inline_views(out@);
                let whole = string_of(copy_range(s.as_slice(), i, e).as_slice());
                let path = string_of(copy_range(s.as_slice(), a, b).as_slice());
                let patch = string_of(copy_range(s.as_slice(), c, d).as_slice());
                out.push(InlinePatch { whole, path, patch });
                assert(inline_views(out@) =~= before.push((s@.subrange(i as int, e as int), s@.subrange(a as int, b as int), s@.subrange(c as int, d as int))));
                assert(inline_views(out@) + items_from(s@, e as int) =~= before + items_from(s@, i as int));
                i = e;
            },
            None => {
                i += 1;
            },
        }
    }
    assert(inline_views(out@) =~= inline_views(out@) + items_from(s@, i as int));
    out
}

/// What an item is turned into: its path, a newline, then its patch text
/// with each `\n` escape made a newline.
pub open spec fn item_text(item: (Seq<char>, Seq<char>, Seq<char>)) -> Seq<char> {
    item.1 + seq!['\n'] + replace_all(item.2, seq!['\\', 'n'], seq!['\n'])
}

/// Each item in turn: every occurrence of its whole text replaced by its
/// expansion.
pub open spec fn expand_items(content: Seq<char>, items: Seq<(Seq<char>, Seq<char>, Seq<char>)>) -> Seq<char>
    decreases items.len(),
{
    if items.len() == 0 {
        content
    } else {
        let prev = expand_items(content, items.drop_last());
        replace_all(prev, items.last().0, item_text(items.last()))
    }
}

/// Expands the given items in `content`.
pub fn apply_inline_items(content: &str, items: &Vec<InlinePatch>) -> (r: String)
    ensures
        r@ == expand_items(content@, inline_views(items@)),
{
    let ghost iv = inline_views(items@);
    let mut cur = chars_of(content);
    let esc = vec!['\\', 'n'];
    let nl = vec!['\n'];
    let mut i: usize = 0;
    while i < items.len()
        invariant
            i <= items.len(),
            iv == inline_views(items@),
            esc@ == seq!['\\', 'n'],
            nl@ == seq!['\n'],
            cur@ == expand_items(content@, iv.take(i as int)),
        decreases items.len() - i,
    {
        proof {
            assert(iv.take(i + 1).drop_last() =~= iv.take(i as int));
        }
        let it = &items[i];
        let patch = chars_of(it.patch.as_str());
        let body = replace_all_exec(patch.as_slice(), esc.as_slice(), nl.as_slice());
        let mut rep = chars_of(it.path.as_str());
        rep.push('\n');
        extend_from(&mut rep, body.as_slice());
        let whole = chars_of(it.whole.as_str());
        cur = replace_all_exec(cur.as_slice(), whole.as_slice(), rep.as_slice());
        assert(rep@ =~= item_text(iv[i as int]));
        i += 1;
    }
    assert(iv.take(items.len() as int) =~= iv);
    string_of(cur.as_slice())
}

/// Turns every inline `path="…" patch="…"` item of a document into a
/// path line followed by the patch text, so that the patch parser sees
/// ordinary hunks.
pub fn expand_inline_patches(content: &str) -> (r: String)
    ensures
        r@ == expand_items(content@, items_from(content@, 0)),
{
    let items = inline_items(content);
    apply_inline_items(content, &items)
}

// ---------------------------------------------------------------------------
// patchinfo.log
// ---------------------------------------------------------------------------

/// The text of a line before its first `|`.
pub open spec fn first_field(l: Seq<char>) -> Seq<char> {
    match find(l, seq!['|']) {
        Some(i) => l.take(i),
        None => l,
    }
}

/// The hashes recorded in the log lines: the trimmed first field of each
/// line, where it is not empty.
pub open spec fn logged_hashes(ls: Seq<Seq<char>>) -> Seq<Seq<char>>
    decreases ls.len(),
{
    if ls.len() == 0 {
        Seq::empty()
    } else {
        let h = trim(first_field(ls.last()));
        if h.len() > 0 {
            logged_hashes(ls.drop_last()).push(h)
        } else {
            logged_hashes(ls.drop_last())
        }
    }
}

/// The hashes of the hunks that `patchinfo.log` records as applied, in the
/// order of its lines.
pub fn applied_hashes(log: &str) -> (r: Vec<String>)
    ensures
        views(r@) == logged_hashes(lines(log@)),
{
    let c = chars_of(log);
    let ls = split_lines(c.as_slice());
    let ghost lv = ls@.map_values(|l: Vec<char>| l@);
    let bar = vec!['|'];
    let mut out: Vec<String> = Vec::new();
    let mut i: usize = 0;
    while i < ls.len()
        invariant
            i <= ls.len(),
            lv == ls@.map_values(|l: Vec<char>| l@),
            bar@ == seq!['|'],
            views(out@) == logged_hashes(lv.take(i as int)),
        decreases ls.len() - i,
    {
        proof {
            assert(lv.take(i + 1).drop_last() =~= lv.take(i as int));
            assert(lv.take(i + 1).last() == ls@[i as int]@);
        }
        let line = &ls[i];
        let found = find_exec(line.as_slice(), bar.as_slice());
        proof {
            crate::text::lemma_find_from_spec(line@, seq!['|'], 0);
        }
        let field: Vec<char> = match found {
            Some(k) => crate::text::copy_range(line.as_slice(), 0, k),
            None => crate::text::clone_chars(line),
        };
        assert(field@ =~= first_field(line@));
        let h = trimmed(field.as_slice());
        if h.len() > 0 {
            let ghost before = out@;
            out.push(string_of(h.as_slice()));
            assert(views(out@) =~= views(before).push(h@));
        }
        i += 1;
    }
    assert(lv.take(ls.len() as int) =~= lv);
    out
}

/// Whether a hash is among those recorded.
pub fn is_applied(hashes: &Vec<String>, hash: &str) -> (r: bool)
    ensures
        r == views(hashes@).contains(hash@),
{
    let h = chars_of(hash);
    let ghost hv = views(hashes@);
    let mut i: usize = 0;
    while i < hashes.len()
        invariant
            i <= hashes.len(),
            hv == views(hashes@),
            h@ == hash@,
            forall|k: int| 0 <= k < i ==> hv[k] != hash@,
        decreases hashes.len() - i,
    {
        let c = chars_of(hashes[i].as_str());
        if crate::text::chars_eq(c.as_slice(), h.as_slice()) {
            assert(hv[i as int] == hash@);
            return true;
        }
        i += 1;
    }
    false
}

/// One line of `patchinfo.log`: `hash | path | seconds`.
pub open spec fn log_entry_text(hash: Seq<char>, path: Seq<char>, secs: nat) -> Seq<char> {
    hash + " | "@ + path + " | "@ + crate::fmt::decimal(secs)
}

/// The log line recording that a hunk was applied at UNIX time `secs`.
pub fn log_entry(hash: &str, path: &str, secs: u64) -> (r: String)
    ensures
        r@ == log_entry_text(hash@, path@, secs as nat),
{
    let mut v: Vec<char> = Vec::new();
    push_str_chars(&mut v, hash);
    push_str_chars(&mut v, " | ");
    push_str_chars(&mut v, path);
    push_str_chars(&mut v, " | ");
    let d = crate::fmt::decimal_chars(secs as u128);
    extend_from(&mut v, d.as_slice());
    string_of(v.as_slice())
}

// ---------------------------------------------------------------------------
// Messages
// ---------------------------------------------------------------------------

/// The lines shown under a patched file: all of them when there are at
/// most six, else the first three, `...` and the last three; each indented
/// by two spaces and ended by a newline.
pub open spec fn preview_lines(ls: Seq<Seq<char>>) -> Seq<Seq<char>> {
    if ls.len() <= 6 {
        ls
    } else {
        ls.take(3).push("..."@) + ls.skip(ls.len() - 3)
    }
}

pub open spec fn indented(ls: Seq<Seq<char>>) -> Seq<char>
    decreases ls.len(),
{
    if ls.len() == 0 {
        Seq::empty()
    } else {
        indented(ls.drop_last()) + "  "@ + ls.last() + "\n"@
    }
}

/// The summary of a patched file: the header line, then the preview of
/// the replacement, with trailing whitespace trimmed.
pub open spec fn patched_summary_text(header: Seq<char>, replace: Seq<Seq<char>>) -> Seq<char> {
    crate::text::trim_end(header + indented(preview_lines(replace)))
}

fn indent_all(v: &mut Vec<char>, ls: &Vec<String>, a: usize, b: usize)
    requires
        a <= b <= ls.len(),
    ensures
        final(v)@ == old(v)@ + indented(views(ls@).subrange(a as int, b as int)),
{
    let ghost vs = views(ls@);
    let mut i = a;
    while i < b
        invariant
            a <= i <= b <= ls.len(),
            vs == views(ls@),
            v@ == old(v)@ + indented(vs.subrange(a as int, i as int)),
        decreases b - i,
    {
        proof {
            assert(vs.subrange(a as int, i + 1).drop_last() =~= vs.subrange(a as int, i as int));
        }
        push_str_chars(v, "  ");
        push_str_chars(v, ls[i].as_str());
        push_str_chars(v, "\n");
        i += 1;
    }
}

proof fn lemma_indented_concat(a: Seq<Seq<char>>, b: Seq<Seq<char>>)
    ensures
        indented(a + b) == indented(a) + indented(b),
    decreases b.len(),
{
    if b.len() == 0 {
        assert(a + b =~= a);
    } else {
        lemma_indented_concat(a, b.drop_last());
        assert((a + b).drop_last() =~= a + b.drop_last());
    }
}

/// The summary shown for a patched file, after `header` (which carries
/// the match score).
pub fn patched_summary(header: &str, replace: &Vec<String>) -> (r: String)
    ensures
        r@ == patched_summary_text(header@, views(replace@)),
{
    let ghost vs = views(replace@);
    let mut v: Vec<char> = Vec::new();
    push_str_chars(&mut v, header);
    let n = replace.len();
    if n <= 6 {
        indent_all(&mut v, replace, 0, n);
        assert(vs.subrange(0, n as int) =~= vs);
    } else {
        indent_all(&mut v, replace, 0, 3);
        push_str_chars(&mut v, "  ...\n");
        indent_all(&mut v, replace, n - 3, n);
        proof {
            let p = vs.take(3).push("..."@);
            assert(vs.subrange(0, 3) =~= vs.take(3));
            assert(vs.subrange(n - 3, n as int) =~= vs.skip(n - 3));
            assert(indented(p) == indented(vs.take(3)) + "  "@ + "..."@ + "\n"@) by {
                assert(p.drop_last() =~= vs.take(3));
            }
            lemma_indented_concat(p, vs.skip(n - 3));
            assert("  "@ + "..."@ + "\n"@ == "  ...\n"@) by {
                reveal_strlit("  ");
                reveal_strlit("...");
                reveal_strlit("\n");
                reveal_strlit("  ...\n");
            }
        }
    }
    let t = crate::text::trimmed_end(v.as_slice());
    assert(v@ =~= header@ + indented(preview_lines(vs)));
    string_of(t.as_slice())
}


// ---------------------------------------------------------------------------
// One hunk of a patch run
// ---------------------------------------------------------------------------

/// The hash that records a hunk in `patchinfo.log`.
pub open spec fn hunk_hash_text(h: SpecHunk) -> Seq<char> {
    hex_fixed(spec_default_hash(block_text(h)) as nat, 16)
}

/// How a hunk of a run begins.
pub enum HunkStart {
    /// An empty SEARCH: the hunk is passed over without a report.
    Ignore,
    /// Applied in an earlier run: the report says so.
    Done(String),
    /// To be applied; carries the hunk's hash.
    Open(String),
}

/// What the run found at a hunk's file.
pub enum HunkTarget {
    /// The path check refused the path, with this reason.
    Refused(String),
    /// No file at the checked path.
    Missing,
    /// The file could not be read, with the system's reason.
    Unreadable(String),
    /// The file's text.
    Text(String),
}

/// What a hunk leaves: its report, the file's new text when it is to be
/// written, and the log line when it was applied.
pub struct HunkDone {
    pub report: String,
    pub new_content: Option<String>,
    pub log_entry: Option<String>,
}

/// The report of a hunk that was already applied.
pub open spec fn already_applied_text(path: Seq<char>) -> Seq<char> {
    "\u{23ed}\u{fe0f} "@ + path + " skipped (already applied in patchinfo.log)"@
}

/// A hunk's report: a refusal, a missing file, a patched file or a failed
/// patch.
pub open spec fn hunk_failed_text(path: Seq<char>, why: Seq<char>) -> Seq<char> {
    "\u{274c} "@ + path + ": "@ + why
}

pub open spec fn hunk_patched_text(h: SpecHunk) -> Seq<char> {
    patched_summary_text("\u{2705} "@ + h.filename + " patched (exact match)\n"@, h.replace)
}

pub open spec fn hunk_skipped_text(path: Seq<char>, why: Seq<char>) -> Seq<char> {
    "\u{274c} "@ + path + " skipped: "@ + why
}

/// How a hunk begins, given the hashes recorded as applied: an empty SEARCH
/// is ignored, a recorded hash is reported as done, any other hunk is opened
/// with its hash.
pub fn start_hunk(h: &PatchHunk, applied: &Vec<String>) -> (r: HunkStart)
    ensures
        match r {
            HunkStart::Ignore => h@.search.len() == 0,
            HunkStart::Done(m) => {
                &&& h@.search.len() > 0
                &&& views(applied@).contains(hunk_hash_text(h@))
                &&& m@ == already_applied_text(h@.filename)
            },
            HunkStart::Open(x) => {
                &&& h@.search.len() > 0
                &&& !views(applied@).contains(hunk_hash_text(h@))
                &&& x@ == hunk_hash_text(h@)
            },
        },
{
    if h.search.len() == 0 {
        return HunkStart::Ignore;
    }
    let hash = hunk_hash(h);
    if is_applied(applied, hash.as_str()) {
        let mut v: Vec<char> = Vec::new();
        push_str_chars(&mut v, "\u{23ed}\u{fe0f} ");
        push_str_chars(&mut v, h.filename.as_str());
        push_str_chars(&mut v, " skipped (already applied in patchinfo.log)");
        return HunkStart::Done(string_of(v.as_slice()));
    }
    HunkStart::Open(hash)
}

fn joined4(a: &str, b: &str, c: &str, d: &str) -> (r: String)
    ensures
        r@ == a@ + b@ + c@ + d@,
{
    let mut v: Vec<char> = Vec::new();
    push_str_chars(&mut v, a);
    push_str_chars(&mut v, b);
    push_str_chars(&mut v, c);
    push_str_chars(&mut v, d);
    string_of(v.as_slice())
}

fn joined3(a: &str, b: &str, c: &str) -> (r: String)
    ensures
        r@ == a@ + b@ + c@,
{
    let mut v: Vec<char> = Vec::new();
    push_str_chars(&mut v, a);
    push_str_chars(&mut v, b);
    push_str_chars(&mut v, c);
    string_of(v.as_slice())
}

pub open spec fn opt_text(o: Option<String>) -> Option<Seq<char>> {
    match o {
        Some(t) => Some(t@),
        None => None,
    }
}

/// `r` is a finished hunk with this report, new text and log line.
pub open spec fn done_is(
    r: Result<HunkDone, String>,
    report: Seq<char>,
    content: Option<Seq<char>>,
    log: Option<Seq<char>>,
) -> bool {
    match r {
        Ok(d) => d.report@ == report && opt_text(d.new_content) == content && opt_text(d.log_entry) == log,
        Err(_) => false,
    }
}

/// Finishes an opened hunk (hash `hash`) on what was found at its file, at
/// UNIX time `secs`: a refused path or a missing file is reported; a file
/// that cannot be read ends the run with an error; a readable file gets the
/// hunk's block applied, and is written and logged when that succeeds.
pub fn finish_hunk(h: &PatchHunk, hash: &str, target: &HunkTarget, secs: u64) -> (r: Result<HunkDone, String>)
    ensures
        match target {
            HunkTarget::Refused(e) => done_is(r, hunk_failed_text(h@.filename, e@), None, None),
            HunkTarget::Missing => done_is(r, hunk_failed_text(h@.filename, "File does not exist"@), None, None),
            HunkTarget::Unreadable(e) => r == Err::<HunkDone, String>(r->Err_0) && r->Err_0@ == "Failed to read "@
                + h@.filename + ": "@ + e@,
            HunkTarget::Text(c) => match crate::apply::apply_blocks(c@, block_text(h@)) {
                Ok((s, _)) => done_is(
                    r,
                    hunk_patched_text(h@),
                    Some(s),
                    Some(log_entry_text(hash@, h@.filename, secs as nat)),
                ),
                Err(f) => done_is(
                    r,
                    hunk_skipped_text(h@.filename, crate::apply::failure_text(f, h@.filename)),
                    None,
                    None,
                ),
            },
        },
{
    let path = h.filename.as_str();
    match target {
        HunkTarget::Refused(e) => {
            Ok(HunkDone { report: joined4("\u{274c} ", path, ": ", e.as_str()), new_content: None, log_entry: None })
        },
        HunkTarget::Missing => {
            Ok(HunkDone { report: joined4("\u{274c} ", path, ": ", "File does not exist"), new_content: None, log_entry: None })
        },
        HunkTarget::Unreadable(e) => {
            Err(joined4("Failed to read ", path, ": ", e.as_str()))
        },
        HunkTarget::Text(c) => {
            let block = hunk_block_text(h);
            match crate::apply::apply_patch_text(c.as_str(), block.as_str()) {
                Ok((new_text, _)) => {
                    let header = joined3("\u{2705} ", path, " patched (exact match)\n");
                    let report = patched_summary(header.as_str(), &h.replace);
                    Ok(HunkDone { report, new_content: Some(new_text), log_entry: Some(log_entry(hash, path, secs)) })
                },
                Err(e) => {
                    let why = e.message(path);
                    Ok(HunkDone { report: joined4("\u{274c} ", path, " skipped: ", why.as_str()), new_content: None, log_entry: None })
                },
            }
        },
    }
}

} // verus!
