//! Side-by-side rows of a hunk's SEARCH and REPLACE blocks, the match
//! gutter of the merge view and word-level highlights, over the changes
//! that the `similar` crate computes.

use vstd::prelude::*;
use similar::{ChangeTag, TextDiff};
use crate::text::{chars_of, join_lines, push_str_chars, string_of, views};

verus! {

broadcast use vstd::string::group_string_axioms;

/// The kind of one change.
#[derive(Clone, Copy, Debug, PartialEq, Eq, Structural)]
pub enum DiffTag {
    Equal,
    Delete,
    Insert,
}

/// One change: its kind and its text (`Change::to_string`).
#[derive(Clone, Debug)]
pub struct DiffChange {
    pub tag: DiffTag,
    pub text: String,
}

pub open spec fn change_views(v: Seq<DiffChange>) -> Seq<(DiffTag, Seq<char>)> {
    Seq::new(v.len(), |i: int| (v[i].tag, v[i].text@))
}

/// The changes that `TextDiff::from_lines(old, new).iter_all_changes()`
/// yields, each as its tag and its text.
pub uninterp spec fn spec_line_changes(old: Seq<char>, new: Seq<char>) -> Seq<(DiffTag, Seq<char>)>;

/// The changes that `TextDiff::from_words(old, new).iter_all_changes()`
/// yields, each as its tag and its text.
pub uninterp spec fn spec_word_changes(old: Seq<char>, new: Seq<char>) -> Seq<(DiffTag, Seq<char>)>;

/// `TextDiff::from_lines(old, new).iter_all_changes()`, each change as its
/// tag and its `to_string()`. The diff runs without a deadline; which
/// changes Myers' algorithm picks is left to the crate.
#[verifier::external_body]
fn line_changes(old: &str, new: &str) -> (r: Vec<DiffChange>)
    ensures
        change_views(r@) == spec_line_changes(old@, new@),
{
    let diff = TextDiff::from_lines(old, new);
    let mut v = Vec::new();
    for ch in diff.iter_all_changes() {
        let tag = match ch.tag() {
            ChangeTag::Equal => DiffTag::Equal,
            ChangeTag::Delete => DiffTag::Delete,
            ChangeTag::Insert => DiffTag::Insert,
        };
        v.push(DiffChange { tag, text: ch.to_string() });
    }
    v
}

/// `TextDiff::from_words(old, new).iter_all_changes()`, each change as its
/// tag and its `to_string()`. Which changes are picked is left to the
/// crate.
#[verifier::external_body]
fn word_changes(old: &str, new: &str) -> (r: Vec<DiffChange>)
    ensures
        change_views(r@) == spec_word_changes(old@, new@),
{
    let diff = TextDiff::from_words(old, new);
    let mut v = Vec::new();
    for ch in diff.iter_all_changes() {
        let tag = match ch.tag() {
            ChangeTag::Equal => DiffTag::Equal,
            ChangeTag::Delete => DiffTag::Delete,
            ChangeTag::Insert => DiffTag::Insert,
        };
        v.push(DiffChange { tag, text: ch.to_string() });
    }
    v
}

/// One row of the side-by-side view.
#[derive(Clone, Debug)]
pub enum DiffRow {
    Equal(String),
    Delete(String),
    Insert(String),
    Modified(String, String),
}

/// The model of a row.
pub enum RowView {
    Equal(Seq<char>),
    Delete(Seq<char>),
    Insert(Seq<char>),
    Modified(Seq<char>, Seq<char>),
}

impl View for DiffRow {
    type V = RowView;

    open spec fn view(&self) -> RowView {
        match self {
            DiffRow::Equal(s) => RowView::Equal(s@),
            DiffRow::Delete(s) => RowView::Delete(s@),
            DiffRow::Insert(s) => RowView::Insert(s@),
            DiffRow::Modified(a, b) => RowView::Modified(a@, b@),
        }
    }
}

pub open spec fn rows_view(v: Seq<DiffRow>) -> Seq<RowView> {
    Seq::new(v.len(), |i: int| v[i]@)
}

/// `s` without trailing newlines.
pub open spec fn trim_newlines(s: Seq<char>) -> Seq<char>
    decreases s.len(),
{
    if s.len() > 0 && s.last() == '\n' {
        trim_newlines(s.drop_last())
    } else {
        s
    }
}

/// Pending deletions and insertions paired up: a modified row for each
/// pair, then the deletions left over, then the insertions left over.
pub open spec fn flushed(dels: Seq<Seq<char>>, inss: Seq<Seq<char>>) -> Seq<RowView> {
    let n = if dels.len() < inss.len() {
        dels.len()
    } else {
        inss.len()
    };
    Seq::new(n, |i: int| RowView::Modified(dels[i], inss[i])) + Seq::new(
        (dels.len() - n) as nat,
        |i: int| RowView::Delete(dels[n + i]),
    ) + Seq::new((inss.len() - n) as nat, |i: int| RowView::Insert(inss[n + i]))
}

/// The rows so far, and the deletions and insertions waiting for a pair.
pub open spec fn rows_acc(cs: Seq<(DiffTag, Seq<char>)>) -> (Seq<RowView>, Seq<Seq<char>>, Seq<Seq<char>>)
    decreases cs.len(),
{
    if cs.len() == 0 {
        (Seq::empty(), Seq::empty(), Seq::empty())
    } else {
        let (rows, dels, inss) = rows_acc(cs.drop_last());
        let line = trim_newlines(cs.last().1);
        match cs.last().0 {
            DiffTag::Equal => (rows + flushed(dels, inss) + seq![RowView::Equal(line)], Seq::empty(), Seq::empty()),
            DiffTag::Delete => (rows, dels.push(line), inss),
            DiffTag::Insert => (rows, dels, inss.push(line)),
        }
    }
}

/// The side-by-side rows of a run of changes.
pub open spec fn rows_of(cs: Seq<(DiffTag, Seq<char>)>) -> Seq<RowView> {
    let (rows, dels, inss) = rows_acc(cs);
    rows + flushed(dels, inss)
}

fn trim_newlines_exec(s: &String) -> (r: String)
    ensures
        r@ == trim_newlines(s@),
{
    let c = chars_of(s.as_str());
    let mut n = c.len();
    assert(c@.take(n as int) =~= c@);
    while n > 0 && c[n - 1] == '\n'
        invariant
            n <= c@.len(),
            trim_newlines(c@.take(n as int)) == trim_newlines(s@),
            c@ == s@,
        decreases n,
    {
        assert(c@.take(n as int).drop_last() =~= c@.take(n - 1));
        n -= 1;
    }
    assert(c@.take(n as int).len() == 0 || c@.take(n as int).last() != '\n');
    string_of(crate::text::copy_range(c.as_slice(), 0, n).as_slice())
}

fn flush(rows: &mut Vec<DiffRow>, dels: &mut Vec<String>, inss: &mut Vec<String>)
    ensures
        rows_view(final(rows)@) == rows_view(old(rows)@) + flushed(views(old(dels)@), views(old(inss)@)),
        final(dels)@.len() == 0,
        final(inss)@.len() == 0,
{
    let ghost dv = views(dels@);
    let ghost iv = views(inss@);
    let ghost r0 = rows_view(rows@);
    let n = if dels.len() < inss.len() {
        dels.len()
    } else {
        inss.len()
    };
    let mut i: usize = 0;
    while i < n
        invariant
            i <= n,
            n == (if dv.len() < iv.len() { dv.len() } else { iv.len() }),
            dv == views(dels@),
            iv == views(inss@),
            rows_view(rows@) == r0 + Seq::new(i as nat, |k: int| RowView::Modified(dv[k], iv[k])),
        decreases n - i,
    {
        let a = string_of(chars_of(dels[i].as_str()).as_slice());
        let b = string_of(chars_of(inss[i].as_str()).as_slice());
        let ghost before = rows_view(rows@);
        assert(a@ == dv[i as int] && b@ == iv[i as int]);
        rows.push(DiffRow::Modified(a, b));
        assert(rows_view(rows@) =~= before.push(RowView::Modified(dv[i as int], iv[i as int])));
        i += 1;
        assert(rows_view(rows@) =~= r0 + Seq::new(i as nat, |k: int| RowView::Modified(dv[k], iv[k])));
    }
    let ghost r1 = rows_view(rows@);
    let mut j = n;
    while j < dels.len()
        invariant
            n <= j <= dels.len(),
            dv == views(dels@),
            rows_view(rows@) == r1 + Seq::new((j - n) as nat, |k: int| RowView::Delete(dv[n + k])),
        decreases dels.len() - j,
    {
        let a = string_of(chars_of(dels[j].as_str()).as_slice());
        let ghost before = rows_view(rows@);
        assert(a@ == dv[j as int]);
        rows.push(DiffRow::Delete(a));
        assert(rows_view(rows@) =~= before.push(RowView::Delete(dv[j as int])));
        j += 1;
        assert(rows_view(rows@) =~= r1 + Seq::new((j - n) as nat, |k: int| RowView::Delete(dv[n + k])));
    }
    let ghost r2 = rows_view(rows@);
    let mut j = n;
    while j < inss.len()
        invariant
            n <= j <= inss.len(),
            iv == views(inss@),
            rows_view(rows@) == r2 + Seq::new((j - n) as nat, |k: int| RowView::Insert(iv[n + k])),
        decreases inss.len() - j,
    {
        let a = string_of(chars_of(inss[j].as_str()).as_slice());
        let ghost before = rows_view(rows@);
        assert(a@ == iv[j as int]);
        rows.push(DiffRow::Insert(a));
        assert(rows_view(rows@) =~= before.push(RowView::Insert(iv[j as int])));
        j += 1;
        assert(rows_view(rows@) =~= r2 + Seq::new((j - n) as nat, |k: int| RowView::Insert(iv[n + k])));
    }
    assert(rows_view(rows@) =~= r0 + flushed(dv, iv));
    dels.clear();
    inss.clear();
}

fn join_with_newline(ls: &[String]) -> (r: String)
    ensures
        r@ == join_lines(views(ls@)),
{
    let ghost vs = views(ls@);
    let mut v: Vec<char> = Vec::new();
    let mut i: usize = 0;
    while i < ls.len()
        invariant
            i <= ls.len(),
            vs == views(ls@),
            v@ == join_lines(vs.take(i as int)),
        decreases ls.len() - i,
    {
        proof {
            assert(vs.take(i + 1).drop_last() =~= vs.take(i as int));
        }
        if i > 0 {
            v.push('\n');
        }
        push_str_chars(&mut v, ls[i].as_str());
        proof {
            if i == 0 {
                assert(v@ =~= vs.take(1)[0]);
            }
        }
        i += 1;
    }
    assert(vs.take(ls.len() as int) =~= vs);
    string_of(v.as_slice())
}

/// Turns a run of changes into side-by-side rows: equal lines as they are,
/// and between them the deletions paired with the insertions as modified
/// rows, the unpaired ones after; each line without its newline.
pub fn rows_from_changes(cs: &Vec<DiffChange>) -> (r: Vec<DiffRow>)
    ensures
        rows_view(r@) == rows_of(change_views(cs@)),
{
    let ghost cv = change_views(cs@);
    let mut rows: Vec<DiffRow> = Vec::new();
    let mut dels: Vec<String> = Vec::new();
    let mut inss: Vec<String> = Vec::new();
    let mut i: usize = 0;
    while i < cs.len()
        invariant
            i <= cs.len(),
            cv == change_views(cs@),
            rows_acc(cv.take(i as int)) == (rows_view(rows@), views(dels@), views(inss@)),
        decreases cs.len() - i,
    {
        proof {
            assert(cv.take(i + 1).drop_last() =~= cv.take(i as int));
            assert(cv.take(i + 1).last() == cv[i as int]);
        }
        let line = trim_newlines_exec(&cs[i].text);
        match cs[i].tag {
            DiffTag::Equal => {
                flush(&mut rows, &mut dels, &mut inss);
                let ghost before = rows_view(rows@);
                rows.push(DiffRow::Equal(line));
                assert(rows_view(rows@) =~= before.push(RowView::Equal(trim_newlines(cv[i as int].1))));
                assert(views(dels@) =~= Seq::<Seq<char>>::empty());
                assert(views(inss@) =~= Seq::<Seq<char>>::empty());
            },
            DiffTag::Delete => {
                let ghost before = views(dels@);
                dels.push(line);
                assert(views(dels@) =~= before.push(trim_newlines(cv[i as int].1)));
            },
            DiffTag::Insert => {
                let ghost before = views(inss@);
                inss.push(line);
                assert(views(inss@) =~= before.push(trim_newlines(cv[i as int].1)));
            },
        }
        i += 1;
    }
    assert(cv.take(cs.len() as int) =~= cv);
    flush(&mut rows, &mut dels, &mut inss);
    rows
}

/// The side-by-side rows of a hunk: its SEARCH lines against its REPLACE
/// lines, each block joined with newlines and compared line by line.
pub fn build_diff_rows(search: &[String], replace: &[String]) -> (r: Vec<DiffRow>)
    ensures
        rows_view(r@) == rows_of(spec_line_changes(join_lines(views(search@)), join_lines(views(replace@)))),
{
    let a = join_with_newline(search);
    let b = join_with_newline(replace);
    let cs = line_changes(a.as_str(), b.as_str());
    rows_from_changes(&cs)
}

pub open spec fn gutter_char(r: RowView) -> Option<char> {
    match r {
        RowView::Equal(_) => Some('='),
        RowView::Modified(_, _) => Some('~'),
        RowView::Insert(_) => Some('+'),
        RowView::Delete(_) => None,
    }
}

/// The gutter marks of the rows that have a file line: `=` equal, `~`
/// modified, `+` only in the file.
pub open spec fn gutter_of(rows: Seq<RowView>) -> Seq<char>
    decreases rows.len(),
{
    if rows.len() == 0 {
        Seq::empty()
    } else {
        match gutter_char(rows.last()) {
            Some(c) => gutter_of(rows.drop_last()).push(c),
            None => gutter_of(rows.drop_last()),
        }
    }
}

/// How many rows are equal.
pub open spec fn equal_count(rows: Seq<RowView>) -> nat
    decreases rows.len(),
{
    if rows.len() == 0 {
        0
    } else {
        equal_count(rows.drop_last()) + if rows.last() is Equal {
            1nat
        } else {
            0nat
        }
    }
}

/// The gutter of the rows, the number of equal rows and the number of
/// rows.
pub fn gutter_from_rows(rows: &Vec<DiffRow>) -> (r: (Vec<char>, usize, usize))
    ensures
        r.0@ == gutter_of(rows_view(rows@)),
        r.1 == equal_count(rows_view(rows@)),
        r.2 == rows@.len(),
{
    let ghost rv = rows_view(rows@);
    let mut gutter: Vec<char> = Vec::new();
    let mut eq: usize = 0;
    let mut total: usize = 0;
    let mut i: usize = 0;
    while i < rows.len()
        invariant
            i <= rows.len(),
            rv == rows_view(rows@),
            gutter@ == gutter_of(rv.take(i as int)),
            eq == equal_count(rv.take(i as int)),
            eq <= i,
            total == i,
        decreases rows.len() - i,
    {
        proof {
            assert(rv.take(i + 1).drop_last() =~= rv.take(i as int));
            assert(rv.take(i + 1).last() == rv[i as int]);
        }
        match &rows[i] {
            DiffRow::Equal(_) => {
                gutter.push('=');
                eq += 1;
                total += 1;
            },
            DiffRow::Modified(_, _) => {
                gutter.push('~');
                total += 1;
            },
            DiffRow::Insert(_) => {
                gutter.push('+');
                total += 1;
            },
            DiffRow::Delete(_) => {
                total += 1;
            },
        }
        i += 1;
    }
    assert(rv.take(rows.len() as int) =~= rv);
    (gutter, eq, total)
}

/// Compares a hunk's SEARCH block with the block it was matched to in the
/// file: a gutter mark for each matched line (`=` equal, `~` modified, `+`
/// only in the file), the number of equal lines and the number of rows,
/// from which the match percentage is computed.
pub fn build_match_gutter(search: &[String], matched: &[String]) -> (r: (Vec<char>, usize, usize))
    ensures
        ({
            let rows = rows_of(spec_line_changes(join_lines(views(search@)), join_lines(views(matched@))));
            &&& r.0@ == gutter_of(rows)
            &&& r.1 == equal_count(rows)
            &&& r.2 == rows.len()
        }),
{
    let rows = build_diff_rows(search, matched);
    gutter_from_rows(&rows)
}

/// The two sides of a word diff: each word with whether it changed.
pub open spec fn word_sides(cs: Seq<(DiffTag, Seq<char>)>) -> (Seq<(Seq<char>, bool)>, Seq<(Seq<char>, bool)>)
    decreases cs.len(),
{
    if cs.len() == 0 {
        (Seq::empty(), Seq::empty())
    } else {
        let (l, r) = word_sides(cs.drop_last());
        let w = cs.last().1;
        match cs.last().0 {
            DiffTag::Equal => (l.push((w, false)), r.push((w, false))),
            DiffTag::Delete => (l.push((w, true)), r),
            DiffTag::Insert => (l, r.push((w, true))),
        }
    }
}

pub open spec fn spans_view(v: Seq<(String, bool)>) -> Seq<(Seq<char>, bool)> {
    Seq::new(v.len(), |i: int| (v[i].0@, v[i].1))
}

/// The word spans of each side of a run of changes.
pub fn sides_from_changes(cs: &Vec<DiffChange>) -> (r: (Vec<(String, bool)>, Vec<(String, bool)>))
    ensures
        (spans_view(r.0@), spans_view(r.1@)) == word_sides(change_views(cs@)),
{
    let ghost cv = change_views(cs@);
    let mut left: Vec<(String, bool)> = Vec::new();
    let mut right: Vec<(String, bool)> = Vec::new();
    let mut i: usize = 0;
    while i < cs.len()
        invariant
            i <= cs.len(),
            cv == change_views(cs@),
            word_sides(cv.take(i as int)) == (spans_view(left@), spans_view(right@)),
        decreases cs.len() - i,
    {
        proof {
            assert(cv.take(i + 1).drop_last() =~= cv.take(i as int));
            assert(cv.take(i + 1).last() == cv[i as int]);
        }
        let ghost l0 = spans_view(left@);
        let ghost r0 = spans_view(right@);
        let w = string_of(chars_of(cs[i].text.as_str()).as_slice());
        match cs[i].tag {
            DiffTag::Equal => {
                let w2 = string_of(chars_of(cs[i].text.as_str()).as_slice());
                left.push((w, false));
                right.push((w2, false));
                assert(spans_view(left@) =~= l0.push((cv[i as int].1, false)));
                assert(spans_view(right@) =~= r0.push((cv[i as int].1, false)));
            },
            DiffTag::Delete => {
                left.push((w, true));
                assert(spans_view(left@) =~= l0.push((cv[i as int].1, true)));
            },
            DiffTag::Insert => {
                right.push((w, true));
                assert(spans_view(right@) =~= r0.push((cv[i as int].1, true)));
            },
        }
        i += 1;
    }
    assert(cv.take(cs.len() as int) =~= cv);
    (left, right)
}

/// The words of `old` and of `new`, each marked where it changed.
pub fn word_diff(old: &str, new: &str) -> (r: (Vec<(String, bool)>, Vec<(String, bool)>))
    ensures
        (spans_view(r.0@), spans_view(r.1@)) == word_sides(spec_word_changes(old@, new@)),
{
    let cs = word_changes(old, new);
    sides_from_changes(&cs)
}

} // verus!
