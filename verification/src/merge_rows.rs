//! What the merge view shows of a hunk (its search and replace lines, long
//! ones folded) and the summary of all hunks' match scores.

use vstd::prelude::*;
use crate::buffer::TermColor;
use crate::fmt::{decimal, decimal_string};
use crate::merge_view::right_rows_len_spec;
use crate::patch::PatchHunk;
use crate::popup::PopupItem;
use crate::text::{chars_of, push_str_chars, replace_all, replace_all_exec, string_of, views};
use crate::unicode::{spec_str_width, str_width};

verus! {

broadcast use vstd::string::group_string_axioms;

/// A row of the hunk pane: its text, colour, and whether it is a marker.
pub type PaneRow = (Seq<char>, TermColor, bool);

pub open spec fn plain_rows(ls: Seq<Seq<char>>, color: TermColor) -> Seq<PaneRow> {
    Seq::new(ls.len(), |i: int| (ls[i], color, false))
}

/// The note that stands for the lines folded away.
pub open spec fn fold_note(hidden: nat) -> Seq<char> {
    "        ... ("@ + decimal(hidden) + ") ..."@
}

/// Lines as the hunk pane shows them: all of them up to twenty, else the
/// first ten, a note with how many are hidden, and the last ten.
pub open spec fn folded(ls: Seq<Seq<char>>, color: TermColor) -> Seq<PaneRow> {
    if ls.len() <= 20 {
        plain_rows(ls, color)
    } else {
        plain_rows(ls.take(10), color) + seq![(fold_note((ls.len() - 20) as nat), TermColor::DarkGrey, false)]
            + plain_rows(ls.skip(ls.len() - 10), color)
    }
}

/// The hunk pane: the search lines in red and the replace lines in green
/// between conflict markers; the last marker says whether the hunk was
/// applied.
pub open spec fn right_rows_spec(search: Seq<Seq<char>>, replace: Seq<Seq<char>>, applied: bool) -> Seq<PaneRow> {
    seq![("<<<<<<< SEARCH"@, TermColor::Magenta, true)] + folded(search, TermColor::Red) + seq![
        ("======="@, TermColor::Magenta, true),
    ] + folded(replace, TermColor::Green) + seq![
        (
            if applied {
                ">>>>>>> APPLIED"@
            } else {
                ">>>>>>> REPLACE"@
            },
            if applied {
                TermColor::Red
            } else {
                TermColor::Magenta
            },
            true,
        ),
    ]
}

pub open spec fn row_views(v: Seq<(String, TermColor, bool)>) -> Seq<PaneRow> {
    Seq::new(v.len(), |i: int| (v[i].0@, v[i].1, v[i].2))
}

fn push_row(out: &mut Vec<(String, TermColor, bool)>, text: &str, color: TermColor, marker: bool)
    ensures
        row_views(final(out)@) == row_views(old(out)@).push((text@, color, marker)),
{
    out.push((string_of(chars_of(text).as_slice()), color, marker));
    assert(row_views(out@) =~= row_views(old(out)@).push((text@, color, marker)));
}

fn push_lines(out: &mut Vec<(String, TermColor, bool)>, ls: &Vec<String>, a: usize, b: usize, color: TermColor)
    requires
        a <= b <= ls.len(),
    ensures
        row_views(final(out)@) == row_views(old(out)@) + plain_rows(views(ls@).subrange(a as int, b as int), color),
{
    let mut i = a;
    while i < b
        invariant
            a <= i <= b,
            b <= ls.len(),
            row_views(out@) == row_views(old(out)@) + plain_rows(views(ls@).subrange(a as int, i as int), color),
        decreases b - i,
    {
        let ghost before = row_views(out@);
        push_row(out, ls[i].as_str(), color, false);
        assert(plain_rows(views(ls@).subrange(a as int, i + 1), color) =~= plain_rows(
            views(ls@).subrange(a as int, i as int),
            color,
        ).push((ls@[i as int]@, color, false)));
        assert(row_views(out@) =~= row_views(old(out)@) + plain_rows(views(ls@).subrange(a as int, i + 1), color));
        i += 1;
    }
}

fn push_folded(out: &mut Vec<(String, TermColor, bool)>, ls: &Vec<String>, color: TermColor)
    ensures
        row_views(final(out)@) == row_views(old(out)@) + folded(views(ls@), color),
{
    let n = ls.len();
    let ghost lv = views(ls@);
    if n <= 20 {
        push_lines(out, ls, 0, n, color);
        assert(lv.subrange(0, n as int) =~= lv);
    } else {
        push_lines(out, ls, 0, 10, color);
        let ghost mid = row_views(out@);
        let mut note: Vec<char> = Vec::new();
        push_str_chars(&mut note, "        ... (");
        let d = decimal_string((n - 20) as u128);
        push_str_chars(&mut note, d.as_str());
        push_str_chars(&mut note, ") ...");
        proof {
            reveal_strlit("        ... (");
            reveal_strlit(") ...");
            assert(note@ =~= fold_note((n - 20) as nat));
        }
        let text = string_of(note.as_slice());
        push_row(out, text.as_str(), TermColor::DarkGrey, false);
        push_lines(out, ls, n - 10, n, color);
        assert(lv.subrange(0, 10) =~= lv.take(10));
        assert(lv.subrange(n - 10, n as int) =~= lv.skip(n - 10));
        assert(row_views(out@) =~= row_views(old(out)@) + folded(lv, color));
    }
}

/// The rows of the hunk pane for `hunk`.
pub fn right_rows(hunk: &PatchHunk, applied: bool) -> (r: Vec<(String, TermColor, bool)>)
    ensures
        row_views(r@) == right_rows_spec(hunk@.search, hunk@.replace, applied),
{
    let mut out: Vec<(String, TermColor, bool)> = Vec::new();
    assert(row_views(out@) =~= Seq::<PaneRow>::empty());
    push_row(&mut out, "<<<<<<< SEARCH", TermColor::Magenta, true);
    push_folded(&mut out, &hunk.search, TermColor::Red);
    push_row(&mut out, "=======", TermColor::Magenta, true);
    push_folded(&mut out, &hunk.replace, TermColor::Green);
    if applied {
        push_row(&mut out, ">>>>>>> APPLIED", TermColor::Red, true);
    } else {
        push_row(&mut out, ">>>>>>> REPLACE", TermColor::Magenta, true);
    }
    proof {
        assert(row_views(out@) =~= right_rows_spec(hunk@.search, hunk@.replace, applied));
    }
    out
}

/// The hunk pane has as many rows as the merge view counts for scrolling.
pub proof fn lemma_right_rows_len(search: Seq<Seq<char>>, replace: Seq<Seq<char>>, applied: bool)
    ensures
        right_rows_spec(search, replace, applied).len() == right_rows_len_spec(search.len(), replace.len()),
{
}

// ------------------------------------------------------------ the summary

pub open spec fn green() -> Seq<char> {
    "\x1b[32m"@
}

pub open spec fn reset() -> Seq<char> {
    "\x1b[0m"@
}

/// One hunk in the summary: its number, match score and how many good
/// candidates it has; a perfect score is drawn green.
pub open spec fn summary_item(i: nat, score: nat, count: nat) -> Seq<char> {
    if score == 100 {
        green() + decimal(i + 1) + "(100%|"@ + decimal(count) + ")"@ + reset()
    } else {
        decimal(i + 1) + "("@ + decimal(score) + "%|"@ + decimal(count) + ")"@
    }
}

/// The width a summary line takes on screen, colour codes left out.
pub open spec fn shown_width(s: Seq<char>) -> nat {
    spec_str_width(replace_all(replace_all(s, green(), Seq::empty()), reset(), Seq::empty()))
}

/// The summary lines for the first `n` hunks: the lines full so far and
/// the line being filled. Items go two spaces apart on a line while it
/// stays within `max_w` columns.
pub open spec fn pack(items: Seq<Seq<char>>, n: int, max_w: nat) -> (Seq<Seq<char>>, Seq<char>)
    decreases n,
{
    if n <= 0 {
        (Seq::empty(), Seq::empty())
    } else {
        let (done, cur) = pack(items, n - 1, max_w);
        let item = items[n - 1];
        if cur.len() == 0 {
            (done, item)
        } else {
            let test = cur + "  "@ + item;
            if shown_width(test) > max_w {
                (done.push(cur), item)
            } else {
                (done, test)
            }
        }
    }
}

pub open spec fn summary_items(s: Seq<(u32, usize)>) -> Seq<Seq<char>> {
    Seq::new(s.len(), |i: int| summary_item(i as nat, s[i].0 as nat, s[i].1 as nat))
}

/// The lines of the hunk summary on a terminal `term_width` columns wide.
pub open spec fn summary_lines(s: Seq<(u32, usize)>, term_width: nat) -> Seq<Seq<char>> {
    let max_w = if term_width >= 6 { (term_width - 6) as nat } else { 0 };
    let (done, cur) = pack(summary_items(s), s.len() as int, max_w);
    let all = if cur.len() > 0 { done.push(cur) } else { done };
    if all.len() == 0 {
        seq!["No hunks found."@]
    } else {
        all
    }
}

/// The summary's title: it says when every hunk matched perfectly.
pub open spec fn summary_title(s: Seq<(u32, usize)>) -> Seq<char> {
    if s.len() > 0 && forall|i: int| 0 <= i < s.len() ==> s[i].0 == 100 {
        "(All 100%) Hunk Summary"@
    } else {
        "Hunk Summary"@
    }
}

fn summary_item_exec(i: usize, score: u32, count: usize) -> (r: Vec<char>)
    requires
        i < usize::MAX,
    ensures
        r@ == summary_item(i as nat, score as nat, count as nat),
{
    let mut v: Vec<char> = Vec::new();
    let num = decimal_string((i + 1) as u128);
    let cnt = decimal_string(count as u128);
    if score == 100 {
        push_str_chars(&mut v, "\x1b[32m");
        push_str_chars(&mut v, num.as_str());
        push_str_chars(&mut v, "(100%|");
        push_str_chars(&mut v, cnt.as_str());
        push_str_chars(&mut v, ")");
        push_str_chars(&mut v, "\x1b[0m");
        proof {
            reveal_strlit("\x1b[32m");
            reveal_strlit("(100%|");
            reveal_strlit(")");
            reveal_strlit("\x1b[0m");
            assert(v@ =~= summary_item(i as nat, score as nat, count as nat));
        }
    } else {
        let sc = decimal_string(score as u128);
        push_str_chars(&mut v, num.as_str());
        push_str_chars(&mut v, "(");
        push_str_chars(&mut v, sc.as_str());
        push_str_chars(&mut v, "%|");
        push_str_chars(&mut v, cnt.as_str());
        push_str_chars(&mut v, ")");
        proof {
            reveal_strlit("(");
            reveal_strlit("%|");
            reveal_strlit(")");
            assert(v@ =~= summary_item(i as nat, score as nat, count as nat));
        }
    }
    v
}

fn shown_width_exec(s: &Vec<char>) -> (w: usize)
    ensures
        w == shown_width(s@),
{
    let g = chars_of("\x1b[32m");
    let z = chars_of("\x1b[0m");
    let e: Vec<char> = Vec::new();
    let a = replace_all_exec(s.as_slice(), g.as_slice(), e.as_slice());
    let b = replace_all_exec(a.as_slice(), z.as_slice(), e.as_slice());
    assert(e@ =~= Seq::<char>::empty());
    str_width(string_of(b.as_slice()).as_str())
}

/// The title and the lines of the hunk summary popup; `summaries` holds
/// each hunk's match score (0 to 100) and its number of good candidates.
pub fn summary_popup(summaries: &Vec<(u32, usize)>, term_width: usize) -> (r: (String, Vec<PopupItem>))
    ensures
        r.0@ == summary_title(summaries@),
        r.1@.len() == summary_lines(summaries@, term_width as nat).len(),
        forall|i: int|
            0 <= i < r.1@.len() ==> (#[trigger] r.1@[i]).text@ == summary_lines(summaries@, term_width as nat)[i]
                && r.1@[i].is_active,
{
    let max_w = term_width.saturating_sub(6);
    let ghost items = summary_items(summaries@);
    let mut done: Vec<PopupItem> = Vec::new();
    let mut cur: Vec<char> = Vec::new();
    let mut all100 = true;
    let mut k: usize = 0;
    while k < summaries.len()
        invariant
            k <= summaries.len(),
            max_w == (if term_width >= 6 { term_width - 6 } else { 0 }),
            items == summary_items(summaries@),
            ({
                let (d, c) = pack(items, k as int, max_w as nat);
                &&& cur@ == c
                &&& done@.len() == d.len()
                &&& forall|j: int| 0 <= j < d.len() ==> (#[trigger] done@[j]).text@ == d[j] && done@[j].is_active
            }),
            all100 == forall|j: int| 0 <= j < k ==> summaries@[j].0 == 100,
        decreases summaries.len() - k,
    {
        let (score, count) = summaries[k];
        let item = summary_item_exec(k, score, count);
        assert(items[k as int] == item@);
        if cur.len() == 0 {
            cur = item;
        } else {
            let mut test = crate::text::clone_chars(&cur);
            push_str_chars(&mut test, "  ");
            let mut t2 = test;
            crate::text::extend_from(&mut t2, item.as_slice());
            proof {
                reveal_strlit("  ");
            }
            let w = shown_width_exec(&t2);
            if w > max_w {
                done.push(PopupItem { text: string_of(cur.as_slice()), is_active: true });
                cur = item;
            } else {
                cur = t2;
            }
        }
        all100 = all100 && score == 100;
        k += 1;
    }
    if cur.len() > 0 {
        done.push(PopupItem { text: string_of(cur.as_slice()), is_active: true });
    }
    if done.len() == 0 {
        done.push(PopupItem { text: "No hunks found.".to_string(), is_active: true });
    }
    let title = if summaries.len() > 0 && all100 {
        "(All 100%) Hunk Summary".to_string()
    } else {
        "Hunk Summary".to_string()
    };
    (title, done)
}

} // verus!
