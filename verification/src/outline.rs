//! The outline of a buffer: the lines where its definitions start, from
//! the rows of a syntax tree or, without one, from leading keywords, and
//! the function-list popup built from them.

use vstd::prelude::*;
use crate::fmt::{decimal, decimal_string};
use crate::navigate::{definition_lines, fallback_function_starts};
use crate::popup::PopupItem;
use crate::text::{chars_of, push_str_chars, starts_with, starts_with_exec, string_of, trim, trim_start, trimmed, trimmed_start, views};

verus! {

broadcast use vstd::string::group_string_axioms;

/// The rows in increasing order, each once.
pub open spec fn sorted_unique(r: Seq<usize>, rows: Seq<usize>) -> bool {
    &&& forall|i: int, j: int| 0 <= i < j < r.len() ==> r[i] < r[j]
    &&& forall|x: usize| r.contains(x) <==> rows.contains(x)
}

/// Sorts the rows and drops repeats (`sort` then `dedup`).
pub fn sort_rows(rows: &Vec<usize>) -> (r: Vec<usize>)
    ensures
        sorted_unique(r@, rows@),
{
    let mut out: Vec<usize> = Vec::new();
    let mut i: usize = 0;
    while i < rows.len()
        invariant
            i <= rows@.len(),
            sorted_unique(out@, rows@.take(i as int)),
        decreases rows.len() - i,
    {
        let x = rows[i];
        let mut k: usize = 0;
        while k < out.len() && out[k] < x
            invariant
                k <= out@.len(),
                forall|j: int| 0 <= j < k ==> out@[j] < x,
            decreases out.len() - k,
        {
            k += 1;
        }
        let ghost old_out = out@;
        let ghost pre = rows@.take(i as int);
        let ghost post = rows@.take(i + 1);
        assert(post =~= pre.push(x));
        if k < out.len() && out[k] == x {
            assert forall|y: usize| out@.contains(y) <==> post.contains(y) by {
                if y == x {
                    assert(out@[k as int] == x);
                    assert(post[i as int] == x);
                }
                if post.contains(y) && y != x {
                    let j = choose|j: int| 0 <= j < post.len() && #[trigger] post[j] == y;
                    assert(pre[j] == y);
                }
                if out@.contains(y) {
                    let j = choose|j: int| 0 <= j < out@.len() && #[trigger] out@[j] == y;
                    assert(pre.contains(y));
                    let m = choose|m: int| 0 <= m < pre.len() && #[trigger] pre[m] == y;
                    assert(post[m] == y);
                }
            }
        } else {
            out.insert(k, x);
            assert(out@ =~= old_out.insert(k as int, x));
            assert forall|a: int, b: int| 0 <= a < b < out@.len() implies out@[a] < out@[b] by {
                if k < old_out.len() {
                    assert(old_out[k as int] > x);
                }
                if a < k && b > k {
                    assert(old_out[a] < x);
                }
            }
            assert forall|y: usize| out@.contains(y) <==> post.contains(y) by {
                if y == x {
                    assert(out@[k as int] == x);
                    assert(post[i as int] == x);
                }
                if post.contains(y) && y != x {
                    let j = choose|j: int| 0 <= j < post.len() && #[trigger] post[j] == y;
                    assert(pre[j] == y);
                    assert(old_out.contains(y));
                    let m = choose|m: int| 0 <= m < old_out.len() && #[trigger] old_out[m] == y;
                    if m < k {
                        assert(out@[m] == y);
                    } else {
                        assert(out@[m + 1] == y);
                    }
                }
                if out@.contains(y) && y != x {
                    let j = choose|j: int| 0 <= j < out@.len() && #[trigger] out@[j] == y;
                    if j < k {
                        assert(old_out[j] == y);
                    } else {
                        assert(j != k);
                        assert(old_out[j - 1] == y);
                    }
                    assert(old_out.contains(y));
                    let m = choose|m: int| 0 <= m < pre.len() && #[trigger] pre[m] == y;
                    assert(post[m] == y);
                }
            }
        }
        i += 1;
    }
    assert(rows@.take(rows.len() as int) =~= rows@);
    out
}

pub open spec fn increasing(a: Seq<usize>) -> bool {
    forall|i: int, j: int| 0 <= i < j < a.len() ==> a[i] < a[j]
}

proof fn lemma_increasing_tail(a: Seq<usize>, x: usize)
    requires
        increasing(a),
        a.len() > 0,
    ensures
        increasing(a.drop_first()),
        a.drop_first().contains(x) <==> (a.contains(x) && x != a[0]),
{
    if a.drop_first().contains(x) {
        let j = choose|j: int| 0 <= j < a.drop_first().len() && #[trigger] a.drop_first()[j] == x;
        assert(a[j + 1] == x);
    }
    if a.contains(x) && x != a[0] {
        let j = choose|j: int| 0 <= j < a.len() && #[trigger] a[j] == x;
        assert(a.drop_first()[j - 1] == x);
    }
}

/// Two increasing sequences with the same elements are equal: the sorted
/// rows are determined by the rows.
pub proof fn lemma_increasing_unique(a: Seq<usize>, b: Seq<usize>)
    requires
        increasing(a),
        increasing(b),
        forall|x: usize| a.contains(x) <==> b.contains(x),
    ensures
        a == b,
    decreases a.len(),
{
    if a.len() == 0 {
        if b.len() > 0 {
            assert(b.contains(b[0]));
        }
        assert(a =~= b);
    } else {
        assert(a.contains(a[0]));
        assert(b.len() > 0);
        assert(b.contains(b[0]));
        let ja = choose|j: int| 0 <= j < b.len() && #[trigger] b[j] == a[0];
        let jb = choose|j: int| 0 <= j < a.len() && #[trigger] a[j] == b[0];
        if ja > 0 {
            assert(b[0] < b[ja]);
        }
        if jb > 0 {
            assert(a[0] < a[jb]);
        }
        assert(a[0] == b[0]);
        assert forall|x: usize| a.drop_first().contains(x) <==> b.drop_first().contains(x) by {
            lemma_increasing_tail(a, x);
            lemma_increasing_tail(b, x);
        }
        lemma_increasing_tail(a, a[0]);
        lemma_increasing_tail(b, b[0]);
        lemma_increasing_unique(a.drop_first(), b.drop_first());
        assert(a =~= seq![a[0]] + a.drop_first());
        assert(b =~= seq![b[0]] + b.drop_first());
    }
}

/// The lines where definitions start: the syntax tree's rows sorted and
/// without repeats, or, when the tree gave none, the lines that open a
/// definition by their keyword.
pub fn function_starts(texts: &Vec<String>, tree_rows: &Vec<usize>) -> (r: Vec<usize>)
    ensures
        tree_rows@.len() > 0 ==> sorted_unique(r@, tree_rows@),
        tree_rows@.len() == 0 ==> r@ == definition_lines(views(texts@)),
{
    if tree_rows.len() > 0 {
        sort_rows(tree_rows)
    } else {
        fallback_function_starts(texts)
    }
}

/// `s` shown in at most 80 characters: longer ones cut to 77 and `...`.
pub open spec fn clip80(s: Seq<char>) -> Seq<char> {
    if s.len() > 80 {
        s.take(77) + "..."@
    } else {
        s
    }
}

/// `d` right-aligned in four columns.
pub open spec fn pad4(d: Seq<char>) -> Seq<char> {
    if d.len() < 4 {
        Seq::new((4 - d.len()) as nat, |i: int| ' ') + d
    } else {
        d
    }
}

/// The popup text of the definition on line `row`.
pub open spec fn entry_text(row: nat, shown: Seq<char>) -> Seq<char> {
    "L"@ + pad4(decimal(row + 1)) + ": "@ + clip80(shown)
}

/// The entries of the sorted tree rows that lie in the buffer, each with
/// its line trimmed.
pub open spec fn tree_entries(texts: Seq<Seq<char>>, rows: Seq<usize>) -> Seq<(nat, Seq<char>)>
    decreases rows.len(),
{
    if rows.len() == 0 {
        Seq::empty()
    } else {
        let before = tree_entries(texts, rows.drop_last());
        let r = rows.last();
        if r < texts.len() {
            before.push((r as nat, entry_text(r as nat, trim(texts[r as int]))))
        } else {
            before
        }
    }
}

pub open spec fn popup_openers() -> Seq<Seq<char>> {
    seq![
        "fn "@,
        "pub fn "@,
        "pub(crate) fn "@,
        "pub(super) fn "@,
        "async fn "@,
        "pub async fn "@,
        "impl "@,
        "struct "@,
        "enum "@,
        "trait "@,
    ]
}

pub open spec fn opens_item(l: Seq<char>) -> bool {
    exists|i: int| 0 <= i < popup_openers().len() && starts_with(trim_start(l), #[trigger] popup_openers()[i])
}

/// The entries found by keyword, each with its line as it stands.
pub open spec fn keyword_entries(texts: Seq<Seq<char>>) -> Seq<(nat, Seq<char>)>
    decreases texts.len(),
{
    if texts.len() == 0 {
        Seq::empty()
    } else {
        let before = keyword_entries(texts.drop_last());
        let i = (texts.len() - 1) as nat;
        if opens_item(texts.last()) {
            before.push((i, entry_text(i, texts.last())))
        } else {
            before
        }
    }
}

/// One entry of the function-list popup.
pub struct FunctionEntry {
    pub row: usize,
    pub item: PopupItem,
}

pub open spec fn entries_view(v: Seq<FunctionEntry>) -> Seq<(nat, Seq<char>)> {
    Seq::new(v.len(), |i: int| (v[i].row as nat, v[i].item.text@))
}

fn clip80_exec(s: &[char]) -> (r: Vec<char>)
    ensures
        r@ == clip80(s@),
{
    if s.len() > 80 {
        let mut t = crate::text::copy_range(s, 0, 77);
        push_str_chars(&mut t, "...");
        assert(s@.subrange(0, 77) =~= s@.take(77));
        t
    } else {
        crate::text::copy_range(s, 0, s.len())
    }
}

fn entry_text_exec(row: usize, shown: &[char]) -> (r: String)
    requires
        row < usize::MAX,
    ensures
        r@ == entry_text(row as nat, shown@),
{
    let d = chars_of(decimal_string((row + 1) as u128).as_str());
    let mut t = chars_of("L");
    if d.len() < 4 {
        let mut k: usize = 0;
        let pad = 4 - d.len();
        let mut sp: Vec<char> = Vec::new();
        while k < pad
            invariant
                k <= pad,
                sp@ == Seq::new(k as nat, |i: int| ' '),
            decreases pad - k,
        {
            sp.push(' ');
            assert(sp@ =~= Seq::new((k + 1) as nat, |i: int| ' '));
            k += 1;
        }
        crate::text::extend_from(&mut t, sp.as_slice());
    }
    crate::text::extend_from(&mut t, d.as_slice());
    push_str_chars(&mut t, ": ");
    let c = clip80_exec(shown);
    crate::text::extend_from(&mut t, c.as_slice());
    string_of(t.as_slice())
}

fn opens_item_exec(l: &str) -> (r: bool)
    ensures
        r == opens_item(l@),
{
    let c = chars_of(l);
    let t = trimmed_start(c.as_slice());
    let openers = vec![
        "fn ",
        "pub fn ",
        "pub(crate) fn ",
        "pub(super) fn ",
        "async fn ",
        "pub async fn ",
        "impl ",
        "struct ",
        "enum ",
        "trait ",
    ];
    assert(openers@.map_values(|o: &str| o@) =~= popup_openers());
    let mut i: usize = 0;
    while i < openers.len()
        invariant
            i <= openers@.len(),
            openers@.map_values(|o: &str| o@) == popup_openers(),
            t@ == trim_start(l@),
            forall|k: int| 0 <= k < i ==> !starts_with(trim_start(l@), #[trigger] popup_openers()[k]),
        decreases openers.len() - i,
    {
        let p = chars_of(openers[i]);
        assert(p@ == popup_openers()[i as int]);
        if starts_with_exec(t.as_slice(), p.as_slice()) {
            return true;
        }
        i += 1;
    }
    false
}

/// The function-list popup: the definitions at the syntax tree's rows
/// (sorted, each once, inside the buffer), or, when there are none, the
/// lines that open a definition by their keyword; the entry on the cursor
/// line is marked active.
pub fn function_list(texts: &Vec<String>, tree_rows: &Vec<usize>, cursor: usize) -> (r: Vec<FunctionEntry>)
    requires
        texts@.len() < usize::MAX,
    ensures
        forall|s: Seq<usize>|
            sorted_unique(s, tree_rows@) ==> entries_view(r@) == (if tree_entries(views(texts@), s).len() > 0 {
                tree_entries(views(texts@), s)
            } else {
                keyword_entries(views(texts@))
            }),
        forall|i: int| 0 <= i < r@.len() ==> (#[trigger] r@[i]).item.is_active == (r@[i].row == cursor),
{
    let ghost tv = views(texts@);
    let rows = sort_rows(tree_rows);
    let mut out: Vec<FunctionEntry> = Vec::new();
    let mut i: usize = 0;
    while i < rows.len()
        invariant
            i <= rows@.len(),
            tv == views(texts@),
            texts@.len() < usize::MAX,
            entries_view(out@) == tree_entries(tv, rows@.take(i as int)),
            forall|k: int| 0 <= k < out@.len() ==> (#[trigger] out@[k]).item.is_active == (out@[k].row == cursor),
        decreases rows.len() - i,
    {
        proof {
            assert(rows@.take(i + 1).drop_last() =~= rows@.take(i as int));
            assert(rows@.take(i + 1).last() == rows@[i as int]);
        }
        let row = rows[i];
        if row < texts.len() {
            let t = trimmed(chars_of(texts[row].as_str()).as_slice());
            let e = FunctionEntry { row, item: PopupItem { text: entry_text_exec(row, t.as_slice()), is_active: row == cursor } };
            let ghost before = entries_view(out@);
            out.push(e);
            assert(entries_view(out@) =~= before.push((row as nat, entry_text(row as nat, trim(tv[row as int])))));
        }
        i += 1;
    }
    assert(rows@.take(rows.len() as int) =~= rows@);
    if out.len() == 0 {
        let mut k: usize = 0;
        while k < texts.len()
            invariant
                k <= texts@.len(),
                tv == views(texts@),
                texts@.len() < usize::MAX,
                entries_view(out@) == keyword_entries(tv.take(k as int)),
                forall|j: int| 0 <= j < out@.len() ==> (#[trigger] out@[j]).item.is_active == (out@[j].row == cursor),
            decreases texts.len() - k,
        {
            proof {
                assert(tv.take(k + 1).drop_last() =~= tv.take(k as int));
                assert(tv.take(k + 1).last() == texts@[k as int]@);
            }
            if opens_item_exec(texts[k].as_str()) {
                let c = chars_of(texts[k].as_str());
                let e = FunctionEntry { row: k, item: PopupItem { text: entry_text_exec(k, c.as_slice()), is_active: k == cursor } };
                let ghost before = entries_view(out@);
                out.push(e);
                assert(entries_view(out@) =~= before.push((k as nat, entry_text(k as nat, tv[k as int]))));
            }
            k += 1;
        }
        assert(tv.take(texts.len() as int) =~= tv);
    }
    proof {
        assert forall|s: Seq<usize>| sorted_unique(s, tree_rows@) implies entries_view(out@) == (if tree_entries(tv, s).len() > 0 {
            tree_entries(tv, s)
        } else {
            keyword_entries(tv)
        }) by {
            lemma_increasing_unique(s, rows@);
        }
    }
    out
}

} // verus!
