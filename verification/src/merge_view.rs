//! The merge view's bookkeeping: the block of the file that a hunk is
//! matched to, the cursors of its two panes, the line edits made in it, and
//! the patch text that applying a hunk hands on.

use vstd::prelude::*;
use crate::keymap::{is_char, Key, Modifiers};
use crate::text::{
    chars_of, join_lines, join_with_newlines, lines, split_lines, string_of, trim_end, trimmed_end,
};

verus! {

broadcast use vstd::string::group_string_axioms;

/// The match start and end that stand for "no block matched".
pub open spec fn no_match() -> nat {
    (usize::MAX / 2) as nat
}

pub fn no_match_exec() -> (r: usize)
    ensures
        r == no_match(),
{
    usize::MAX / 2
}

/// The block `[start, end)` of the file that the hunk is matched to, and
/// the cursor in the file pane.
#[derive(Debug, Clone, Copy, PartialEq, Eq, Structural)]
pub struct MatchRange {
    pub start: usize,
    pub end: usize,
    pub cursor: usize,
}

/// `ma`: the block starts at the cursor (and keeps at least one line).
pub open spec fn set_start_spec(r: MatchRange) -> MatchRange {
    MatchRange { start: r.cursor, end: if r.end <= r.cursor { (r.cursor + 1) as usize } else { r.end }, ..r }
}

/// `mA`: the block ends after the cursor line (and keeps at least one
/// line).
pub open spec fn set_end_spec(r: MatchRange) -> MatchRange {
    let end = r.cursor + 1;
    MatchRange {
        start: if r.start >= end { (if end == 0 { 0 } else { end - 1 }) as usize } else { r.start },
        end: end as usize,
        ..r
    }
}

pub fn set_start(r: MatchRange) -> (o: MatchRange)
    requires
        r.cursor < usize::MAX,
    ensures
        o == set_start_spec(r),
{
    MatchRange { start: r.cursor, end: if r.end <= r.cursor { r.cursor + 1 } else { r.end }, ..r }
}

pub fn set_end(r: MatchRange) -> (o: MatchRange)
    requires
        r.cursor < usize::MAX,
    ensures
        o == set_end_spec(r),
{
    let end = r.cursor + 1;
    MatchRange { start: if r.start >= end { end - 1 } else { r.start }, end, ..r }
}

pub open spec fn sat_sub(a: int, b: int) -> int {
    if a >= b {
        a - b
    } else {
        0
    }
}

/// Whether the block's start is the edge nearer the cursor (a tie goes to
/// the start).
pub open spec fn start_is_nearer(r: MatchRange) -> bool {
    sat_sub(r.cursor as int, r.start as int) <= sat_sub(sat_sub(r.end as int, 1), r.cursor as int)
}

/// `J`: the nearer edge of the block moves one line down, and the cursor
/// goes to it.
pub open spec fn edge_down_spec(r: MatchRange) -> MatchRange {
    if start_is_nearer(r) {
        let s = r.start + 1;
        MatchRange { start: s as usize, end: if r.end <= s { (s + 1) as usize } else { r.end }, cursor: s as usize }
    } else {
        let e = r.end + 1;
        MatchRange { end: e as usize, cursor: (e - 1) as usize, ..r }
    }
}

/// `K`: the nearer edge of the block moves one line up, when it can, and
/// the cursor goes to it.
pub open spec fn edge_up_spec(r: MatchRange) -> MatchRange {
    if start_is_nearer(r) {
        if r.start > 0 {
            MatchRange { start: (r.start - 1) as usize, cursor: (r.start - 1) as usize, ..r }
        } else {
            r
        }
    } else {
        if r.end > r.start + 1 {
            MatchRange { end: (r.end - 1) as usize, cursor: (r.end - 2) as usize, ..r }
        } else {
            r
        }
    }
}

fn sat_sub_exec(a: usize, b: usize) -> (r: usize)
    ensures
        r == sat_sub(a as int, b as int),
{
    if a >= b {
        a - b
    } else {
        0
    }
}

pub fn edge_down(r: MatchRange) -> (o: MatchRange)
    requires
        r.start + 2 <= usize::MAX,
        r.end + 1 <= usize::MAX,
    ensures
        o == edge_down_spec(r),
{
    let to_start = sat_sub_exec(r.cursor, r.start);
    let to_end = sat_sub_exec(sat_sub_exec(r.end, 1), r.cursor);
    if to_start <= to_end {
        let s = r.start + 1;
        MatchRange { start: s, end: if r.end <= s { s + 1 } else { r.end }, cursor: s }
    } else {
        let e = r.end + 1;
        MatchRange { end: e, cursor: e - 1, ..r }
    }
}

pub fn edge_up(r: MatchRange) -> (o: MatchRange)
    ensures
        o == edge_up_spec(r),
{
    let to_start = sat_sub_exec(r.cursor, r.start);
    let to_end = sat_sub_exec(sat_sub_exec(r.end, 1), r.cursor);
    if to_start <= to_end {
        if r.start > 0 {
            MatchRange { start: r.start - 1, cursor: r.start - 1, ..r }
        } else {
            r
        }
    } else {
        if r.end > r.start && r.end - r.start > 1 {
            MatchRange { end: r.end - 1, cursor: r.end - 2, ..r }
        } else {
            r
        }
    }
}

/// The block after line `line` was deleted: it moves up when the line
/// stood before it, shrinks when the line was inside it (keeping at least
/// one line).
pub open spec fn range_after_delete_spec(r: MatchRange, line: nat) -> MatchRange {
    if line < r.start {
        MatchRange { start: sat_sub(r.start as int, 1) as usize, end: sat_sub(r.end as int, 1) as usize, ..r }
    } else if line < r.end {
        let e = sat_sub(r.end as int, 1);
        MatchRange { end: (if e <= r.start { r.start + 1 } else { e }) as usize, ..r }
    } else {
        r
    }
}

pub fn range_after_delete(r: MatchRange, line: usize) -> (o: MatchRange)
    requires
        r.start < usize::MAX,
    ensures
        o == range_after_delete_spec(r, line as nat),
{
    if line < r.start {
        MatchRange { start: sat_sub_exec(r.start, 1), end: sat_sub_exec(r.end, 1), ..r }
    } else if line < r.end {
        let e = sat_sub_exec(r.end, 1);
        MatchRange { end: if e <= r.start { r.start + 1 } else { e }, ..r }
    } else {
        r
    }
}

/// The block after a blank line was opened below the cursor: it moves down
/// when the cursor stood before it, grows when the cursor was inside it.
pub open spec fn range_after_open_spec(r: MatchRange) -> MatchRange {
    if r.cursor < r.start {
        MatchRange { start: (r.start + 1) as usize, end: (r.end + 1) as usize, ..r }
    } else if r.cursor < r.end {
        MatchRange { end: (r.end + 1) as usize, ..r }
    } else {
        r
    }
}

pub fn range_after_open(r: MatchRange) -> (o: MatchRange)
    requires
        r.start < usize::MAX,
        r.end < usize::MAX,
    ensures
        o == range_after_open_spec(r),
{
    if r.cursor < r.start {
        MatchRange { start: r.start + 1, end: r.end + 1, ..r }
    } else if r.cursor < r.end {
        MatchRange { end: r.end + 1, ..r }
    } else {
        r
    }
}

/// Opening a blank line below the cursor and deleting that line again
/// leaves the matched block where it was.
pub proof fn lemma_open_then_delete(r: MatchRange)
    requires
        r.start < r.end,
        r.end + 1 < usize::MAX,
        r.cursor + 1 < usize::MAX,
    ensures
        range_after_delete_spec(range_after_open_spec(r), (r.cursor + 1) as nat) == r,
{
}

/// `K` after `J` puts the block back when the start was the nearer edge
/// and the block has more than one line.
pub proof fn lemma_edge_down_then_up(r: MatchRange)
    requires
        start_is_nearer(r),
        r.start + 1 < r.end,
        r.end + 1 < usize::MAX,
        r.start <= r.cursor,
    ensures
        edge_up_spec(edge_down_spec(r)) == (MatchRange { cursor: r.start, ..r }),
{
}

/// The number of rows the hunk pane shows: a header line, the search and
/// replace lines (each folded to 21 rows past 20 lines), and two markers.
pub open spec fn right_rows_len_spec(search_len: nat, replace_len: nat) -> nat {
    let s = if search_len <= 20 { search_len } else { 21 };
    let r = if replace_len <= 20 { replace_len } else { 21 };
    3 + s + r
}

pub fn right_rows_len(search_len: usize, replace_len: usize) -> (r: usize)
    ensures
        r == right_rows_len_spec(search_len as nat, replace_len as nat),
{
    let s = if search_len <= 20 {
        search_len
    } else {
        21
    };
    let r = if replace_len <= 20 {
        replace_len
    } else {
        21
    };
    3 + s + r
}

/// Where the panes of the merge view stand.
#[derive(Debug, Clone, Copy, PartialEq, Eq, Structural)]
pub struct Panes {
    /// The file pane (left) has the focus, else the hunk pane (right).
    pub left_active: bool,
    pub cursor: usize,
    pub cursor_col: usize,
    pub file_scroll: usize,
    pub right_cursor: usize,
    pub scroll: usize,
}

/// `j`: one line down in the focused pane; the hunk pane stops at its
/// last row.
pub open spec fn pane_down_spec(p: Panes, rows: nat) -> Panes {
    if p.left_active {
        Panes { cursor: (p.cursor + 1) as usize, ..p }
    } else if p.right_cursor < sat_sub(rows as int, 1) {
        Panes { right_cursor: (p.right_cursor + 1) as usize, ..p }
    } else {
        p
    }
}

/// `k`: one line up in the focused pane.
pub open spec fn pane_up_spec(p: Panes) -> Panes {
    if p.left_active {
        Panes { cursor: sat_sub(p.cursor as int, 1) as usize, ..p }
    } else {
        Panes { right_cursor: sat_sub(p.right_cursor as int, 1) as usize, ..p }
    }
}

/// Page Down by `vis` rows.
pub open spec fn page_down_spec(p: Panes, vis: nat, rows: nat) -> Panes {
    if p.left_active {
        Panes { file_scroll: (p.file_scroll + vis) as usize, cursor: (p.cursor + vis) as usize, ..p }
    } else {
        let rc = p.right_cursor + vis;
        let last = sat_sub(rows as int, 1);
        Panes { scroll: (p.scroll + vis) as usize, right_cursor: (if rc < last { rc } else { last }) as usize, ..p }
    }
}

/// Page Up by `vis` rows.
pub open spec fn page_up_spec(p: Panes, vis: nat) -> Panes {
    if p.left_active {
        Panes {
            file_scroll: sat_sub(p.file_scroll as int, vis as int) as usize,
            cursor: sat_sub(p.cursor as int, vis as int) as usize,
            ..p
        }
    } else {
        Panes {
            scroll: sat_sub(p.scroll as int, vis as int) as usize,
            right_cursor: sat_sub(p.right_cursor as int, vis as int) as usize,
            ..p
        }
    }
}

pub fn pane_down(p: Panes, rows: usize) -> (o: Panes)
    requires
        p.cursor < usize::MAX,
    ensures
        o == pane_down_spec(p, rows as nat),
{
    if p.left_active {
        Panes { cursor: p.cursor + 1, ..p }
    } else if p.right_cursor < sat_sub_exec(rows, 1) {
        Panes { right_cursor: p.right_cursor + 1, ..p }
    } else {
        p
    }
}

pub fn pane_up(p: Panes) -> (o: Panes)
    ensures
        o == pane_up_spec(p),
{
    if p.left_active {
        Panes { cursor: sat_sub_exec(p.cursor, 1), ..p }
    } else {
        Panes { right_cursor: sat_sub_exec(p.right_cursor, 1), ..p }
    }
}

pub fn page_down(p: Panes, vis: usize, rows: usize) -> (o: Panes)
    requires
        p.file_scroll + vis <= usize::MAX,
        p.cursor + vis <= usize::MAX,
        p.scroll + vis <= usize::MAX,
        p.right_cursor + vis <= usize::MAX,
    ensures
        o == page_down_spec(p, vis as nat, rows as nat),
{
    if p.left_active {
        Panes { file_scroll: p.file_scroll + vis, cursor: p.cursor + vis, ..p }
    } else {
        let rc = p.right_cursor + vis;
        let last = sat_sub_exec(rows, 1);
        Panes { scroll: p.scroll + vis, right_cursor: if rc < last { rc } else { last }, ..p }
    }
}

pub fn page_up(p: Panes, vis: usize) -> (o: Panes)
    ensures
        o == page_up_spec(p, vis as nat),
{
    if p.left_active {
        Panes { file_scroll: sat_sub_exec(p.file_scroll, vis), cursor: sat_sub_exec(p.cursor, vis), ..p }
    } else {
        Panes { scroll: sat_sub_exec(p.scroll, vis), right_cursor: sat_sub_exec(p.right_cursor, vis), ..p }
    }
}

/// The next candidate block, cycling: its index, and the block with the
/// cursor at its start. `None` when there are no candidates.
pub fn next_candidate(idx: usize, candidates: &Vec<(usize, usize)>) -> (r: Option<(usize, usize, usize)>)
    requires
        idx < usize::MAX,
    ensures
        candidates@.len() == 0 ==> r is None,
        candidates@.len() > 0 ==> r == Some(
            (
                ((idx + 1) % (candidates@.len() as int)) as usize,
                candidates@[(idx + 1) % (candidates@.len() as int)].0,
                candidates@[(idx + 1) % (candidates@.len() as int)].1,
            ),
        ),
{
    if candidates.len() == 0 {
        None
    } else {
        let n = (idx + 1) % candidates.len();
        Some((n, candidates[n].0, candidates[n].1))
    }
}

/// `p`: the previous hunk, if any.
pub fn prev_hunk(index: usize) -> (r: Option<usize>)
    ensures
        r == (if index > 0 { Some((index - 1) as usize) } else { None::<usize> }),
{
    if index > 0 {
        Some(index - 1)
    } else {
        None
    }
}

/// `l`: the next hunk, cycling, when there is more than one.
pub fn skip_hunk(index: usize, count: usize) -> (r: Option<usize>)
    requires
        index < usize::MAX,
    ensures
        r == (if count > 1 { Some(((index + 1) % (count as int)) as usize) } else { None::<usize> }),
{
    if count > 1 {
        Some((index + 1) % count)
    } else {
        None
    }
}

/// Looks for `target` in the file's lines, from the line after the cursor
/// and then from the top (`Enter` in the merge view).
pub fn find_line(file_lines: &Vec<String>, from: usize, target: &str) -> (r: Option<usize>)
    ensures
        ({
            let ls = crate::text::views(file_lines@);
            match r {
                Some(i) => {
                    &&& i < ls.len()
                    &&& trim_end(ls[i as int]) == trim_end(target@)
                    &&& if from <= i {
                        forall|j: int| from <= j < i ==> trim_end(ls[j]) != trim_end(target@)
                    } else {
                        &&& forall|j: int| from <= j < ls.len() ==> trim_end(ls[j]) != trim_end(target@)
                        &&& forall|j: int| 0 <= j < i ==> trim_end(ls[j]) != trim_end(target@)
                    }
                },
                None => forall|j: int| 0 <= j < ls.len() ==> trim_end(ls[j]) != trim_end(target@),
            }
        }),
{
    let ghost ls = crate::text::views(file_lines@);
    let t = chars_of(target);
    let tt = trimmed_end(t.as_slice());
    let mut i = from;
    while i < file_lines.len()
        invariant
            from <= i,
            ls == crate::text::views(file_lines@),
            tt@ == trim_end(target@),
            forall|j: int| from <= j < i && j < ls.len() ==> trim_end(ls[j]) != trim_end(target@),
        decreases file_lines.len() - i,
    {
        let l = chars_of(file_lines[i].as_str());
        if crate::text::chars_eq(trimmed_end(l.as_slice()).as_slice(), tt.as_slice()) {
            return Some(i);
        }
        i += 1;
    }
    let mut k: usize = 0;
    while k < from && k < file_lines.len()
        invariant
            ls == crate::text::views(file_lines@),
            tt@ == trim_end(target@),
            forall|j: int| from <= j < ls.len() ==> trim_end(ls[j]) != trim_end(target@),
            forall|j: int| 0 <= j < k && j < ls.len() ==> trim_end(ls[j]) != trim_end(target@),
        decreases file_lines.len() - k,
    {
        let l = chars_of(file_lines[k].as_str());
        if crate::text::chars_eq(trimmed_end(l.as_slice()).as_slice(), tt.as_slice()) {
            return Some(k);
        }
        k += 1;
    }
    None
}

/// The file's text with line `line` (clamped to the last line) deleted,
/// the index deleted and the number of lines left; `None` for a file with
/// no line. A final newline is kept when lines remain.
pub open spec fn delete_line_spec(content: Seq<char>, cursor: nat) -> Option<(Seq<char>, nat, nat)> {
    let ls = lines(content);
    if ls.len() == 0 {
        None
    } else {
        let idx = if cursor < ls.len() - 1 { cursor } else { (ls.len() - 1) as nat };
        let rest = ls.remove(idx as int);
        let text = if rest.len() == 0 {
            Seq::empty()
        } else if content.len() > 0 && content.last() == '\n' {
            join_lines(rest) + "\n"@
        } else {
            join_lines(rest)
        };
        Some((text, idx, rest.len()))
    }
}

/// Deletes the line under the cursor of the file pane (Alt-d).
pub fn delete_line(content: &str, cursor: usize) -> (r: Option<(String, usize, usize)>)
    ensures
        match r {
            Some((t, i, n)) => delete_line_spec(content@, cursor as nat) == Some((t@, i as nat, n as nat)),
            None => delete_line_spec(content@, cursor as nat) is None,
        },
{
    let c = chars_of(content);
    let mut ls = split_lines(c.as_slice());
    let ghost lv = ls@.map_values(|l: Vec<char>| l@);
    if ls.len() == 0 {
        return None;
    }
    let idx = if cursor < ls.len() - 1 {
        cursor
    } else {
        ls.len() - 1
    };
    let _ = ls.remove(idx);
    assert(ls@.map_values(|l: Vec<char>| l@) =~= lv.remove(idx as int));
    let n = ls.len();
    if n == 0 {
        return Some((String::new(), idx, n));
    }
    let mut body = join_with_newlines(&ls);
    if c.len() > 0 && c[c.len() - 1] == '\n' {
        body.push('\n');
        proof {
            reveal_strlit("\n");
        }
        assert(body@ =~= join_lines(ls@.map_values(|l: Vec<char>| l@)) + "\n"@);
    }
    Some((string_of(body.as_slice()), idx, n))
}

/// The file's text with a blank line opened below the cursor (at most at
/// the end), and the index of the new line. A final newline is kept.
pub open spec fn open_line_spec(content: Seq<char>, cursor: nat) -> (Seq<char>, nat) {
    let ls = lines(content);
    let idx = if cursor + 1 < ls.len() { cursor + 1 } else { ls.len() };
    let with = ls.insert(idx as int, Seq::empty());
    let text = if content.len() > 0 && content.last() == '\n' {
        join_lines(with) + "\n"@
    } else {
        join_lines(with)
    };
    (text, idx as nat)
}

/// Opens a blank line below the cursor of the file pane (`o`).
pub fn open_line(content: &str, cursor: usize) -> (r: (String, usize))
    ensures
        open_line_spec(content@, cursor as nat) == (r.0@, r.1 as nat),
{
    let c = chars_of(content);
    let mut ls = split_lines(c.as_slice());
    let ghost lv = ls@.map_values(|l: Vec<char>| l@);
    let idx = if cursor < ls.len() && cursor + 1 < ls.len() {
        cursor + 1
    } else {
        ls.len()
    };
    ls.insert(idx, Vec::new());
    assert(ls@.map_values(|l: Vec<char>| l@) =~= lv.insert(idx as int, Seq::<char>::empty()));
    let mut body = join_with_newlines(&ls);
    if c.len() > 0 && c[c.len() - 1] == '\n' {
        body.push('\n');
        proof {
            reveal_strlit("\n");
        }
        assert(body@ =~= join_lines(ls@.map_values(|l: Vec<char>| l@)) + "\n"@);
    }
    (string_of(body.as_slice()), idx)
}

/// The patch that applying a hunk hands on: the matched block of the
/// file (clamped to its lines) as the search text, or the hunk's own
/// search lines when the block is empty, and the hunk's replacement.
pub open spec fn merge_patch_spec(
    file_lines: Seq<Seq<char>>,
    start: nat,
    end: nat,
    search: Seq<Seq<char>>,
    replace: Seq<Seq<char>>,
) -> Seq<char> {
    let s = if start < file_lines.len() { start } else { file_lines.len() };
    let e = if end < file_lines.len() { end } else { file_lines.len() };
    let found = if s < e { join_lines(file_lines.subrange(s as int, e as int)) } else { join_lines(search) };
    "<<<<<<< SEARCH\n"@ + found + "\n=======\n"@ + join_lines(replace) + "\n>>>>>>> REPLACE"@
}

pub fn merge_patch_text(
    file_lines: &Vec<String>,
    start: usize,
    end: usize,
    search: &Vec<String>,
    replace: &Vec<String>,
) -> (r: String)
    ensures
        r@ == merge_patch_spec(
            crate::text::views(file_lines@),
            start as nat,
            end as nat,
            crate::text::views(search@),
            crate::text::views(replace@),
        ),
{
    let n = file_lines.len();
    let s = if start < n {
        start
    } else {
        n
    };
    let e = if end < n {
        end
    } else {
        n
    };
    let fl = crate::text::chars_of_each(file_lines);
    assert(fl@.map_values(|l: Vec<char>| l@).len() == fl@.len());
    assert(crate::text::views(file_lines@).len() == file_lines@.len());
    let found = if s < e {
        let mut part: Vec<Vec<char>> = Vec::new();
        let mut i = s;
        assert(fl@.map_values(|l: Vec<char>| l@).subrange(s as int, s as int) =~= Seq::<Seq<char>>::empty());
        while i < e
            invariant
                s <= i <= e <= fl@.len(),
                part@.map_values(|l: Vec<char>| l@) == fl@.map_values(|l: Vec<char>| l@).subrange(s as int, i as int),
            decreases e - i,
        {
            let ghost before = part@.map_values(|l: Vec<char>| l@);
            part.push(crate::text::clone_chars(&fl[i]));
            assert(part@.map_values(|l: Vec<char>| l@) =~= before.push(fl@[i as int]@));
            assert(fl@.map_values(|l: Vec<char>| l@).subrange(s as int, i + 1) =~= fl@.map_values(
                |l: Vec<char>| l@,
            ).subrange(s as int, i as int).push(fl@[i as int]@));
            i += 1;
        }
        join_with_newlines(&part)
    } else {
        join_with_newlines(&crate::text::chars_of_each(search))
    };
    let rep = join_with_newlines(&crate::text::chars_of_each(replace));
    let mut out = chars_of("<<<<<<< SEARCH\n");
    crate::text::extend_from(&mut out, found.as_slice());
    crate::text::push_str_chars(&mut out, "\n=======\n");
    crate::text::extend_from(&mut out, rep.as_slice());
    crate::text::push_str_chars(&mut out, "\n>>>>>>> REPLACE");
    string_of(out.as_slice())
}

/// The file-pane cursor after an undo recomputed the match: it moves with
/// the match when both the old and the new match exist, jumps to the new
/// match from the top line, and is then kept inside the file.
pub open spec fn cursor_after_undo_spec(old_cursor: nat, old_match: nat, new_match: nat, file_len: nat) -> nat {
    let c: int = if old_match != no_match() && new_match != no_match() {
        let moved = old_cursor + new_match - old_match;
        if moved < 0 { 0 } else { moved }
    } else if new_match != no_match() {
        if old_cursor == 0 { new_match as int } else { old_cursor as int }
    } else {
        old_cursor as int
    };
    if file_len == 0 {
        0
    } else if c >= file_len {
        (file_len - 1) as nat
    } else {
        c as nat
    }
}

pub fn cursor_after_undo(old_cursor: usize, old_match: usize, new_match: usize, file_len: usize) -> (r: usize)
    requires
        old_cursor + new_match <= usize::MAX,
    ensures
        r == cursor_after_undo_spec(old_cursor as nat, old_match as nat, new_match as nat, file_len as nat),
{
    let nm = no_match_exec();
    let c: usize = if old_match != nm && new_match != nm {
        if new_match >= old_match {
            old_cursor + (new_match - old_match)
        } else {
            sat_sub_exec(old_cursor, old_match - new_match)
        }
    } else if new_match != nm {
        if old_cursor == 0 {
            new_match
        } else {
            old_cursor
        }
    } else {
        old_cursor
    };
    if file_len == 0 {
        0
    } else if c >= file_len {
        file_len - 1
    } else {
        c
    }
}

/// Whether Alt-q may quit from the merge view: not while changes were
/// applied or buffers modified and an undo is still possible.
pub fn may_quit(applied: &Vec<bool>, any_modified: bool, undo_available: bool) -> (r: bool)
    ensures
        r == !((exists|i: int| 0 <= i < applied@.len() && applied@[i]) || any_modified) || !undo_available,
{
    let mut any = false;
    let mut i: usize = 0;
    while i < applied.len()
        invariant
            i <= applied@.len(),
            any == exists|j: int| 0 <= j < i && applied@[j],
        decreases applied.len() - i,
    {
        if applied[i] {
            any = true;
        }
        i += 1;
    }
    !((any || any_modified) && undo_available)
}

/// What a key does in the merge view.
#[derive(Debug, Clone, Copy, PartialEq, Eq, Structural)]
pub enum MergeKey {
    /// A modified key the view does not use: only redraw.
    Ignore,
    TryQuit,
    DeleteLine,
    OpenEditor,
    CloseHelp,
    SetStart,
    SetEnd,
    /// A key after `m` that sets nothing.
    DropMark,
    ToggleBufferMode,
    Apply,
    ToggleHelp,
    Save,
    Recalculate,
    Summary,
    NextCandidate,
    SwitchPane,
    PrevHunk,
    SkipHunk,
    MatchBracket,
    ColLeft,
    ColRight,
    ColHome,
    ColEnd,
    Mark,
    Down,
    Up,
    EdgeDown,
    EdgeUp,
    PageDown,
    PageUp,
    FindLine,
    OpenLine,
    Undo,
    Exit,
    Nothing,
}

pub open spec fn alt_combo(key: Key, m: Modifiers, c: char, upper: char) -> bool {
    (m.alt || m.meta) && (is_char(key, c) || is_char(key, upper))
}

/// The merge view's reading of a key; `mark_pending` says that `m` was
/// typed, `left_active` that the file pane has the focus.
pub open spec fn merge_key_spec(key: Key, m: Modifiers, mark_pending: bool, fkey_help: bool, left_active: bool) -> MergeKey {
    let ctrl_o = m.ctrl && is_char(key, 'o');
    let alt_w = alt_combo(key, m, 'w', 'W');
    let alt_x = alt_combo(key, m, 'x', 'X');
    let alt_d = alt_combo(key, m, 'd', 'D');
    let alt_q = alt_combo(key, m, 'q', 'Q');
    if (m.ctrl || m.alt || m.meta) && !ctrl_o && !alt_w && !alt_x && !alt_d && !alt_q {
        MergeKey::Ignore
    } else if alt_q {
        MergeKey::TryQuit
    } else if alt_d && left_active {
        MergeKey::DeleteLine
    } else if ctrl_o {
        MergeKey::OpenEditor
    } else if fkey_help {
        MergeKey::CloseHelp
    } else if mark_pending {
        if is_char(key, 'a') {
            MergeKey::SetStart
        } else if is_char(key, 'A') {
            MergeKey::SetEnd
        } else {
            MergeKey::DropMark
        }
    } else {
        match key {
            Key::F(9) => MergeKey::ToggleBufferMode,
            Key::Char('a') | Key::Char('A') => MergeKey::Apply,
            Key::Char('?') => MergeKey::ToggleHelp,
            Key::Char('w') => MergeKey::Save,
            Key::Char('r') => MergeKey::Recalculate,
            Key::Char('s') => MergeKey::Summary,
            Key::Char('n') | Key::Char('N') => MergeKey::NextCandidate,
            Key::Tab => MergeKey::SwitchPane,
            Key::Char('p') | Key::Char('P') => MergeKey::PrevHunk,
            Key::Char('l') | Key::Char('L') => MergeKey::SkipHunk,
            Key::Char('%') => if left_active { MergeKey::MatchBracket } else { MergeKey::Nothing },
            Key::Left => if left_active { MergeKey::ColLeft } else { MergeKey::Nothing },
            Key::Right => if left_active { MergeKey::ColRight } else { MergeKey::Nothing },
            Key::Home => if left_active { MergeKey::ColHome } else { MergeKey::Nothing },
            Key::End => if left_active { MergeKey::ColEnd } else { MergeKey::Nothing },
            Key::Char('m') => MergeKey::Mark,
            Key::Char('j') | Key::Down => MergeKey::Down,
            Key::Char('k') | Key::Up => MergeKey::Up,
            Key::Char('J') | Key::Char('=') => MergeKey::EdgeDown,
            Key::Char('K') | Key::Char('-') => MergeKey::EdgeUp,
            Key::PageDown => MergeKey::PageDown,
            Key::PageUp => MergeKey::PageUp,
            Key::Enter => MergeKey::FindLine,
            Key::Char('o') => MergeKey::OpenLine,
            Key::Char('u') => MergeKey::Undo,
            Key::Char('q') | Key::Char('Q') => MergeKey::Exit,
            _ => MergeKey::Nothing,
        }
    }
}

fn alt_combo_exec(key: Key, m: Modifiers, c: char, upper: char) -> (r: bool)
    ensures
        r == alt_combo(key, m, c, upper),
{
    (m.alt || m.meta) && match key {
        Key::Char(k) => k == c || k == upper,
        _ => false,
    }
}

/// Reads a key in the merge view.
pub fn merge_key(key: Key, m: Modifiers, mark_pending: bool, fkey_help: bool, left_active: bool) -> (r: MergeKey)
    ensures
        r == merge_key_spec(key, m, mark_pending, fkey_help, left_active),
{
    let ctrl_o = m.ctrl && match key {
        Key::Char(k) => k == 'o',
        _ => false,
    };
    let alt_w = alt_combo_exec(key, m, 'w', 'W');
    let alt_x = alt_combo_exec(key, m, 'x', 'X');
    let alt_d = alt_combo_exec(key, m, 'd', 'D');
    let alt_q = alt_combo_exec(key, m, 'q', 'Q');
    if (m.ctrl || m.alt || m.meta) && !ctrl_o && !alt_w && !alt_x && !alt_d && !alt_q {
        MergeKey::Ignore
    } else if alt_q {
        MergeKey::TryQuit
    } else if alt_d && left_active {
        MergeKey::DeleteLine
    } else if ctrl_o {
        MergeKey::OpenEditor
    } else if fkey_help {
        MergeKey::CloseHelp
    } else if mark_pending {
        match key {
            Key::Char('a') => MergeKey::SetStart,
            Key::Char('A') => MergeKey::SetEnd,
            _ => MergeKey::DropMark,
        }
    } else {
        match key {
            Key::F(9) => MergeKey::ToggleBufferMode,
            Key::Char('a') | Key::Char('A') => MergeKey::Apply,
            Key::Char('?') => MergeKey::ToggleHelp,
            Key::Char('w') => MergeKey::Save,
            Key::Char('r') => MergeKey::Recalculate,
            Key::Char('s') => MergeKey::Summary,
            Key::Char('n') | Key::Char('N') => MergeKey::NextCandidate,
            Key::Tab => MergeKey::SwitchPane,
            Key::Char('p') | Key::Char('P') => MergeKey::PrevHunk,
            Key::Char('l') | Key::Char('L') => MergeKey::SkipHunk,
            Key::Char('%') => if left_active { MergeKey::MatchBracket } else { MergeKey::Nothing },
            Key::Left => if left_active { MergeKey::ColLeft } else { MergeKey::Nothing },
            Key::Right => if left_active { MergeKey::ColRight } else { MergeKey::Nothing },
            Key::Home => if left_active { MergeKey::ColHome } else { MergeKey::Nothing },
            Key::End => if left_active { MergeKey::ColEnd } else { MergeKey::Nothing },
            Key::Char('m') => MergeKey::Mark,
            Key::Char('j') | Key::Down => MergeKey::Down,
            Key::Char('k') | Key::Up => MergeKey::Up,
            Key::Char('J') | Key::Char('=') => MergeKey::EdgeDown,
            Key::Char('K') | Key::Char('-') => MergeKey::EdgeUp,
            Key::PageDown => MergeKey::PageDown,
            Key::PageUp => MergeKey::PageUp,
            Key::Enter => MergeKey::FindLine,
            Key::Char('o') => MergeKey::OpenLine,
            Key::Char('u') => MergeKey::Undo,
            Key::Char('q') | Key::Char('Q') => MergeKey::Exit,
            _ => MergeKey::Nothing,
        }
    }
}

} // verus!
