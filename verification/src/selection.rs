//! Visual mode: the text of a selection, character-wise or line-wise, and
//! deleting a selection from a buffer.

use vstd::prelude::*;
use crate::buffer::{gcount, line_text, lines_view, max_col, spec_remove_lines, spec_set_cursor, BufferLine, BufferState, LineView, ResponseBuffer};
use crate::keymap::{is_char, Key, Modifiers};
use crate::misc::{splice_line, splice_segments};
use crate::text::{chars_of, push_str_chars, string_of, views};
use crate::unicode::{graphemes, spec_graphemes};

verus! {

broadcast use vstd::string::group_string_axioms;

/// Whether position `a` comes after position `b` (line, then column).
pub open spec fn after(a: (usize, usize), b: (usize, usize)) -> bool {
    a.0 > b.0 || (a.0 == b.0 && a.1 > b.1)
}

/// The selection's ends in order.
pub open spec fn ordered(start: (usize, usize), end: (usize, usize)) -> ((usize, usize), (usize, usize)) {
    if after(start, end) {
        (end, start)
    } else {
        (start, end)
    }
}

pub open spec fn min_nat(a: int, b: int) -> int {
    if a < b {
        a
    } else {
        b
    }
}

/// What line `i` (with text `t`) gives to a character-wise selection from
/// `(sl, sc)` to `(el, ec)`: the graphemes from the start column on the
/// first line, up to and with the end column on the last, whole lines in
/// between, each but the last line ended by a newline.
pub open spec fn char_piece(t: Seq<char>, i: int, s: (usize, usize), e: (usize, usize)) -> Seq<char> {
    let gs = spec_graphemes(t);
    if i == s.0 && i == e.0 {
        let stop = min_nat(e.1 + 1, gs.len() as int);
        if s.1 < stop {
            gs.subrange(s.1 as int, stop).flatten()
        } else {
            Seq::empty()
        }
    } else if i == s.0 {
        (if s.1 < gs.len() { gs.skip(s.1 as int).flatten() } else { Seq::empty() }) + "\n"@
    } else if i == e.0 {
        gs.take(min_nat(e.1 + 1, gs.len() as int)).flatten()
    } else {
        t + "\n"@
    }
}

/// The selected text of lines `s.0` up to (not with) line `j`.
pub open spec fn selected_upto(texts: Seq<Seq<char>>, s: (usize, usize), e: (usize, usize), line_wise: bool, j: int) -> Seq<char>
    decreases j - s.0,
{
    if j <= s.0 || j > texts.len() {
        Seq::empty()
    } else {
        selected_upto(texts, s, e, line_wise, j - 1) + if line_wise {
            texts[j - 1] + "\n"@
        } else {
            char_piece(texts[j - 1], j - 1, s, e)
        }
    }
}

/// The text of a selection between `start` and `end` (in either order):
/// the selected part of each of its lines that the buffer holds.
pub open spec fn selection_spec(texts: Seq<Seq<char>>, start: (usize, usize), end: (usize, usize), line_wise: bool) -> Seq<char> {
    let (s, e) = ordered(start, end);
    selected_upto(texts, s, e, line_wise, min_nat(e.0 + 1, texts.len() as int))
}

fn flatten_range(gs: &Vec<String>, a: usize, b: usize) -> (r: Vec<char>)
    requires
        a <= b <= gs@.len(),
    ensures
        r@ == views(gs@).subrange(a as int, b as int).flatten(),
{
    let mut out: Vec<char> = Vec::new();
    let mut k = a;
    assert(views(gs@).subrange(a as int, a as int) =~= Seq::<Seq<char>>::empty());
    while k < b
        invariant
            a <= k <= b <= gs@.len(),
            out@ == views(gs@).subrange(a as int, k as int).flatten(),
        decreases b - k,
    {
        let ghost sub = views(gs@).subrange(a as int, k as int);
        crate::text::extend_from(&mut out, chars_of(gs[k].as_str()).as_slice());
        proof {
            let sub2 = views(gs@).subrange(a as int, k + 1);
            assert(sub2 =~= sub.push(gs@[k as int]@));
            sub.lemma_flatten_push(gs@[k as int]@);
        }
        k += 1;
    }
    out
}

/// The text of a selection (`y`, `d` and `>` in visual mode). The end
/// column must leave room for one more.
pub fn selection_text(texts: &Vec<String>, start: (usize, usize), end: (usize, usize), line_wise: bool) -> (r: String)
    requires
        start.1 < usize::MAX,
        end.1 < usize::MAX,
    ensures
        r@ == selection_spec(views(texts@), start, end, line_wise),
{
    let ghost tv = views(texts@);
    let (s, e) = if start.0 > end.0 || (start.0 == end.0 && start.1 > end.1) {
        (end, start)
    } else {
        (start, end)
    };
    let limit: usize = if e.0 < texts.len() {
        e.0 + 1
    } else {
        texts.len()
    };
    let mut out: Vec<char> = Vec::new();
    if s.0 >= limit {
        assert(selected_upto(tv, s, e, line_wise, limit as int) == Seq::<char>::empty());
        return String::new();
    }
    let mut i = s.0;
    while i < limit
        invariant
            s.0 <= i <= limit <= texts@.len(),
            tv == views(texts@),
            s.1 < usize::MAX,
            e.1 < usize::MAX,
            out@ == selected_upto(tv, s, e, line_wise, i as int),
        decreases limit - i,
    {
        let t = chars_of(texts[i].as_str());
        assert(t@ == tv[i as int]);
        if line_wise {
            crate::text::extend_from(&mut out, t.as_slice());
            out.push('\n');
            proof {
                reveal_strlit("\n");
            }
        } else {
            let gs = graphemes(texts[i].as_str());
            let n = gs.len();
            assert(views(gs@).len() == n);
            let ghost before = out@;
            if i == s.0 && i == e.0 {
                let stop = if e.1 + 1 < n {
                    e.1 + 1
                } else {
                    n
                };
                if s.1 < stop {
                    let piece = flatten_range(&gs, s.1, stop);
                    crate::text::extend_from(&mut out, piece.as_slice());
                }
            } else if i == s.0 {
                if s.1 < n {
                    let piece = flatten_range(&gs, s.1, n);
                    assert(views(gs@).subrange(s.1 as int, n as int) =~= views(gs@).skip(s.1 as int));
                    crate::text::extend_from(&mut out, piece.as_slice());
                }
                out.push('\n');
                proof {
                    reveal_strlit("\n");
                }
            } else if i == e.0 {
                let stop = if e.1 + 1 < n {
                    e.1 + 1
                } else {
                    n
                };
                let piece = flatten_range(&gs, 0, stop);
                assert(views(gs@).subrange(0, stop as int) =~= views(gs@).take(stop as int));
                crate::text::extend_from(&mut out, piece.as_slice());
            } else {
                crate::text::extend_from(&mut out, t.as_slice());
                out.push('\n');
                proof {
                    reveal_strlit("\n");
                }
            }
            assert(out@ =~= before + char_piece(tv[i as int], i as int, s, e));
        }
        i += 1;
    }
    string_of(out.as_slice())
}

/// What a character-wise deletion from `s` to `e` leaves of line `i`:
/// lines outside the selection stay, the first and last lines lose their
/// selected graphemes (and go when nothing is left), the lines between go.
pub open spec fn kept_after_delete(l: LineView, i: int, s: (usize, usize), e: (usize, usize)) -> Option<LineView> {
    let cc = line_text(l).len() as int;
    if i < s.0 || i > e.0 {
        Some(l)
    } else {
        let cut = if i == s.0 && i == e.0 {
            Some(splice_segments(l, 0, s.1 as int, min_nat(e.1 + 1, cc)))
        } else if i == s.0 {
            Some(splice_segments(l, 0, s.1 as int, cc))
        } else if i == e.0 {
            Some(splice_segments(l, 0, 0, min_nat(e.1 + 1, cc)))
        } else {
            None
        };
        match cut {
            Some(c) => if line_text(c).len() > 0 { Some(c) } else { None },
            None => None,
        }
    }
}

pub open spec fn kept_lines(ls: Seq<LineView>, s: (usize, usize), e: (usize, usize)) -> Seq<LineView>
    decreases ls.len(),
{
    if ls.len() == 0 {
        Seq::empty()
    } else {
        let before = kept_lines(ls.drop_last(), s, e);
        match kept_after_delete(ls.last(), ls.len() - 1, s, e) {
            Some(l) => before.push(l),
            None => before,
        }
    }
}

pub open spec fn sat_sub1(n: int) -> int {
    if n > 0 {
        n - 1
    } else {
        0
    }
}

/// The buffer after a selection is deleted. Line-wise, its lines go (with
/// an undo entry) and the cursor goes to the first line after them;
/// character-wise, the buffer's lines are replaced by what is kept (with
/// an undo entry of all the old lines) and the cursor goes to the start
/// line, one column before the start.
pub open spec fn deleted_selection(st: BufferState, start: (usize, usize), end: (usize, usize), line_wise: bool) -> BufferState {
    let (s, e) = ordered(start, end);
    if line_wise {
        let st1 = spec_remove_lines(st, s.0 as int, e.0 + 1);
        let n = st1.lines.len();
        if s.0 < n {
            spec_set_cursor(st1, s.0 as int, 0)
        } else if n > 0 {
            spec_set_cursor(st1, n - 1, 0)
        } else {
            st1
        }
    } else {
        let kept = kept_lines(st.lines, s, e);
        let st1 = spec_remove_lines(st, 0, st.lines.len() as int);
        let st2 = BufferState { lines: kept, ..st1 };
        let n = kept.len() as int;
        let target = min_nat(s.0 as int, sat_sub1(n));
        if target < n {
            spec_set_cursor(st2, target, min_nat(sat_sub1(s.1 as int), max_col(kept[target])))
        } else if n > 0 {
            spec_set_cursor(st2, 0, 0)
        } else {
            st2
        }
    }
}

/// Deletes a selection from the buffer (`d` in visual mode). The end of
/// the selection must leave room for one more line and column.
pub fn delete_selection(buf: &mut ResponseBuffer, start: (usize, usize), end: (usize, usize), line_wise: bool)
    requires
        start.0 < usize::MAX,
        end.0 < usize::MAX,
        start.1 < usize::MAX,
        end.1 < usize::MAX,
    ensures
        final(buf)@ == deleted_selection(old(buf)@, start, end, line_wise),
{
    let (s, e) = if start.0 > end.0 || (start.0 == end.0 && start.1 > end.1) {
        (end, start)
    } else {
        (start, end)
    };
    if line_wise {
        buf.remove_lines(s.0, e.0 + 1);
        let n = buf.len();
        if s.0 < n {
            buf.set_cursor(s.0, 0);
        } else if n > 0 {
            buf.set_cursor(n - 1, 0);
        }
        return;
    }
    let ghost st = buf@;
    let mut kept: Vec<BufferLine> = Vec::new();
    let count = buf.len();
    let mut i: usize = 0;
    while i < count
        invariant
            i <= count,
            count == st.lines.len(),
            buf@ == st,
            s.1 < usize::MAX,
            e.1 < usize::MAX,
            lines_view(kept@) == kept_lines(st.lines.take(i as int), s, e),
        decreases count - i,
    {
        proof {
            assert(st.lines.take(i + 1).drop_last() =~= st.lines.take(i as int));
            assert(st.lines.take(i + 1).last() == st.lines[i as int]);
        }
        let line = &buf.lines()[i];
        assert(line@ == st.lines[i as int]);
        let ghost before = lines_view(kept@);
        if i < s.0 || i > e.0 {
            kept.push(line.copy());
            assert(lines_view(kept@) =~= before.push(st.lines[i as int]));
        } else {
            let cc = chars_of(line.content().as_str()).len();
            let cut: Option<BufferLine> = if i == s.0 && i == e.0 {
                let stop = if e.1 + 1 < cc {
                    e.1 + 1
                } else {
                    cc
                };
                Some(splice_line(line, s.1, stop))
            } else if i == s.0 {
                Some(splice_line(line, s.1, cc))
            } else if i == e.0 {
                let stop = if e.1 + 1 < cc {
                    e.1 + 1
                } else {
                    cc
                };
                Some(splice_line(line, 0, stop))
            } else {
                None
            };
            if let Some(c) = cut {
                if chars_of(c.content().as_str()).len() > 0 {
                    kept.push(c);
                    assert(lines_view(kept@) =~= before.push(c@));
                }
            }
        }
        i += 1;
    }
    assert(st.lines.take(count as int) =~= st.lines);
    buf.remove_lines(0, count);
    let ghost st1 = buf@;
    let ghost kv = lines_view(kept@);
    let mut k: usize = 0;
    let total = kept.len();
    while k < total
        invariant
            k <= total == kept@.len(),
            kv == lines_view(kept@),
            buf@ == (BufferState { lines: st1.lines + kv.take(k as int), ..st1 }),
        decreases total - k,
    {
        buf.push(kept[k].copy());
        assert(st1.lines + kv.take(k + 1) =~= (st1.lines + kv.take(k as int)).push(kept@[k as int]@));
        k += 1;
    }
    proof {
        assert(kv.take(total as int) =~= kv);
        if count > 0 {
            assert(st1.lines =~= Seq::<LineView>::empty());
        } else {
            assert(st1 == st);
            assert(st.lines =~= Seq::<LineView>::empty());
        }
        assert(st1.lines + kv =~= kv);
    }
    let n = buf.len();
    let target = if n > 0 {
        if s.0 < n - 1 {
            s.0
        } else {
            n - 1
        }
    } else {
        if s.0 < 0 {
            s.0
        } else {
            0
        }
    };
    if target < n {
        let mc = buf.lines()[target].grapheme_count();
        let max_c = if mc > 0 {
            mc - 1
        } else {
            0
        };
        let want = if s.1 > 0 {
            s.1 - 1
        } else {
            0
        };
        buf.set_cursor(target, if want < max_c { want } else { max_c });
    } else if n > 0 {
        buf.set_cursor(0, 0);
    }
}

/// What a key does in visual mode.
#[derive(Debug, Clone, Copy, PartialEq, Eq, Structural)]
pub enum VisualAction {
    Nothing,
    /// Leave visual mode and drop the selection.
    Exit,
    HalfPageDown,
    HalfPageUp,
    /// Hand the selection to the chat input.
    GrabToChat,
    EnterCommand,
    Down,
    Up,
    Left,
    Right,
    LineStart,
    LineEnd,
    Bottom,
    Top,
    /// Wait for the second `g`.
    PendingG,
    Yank,
    Delete,
}

/// The action of a key in visual mode, given whether a `g` is pending.
pub open spec fn visual_spec(key: Key, m: Modifiers, pending_g: bool) -> VisualAction {
    if m.ctrl {
        if is_char(key, 'c') {
            VisualAction::Exit
        } else if is_char(key, 'd') || is_char(key, 'f') {
            VisualAction::HalfPageDown
        } else if is_char(key, 'u') || is_char(key, 'b') {
            VisualAction::HalfPageUp
        } else {
            VisualAction::Nothing
        }
    } else {
        match key {
            Key::Esc => VisualAction::Exit,
            Key::Char('>') => VisualAction::GrabToChat,
            Key::Char(':') => VisualAction::EnterCommand,
            Key::Char('j') | Key::Down => VisualAction::Down,
            Key::Char('k') | Key::Up => VisualAction::Up,
            Key::Char('h') | Key::Left | Key::Char('b') => VisualAction::Left,
            Key::Char('l') | Key::Right | Key::Char('w') => VisualAction::Right,
            Key::Char('0') => VisualAction::LineStart,
            Key::Char('$') => VisualAction::LineEnd,
            Key::Char('G') => VisualAction::Bottom,
            Key::Char('g') => if pending_g { VisualAction::Top } else { VisualAction::PendingG },
            Key::Char('y') => VisualAction::Yank,
            Key::Char('d') | Key::Char('x') => VisualAction::Delete,
            _ => VisualAction::Nothing,
        }
    }
}

pub fn visual_key(key: Key, m: Modifiers, pending_g: bool) -> (r: VisualAction)
    ensures
        r == visual_spec(key, m, pending_g),
{
    if m.ctrl {
        return match key {
            Key::Char('c') => VisualAction::Exit,
            Key::Char('d') | Key::Char('f') => VisualAction::HalfPageDown,
            Key::Char('u') | Key::Char('b') => VisualAction::HalfPageUp,
            _ => VisualAction::Nothing,
        };
    }
    match key {
        Key::Esc => VisualAction::Exit,
        Key::Char('>') => VisualAction::GrabToChat,
        Key::Char(':') => VisualAction::EnterCommand,
        Key::Char('j') | Key::Down => VisualAction::Down,
        Key::Char('k') | Key::Up => VisualAction::Up,
        Key::Char('h') | Key::Left | Key::Char('b') => VisualAction::Left,
        Key::Char('l') | Key::Right | Key::Char('w') => VisualAction::Right,
        Key::Char('0') => VisualAction::LineStart,
        Key::Char('$') => VisualAction::LineEnd,
        Key::Char('G') => VisualAction::Bottom,
        Key::Char('g') => if pending_g { VisualAction::Top } else { VisualAction::PendingG },
        Key::Char('y') => VisualAction::Yank,
        Key::Char('d') | Key::Char('x') => VisualAction::Delete,
        _ => VisualAction::Nothing,
    }
}

/// The chat lines that show a grabbed selection: the text fenced as code.
pub fn grabbed_lines(text: &str) -> (r: Vec<BufferLine>)
    ensures
        lines_view(r@) == seq![seq![("```"@, crate::buffer::LineStyle::Info)]] + Seq::new(
            crate::text::lines(text@).len(),
            |i: int| seq![(crate::text::lines(text@)[i], crate::buffer::LineStyle::Dim)],
        ) + seq![seq![("```"@, crate::buffer::LineStyle::Info)]],
{
    let c = chars_of(text);
    let ls = crate::text::split_lines(c.as_slice());
    let ghost lv = ls@.map_values(|l: Vec<char>| l@);
    let mut out: Vec<BufferLine> = Vec::new();
    out.push(BufferLine::new("```", crate::buffer::LineStyle::Info));
    let mut i: usize = 0;
    while i < ls.len()
        invariant
            i <= ls@.len(),
            lv == ls@.map_values(|l: Vec<char>| l@),
            lv == crate::text::lines(text@),
            out@.len() == i + 1,
            out@[0]@ == seq![("```"@, crate::buffer::LineStyle::Info)],
            forall|k: int| 0 <= k < i ==> (#[trigger] out@[k + 1])@ == seq![(lv[k], crate::buffer::LineStyle::Dim)],
        decreases ls.len() - i,
    {
        out.push(BufferLine::new(string_of(ls[i].as_slice()).as_str(), crate::buffer::LineStyle::Dim));
        i += 1;
    }
    out.push(BufferLine::new("```", crate::buffer::LineStyle::Info));
    let ghost mid = Seq::new(lv.len(), |i: int| seq![(lv[i], crate::buffer::LineStyle::Dim)]);
    assert(lines_view(out@) =~= seq![seq![("```"@, crate::buffer::LineStyle::Info)]] + mid + seq![
        seq![("```"@, crate::buffer::LineStyle::Info)],
    ]) by {
        assert forall|k: int| 0 <= k < out@.len() implies lines_view(out@)[k] == (seq![
            seq![("```"@, crate::buffer::LineStyle::Info)],
        ] + mid + seq![seq![("```"@, crate::buffer::LineStyle::Info)]])[k] by {
            if 1 <= k <= lv.len() {
                assert(out@[(k - 1) + 1]@ == seq![(lv[k - 1], crate::buffer::LineStyle::Dim)]);
            }
        }
    }
    out
}

} // verus!
