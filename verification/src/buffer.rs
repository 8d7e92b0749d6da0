//! The scrollback buffer: styled lines, a grapheme cursor, visual rows for
//! soft wrapping, scrolling and an undo stack for deleted lines.

use vstd::prelude::*;
use crate::text::{chars_of, extend_from, lines, lviews, split_lines, string_of, views};
use crate::unicode::{graphemes, spec_graphemes, spec_str_width};

verus! {

broadcast use vstd::string::group_string_axioms;

/// Terminal colours that the front end draws with.
#[derive(Debug, Clone, Copy, PartialEq, Eq, Structural)]
pub enum TermColor {
    Magenta,
    White,
    Cyan,
    Green,
    Blue,
    Red,
    DarkGrey,
    Black,
    Yellow,
    Grey,
}

/// How a piece of buffer text is drawn.
#[derive(Debug, Clone, Copy, PartialEq, Eq, Structural)]
pub enum LineStyle {
    User,
    Assistant,
    Tool,
    ToolResult,
    Info,
    Error,
    Dim,
    Plain,
    Separator,
}

pub open spec fn style_color(s: LineStyle) -> TermColor {
    match s {
        LineStyle::User => TermColor::Magenta,
        LineStyle::Assistant => TermColor::White,
        LineStyle::Tool => TermColor::Cyan,
        LineStyle::ToolResult => TermColor::Green,
        LineStyle::Info => TermColor::Blue,
        LineStyle::Error => TermColor::Red,
        LineStyle::Dim => TermColor::DarkGrey,
        LineStyle::Plain => TermColor::White,
        LineStyle::Separator => TermColor::DarkGrey,
    }
}

pub open spec fn style_bold(s: LineStyle) -> bool {
    match s {
        LineStyle::User | LineStyle::Tool | LineStyle::ToolResult | LineStyle::Error
        | LineStyle::Info => true,
        _ => false,
    }
}

impl LineStyle {
    /// The foreground colour of the style.
    pub fn fg_color(&self) -> (c: TermColor)
        ensures
            c == style_color(*self),
    {
        match self {
            LineStyle::User => TermColor::Magenta,
            LineStyle::Assistant => TermColor::White,
            LineStyle::Tool => TermColor::Cyan,
            LineStyle::ToolResult => TermColor::Green,
            LineStyle::Info => TermColor::Blue,
            LineStyle::Error => TermColor::Red,
            LineStyle::Dim => TermColor::DarkGrey,
            LineStyle::Plain => TermColor::White,
            LineStyle::Separator => TermColor::DarkGrey,
        }
    }

    /// Whether the style is drawn bold.
    pub fn is_bold(&self) -> (b: bool)
        ensures
            b == style_bold(*self),
    {
        match self {
            LineStyle::User | LineStyle::Tool | LineStyle::ToolResult | LineStyle::Error
            | LineStyle::Info => true,
            _ => false,
        }
    }
}

/// A line as styled pieces of text.
pub type LineView = Seq<(Seq<char>, LineStyle)>;

/// The text of a line: its pieces one after the other.
pub open spec fn line_text(l: LineView) -> Seq<char>
    decreases l.len(),
{
    if l.len() == 0 {
        Seq::empty()
    } else {
        line_text(l.drop_last()) + l.last().0
    }
}

pub open spec fn segs_view(v: Seq<(String, LineStyle)>) -> LineView {
    Seq::new(v.len(), |i: int| (v[i].0@, v[i].1))
}

/// One line of the buffer: styled segments.
#[derive(Debug, Clone)]
pub struct BufferLine {
    pub segments: Vec<(String, LineStyle)>,
}

impl View for BufferLine {
    type V = LineView;

    open spec fn view(&self) -> LineView {
        segs_view(self.segments@)
    }
}

pub open spec fn first_color(l: LineView) -> TermColor {
    if l.len() > 0 {
        style_color(l[0].1)
    } else {
        TermColor::White
    }
}

pub open spec fn first_bold(l: LineView) -> bool {
    l.len() > 0 && style_bold(l[0].1)
}

impl BufferLine {
    /// A line of one segment.
    pub fn new(content: &str, style: LineStyle) -> (r: BufferLine)
        ensures
            r@ == seq![(content@, style)],
    {
        let text = string_of(chars_of(content).as_slice());
        let mut segments: Vec<(String, LineStyle)> = Vec::new();
        segments.push((text, style));
        let r = BufferLine { segments };
        assert(r@ =~= seq![(content@, style)]);
        r
    }

    /// A line of the given segments.
    pub fn from_segments(segments: Vec<(String, LineStyle)>) -> (r: BufferLine)
        ensures
            r.segments == segments,
    {
        BufferLine { segments }
    }

    /// The colour of the first segment's style (white for an empty line).
    pub fn fg_color(&self) -> (c: TermColor)
        ensures
            c == first_color(self@),
    {
        if self.segments.len() > 0 {
            self.segments[0].1.fg_color()
        } else {
            TermColor::White
        }
    }

    /// Whether the first segment's style is bold.
    pub fn is_bold(&self) -> (b: bool)
        ensures
            b == first_bold(self@),
    {
        if self.segments.len() > 0 {
            self.segments[0].1.is_bold()
        } else {
            false
        }
    }

    /// A copy of the line.
    pub fn copy(&self) -> (r: BufferLine)
        ensures
            r@ == self@,
    {
        let mut segs: Vec<(String, LineStyle)> = Vec::new();
        let mut i: usize = 0;
        while i < self.segments.len()
            invariant
                i <= self.segments@.len(),
                segs@.len() == i,
                forall|k: int| 0 <= k < i ==> (#[trigger] segs@[k]).0@ == self.segments@[k].0@ && segs@[k].1 == self.segments@[k].1,
            decreases self.segments.len() - i,
        {
            let t = string_of(chars_of(self.segments[i].0.as_str()).as_slice());
            segs.push((t, self.segments[i].1));
            i += 1;
        }
        let r = BufferLine { segments: segs };
        assert(r@ =~= self@);
        r
    }

    /// The text of the line.
    pub fn content(&self) -> (r: String)
        ensures
            r@ == line_text(self@),
    {
        text_of_segments(&self.segments)
    }

    /// The number of grapheme clusters in the line.
    pub fn grapheme_count(&self) -> (n: usize)
        ensures
            n == gcount(self@),
    {
        let t = self.content();
        graphemes(t.as_str()).len()
    }
}

/// The number of grapheme clusters of a line.
pub open spec fn gcount(l: LineView) -> nat {
    spec_graphemes(line_text(l)).len()
}

/// The last column the cursor can take on a line.
pub open spec fn max_col(l: LineView) -> int {
    if gcount(l) > 0 {
        gcount(l) - 1
    } else {
        0
    }
}


/// The text of styled segments, one after the other.
pub fn text_of_segments(segments: &Vec<(String, LineStyle)>) -> (r: String)
    ensures
        r@ == line_text(segs_view(segments@)),
{
    let ghost sv = segs_view(segments@);
    let mut v: Vec<char> = Vec::new();
    let mut i: usize = 0;
    while i < segments.len()
        invariant
            i <= segments.len(),
            sv == segs_view(segments@),
            v@ == line_text(sv.take(i as int)),
        decreases segments.len() - i,
    {
        let c = chars_of(segments[i].0.as_str());
        extend_from(&mut v, c.as_slice());
        proof {
            assert(sv.take(i + 1).drop_last() =~= sv.take(i as int));
        }
        i += 1;
    }
    assert(sv.take(segments.len() as int) =~= sv);
    string_of(v.as_slice())
}

// ---------------------------------------------------------------------------
// Visual rows
// ---------------------------------------------------------------------------

/// The grapheme clusters of one segment, each with the segment's style.
pub open spec fn seg_graphemes(seg: (Seq<char>, LineStyle)) -> LineView {
    let gs = spec_graphemes(seg.0);
    Seq::new(gs.len(), |k: int| (gs[k], seg.1))
}

/// The styled grapheme clusters of a line.
pub open spec fn line_graphemes(l: LineView) -> LineView
    decreases l.len(),
{
    if l.len() == 0 {
        Seq::empty()
    } else {
        line_graphemes(l.drop_last()) + seg_graphemes(l.last())
    }
}

/// The end of the row that starts at grapheme `col`: graphemes are added
/// while the row fits in `width` columns, but a row holds at least one.
pub open spec fn wrap_end(gs: LineView, col: int, end: int, cur_w: int, width: int) -> int
    decreases gs.len() - end,
{
    if end < 0 || end >= gs.len() {
        end
    } else {
        let w = spec_str_width(gs[end].0) as int;
        if cur_w + w > width && end > col {
            end
        } else {
            wrap_end(gs, col, end + 1, cur_w + w, width)
        }
    }
}

pub proof fn lemma_wrap_end(gs: LineView, col: int, end: int, cur_w: int, width: int)
    requires
        0 <= col <= end <= gs.len(),
    ensures
        end <= wrap_end(gs, col, end, cur_w, width) <= gs.len(),
        end == col && col < gs.len() ==> wrap_end(gs, col, end, cur_w, width) > col,
    decreases gs.len() - end,
{
    if end < gs.len() {
        let w = spec_str_width(gs[end].0) as int;
        if !(cur_w + w > width && end > col) {
            lemma_wrap_end(gs, col, end + 1, cur_w + w, width);
        }
    }
}

/// Consecutive graphemes of the same style merged into one segment.
pub open spec fn group_styles(gs: LineView) -> LineView
    decreases gs.len(),
{
    if gs.len() == 0 {
        Seq::empty()
    } else {
        let g = group_styles(gs.drop_last());
        let (t, st) = gs.last();
        if g.len() > 0 && g.last().1 == st {
            g.update(g.len() - 1, (g.last().0 + t, st))
        } else {
            g.push((t, st))
        }
    }
}

/// One row of the buffer as drawn at a given width.
pub struct SpecRow {
    pub line: int,
    pub content: Seq<char>,
    pub segments: LineView,
    pub start: int,
    pub end: int,
    pub fg: TermColor,
    pub bold: bool,
}

/// The rows of line `idx` from grapheme `col` on.
pub open spec fn line_rows_from(idx: int, gs: LineView, col: int, width: int) -> Seq<SpecRow>
    decreases gs.len() - col,
{
    if col < 0 || col >= gs.len() {
        Seq::empty()
    } else {
        let e = wrap_end(gs, col, col, 0, width);
        proof {
            lemma_wrap_end(gs, col, col, 0, width);
        }
        let segs = group_styles(gs.subrange(col, e));
        seq![
            SpecRow {
                line: idx,
                content: line_text(segs),
                segments: segs,
                start: col,
                end: e,
                fg: style_color(gs[col].1),
                bold: style_bold(gs[col].1),
            },
        ] + line_rows_from(idx, gs, e, width)
    }
}

/// The rows of line `idx`: an empty line still gets one (empty) row.
pub open spec fn line_rows(idx: int, l: LineView, width: int) -> Seq<SpecRow> {
    let gs = line_graphemes(l);
    if gs.len() == 0 {
        seq![
            SpecRow {
                line: idx,
                content: Seq::empty(),
                segments: Seq::empty(),
                start: 0,
                end: 0,
                fg: TermColor::White,
                bold: false,
            },
        ]
    } else {
        line_rows_from(idx, gs, 0, width)
    }
}

pub open spec fn rows_upto(lines: Seq<LineView>, n: int, width: int) -> Seq<SpecRow>
    decreases n,
{
    if n <= 0 {
        Seq::empty()
    } else {
        rows_upto(lines, n - 1, width) + line_rows(n - 1, lines[n - 1], width)
    }
}

/// Every line of the buffer wrapped at `width` columns.
pub open spec fn visual_rows_of(lines: Seq<LineView>, width: int) -> Seq<SpecRow> {
    rows_upto(lines, lines.len() as int, width)
}

/// One row of the buffer as drawn.
pub struct VisualRow {
    pub logical_line: usize,
    pub content: String,
    pub segments: Vec<(String, LineStyle)>,
    pub start_col: usize,
    pub end_col: usize,
    pub fg_color: TermColor,
    pub is_bold: bool,
}

impl View for VisualRow {
    type V = SpecRow;

    open spec fn view(&self) -> SpecRow {
        SpecRow {
            line: self.logical_line as int,
            content: self.content@,
            segments: segs_view(self.segments@),
            start: self.start_col as int,
            end: self.end_col as int,
            fg: self.fg_color,
            bold: self.is_bold,
        }
    }
}

pub open spec fn rows_view(v: Seq<VisualRow>) -> Seq<SpecRow> {
    Seq::new(v.len(), |i: int| v[i]@)
}

/// The styled graphemes of a line.
fn styled_graphemes(line: &BufferLine) -> (r: Vec<(String, LineStyle)>)
    ensures
        segs_view(r@) == line_graphemes(line@),
{
    let ghost lv = line@;
    let mut r: Vec<(String, LineStyle)> = Vec::new();
    let mut i: usize = 0;
    while i < line.segments.len()
        invariant
            i <= line.segments.len(),
            lv == line@,
            segs_view(r@) == line_graphemes(lv.take(i as int)),
        decreases line.segments.len() - i,
    {
        let style = line.segments[i].1;
        let gs = graphemes(line.segments[i].0.as_str());
        let ghost base = segs_view(r@);
        let mut k: usize = 0;
        while k < gs.len()
            invariant
                k <= gs.len(),
                segs_view(r@) == base + seg_graphemes((line.segments@[i as int].0@, style)).take(k as int),
                views(gs@) == spec_graphemes(line.segments@[i as int].0@),
            decreases gs.len() - k,
        {
            let g = string_of(chars_of(gs[k].as_str()).as_slice());
            let ghost before = r@;
            r.push((g, style));
            assert(segs_view(r@) =~= segs_view(before).push((gs@[k as int]@, style)));
            assert(seg_graphemes((line.segments@[i as int].0@, style)).take(k + 1) =~= seg_graphemes(
                (line.segments@[i as int].0@, style),
            ).take(k as int).push((gs@[k as int]@, style)));
            k += 1;
        }
        proof {
            assert(seg_graphemes((line.segments@[i as int].0@, style)).take(gs.len() as int)
                =~= seg_graphemes((line.segments@[i as int].0@, style)));
            assert(lv.take(i + 1).drop_last() =~= lv.take(i as int));
            assert(lv.take(i + 1).last() == (line.segments@[i as int].0@, style));
        }
        i += 1;
    }
    assert(lv.take(line.segments.len() as int) =~= lv);
    r
}

fn clone_string(s: &String) -> (r: String)
    ensures
        r@ == s@,
{
    string_of(chars_of(s.as_str()).as_slice())
}

/// The end of the row starting at `col`.
fn wrap_end_exec(gs: &Vec<(String, LineStyle)>, col: usize, width: usize) -> (e: usize)
    requires
        col < gs.len(),
    ensures
        e as int == wrap_end(segs_view(gs@), col as int, col as int, 0, width as int),
        col < e <= gs.len(),
{
    let ghost gv = segs_view(gs@);
    let mut cur: usize = 0;
    let mut end = col;
    proof {
        lemma_wrap_end(gv, col as int, col as int, 0, width as int);
    }
    while end < gs.len()
        invariant
            col <= end <= gs.len(),
            gv == segs_view(gs@),
            end == col ==> cur == 0,
            wrap_end(gv, col as int, col as int, 0, width as int) == wrap_end(
                gv,
                col as int,
                end as int,
                cur as int,
                width as int,
            ),
        decreases gs.len() - end,
    {
        let w = crate::unicode::str_width(gs[end].0.as_str());
        if (w > width || cur > width - w) && end > col {
            return end;
        }
        cur = cur + w;
        end += 1;
    }
    end
}

/// Merges consecutive graphemes `gs[a..b]` of the same style.
fn group_exec(gs: &Vec<(String, LineStyle)>, a: usize, b: usize) -> (r: Vec<(String, LineStyle)>)
    requires
        a <= b <= gs.len(),
    ensures
        segs_view(r@) == group_styles(segs_view(gs@).subrange(a as int, b as int)),
{
    let ghost gv = segs_view(gs@);
    let mut r: Vec<(String, LineStyle)> = Vec::new();
    let mut k = a;
    assert(gv.subrange(a as int, a as int) =~= Seq::<(Seq<char>, LineStyle)>::empty());
    while k < b
        invariant
            a <= k <= b <= gs.len(),
            gv == segs_view(gs@),
            segs_view(r@) == group_styles(gv.subrange(a as int, k as int)),
        decreases b - k,
    {
        let ghost prev = segs_view(r@);
        let style = gs[k].1;
        proof {
            assert(gv.subrange(a as int, k + 1).drop_last() =~= gv.subrange(a as int, k as int));
            assert(gv.subrange(a as int, k + 1).last() == gv[k as int]);
        }
        let n = r.len();
        if n > 0 && r[n - 1].1 == style {
            let (t, st) = r.pop().unwrap();
            let mut tv = chars_of(t.as_str());
            let gc = chars_of(gs[k].0.as_str());
            extend_from(&mut tv, gc.as_slice());
            r.push((string_of(tv.as_slice()), st));
            assert(segs_view(r@) =~= prev.update(prev.len() - 1, (prev.last().0 + gv[k as int].0, style)));
        } else {
            r.push((clone_string(&gs[k].0), style));
            assert(segs_view(r@) =~= prev.push((gv[k as int].0, style)));
        }
        k += 1;
    }
    r
}

/// The rows of one line.
fn line_rows_exec(idx: usize, line: &BufferLine, width: usize) -> (r: Vec<VisualRow>)
    ensures
        rows_view(r@) == line_rows(idx as int, line@, width as int),
{
    let gs = styled_graphemes(line);
    let ghost gv = segs_view(gs@);
    let mut rows: Vec<VisualRow> = Vec::new();
    if gs.len() == 0 {
        rows.push(
            VisualRow {
                logical_line: idx,
                content: String::new(),
                segments: Vec::new(),
                start_col: 0,
                end_col: 0,
                fg_color: TermColor::White,
                is_bold: false,
            },
        );
        assert(segs_view(Seq::<(String, LineStyle)>::empty()) =~= Seq::<(Seq<char>, LineStyle)>::empty());
        assert(rows_view(rows@) =~= line_rows(idx as int, line@, width as int));
        return rows;
    }
    let mut col: usize = 0;
    while col < gs.len()
        invariant
            col <= gs.len(),
            gv == segs_view(gs@),
            gv == line_graphemes(line@),
            gv.len() > 0,
            rows_view(rows@) + line_rows_from(idx as int, gv, col as int, width as int)
                == line_rows_from(idx as int, gv, 0, width as int),
        decreases gs.len() - col,
    {
        let end = wrap_end_exec(&gs, col, width);
        let segments = group_exec(&gs, col, end);
        let content = text_of_segments(&segments);
        let style = gs[col].1;
        let row = VisualRow {
            logical_line: idx,
            content,
            segments,
            start_col: col,
            end_col: end,
            fg_color: style.fg_color(),
            is_bold: style.is_bold(),
        };
        let ghost before = rows@;
        rows.push(row);
        proof {
            assert(rows_view(rows@) =~= rows_view(before).push(row@));
            assert(line_rows_from(idx as int, gv, col as int, width as int) =~= seq![row@]
                + line_rows_from(idx as int, gv, end as int, width as int));
            assert(rows_view(rows@) + line_rows_from(idx as int, gv, end as int, width as int)
                =~= rows_view(before) + line_rows_from(idx as int, gv, col as int, width as int));
        }
        col = end;
    }
    assert(rows_view(rows@) =~= rows_view(rows@) + Seq::<SpecRow>::empty());
    rows
}

// ---------------------------------------------------------------------------
// The buffer
// ---------------------------------------------------------------------------

/// Lines removed together, and where they stood.
#[derive(Debug, Clone)]
struct UndoDelete {
    index: usize,
    lines: Vec<BufferLine>,
}

/// The model of a buffer.
pub struct BufferState {
    pub name: Seq<char>,
    pub lines: Seq<LineView>,
    pub scroll: int,
    pub cursor_line: int,
    pub cursor_col: int,
    pub undo: Seq<(int, Seq<LineView>)>,
}

pub open spec fn lines_view(v: Seq<BufferLine>) -> Seq<LineView> {
    Seq::new(v.len(), |i: int| v[i]@)
}

spec fn undo_view(v: Seq<UndoDelete>) -> Seq<(int, Seq<LineView>)> {
    Seq::new(v.len(), |i: int| (v[i].index as int, lines_view(v[i].lines@)))
}


/// Row `i` holds the cursor at `(cl, cc)`: the column falls inside the row,
/// or sits just past the end of the line's last row.
pub open spec fn row_hits(rows: Seq<SpecRow>, i: int, cl: int, cc: int) -> bool {
    let row = rows[i];
    &&& row.line == cl
    &&& {
        ||| (if row.start == row.end {
            cc == 0
        } else {
            row.start <= cc < row.end
        })
        ||| (cc == row.end && (i + 1 >= rows.len() || rows[i + 1].line != cl))
    }
}

/// The first row from `i` on that holds the cursor (0 when none does).
pub open spec fn first_hit(rows: Seq<SpecRow>, i: int, cl: int, cc: int) -> int
    decreases rows.len() - i,
{
    if i < 0 || i >= rows.len() {
        0
    } else if row_hits(rows, i, cl, cc) {
        i
    } else {
        first_hit(rows, i + 1, cl, cc)
    }
}

/// The visual row of the cursor at the given width.
pub open spec fn cursor_row(st: BufferState, width: int) -> int {
    first_hit(visual_rows_of(st.lines, width), 0, st.cursor_line, st.cursor_col)
}

pub proof fn lemma_first_hit_bound(rows: Seq<SpecRow>, i: int, cl: int, cc: int)
    requires
        0 <= i,
    ensures
        0 <= first_hit(rows, i, cl, cc),
        rows.len() > 0 ==> first_hit(rows, i, cl, cc) < rows.len(),
    decreases rows.len() - i,
{
    if i < rows.len() && !row_hits(rows, i, cl, cc) {
        lemma_first_hit_bound(rows, i + 1, cl, cc);
    }
}

/// The scroll offset that shows the last `h` rows.
pub open spec fn bottom_scroll(nrows: int, h: int) -> int {
    if nrows > h {
        nrows - h
    } else {
        0
    }
}

pub open spec fn min_int(a: int, b: int) -> int {
    if a <= b {
        a
    } else {
        b
    }
}

pub open spec fn with_scroll(st: BufferState, scroll: int) -> BufferState {
    BufferState { scroll, ..st }
}

pub open spec fn spec_scroll_to_bottom_view(st: BufferState, h: int, width: int) -> BufferState {
    with_scroll(st, bottom_scroll(visual_rows_of(st.lines, width).len() as int, h))
}

pub open spec fn spec_scroll_to_bottom(st: BufferState, h: int, width: int) -> BufferState {
    let s1 = spec_scroll_to_bottom_view(st, h, width);
    if st.lines.len() == 0 {
        s1
    } else {
        let cl = st.lines.len() - 1;
        with_cursor(s1, cl, clamp_col(st.lines, cl, st.cursor_col))
    }
}

pub open spec fn spec_move_top(st: BufferState) -> BufferState {
    with_cursor(with_scroll(st, 0), 0, clamp_col(st.lines, 0, st.cursor_col))
}

pub open spec fn spec_move_bottom(st: BufferState, h: int, width: int) -> BufferState {
    if st.lines.len() == 0 {
        st
    } else {
        let cl = st.lines.len() - 1;
        spec_scroll_to_bottom(with_cursor(st, cl, clamp_col(st.lines, cl, st.cursor_col)), h, width)
    }
}

pub open spec fn half_page(h: int) -> int {
    if h / 2 >= 1 {
        h / 2
    } else {
        1
    }
}

pub open spec fn spec_half_page_up(st: BufferState, h: int, width: int) -> BufferState {
    let amount = half_page(h);
    let scroll = if st.scroll >= amount {
        st.scroll - amount
    } else {
        0
    };
    let s1 = with_scroll(st, scroll);
    let rows = visual_rows_of(st.lines, width);
    if cursor_row(st, width) < scroll && scroll < rows.len() {
        let cl = rows[scroll].line;
        with_cursor(s1, cl, clamp_col(st.lines, cl, st.cursor_col))
    } else {
        s1
    }
}

pub open spec fn spec_half_page_down(st: BufferState, h: int, width: int) -> BufferState {
    let rows = visual_rows_of(st.lines, width);
    let amount = half_page(h);
    let max_scroll = bottom_scroll(rows.len() as int, h);
    let scroll = min_int(st.scroll + amount, max_scroll);
    let s1 = with_scroll(st, scroll);
    let target = scroll + h - 1;
    if h > 0 && cursor_row(st, width) >= scroll + h && target < rows.len() {
        with_cursor(s1, rows[target].line, rows[target].start)
    } else {
        s1
    }
}

pub open spec fn spec_ensure_cursor_visible(st: BufferState, h: int, width: int) -> BufferState {
    let cvr = cursor_row(st, width);
    let scroll = if cvr < st.scroll {
        cvr
    } else if h > 0 && cvr >= st.scroll + h {
        cvr - h + 1
    } else {
        st.scroll
    };
    let max_scroll = bottom_scroll(visual_rows_of(st.lines, width).len() as int, h);
    with_scroll(st, min_int(scroll, max_scroll))
}

pub open spec fn spec_center_cursor(st: BufferState, h: int, width: int) -> BufferState {
    let cvr = cursor_row(st, width);
    let half = h / 2;
    let scroll = if cvr >= half {
        cvr - half
    } else {
        0
    };
    let max_scroll = bottom_scroll(visual_rows_of(st.lines, width).len() as int, h);
    with_scroll(st, min_int(scroll, max_scroll))
}

/// A scrollback buffer with a cursor.
pub struct ResponseBuffer {
    name: String,
    lines: Vec<BufferLine>,
    visual_scroll: usize,
    cursor_line: usize,
    cursor_col: usize,
    undo_stack: Vec<UndoDelete>,
}

/// The cursor column kept within the cursor line (0 off the lines).
pub open spec fn clamp_col(lines: Seq<LineView>, cl: int, cc: int) -> int {
    if 0 <= cl < lines.len() {
        if cc <= max_col(lines[cl]) {
            cc
        } else {
            max_col(lines[cl])
        }
    } else {
        0
    }
}

pub open spec fn with_cursor(st: BufferState, cl: int, cc: int) -> BufferState {
    BufferState { cursor_line: cl, cursor_col: cc, ..st }
}

pub open spec fn spec_move_up(st: BufferState, amount: int) -> BufferState {
    let cl = if st.cursor_line >= amount {
        st.cursor_line - amount
    } else {
        0
    };
    with_cursor(st, cl, clamp_col(st.lines, cl, st.cursor_col))
}

pub open spec fn spec_move_down(st: BufferState, amount: int) -> BufferState {
    if st.lines.len() == 0 {
        st
    } else {
        let cl = if st.cursor_line + amount <= st.lines.len() - 1 {
            st.cursor_line + amount
        } else {
            st.lines.len() - 1
        };
        with_cursor(st, cl, clamp_col(st.lines, cl, st.cursor_col))
    }
}

pub open spec fn spec_move_left(st: BufferState) -> BufferState {
    if st.cursor_col > 0 {
        with_cursor(st, st.cursor_line, st.cursor_col - 1)
    } else if st.cursor_line > 0 {
        let cl = st.cursor_line - 1;
        with_cursor(
            st,
            cl,
            if cl < st.lines.len() {
                max_col(st.lines[cl])
            } else {
                0
            },
        )
    } else {
        st
    }
}

pub open spec fn spec_move_right(st: BufferState) -> BufferState {
    if st.lines.len() == 0 || st.cursor_line >= st.lines.len() {
        st
    } else if st.cursor_col < max_col(st.lines[st.cursor_line]) {
        with_cursor(st, st.cursor_line, st.cursor_col + 1)
    } else if st.cursor_line < st.lines.len() - 1 {
        with_cursor(st, st.cursor_line + 1, 0)
    } else {
        st
    }
}

pub open spec fn spec_set_cursor(st: BufferState, line: int, col: int) -> BufferState {
    if line < st.lines.len() {
        with_cursor(
            st,
            line,
            if col <= max_col(st.lines[line]) {
                col
            } else {
                max_col(st.lines[line])
            },
        )
    } else if st.lines.len() == 0 {
        with_cursor(st, 0, 0)
    } else {
        st
    }
}

/// Lines `start..end` removed, and remembered for undo.
pub open spec fn spec_remove_lines(st: BufferState, start: int, end: int) -> BufferState {
    if 0 <= start < end <= st.lines.len() {
        let lines = st.lines.take(start) + st.lines.skip(end);
        let cl = if st.cursor_line >= lines.len() {
            if lines.len() > 0 {
                lines.len() - 1
            } else {
                0
            }
        } else {
            st.cursor_line
        };
        BufferState {
            lines,
            undo: st.undo.push((start, st.lines.subrange(start, end))),
            cursor_line: cl,
            cursor_col: clamp_col(lines, cl, st.cursor_col),
            ..st
        }
    } else {
        st
    }
}

/// The last removal undone: its lines put back where they stood, with the
/// cursor on the first of them.  An entry that no longer fits is dropped.
pub open spec fn spec_undo(st: BufferState) -> (BufferState, bool) {
    if st.undo.len() == 0 {
        (st, false)
    } else {
        let (idx, ls) = st.undo.last();
        let rest = st.undo.drop_last();
        if 0 <= idx <= st.lines.len() {
            let lines = st.lines.take(idx) + ls + st.lines.skip(idx);
            (
                BufferState {
                    lines,
                    undo: rest,
                    cursor_line: idx,
                    cursor_col: clamp_col(lines, idx, 0),
                    ..st
                },
                true,
            )
        } else {
            (BufferState { undo: rest, ..st }, false)
        }
    }
}

/// What undoing the removal of some lines gives back: the lines as they
/// were before the removal.
pub proof fn lemma_undo_restores_lines(st: BufferState, start: int, end: int)
    requires
        0 <= start < end <= st.lines.len(),
    ensures
        spec_undo(spec_remove_lines(st, start, end)).1,
        spec_undo(spec_remove_lines(st, start, end)).0.lines == st.lines,
        spec_undo(spec_remove_lines(st, start, end)).0.undo == st.undo,
        spec_undo(spec_remove_lines(st, start, end)).0.cursor_line == start,
{
    let removed = spec_remove_lines(st, start, end);
    assert(removed.undo.last() == (start, st.lines.subrange(start, end)));
    assert(removed.undo.drop_last() =~= st.undo);
    let lines = removed.lines.take(start) + st.lines.subrange(start, end) + removed.lines.skip(start);
    assert(lines =~= st.lines);
}

/// Every row of line `idx` from grapheme `col` on belongs to that line and
/// starts at one of its graphemes.
proof fn lemma_line_rows_from_bounds(idx: int, gs: LineView, col: int, width: int)
    requires
        0 <= col,
    ensures
        forall|k: int|
            0 <= k < line_rows_from(idx, gs, col, width).len() ==> {
                let r = #[trigger] line_rows_from(idx, gs, col, width)[k];
                r.line == idx && col <= r.start < gs.len()
            },
    decreases gs.len() - col,
{
    if col < gs.len() {
        lemma_wrap_end(gs, col, col, 0, width);
        let e = wrap_end(gs, col, col, 0, width);
        lemma_line_rows_from_bounds(idx, gs, e, width);
        let rest = line_rows_from(idx, gs, e, width);
        assert forall|k: int| 0 <= k < line_rows_from(idx, gs, col, width).len() implies {
            let r = #[trigger] line_rows_from(idx, gs, col, width)[k];
            r.line == idx && col <= r.start < gs.len()
        } by {
            if k > 0 {
                assert(line_rows_from(idx, gs, col, width)[k] == rest[k - 1]);
            }
        }
    }
}

/// A row may start the cursor on line `cl` at column `cc`.
pub open spec fn row_start_ok(lines: Seq<LineView>, cl: int, cc: int) -> bool {
    0 <= cl < lines.len() && (cc == 0 || 0 <= cc < line_graphemes(lines[cl]).len())
}

proof fn lemma_rows_upto_bounds(lines: Seq<LineView>, n: int, width: int)
    requires
        0 <= n <= lines.len(),
    ensures
        forall|k: int|
            0 <= k < rows_upto(lines, n, width).len() ==> {
                let r = #[trigger] rows_upto(lines, n, width)[k];
                r.line < n && row_start_ok(lines, r.line, r.start)
            },
    decreases n,
{
    if n > 0 {
        lemma_rows_upto_bounds(lines, n - 1, width);
        let a = rows_upto(lines, n - 1, width);
        let b = line_rows(n - 1, lines[n - 1], width);
        if line_graphemes(lines[n - 1]).len() > 0 {
            lemma_line_rows_from_bounds(n - 1, line_graphemes(lines[n - 1]), 0, width);
        }
        assert forall|k: int| 0 <= k < rows_upto(lines, n, width).len() implies {
            let r = #[trigger] rows_upto(lines, n, width)[k];
            r.line < n && row_start_ok(lines, r.line, r.start)
        } by {
            if k < a.len() {
                assert(rows_upto(lines, n, width)[k] == a[k]);
            } else {
                assert(rows_upto(lines, n, width)[k] == b[k - a.len()]);
            }
        }
    }
}

/// The cursor line lies within the lines (0 when there are none), and every
/// removal remembered for undo removed at least one line.
pub open spec fn cursor_line_ok(st: BufferState) -> bool {
    &&& (0 <= st.cursor_line < st.lines.len() || (st.lines.len() == 0 && st.cursor_line == 0))
    &&& forall|i: int| 0 <= i < st.undo.len() ==> (#[trigger] st.undo[i]).1.len() > 0
}

/// The cursor column is a column of the cursor line (0 when there are no
/// lines).
pub open spec fn cursor_col_ok(st: BufferState) -> bool {
    &&& 0 <= st.cursor_col
    &&& st.lines.len() == 0 ==> st.cursor_col == 0
    &&& 0 <= st.cursor_line < st.lines.len() ==> st.cursor_col <= max_col(st.lines[st.cursor_line])
}

/// A new buffer, and every change the buffer's methods make to it, keeps
/// the cursor line within the lines: an empty buffer has its cursor at the
/// top, and a buffer with lines has it on one of them.
pub proof fn law_cursor_line_within_lines(
    st: BufferState,
    name: Seq<char>,
    added: Seq<LineView>,
    amount: int,
    line: int,
    col: int,
    start: int,
    end: int,
    h: int,
    width: int,
)
    requires
        cursor_line_ok(st),
        0 <= st.scroll,
        0 <= amount,
        0 <= line,
        0 <= col,
        h >= 0,
    ensures
        cursor_line_ok(BufferState { name, lines: Seq::empty(), scroll: 0, cursor_line: 0, cursor_col: 0, undo: Seq::empty() }),
        cursor_line_ok(BufferState { name, ..st }),
        cursor_line_ok(BufferState { lines: st.lines + added, ..st }),
        cursor_line_ok(spec_move_up(st, amount)),
        cursor_line_ok(spec_move_down(st, amount)),
        cursor_line_ok(spec_move_left(st)),
        cursor_line_ok(spec_move_right(st)),
        cursor_line_ok(spec_set_cursor(st, line, col)),
        cursor_line_ok(spec_remove_lines(st, start, end)),
        cursor_line_ok(spec_undo(st).0),
        cursor_line_ok(spec_scroll_to_bottom_view(st, h, width)),
        cursor_line_ok(spec_scroll_to_bottom(st, h, width)),
        cursor_line_ok(spec_move_top(st)),
        cursor_line_ok(spec_move_bottom(st, h, width)),
        cursor_line_ok(spec_half_page_up(st, h, width)),
        cursor_line_ok(spec_half_page_down(st, h, width)),
        cursor_line_ok(spec_ensure_cursor_visible(st, h, width)),
        cursor_line_ok(spec_center_cursor(st, h, width)),
{
    lemma_rows_upto_bounds(st.lines, st.lines.len() as int, width);
    let rows = visual_rows_of(st.lines, width);
    let r = spec_remove_lines(st, start, end);
    if 0 <= start < end <= st.lines.len() {
        assert forall|i: int| 0 <= i < r.undo.len() implies (#[trigger] r.undo[i]).1.len() > 0 by {
            if i < st.undo.len() {
                assert(r.undo[i] == st.undo[i]);
            }
        }
    }
    let u = spec_undo(st).0;
    if st.undo.len() > 0 {
        assert(st.undo.last() == st.undo[st.undo.len() - 1]);
        assert forall|i: int| 0 <= i < u.undo.len() implies (#[trigger] u.undo[i]).1.len() > 0 by {
            assert(u.undo[i] == st.undo[i]);
        }
    }
    let scroll = if st.scroll >= half_page(h) {
        st.scroll - half_page(h)
    } else {
        0
    };
    if 0 <= scroll < rows.len() {
        assert(rows[scroll].line < st.lines.len());
    }
    let target = min_int(st.scroll + half_page(h), bottom_scroll(rows.len() as int, h)) + h - 1;
    if 0 <= target < rows.len() {
        assert(row_start_ok(st.lines, rows[target].line, rows[target].start));
    }
}

/// Every change the buffer's methods make keeps the cursor column on a
/// column of the cursor line, save one: half a page down may put the cursor
/// at the start of a wrapped row, which is a grapheme of the line as its
/// segments are split (the line's clusters taken segment by segment).
pub proof fn law_cursor_col_within_line(
    st: BufferState,
    name: Seq<char>,
    added: Seq<LineView>,
    amount: int,
    line: int,
    col: int,
    start: int,
    end: int,
    h: int,
    width: int,
)
    requires
        cursor_line_ok(st),
        cursor_col_ok(st),
        0 <= st.scroll,
        0 <= amount,
        0 <= line,
        0 <= col,
        h >= 0,
    ensures
        cursor_col_ok(BufferState { name, lines: Seq::empty(), scroll: 0, cursor_line: 0, cursor_col: 0, undo: Seq::empty() }),
        cursor_col_ok(BufferState { name, ..st }),
        cursor_col_ok(BufferState { lines: st.lines + added, ..st }),
        cursor_col_ok(spec_move_up(st, amount)),
        cursor_col_ok(spec_move_down(st, amount)),
        cursor_col_ok(spec_move_left(st)),
        cursor_col_ok(spec_move_right(st)),
        cursor_col_ok(spec_set_cursor(st, line, col)),
        cursor_col_ok(spec_remove_lines(st, start, end)),
        cursor_col_ok(spec_undo(st).0),
        cursor_col_ok(spec_scroll_to_bottom_view(st, h, width)),
        cursor_col_ok(spec_scroll_to_bottom(st, h, width)),
        cursor_col_ok(spec_move_top(st)),
        cursor_col_ok(spec_move_bottom(st, h, width)),
        cursor_col_ok(spec_half_page_up(st, h, width)),
        ({
            let d = spec_half_page_down(st, h, width);
            ||| (d.cursor_line == st.cursor_line && d.cursor_col == st.cursor_col && cursor_col_ok(d))
            ||| row_start_ok(d.lines, d.cursor_line, d.cursor_col)
        }),
        cursor_col_ok(spec_ensure_cursor_visible(st, h, width)),
        cursor_col_ok(spec_center_cursor(st, h, width)),
{
    lemma_rows_upto_bounds(st.lines, st.lines.len() as int, width);
    let rows = visual_rows_of(st.lines, width);
    let grown = st.lines + added;
    if 0 <= st.cursor_line < st.lines.len() {
        assert(grown[st.cursor_line] == st.lines[st.cursor_line]);
    }
    if st.undo.len() > 0 {
        assert(st.undo.last() == st.undo[st.undo.len() - 1]);
    }
    let target = min_int(st.scroll + half_page(h), bottom_scroll(rows.len() as int, h)) + h - 1;
    if 0 <= target < rows.len() {
        assert(row_start_ok(st.lines, rows[target].line, rows[target].start));
    }
}

/// After the view is moved to keep the cursor in sight, the cursor's row
/// lies within the `h` rows shown, and the view does not scroll past the
/// last row; centring the cursor keeps within the same bound.
pub proof fn law_cursor_visible(st: BufferState, h: int, width: int)
    requires
        0 <= st.scroll,
        h > 0,
    ensures
        ({
            let s = spec_ensure_cursor_visible(st, h, width);
            &&& cursor_row(s, width) == cursor_row(st, width)
            &&& s.scroll <= cursor_row(s, width) < s.scroll + h
            &&& 0 <= s.scroll <= bottom_scroll(visual_rows_of(st.lines, width).len() as int, h)
        }),
        0 <= spec_center_cursor(st, h, width).scroll <= bottom_scroll(visual_rows_of(st.lines, width).len() as int, h),
{
    let rows = visual_rows_of(st.lines, width);
    lemma_first_hit_bound(rows, 0, st.cursor_line, st.cursor_col);
}

impl View for ResponseBuffer {
    type V = BufferState;

    closed spec fn view(&self) -> BufferState {
        BufferState {
            name: self.name@,
            lines: lines_view(self.lines@),
            scroll: self.visual_scroll as int,
            cursor_line: self.cursor_line as int,
            cursor_col: self.cursor_col as int,
            undo: undo_view(self.undo_stack@),
        }
    }
}

impl ResponseBuffer {
    /// An empty buffer named "Chat".
    pub fn new() -> (r: ResponseBuffer)
        ensures
            r@.name == "Chat"@,
            r@.lines.len() == 0,
            r@.scroll == 0,
            r@.cursor_line == 0,
            r@.cursor_col == 0,
            r@.undo.len() == 0,
    {
        ResponseBuffer::with_name("Chat")
    }

    /// An empty buffer with the given name.
    pub fn with_name(name: &str) -> (r: ResponseBuffer)
        ensures
            r@.name == name@,
            r@.lines.len() == 0,
            r@.scroll == 0,
            r@.cursor_line == 0,
            r@.cursor_col == 0,
            r@.undo.len() == 0,
    {
        let r = ResponseBuffer {
            name: string_of(chars_of(name).as_slice()),
            lines: Vec::new(),
            visual_scroll: 0,
            cursor_line: 0,
            cursor_col: 0,
            undo_stack: Vec::new(),
        };
        assert(r@.lines =~= Seq::<LineView>::empty());
        assert(r@.undo =~= Seq::<(int, Seq<LineView>)>::empty());
        r
    }

    pub fn name(&self) -> (r: &str)
        ensures
            r@ == self@.name,
    {
        self.name.as_str()
    }

    pub fn set_name(&mut self, name: &str)
        ensures
            final(self)@ == (BufferState { name: name@, ..old(self)@ }),
    {
        self.name = string_of(chars_of(name).as_slice());
    }

    /// Appends a line.
    pub fn push(&mut self, line: BufferLine)
        ensures
            final(self)@ == (BufferState { lines: old(self)@.lines.push(line@), ..old(self)@ }),
    {
        let ghost before = self.lines@;
        self.lines.push(line);
        assert(lines_view(self.lines@) =~= lines_view(before).push(line@));
    }

    /// Appends each line of `text` with the given style.
    pub fn push_str(&mut self, text: &str, style: LineStyle)
        ensures
            final(self)@ == (BufferState {
                lines: old(self)@.lines + Seq::new(
                    lines(text@).len(),
                    |i: int| seq![(lines(text@)[i], style)],
                ),
                ..old(self)@
            }),
    {
        let c = chars_of(text);
        let ls = split_lines(c.as_slice());
        let ghost lsv = lviews(ls@);
        let ghost added = Seq::new(lsv.len(), |i: int| seq![(lsv[i], style)]);
        let mut i: usize = 0;
        while i < ls.len()
            invariant
                i <= ls.len(),
                lsv == lviews(ls@),
                lsv == lines(text@),
                added == Seq::new(lsv.len(), |i: int| seq![(lsv[i], style)]),
                self@ == (BufferState { lines: old(self)@.lines + added.take(i as int), ..old(self)@ }),
            decreases ls.len() - i,
        {
            let s = string_of(ls[i].as_slice());
            let mut segments: Vec<(String, LineStyle)> = Vec::new();
            segments.push((s, style));
            let line = BufferLine { segments };
            assert(line@ =~= seq![(lsv[i as int], style)]);
            self.push(line);
            assert(added.take(i + 1) =~= added.take(i as int).push(added[i as int]));
            i += 1;
        }
        assert(added.take(ls.len() as int) =~= added);
    }

    /// Appends a separator rule.
    pub fn push_separator(&mut self)
        ensures
            final(self)@ == (BufferState {
                lines: old(self)@.lines.push(seq![(Seq::new(60, |i: int| '─'), LineStyle::Separator)]),
                ..old(self)@
            }),
    {
        let mut v: Vec<char> = Vec::new();
        let mut i: usize = 0;
        while i < 60
            invariant
                i <= 60,
                v@ == Seq::new(i as nat, |k: int| '─'),
            decreases 60 - i,
        {
            v.push('─');
            i += 1;
            assert(v@ =~= Seq::new(i as nat, |k: int| '─'));
        }
        let mut segments: Vec<(String, LineStyle)> = Vec::new();
        segments.push((string_of(v.as_slice()), LineStyle::Separator));
        let line = BufferLine { segments };
        assert(line@ =~= seq![(Seq::new(60, |i: int| '─'), LineStyle::Separator)]);
        self.push(line);
    }

    /// Appends an empty plain line.
    pub fn push_blank(&mut self)
        ensures
            final(self)@ == (BufferState {
                lines: old(self)@.lines.push(seq![(Seq::<char>::empty(), LineStyle::Plain)]),
                ..old(self)@
            }),
    {
        let mut segments: Vec<(String, LineStyle)> = Vec::new();
        segments.push((String::new(), LineStyle::Plain));
        let line = BufferLine { segments };
        assert(line@ =~= seq![(Seq::<char>::empty(), LineStyle::Plain)]);
        self.push(line);
    }

    pub fn lines(&self) -> (r: &[BufferLine])
        ensures
            lines_view(r@) == self@.lines,
    {
        self.lines.as_slice()
    }

    pub fn len(&self) -> (n: usize)
        ensures
            n == self@.lines.len(),
    {
        self.lines.len()
    }

    pub fn is_empty(&self) -> (b: bool)
        ensures
            b == (self@.lines.len() == 0),
    {
        self.lines.len() == 0
    }

    pub fn cursor_line(&self) -> (n: usize)
        ensures
            n == self@.cursor_line,
    {
        self.cursor_line
    }

    pub fn cursor_col(&self) -> (n: usize)
        ensures
            n == self@.cursor_col,
    {
        self.cursor_col
    }

    pub fn scroll_offset(&self) -> (n: usize)
        ensures
            n == self@.scroll,
    {
        self.visual_scroll
    }

    fn max_col_of(&self, line: usize) -> (m: usize)
        requires
            line < self.lines.len(),
        ensures
            m == max_col(self@.lines[line as int]),
    {
        let n = self.lines[line].grapheme_count();
        if n > 0 {
            n - 1
        } else {
            0
        }
    }

    fn clamp_cursor_col(&mut self)
        ensures
            final(self)@ == with_cursor(
                old(self)@,
                old(self)@.cursor_line,
                clamp_col(old(self)@.lines, old(self)@.cursor_line, old(self)@.cursor_col),
            ),
    {
        if self.cursor_line < self.lines.len() {
            let m = self.max_col_of(self.cursor_line);
            if self.cursor_col > m {
                self.cursor_col = m;
            }
        } else {
            self.cursor_col = 0;
        }
    }

    /// Moves the cursor up `amount` lines (stopping at the first).
    pub fn move_up(&mut self, amount: usize)
        ensures
            final(self)@ == spec_move_up(old(self)@, amount as int),
    {
        self.cursor_line = if self.cursor_line >= amount {
            self.cursor_line - amount
        } else {
            0
        };
        self.clamp_cursor_col();
    }

    /// Moves the cursor down `amount` lines (stopping at the last).
    pub fn move_down(&mut self, amount: usize)
        requires
            old(self)@.cursor_line + amount <= usize::MAX,
        ensures
            final(self)@ == spec_move_down(old(self)@, amount as int),
    {
        if self.lines.len() == 0 {
            return;
        }
        let target = self.cursor_line + amount;
        self.cursor_line = if target <= self.lines.len() - 1 {
            target
        } else {
            self.lines.len() - 1
        };
        self.clamp_cursor_col();
    }

    /// Moves the cursor one grapheme left, to the end of the line above at
    /// the start of a line.
    pub fn move_left(&mut self)
        ensures
            final(self)@ == spec_move_left(old(self)@),
    {
        if self.cursor_col > 0 {
            self.cursor_col -= 1;
        } else if self.cursor_line > 0 {
            self.cursor_line -= 1;
            if self.cursor_line < self.lines.len() {
                self.cursor_col = self.max_col_of(self.cursor_line);
            } else {
                self.cursor_col = 0;
            }
        }
    }

    /// Moves the cursor one grapheme right, to the start of the next line at
    /// the end of a line.
    pub fn move_right(&mut self)
        ensures
            final(self)@ == spec_move_right(old(self)@),
    {
        if self.lines.len() == 0 || self.cursor_line >= self.lines.len() {
            return;
        }
        let m = self.max_col_of(self.cursor_line);
        if self.cursor_col < m {
            self.cursor_col += 1;
        } else if self.cursor_line < self.lines.len() - 1 {
            self.cursor_line += 1;
            self.cursor_col = 0;
        }
    }

    /// Puts the cursor on `line` at `col` (kept within the line).
    pub fn set_cursor(&mut self, line: usize, col: usize)
        ensures
            final(self)@ == spec_set_cursor(old(self)@, line as int, col as int),
    {
        if line < self.lines.len() {
            self.cursor_line = line;
            let m = self.max_col_of(line);
            self.cursor_col = if col <= m {
                col
            } else {
                m
            };
        } else if self.lines.len() == 0 {
            self.cursor_line = 0;
            self.cursor_col = 0;
        }
    }

    /// Removes lines `start..end`, remembering them for `undo`.
    pub fn remove_lines(&mut self, start: usize, end: usize)
        ensures
            final(self)@ == spec_remove_lines(old(self)@, start as int, end as int),
    {
        if start < end && end <= self.lines.len() {
            let ghost before = self.lines@;
            let mut tail = self.lines.split_off(end);
            let removed = self.lines.split_off(start);
            self.lines.append(&mut tail);
            let ghost undo_before = self.undo_stack@;
            proof {
                assert(lines_view(self.lines@) =~= lines_view(before).take(start as int)
                    + lines_view(before).skip(end as int));
                assert(lines_view(removed@) =~= lines_view(before).subrange(start as int, end as int));
            }
            self.undo_stack.push(UndoDelete { index: start, lines: removed });
            proof {
                assert(undo_view(self.undo_stack@) =~= undo_view(undo_before).push(
                    (start as int, lines_view(before).subrange(start as int, end as int)),
                ));
            }
            if self.cursor_line >= self.lines.len() {
                self.cursor_line = if self.lines.len() > 0 {
                    self.lines.len() - 1
                } else {
                    0
                };
            }
            self.clamp_cursor_col();
        }
    }

    /// Puts back the lines of the last removal, with the cursor on the
    /// first of them; `true` when lines were restored.
    pub fn undo(&mut self) -> (restored: bool)
        ensures
            (final(self)@, restored) == spec_undo(old(self)@),
    {
        match self.undo_stack.pop() {
            Some(action) => {
                let UndoDelete { index, lines } = action;
                let ghost ls = lines@;
                if index <= self.lines.len() {
                    let ghost before = self.lines@;
                    let mut lines = lines;
                    let mut tail = self.lines.split_off(index);
                    self.lines.append(&mut lines);
                    self.lines.append(&mut tail);
                    proof {
                        assert(lines_view(self.lines@) =~= lines_view(before).take(index as int)
                            + lines_view(ls) + lines_view(before).skip(index as int));
                    }
                    self.cursor_line = index;
                    self.cursor_col = 0;
                    self.clamp_cursor_col();
                    proof {
                        assert(self@.undo =~= old(self)@.undo.drop_last());
                    }
                    true
                } else {
                    proof {
                        assert(self@.undo =~= old(self)@.undo.drop_last());
                    }
                    false
                }
            },
            None => false,
        }
    }


    /// Every line wrapped at `width` columns.
    pub fn visual_rows(&self, width: usize) -> (r: Vec<VisualRow>)
        ensures
            rows_view(r@) == visual_rows_of(self@.lines, width as int),
    {
        let ghost lv = self@.lines;
        let mut rows: Vec<VisualRow> = Vec::new();
        let mut i: usize = 0;
        while i < self.lines.len()
            invariant
                i <= self.lines.len(),
                lv == self@.lines,
                lv == lines_view(self.lines@),
                rows_view(rows@) == rows_upto(lv, i as int, width as int),
            decreases self.lines.len() - i,
        {
            let mut lr = line_rows_exec(i, &self.lines[i], width);
            let ghost before = rows@;
            let ghost added = lr@;
            rows.append(&mut lr);
            assert(rows_view(rows@) =~= rows_view(before) + rows_view(added));
            i += 1;
        }
        rows
    }

    fn first_hit_exec(&self, rows: &Vec<VisualRow>) -> (r: usize)
        ensures
            r as int == first_hit(rows_view(rows@), 0, self@.cursor_line, self@.cursor_col),
            rows@.len() > 0 ==> r < rows@.len(),
    {
        let ghost rv = rows_view(rows@);
        proof {
            lemma_first_hit_bound(rv, 0, self@.cursor_line, self@.cursor_col);
        }
        let mut i: usize = 0;
        while i < rows.len()
            invariant
                i <= rows.len(),
                rv == rows_view(rows@),
                first_hit(rv, 0, self@.cursor_line, self@.cursor_col) == first_hit(
                    rv,
                    i as int,
                    self@.cursor_line,
                    self@.cursor_col,
                ),
            decreases rows.len() - i,
        {
            let row = &rows[i];
            if row.logical_line == self.cursor_line {
                let in_range = if row.start_col == row.end_col {
                    self.cursor_col == 0
                } else {
                    row.start_col <= self.cursor_col && self.cursor_col < row.end_col
                };
                if in_range {
                    return i;
                }
                if self.cursor_col == row.end_col {
                    let is_last = i + 1 >= rows.len() || rows[i + 1].logical_line != self.cursor_line;
                    if is_last {
                        return i;
                    }
                }
            }
            i += 1;
        }
        0
    }

    /// The visual row the cursor is on at the given width.
    pub fn cursor_visual_row(&self, width: usize) -> (r: usize)
        ensures
            r as int == cursor_row(self@, width as int),
    {
        let rows = self.visual_rows(width);
        self.first_hit_exec(&rows)
    }

    /// Scrolls so that the last `visible_height` rows show.
    pub fn scroll_to_bottom_view(&mut self, visible_height: usize, width: usize)
        ensures
            final(self)@ == spec_scroll_to_bottom_view(old(self)@, visible_height as int, width as int),
    {
        let rows = self.visual_rows(width);
        if rows.len() > visible_height {
            self.visual_scroll = rows.len() - visible_height;
        } else {
            self.visual_scroll = 0;
        }
    }

    /// Scrolls to the bottom and puts the cursor on the last line.
    pub fn scroll_to_bottom(&mut self, visible_height: usize, width: usize)
        ensures
            final(self)@ == spec_scroll_to_bottom(old(self)@, visible_height as int, width as int),
    {
        self.scroll_to_bottom_view(visible_height, width);
        if self.lines.len() > 0 {
            self.cursor_line = self.lines.len() - 1;
            self.clamp_cursor_col();
        }
    }

    /// Cursor to the first line, view to the top.
    pub fn move_top(&mut self)
        ensures
            final(self)@ == spec_move_top(old(self)@),
    {
        self.cursor_line = 0;
        self.visual_scroll = 0;
        self.clamp_cursor_col();
    }

    /// Cursor to the last line, view to the bottom.
    pub fn move_bottom(&mut self, visible_height: usize, width: usize)
        ensures
            final(self)@ == spec_move_bottom(old(self)@, visible_height as int, width as int),
    {
        if self.lines.len() == 0 {
            return;
        }
        self.cursor_line = self.lines.len() - 1;
        self.clamp_cursor_col();
        self.scroll_to_bottom(visible_height, width);
    }

    /// Scrolls up half a page; the cursor follows when it leaves the view.
    pub fn half_page_up(&mut self, visible_height: usize, width: usize)
        ensures
            final(self)@ == spec_half_page_up(old(self)@, visible_height as int, width as int),
    {
        let amount = if visible_height / 2 >= 1 {
            visible_height / 2
        } else {
            1
        };
        self.visual_scroll = if self.visual_scroll >= amount {
            self.visual_scroll - amount
        } else {
            0
        };
        let cursor_vrow = self.cursor_visual_row(width);
        if cursor_vrow < self.visual_scroll {
            let rows = self.visual_rows(width);
            if self.visual_scroll < rows.len() {
                self.cursor_line = rows[self.visual_scroll].logical_line;
                self.clamp_cursor_col();
            }
        }
    }

    /// Scrolls down half a page; the cursor follows when it leaves the view.
    pub fn half_page_down(&mut self, visible_height: usize, width: usize)
        ensures
            final(self)@ == spec_half_page_down(old(self)@, visible_height as int, width as int),
    {
        let rows = self.visual_rows(width);
        let amount = if visible_height / 2 >= 1 {
            visible_height / 2
        } else {
            1
        };
        let max_scroll = if rows.len() > visible_height {
            rows.len() - visible_height
        } else {
            0
        };
        let cursor_vrow = self.cursor_visual_row(width);
        self.visual_scroll = if self.visual_scroll >= max_scroll || amount >= max_scroll
            - self.visual_scroll {
            max_scroll
        } else {
            self.visual_scroll + amount
        };
        if visible_height > 0 && cursor_vrow >= self.visual_scroll && cursor_vrow
            - self.visual_scroll >= visible_height {
            if rows.len() > 0 && self.visual_scroll <= rows.len() - 1 && visible_height - 1
                < rows.len() - self.visual_scroll {
                let target = self.visual_scroll + visible_height - 1;
                self.cursor_line = rows[target].logical_line;
                self.cursor_col = rows[target].start_col;
            }
        }
    }

    /// Scrolls just enough for the cursor row to show.
    pub fn ensure_cursor_visible(&mut self, visible_height: usize, width: usize)
        ensures
            final(self)@ == spec_ensure_cursor_visible(old(self)@, visible_height as int, width as int),
    {
        let cursor_vrow = self.cursor_visual_row(width);
        let rows = self.visual_rows(width);
        if cursor_vrow < self.visual_scroll {
            self.visual_scroll = cursor_vrow;
        } else if visible_height > 0 && cursor_vrow - self.visual_scroll >= visible_height {
            self.visual_scroll = cursor_vrow - visible_height + 1;
        }
        let max_scroll = if rows.len() > visible_height {
            rows.len() - visible_height
        } else {
            0
        };
        if self.visual_scroll > max_scroll {
            self.visual_scroll = max_scroll;
        }
    }

    /// Scrolls so that the cursor row is in the middle of the view.
    pub fn center_cursor(&mut self, visible_height: usize, width: usize)
        ensures
            final(self)@ == spec_center_cursor(old(self)@, visible_height as int, width as int),
    {
        let cursor_vrow = self.cursor_visual_row(width);
        let half = visible_height / 2;
        self.visual_scroll = if cursor_vrow >= half {
            cursor_vrow - half
        } else {
            0
        };
        let rows = self.visual_rows(width);
        let max_scroll = if rows.len() > visible_height {
            rows.len() - visible_height
        } else {
            0
        };
        if self.visual_scroll > max_scroll {
            self.visual_scroll = max_scroll;
        }
    }

    /// Empties the buffer.
    pub fn clear(&mut self)
        ensures
            final(self)@ == (BufferState {
                lines: Seq::empty(),
                scroll: 0,
                cursor_line: 0,
                cursor_col: 0,
                undo: Seq::empty(),
                ..old(self)@
            }),
    {
        self.lines = Vec::new();
        self.visual_scroll = 0;
        self.cursor_line = 0;
        self.cursor_col = 0;
        self.undo_stack = Vec::new();
        assert(self@.lines =~= Seq::<LineView>::empty());
        assert(self@.undo =~= Seq::<(int, Seq<LineView>)>::empty());
    }
}

} // verus!
