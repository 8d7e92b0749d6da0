//! The centred popup list: its items, the selection cursor and the layout
//! that the terminal front end draws.

use vstd::prelude::*;
use crate::text::{chars_of, extend_from, string_of};
use crate::unicode::{spec_str_width, str_width};

verus! {

broadcast use vstd::string::group_string_axioms;

/// The display width of `s`.
pub fn disp_width(s: &str) -> (w: usize)
    ensures
        w == spec_str_width(s@),
{
    str_width(s)
}

/// `n` spaces.
pub open spec fn spaces(n: nat) -> Seq<char> {
    Seq::new(n, |i: int| ' ')
}

/// `s` padded with spaces to `target` columns (unchanged when it is as wide
/// already).
pub open spec fn padded(s: Seq<char>, target: nat) -> Seq<char> {
    let w = spec_str_width(s);
    if w >= target {
        s
    } else {
        s + spaces((target - w) as nat)
    }
}

fn push_repeat(v: &mut Vec<char>, c: char, n: usize)
    ensures
        final(v)@ == old(v)@ + Seq::new(n as nat, |i: int| c),
{
    let mut k: usize = 0;
    while k < n
        invariant
            k <= n,
            v@ == old(v)@ + Seq::new(k as nat, |i: int| c),
        decreases n - k,
    {
        v.push(c);
        k += 1;
        assert(v@ =~= old(v)@ + Seq::new(k as nat, |i: int| c));
    }
}

/// Pads `s` with spaces to `target_width` columns.
pub fn pad_to_width(s: &str, target_width: usize) -> (r: String)
    ensures
        r@ == padded(s@, target_width as nat),
{
    let w = disp_width(s);
    let mut v = chars_of(s);
    if w < target_width {
        push_repeat(&mut v, ' ', target_width - w);
    }
    string_of(v.as_slice())
}

/// One entry of a popup.
pub struct PopupItem {
    pub text: String,
    pub is_active: bool,
}

/// A modal list with a selection cursor.
pub struct Popup {
    pub active: bool,
    pub cursor: usize,
    pub title: String,
    pub items: Vec<PopupItem>,
}

/// The text of item `i`: the selection marker, the active marker, the text.
pub open spec fn item_line(i: int, text: Seq<char>, is_active: bool, cursor: int) -> Seq<char> {
    (if i == cursor {
        seq!['>']
    } else {
        seq![' ']
    }) + seq![' '] + (if is_active {
        seq!['*']
    } else {
        seq![' ']
    }) + seq![' '] + text
}

/// Where and what the popup draws.
pub struct PopupLayout {
    /// Left column of the box.
    pub col: u16,
    /// Top row of the box.
    pub row: u16,
    /// Columns inside the box.
    pub inner_width: usize,
    /// The top border with the centred title.
    pub top: String,
    /// Each item line padded to the inner width, with its row and whether
    /// it is selected.
    pub lines: Vec<(u16, String, bool)>,
    /// The bottom border and its row.
    pub bottom: String,
    pub bottom_row: u16,
}

pub open spec fn max_nat(a: nat, b: nat) -> nat {
    if a >= b {
        a
    } else {
        b
    }
}

pub open spec fn min_nat(a: nat, b: nat) -> nat {
    if a <= b {
        a
    } else {
        b
    }
}

/// The widest item line, at least 20.
pub open spec fn content_width(lines: Seq<Seq<char>>, n: int) -> nat
    decreases n,
{
    if n <= 0 {
        20
    } else {
        max_nat(content_width(lines, n - 1), spec_str_width(lines[n - 1]))
    }
}

impl Popup {
    pub fn new() -> (r: Popup)
        ensures
            !r.active,
            r.cursor == 0,
            r.title@.len() == 0,
            r.items@.len() == 0,
    {
        Popup { active: false, cursor: 0, title: String::new(), items: Vec::new() }
    }

    /// Opens the popup with `items`, the cursor on `initial_cursor` (or the
    /// last item).
    pub fn show(&mut self, title: &str, items: Vec<PopupItem>, initial_cursor: usize)
        ensures
            final(self).active,
            final(self).title@ == title@,
            final(self).items == items,
            final(self).cursor == if items@.len() == 0 {
                0
            } else if initial_cursor < items@.len() {
                initial_cursor as int
            } else {
                items@.len() - 1
            },
    {
        let len = items.len();
        self.active = true;
        self.title = string_of(chars_of(title).as_slice());
        self.items = items;
        let last = if len > 0 {
            len - 1
        } else {
            0
        };
        self.cursor = if initial_cursor < last {
            initial_cursor
        } else {
            last
        };
    }

    pub fn close(&mut self)
        ensures
            !final(self).active,
            final(self).cursor == old(self).cursor,
            final(self).title == old(self).title,
            final(self).items == old(self).items,
    {
        self.active = false;
    }

    /// Moves the selection up, wrapping to the last item.
    pub fn move_up(&mut self)
        ensures
            final(self).active == old(self).active,
            final(self).title == old(self).title,
            final(self).items == old(self).items,
            final(self).cursor == if old(self).items@.len() == 0 {
                old(self).cursor as int
            } else if old(self).cursor > 0 {
                old(self).cursor - 1
            } else {
                old(self).items@.len() - 1
            },
    {
        if self.items.len() == 0 {
            return;
        }
        if self.cursor > 0 {
            self.cursor -= 1;
        } else {
            self.cursor = self.items.len() - 1;
        }
    }

    /// Moves the selection down, wrapping to the first item.
    pub fn move_down(&mut self)
        ensures
            final(self).active == old(self).active,
            final(self).title == old(self).title,
            final(self).items == old(self).items,
            final(self).cursor == if old(self).items@.len() == 0 {
                old(self).cursor as int
            } else if old(self).cursor < old(self).items@.len() - 1 {
                old(self).cursor + 1
            } else {
                0
            },
    {
        if self.items.len() == 0 {
            return;
        }
        if self.cursor < self.items.len() - 1 {
            self.cursor += 1;
        } else {
            self.cursor = 0;
        }
    }

    /// The item lines as shown.
    pub open spec fn shown_lines(&self) -> Seq<Seq<char>> {
        Seq::new(
            self.items@.len(),
            |i: int| item_line(i, self.items@[i].text@, self.items@[i].is_active, self.cursor as int),
        )
    }

    /// How the popup is laid out on a `width` × `height` terminal; `None`
    /// when it is hidden or empty.
    pub fn layout(&self, width: u16, height: u16) -> (r: Option<PopupLayout>)
        requires
            self.items@.len() <= 65534,
        ensures
            r is None <==> (!self.active || self.items@.len() == 0),
            r matches Some(lay) ==> {
                let n = self.items@.len();
                let inner = min_nat(
                    max_nat(((width as nat) * 90 / 100) as nat, content_width(self.shown_lines(), n as int)),
                    width as nat,
                );
                let box_w = inner + 2;
                let box_h = n + 2;
                let tw = spec_str_width(self.title@);
                let total_pad: nat = if inner >= tw + 2 {
                    (inner - tw - 2) as nat
                } else {
                    0
                };
                &&& lay.inner_width == inner
                &&& lay.col == (if width as nat >= box_w {
                    (width - box_w) as nat
                } else {
                    0
                }) / 2
                &&& lay.row == (if height as nat >= box_h {
                    (height - box_h) as nat
                } else {
                    0
                }) / 2
                &&& lay.top@ == seq!['╭', ' '] + spaces(total_pad / 2) + self.title@ + spaces(
                    (total_pad - total_pad / 2) as nat,
                ) + seq![' ', '╮']
                &&& lay.lines@.len() == n
                &&& forall|i: int|
                    0 <= i < n ==> {
                        &&& (#[trigger] lay.lines@[i]).0 == lay.row + 1 + i
                        &&& lay.lines@[i].1@ == padded(self.shown_lines()[i], inner)
                        &&& lay.lines@[i].2 == (i == self.cursor)
                    }
                &&& lay.bottom@ == seq!['╰'] + Seq::new(inner, |k: int| '─') + seq!['╯']
                &&& lay.bottom_row == lay.row + 1 + n
            },
    {
        if !self.active || self.items.len() == 0 {
            return None;
        }
        let n = self.items.len();
        let ghost shown = self.shown_lines();
        let mut rendered: Vec<String> = Vec::new();
        let mut max_w: usize = 20;
        let mut i: usize = 0;
        while i < n
            invariant
                i <= n,
                n == self.items@.len(),
                shown == self.shown_lines(),
                rendered@.len() == i,
                forall|k: int| 0 <= k < i ==> (#[trigger] rendered@[k])@ == shown[k],
                max_w as nat == content_width(shown, i as int),
            decreases n - i,
        {
            let mut v: Vec<char> = Vec::new();
            v.push(if i == self.cursor {
                '>'
            } else {
                ' '
            });
            v.push(' ');
            v.push(if self.items[i].is_active {
                '*'
            } else {
                ' '
            });
            v.push(' ');
            let t = chars_of(self.items[i].text.as_str());
            extend_from(&mut v, t.as_slice());
            assert(v@ =~= shown[i as int]);
            let s = string_of(v.as_slice());
            let w = disp_width(s.as_str());
            if w > max_w {
                max_w = w;
            }
            rendered.push(s);
            i += 1;
        }
        let term_width = width as usize;
        let preferred = term_width * 90 / 100;
        let wide = if preferred >= max_w {
            preferred
        } else {
            max_w
        };
        let inner = if wide <= term_width {
            wide
        } else {
            term_width
        };
        let box_w = inner + 2;
        let box_h = n + 2;
        let col: u16 = if term_width >= box_w {
            ((term_width - box_w) / 2) as u16
        } else {
            0
        };
        let row: u16 = if height as usize >= box_h {
            ((height as usize - box_h) / 2) as u16
        } else {
            0
        };
        let tw = disp_width(self.title.as_str());
        let total_pad = if inner >= tw && inner - tw >= 2 {
            inner - tw - 2
        } else {
            0
        };
        let left = total_pad / 2;
        let right = total_pad - left;
        let mut top: Vec<char> = Vec::new();
        top.push('╭');
        top.push(' ');
        push_repeat(&mut top, ' ', left);
        let tc = chars_of(self.title.as_str());
        extend_from(&mut top, tc.as_slice());
        push_repeat(&mut top, ' ', right);
        top.push(' ');
        top.push('╮');
        assert(top@ =~= seq!['╭', ' '] + spaces(left as nat) + self.title@ + spaces(right as nat)
            + seq![' ', '╮']);
        let mut lines: Vec<(u16, String, bool)> = Vec::new();
        let mut i: usize = 0;
        while i < n
            invariant
                i <= n,
                n == self.items@.len(),
                n <= 65534,
                shown == self.shown_lines(),
                rendered@.len() == n,
                forall|k: int| 0 <= k < n ==> (#[trigger] rendered@[k])@ == shown[k],
                row as int + 1 + n <= 65535,
                lines@.len() == i,
                forall|k: int|
                    0 <= k < i ==> {
                        &&& (#[trigger] lines@[k]).0 == row + 1 + k
                        &&& lines@[k].1@ == padded(shown[k], inner as nat)
                        &&& lines@[k].2 == (k == self.cursor)
                    },
            decreases n - i,
        {
            let p = pad_to_width(rendered[i].as_str(), inner);
            let y: u16 = row + 1 + i as u16;
            lines.push((y, p, i == self.cursor));
            i += 1;
        }
        let mut bottom: Vec<char> = Vec::new();
        bottom.push('╰');
        push_repeat(&mut bottom, '─', inner);
        bottom.push('╯');
        let bottom_row: u16 = row + 1 + n as u16;
        Some(
            PopupLayout {
                col,
                row,
                inner_width: inner,
                top: string_of(top.as_slice()),
                lines,
                bottom: string_of(bottom.as_slice()),
                bottom_row,
            },
        )
    }
}

} // verus!
