//! The list of open buffers: which one is shown, where the Chat and Console
//! buffers are, switching between buffers and closing them; and the widths
//! the screen layout derives from the terminal and the buffer.

use vstd::prelude::*;
use crate::buffer::{BufferState, ResponseBuffer};
use crate::fmt::{decimal, decimal_chars};

verus! {

/// The model of the open buffers.
pub struct WorkspaceView {
    pub buffers: Seq<BufferState>,
    pub active: int,
    pub chat: Option<int>,
    pub console: Option<int>,
}

/// The open buffers, the one shown, and the indices of the Chat buffer
/// (where the agent's replies go) and the Console buffer (where command
/// output goes).
pub struct Workspace {
    buffers: Vec<ResponseBuffer>,
    active: usize,
    chat: Option<usize>,
    console: Option<usize>,
}

pub open spec fn opt_int(o: Option<usize>) -> Option<int> {
    match o {
        Some(i) => Some(i as int),
        None => None,
    }
}

pub open spec fn buffer_views(v: Seq<ResponseBuffer>) -> Seq<BufferState> {
    Seq::new(v.len(), |i: int| v[i]@)
}

impl View for Workspace {
    type V = WorkspaceView;

    closed spec fn view(&self) -> WorkspaceView {
        WorkspaceView {
            buffers: buffer_views(self.buffers@),
            active: self.active as int,
            chat: opt_int(self.chat),
            console: opt_int(self.console),
        }
    }
}

/// There is always a buffer, and the one shown is one of them.
pub open spec fn workspace_wf(w: WorkspaceView) -> bool {
    &&& w.buffers.len() >= 1
    &&& 0 <= w.active < w.buffers.len()
    &&& w.buffers.len() <= usize::MAX
    &&& match w.chat {
        Some(i) => 0 <= i <= usize::MAX,
        None => true,
    }
    &&& match w.console {
        Some(i) => 0 <= i <= usize::MAX,
        None => true,
    }
}

/// An empty buffer with the given name, as `ResponseBuffer::with_name` makes it.
pub open spec fn fresh_buffer(b: BufferState, name: Seq<char>) -> bool {
    &&& b.name == name
    &&& b.lines.len() == 0
    &&& b.scroll == 0
    &&& b.cursor_line == 0
    &&& b.cursor_col == 0
    &&& b.undo.len() == 0
}

/// A buffer emptied by `ResponseBuffer::clear`.
pub open spec fn cleared(b: BufferState) -> BufferState {
    BufferState { lines: Seq::empty(), scroll: 0, cursor_line: 0, cursor_col: 0, undo: Seq::empty(), ..b }
}

/// The index an index becomes when the buffer at `closed` is removed.
pub open spec fn shifted(o: Option<int>, closed: int) -> Option<int> {
    match o {
        Some(i) => if i > closed { Some(i - 1) } else { Some(i) },
        None => None,
    }
}

/// The buffer shown after `switch_buffer(direction)`: the next one for a
/// positive direction, else the previous one, wrapping around.
pub open spec fn switched_active(w: WorkspaceView, direction: i32) -> int {
    let n = w.buffers.len() as int;
    if direction > 0 {
        (w.active + 1) % n
    } else if w.active == 0 {
        n - 1
    } else {
        w.active - 1
    }
}

/// What closing the shown buffer did.
pub enum CloseOutcome {
    /// It was the only buffer: it was emptied instead.
    ClearedLast,
    /// It is the Chat or the Console buffer: it was emptied instead.
    ClearedPrimary,
    /// It was removed; this was its name.
    Closed(String),
}

/// Closing the shown buffer would step back from index 0: the buffer at
/// index 0 is closed while the Console buffer sits right after it.
pub open spec fn close_underflows(w: WorkspaceView) -> bool {
    &&& w.buffers.len() > 2
    &&& w.active == 0
    &&& w.chat != Some(0int)
    &&& w.console == Some(1int)
}

/// The buffer shown after the shown buffer at index `closed` was removed
/// from a list that keeps `len` buffers.
pub open spec fn active_after_close(closed: int, len: int, console: Option<int>) -> int {
    let a = if closed >= len { len - 1 } else { closed };
    if console == Some(a) && len > 1 {
        (a - 1) % len
    } else {
        a
    }
}

impl Workspace {
    /// One empty Chat buffer, shown; no Console buffer yet.
    pub fn new() -> (r: Workspace)
        ensures
            workspace_wf(r@),
            r@.buffers.len() == 1,
            fresh_buffer(r@.buffers[0], "Chat"@),
            r@.active == 0,
            r@.chat == Some(0int),
            r@.console is None,
    {
        let mut buffers: Vec<ResponseBuffer> = Vec::new();
        buffers.push(ResponseBuffer::with_name("Chat"));
        Workspace { buffers, active: 0, chat: Some(0), console: None }
    }

    pub fn len(&self) -> (n: usize)
        ensures
            n == self@.buffers.len(),
    {
        self.buffers.len()
    }

    pub fn active_index(&self) -> (i: usize)
        ensures
            i == self@.active,
    {
        self.active
    }

    /// The buffer shown.
    pub fn active_buffer(&self) -> (b: &ResponseBuffer)
        requires
            workspace_wf(self@),
        ensures
            b@ == self@.buffers[self@.active],
    {
        &self.buffers[self.active]
    }

    /// The buffer shown, to change it.
    pub fn active_buffer_mut(&mut self) -> (b: &mut ResponseBuffer)
        requires
            workspace_wf(old(self)@),
        ensures
            b@ == old(self)@.buffers[old(self)@.active],
            workspace_wf(final(self)@),
            final(self)@.buffers.len() == old(self)@.buffers.len(),
            final(self)@.buffers[old(self)@.active] == final(b)@,
            forall|j: int|
                0 <= j < old(self)@.buffers.len() && j != old(self)@.active ==> #[trigger] final(self)@.buffers[j]
                    == old(self)@.buffers[j],
            final(self)@.active == old(self)@.active,
            final(self)@.chat == old(self)@.chat,
            final(self)@.console == old(self)@.console,
    {
        &mut self.buffers[self.active]
    }

    pub fn buffer_at(&self, i: usize) -> (b: &ResponseBuffer)
        requires
            i < self@.buffers.len(),
        ensures
            b@ == self@.buffers[i as int],
    {
        &self.buffers[i]
    }

    /// Shows the buffer at `i`.
    pub fn set_active(&mut self, i: usize)
        requires
            workspace_wf(old(self)@),
            i < old(self)@.buffers.len(),
        ensures
            workspace_wf(final(self)@),
            final(self)@ == (WorkspaceView { active: i as int, ..old(self)@ }),
    {
        self.active = i;
    }

    /// Opens `b` as the last buffer and returns its index.
    pub fn add_buffer(&mut self, b: ResponseBuffer) -> (i: usize)
        requires
            workspace_wf(old(self)@),
            old(self)@.buffers.len() < usize::MAX,
        ensures
            workspace_wf(final(self)@),
            i == old(self)@.buffers.len(),
            final(self)@ == (WorkspaceView { buffers: old(self)@.buffers.push(b@), ..old(self)@ }),
    {
        let i = self.buffers.len();
        self.buffers.push(b);
        assert(buffer_views(self.buffers@) =~= buffer_views(old(self).buffers@).push(b@));
        i
    }

    /// The index of the Chat buffer; one is made at the end when there is
    /// none.
    pub fn chat_index(&mut self) -> (i: usize)
        requires
            workspace_wf(old(self)@),
            old(self)@.buffers.len() < usize::MAX,
        ensures
            workspace_wf(final(self)@),
            i < final(self)@.buffers.len(),
            final(self)@.chat == Some(i as int),
            match old(self)@.chat {
                Some(c) if c < old(self)@.buffers.len() => final(self)@ == old(self)@ && i == c,
                _ => {
                    &&& i == old(self)@.buffers.len()
                    &&& final(self)@.buffers.drop_last() == old(self)@.buffers
                    &&& fresh_buffer(final(self)@.buffers.last(), "Chat"@)
                    &&& final(self)@.active == old(self)@.active
                    &&& final(self)@.console == old(self)@.console
                },
            },
    {
        match self.chat {
            Some(i) => {
                if i < self.buffers.len() {
                    return i;
                }
            },
            None => {},
        }
        let i = self.add_buffer(ResponseBuffer::with_name("Chat"));
        self.chat = Some(i);
        proof {
            assert(final(self)@.buffers.drop_last() =~= old(self)@.buffers);
        }
        i
    }

    /// The index of the Console buffer; one is made at the end when there
    /// is none.
    pub fn console_index(&mut self) -> (i: usize)
        requires
            workspace_wf(old(self)@),
            old(self)@.buffers.len() < usize::MAX,
        ensures
            workspace_wf(final(self)@),
            i < final(self)@.buffers.len(),
            final(self)@.console == Some(i as int),
            match old(self)@.console {
                Some(c) if c < old(self)@.buffers.len() => final(self)@ == old(self)@ && i == c,
                _ => {
                    &&& i == old(self)@.buffers.len()
                    &&& final(self)@.buffers.drop_last() == old(self)@.buffers
                    &&& fresh_buffer(final(self)@.buffers.last(), "Console"@)
                    &&& final(self)@.active == old(self)@.active
                    &&& final(self)@.chat == old(self)@.chat
                },
            },
    {
        match self.console {
            Some(i) => {
                if i < self.buffers.len() {
                    return i;
                }
            },
            None => {},
        }
        let i = self.add_buffer(ResponseBuffer::with_name("Console"));
        self.console = Some(i);
        proof {
            assert(final(self)@.buffers.drop_last() =~= old(self)@.buffers);
        }
        i
    }

    /// Shows the next buffer (positive `direction`) or the previous one,
    /// wrapping around; returns false, changing nothing, when there is only
    /// one buffer.
    pub fn switch_buffer(&mut self, direction: i32) -> (switched: bool)
        requires
            workspace_wf(old(self)@),
        ensures
            workspace_wf(final(self)@),
            switched == (old(self)@.buffers.len() > 1),
            final(self)@ == if switched {
                WorkspaceView { active: switched_active(old(self)@, direction), ..old(self)@ }
            } else {
                old(self)@
            },
    {
        let n = self.buffers.len();
        if n > 1 {
            if direction > 0 {
                self.active = (self.active + 1) % n;
            } else if self.active == 0 {
                self.active = n - 1;
            } else {
                self.active = self.active - 1;
            }
            true
        } else {
            false
        }
    }

    /// Closes the shown buffer. The only buffer, and the Chat and Console
    /// buffers, are emptied instead. Afterwards the Chat and Console
    /// indices follow their buffers, and the Console buffer is not shown
    /// while another buffer is open.
    pub fn close_buffer(&mut self) -> (r: CloseOutcome)
        requires
            workspace_wf(old(self)@),
            !close_underflows(old(self)@),
        ensures
            workspace_wf(final(self)@),
            ({
                let w = old(self)@;
                let a = w.active;
                match r {
                    CloseOutcome::ClearedLast => {
                        &&& w.buffers.len() == 1
                        &&& final(self)@ == WorkspaceView { buffers: w.buffers.update(a, cleared(w.buffers[a])), ..w }
                    },
                    CloseOutcome::ClearedPrimary => {
                        &&& w.buffers.len() > 1
                        &&& (w.chat == Some(a) || w.console == Some(a))
                        &&& final(self)@ == WorkspaceView { buffers: w.buffers.update(a, cleared(w.buffers[a])), ..w }
                    },
                    CloseOutcome::Closed(name) => {
                        &&& w.buffers.len() > 1
                        &&& w.chat != Some(a) && w.console != Some(a)
                        &&& name@ == w.buffers[a].name
                        &&& final(self)@.buffers == w.buffers.remove(a)
                        &&& final(self)@.chat == shifted(w.chat, a)
                        &&& final(self)@.console == shifted(w.console, a)
                        &&& final(self)@.active == active_after_close(
                            a,
                            w.buffers.len() - 1,
                            shifted(w.console, a),
                        )
                    },
                }
            }),
    {
        let ghost w = self@;
        let closed = self.active;
        if self.buffers.len() <= 1 {
            self.buffers[closed].clear();
            proof {
                assert(self@.buffers =~= w.buffers.update(w.active, cleared(w.buffers[w.active])));
            }
            return CloseOutcome::ClearedLast;
        }
        if self.chat == Some(closed) || self.console == Some(closed) {
            self.buffers[closed].clear();
            proof {
                assert(self@.buffers =~= w.buffers.update(w.active, cleared(w.buffers[w.active])));
            }
            return CloseOutcome::ClearedPrimary;
        }
        let name = self.buffers[closed].name().to_string();
        let _ = self.buffers.remove(closed);
        proof {
            assert(buffer_views(self.buffers@) =~= w.buffers.remove(w.active));
        }
        match self.chat {
            Some(i) => {
                if i > closed {
                    self.chat = Some(i - 1);
                }
            },
            None => {},
        }
        match self.console {
            Some(i) => {
                if i > closed {
                    self.console = Some(i - 1);
                }
            },
            None => {},
        }
        let n = self.buffers.len();
        if self.active >= n {
            self.active = n - 1;
        }
        if self.console == Some(self.active) && n > 1 {
            self.active = (self.active - 1) % n;
        }
        CloseOutcome::Closed(name)
    }
}

/// After the shown buffer is removed, the shifted index `o` still points
/// at the buffer it pointed at.
pub open spec fn keeps_buffer(w: WorkspaceView, o: Option<int>) -> bool {
    match o {
        Some(c) => 0 <= c < w.buffers.len() && c != w.active ==> match shifted(o, w.active) {
            Some(j) => w.buffers.remove(w.active)[j] == w.buffers[c],
            None => false,
        },
        None => true,
    }
}

/// Closing a buffer keeps the Chat and Console indices on the same
/// buffers.
pub proof fn lemma_close_keeps_primaries(w: WorkspaceView)
    requires
        workspace_wf(w),
        w.buffers.len() > 1,
        w.chat != Some(w.active),
        w.console != Some(w.active),
    ensures
        keeps_buffer(w, w.chat),
        keeps_buffer(w, w.console),
{
}

/// Switching forward and then back shows the buffer shown before.
pub proof fn lemma_switch_back(w: WorkspaceView)
    requires
        workspace_wf(w),
        w.buffers.len() > 1,
    ensures
        switched_active(WorkspaceView { active: switched_active(w, 1i32), ..w }, -1i32) == w.active,
{
    let n = w.buffers.len() as int;
    if w.active + 1 < n {
        assert((w.active + 1) % n == w.active + 1) by (nonlinear_arith)
            requires
                0 <= w.active + 1 < n,
        ;
    } else {
        assert((w.active + 1) % n == 0) by (nonlinear_arith)
            requires
                w.active + 1 == n,
                n > 0,
        ;
    }
}

/// The terminal width to lay out for: 120 columns when the terminal
/// reports none.
pub fn term_width(width: u16) -> (r: usize)
    ensures
        r == if width > 0 { width as int } else { 120 },
{
    if width > 0 {
        width as usize
    } else {
        120
    }
}

proof fn lemma_decimal_len_small(n: nat)
    ensures
        decimal(n).len() <= n / 2 + 1,
    decreases n,
{
    if n >= 10 {
        lemma_decimal_len_small(n / 10);
    }
}

/// The width of the line-number gutter for a buffer of `lines` lines: the
/// digits of the count, a space, and a column for the git marks.
pub fn gutter_width(lines: usize) -> (r: usize)
    ensures
        r == decimal(lines as nat).len() + 2,
{
    let d = decimal_chars(lines as u128);
    proof {
        lemma_decimal_len_small(lines as nat);
    }
    d.len() + 2
}

/// The columns left for text beside the gutter and its separator.
pub fn content_width(term_w: usize, gutter: usize) -> (r: usize)
    requires
        gutter < usize::MAX,
    ensures
        r == if term_w > gutter + 1 { term_w - gutter - 1 } else { 0 },
{
    term_w.saturating_sub(gutter + 1)
}

} // verus!
