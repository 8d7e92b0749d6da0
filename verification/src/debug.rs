//! The debug log: whether it is on, and the lines written to it.

use vstd::prelude::*;
use crate::text::{push_str_chars, string_of};
use vstd::string::StringSliceAdditionalSpecFns;

verus! {

broadcast use vstd::string::group_string_axioms;

/// The width of a separator line, in characters.
pub const SEPARATOR_WIDTH: usize = 72;

/// `n` box-drawing dashes.
pub open spec fn dashes(n: nat) -> Seq<char> {
    Seq::new(n, |i: int| '─')
}

/// A separator: a full line of dashes when there is no title, else a
/// newline and the title framed by spaces and dashes, the padding (the
/// width less the title's length in bytes and its two spaces) split with
/// the smaller half on the left.
pub open spec fn separator_text(title: Seq<char>, title_bytes: nat) -> Seq<char> {
    if title.len() == 0 {
        dashes(72)
    } else {
        let pad = 72 - title_bytes - 2;
        let left = pad / 2;
        let right = pad - left;
        seq!['\n'] + dashes(left as nat) + seq![' '] + title + seq![' '] + dashes(right as nat)
    }
}

fn push_dashes(v: &mut Vec<char>, n: usize)
    ensures
        final(v)@ == old(v)@ + dashes(n as nat),
{
    let mut i: usize = 0;
    while i < n
        invariant
            i <= n,
            v@ == old(v)@ + dashes(i as nat),
        decreases n - i,
    {
        v.push('─');
        i += 1;
        assert(dashes(i as nat) =~= dashes((i - 1) as nat).push('─'));
    }
}

/// The separator line written to the debug log for a section titled
/// `title`. A title longer than the line (over seventy bytes) leaves no
/// room for padding and is not accepted.
pub fn separator(title: &str) -> (r: String)
    requires
        title@.len() == 0 || title.spec_bytes().len() <= 70,
    ensures
        r@ == separator_text(title@, title.spec_bytes().len()),
{
    let mut v: Vec<char> = Vec::new();
    let t = crate::text::chars_of(title);
    if t.len() == 0 {
        push_dashes(&mut v, SEPARATOR_WIDTH);
        return string_of(v.as_slice());
    }
    let pad = SEPARATOR_WIDTH - title.len() - 2;
    let left = pad / 2;
    let right = pad - left;
    v.push('\n');
    push_dashes(&mut v, left);
    v.push(' ');
    push_str_chars(&mut v, title);
    v.push(' ');
    push_dashes(&mut v, right);
    string_of(v.as_slice())
}

/// Whether debug logging is on. The program holds one and consults it
/// wherever a line may go to the log.
pub struct DebugLog {
    enabled: bool,
}

impl DebugLog {
    /// Logging off.
    pub fn new() -> (r: DebugLog)
        ensures
            !r.on(),
    {
        DebugLog { enabled: false }
    }

    pub closed spec fn on(&self) -> bool {
        self.enabled
    }

    /// Turns logging on or off.
    pub fn set_debug(&mut self, enabled: bool)
        ensures
            final(self).on() == enabled,
    {
        self.enabled = enabled;
    }

    pub fn is_debug(&self) -> (r: bool)
        ensures
            r == self.on(),
    {
        self.enabled
    }

    /// The line to write for `msg`: the message itself while logging is
    /// on, nothing while it is off.
    pub fn dbg_msg(&self, msg: &str) -> (r: Option<String>)
        ensures
            self.on() ==> (r matches Some(t) && t@ == msg@),
            !self.on() ==> r is None,
    {
        if self.enabled {
            Some(string_of(crate::text::chars_of(msg).as_slice()))
        } else {
            None
        }
    }

    /// The separator to write for a section titled `title` while logging
    /// is on; nothing while it is off, whatever the title.
    pub fn section(&self, title: &str) -> (r: Option<String>)
        requires
            self.on() ==> title@.len() == 0 || title.spec_bytes().len() <= 70,
        ensures
            self.on() ==> (r matches Some(t) && t@ == separator_text(title@, title.spec_bytes().len())),
            !self.on() ==> r is None,
    {
        if self.enabled {
            Some(separator(title))
        } else {
            None
        }
    }
}

} // verus!
