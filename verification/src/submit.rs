//! What happens to the text submitted from the input line: a cancelled
//! empty input, a `:` command, or a request for the agent, which a chat
//! group may refuse or switch away from when it asks for code.

use vstd::prelude::*;
use crate::agent::{lowercase, spec_lowercase, SkillGroup};
use crate::text::{chars_of, push_str_chars, starts_with, starts_with_exec, string_of, strip_start_char, trim, trimmed};

verus! {

broadcast use vstd::string::group_string_axioms;

/// The outcome of submitting the input line.
#[derive(Debug, Clone, PartialEq, Eq)]
pub enum Submission {
    /// Nothing was typed: back to normal mode; `had_snippet` says that a
    /// pasted snippet was dropped with it.
    Cancelled { had_snippet: bool },
    /// A `:` command, without its colon.
    Command(String),
    /// A code request from the chat group: switch to the group at `index`
    /// (named `name`) and send `text`.
    AutoSwitch { index: usize, name: String, text: String },
    /// A code request from the chat group, refused.
    Blocked(String),
    /// Send `text` to the agent.
    Send(String),
}

pub enum SubmissionView {
    Cancelled(bool),
    Command(Seq<char>),
    AutoSwitch(nat, Seq<char>, Seq<char>),
    Blocked(Seq<char>),
    Send(Seq<char>),
}

pub open spec fn submission_view(s: Submission) -> SubmissionView {
    match s {
        Submission::Cancelled { had_snippet } => SubmissionView::Cancelled(had_snippet),
        Submission::Command(c) => SubmissionView::Command(c@),
        Submission::AutoSwitch { index, name, text } => SubmissionView::AutoSwitch(index as nat, name@, text@),
        Submission::Blocked(t) => SubmissionView::Blocked(t@),
        Submission::Send(t) => SubmissionView::Send(t@),
    }
}

/// The words that make a request a code request.
pub open spec fn code_keywords() -> Seq<Seq<char>> {
    seq!["impl "@, "create "@, "write "@, "fix "@, "build "@, "refactor "@, "implement "@, "add "@, "debug "@]
}

pub open spec fn is_code_request(text: Seq<char>) -> bool {
    exists|i: int| 0 <= i < code_keywords().len() && starts_with(spec_lowercase(text), #[trigger] code_keywords()[i])
}

/// The index of the first group named `Code`, or 5, kept within the
/// groups.
pub open spec fn code_group_index(names: Seq<Seq<char>>) -> nat {
    let found = if exists|i: int| 0 <= i < names.len() && names[i] == "Code"@ {
        choose|i: int| 0 <= i < names.len() && names[i] == "Code"@ && forall|j: int| 0 <= j < i ==> names[j] != "Code"@
    } else {
        5
    };
    let last = if names.len() > 0 { names.len() - 1 } else { 0 };
    (if found < last { found } else { last }) as nat
}

/// What submitting `input` does, with a pasted `snippet` (if any) put
/// before it, while the group at `active_group` is active.
pub open spec fn submission_spec(
    input: Seq<char>,
    snippet: Option<Seq<char>>,
    active_group: nat,
    auto_enable: bool,
    names: Seq<Seq<char>>,
) -> SubmissionView {
    if trim(input).len() == 0 {
        SubmissionView::Cancelled(snippet is Some)
    } else if snippet is None && input.len() > 0 && input[0] == ':' {
        SubmissionView::Command(trim(strip_start_char(input, ':')))
    } else {
        let text = match snippet {
            Some(s) => s + "\n\n"@ + input,
            None => input,
        };
        if is_code_request(text) && active_group == 0 {
            if auto_enable {
                let idx = code_group_index(names);
                SubmissionView::AutoSwitch(idx, if idx < names.len() { names[idx as int] } else { Seq::empty() }, text)
            } else {
                SubmissionView::Blocked(text)
            }
        } else {
            SubmissionView::Send(text)
        }
    }
}

fn code_request(text: &str) -> (r: bool)
    ensures
        r == is_code_request(text@),
{
    let low = chars_of(lowercase(text).as_str());
    let kws = vec!["impl ", "create ", "write ", "fix ", "build ", "refactor ", "implement ", "add ", "debug "];
    assert(kws@.map_values(|k: &str| k@) =~= code_keywords());
    let mut i: usize = 0;
    while i < kws.len()
        invariant
            i <= kws@.len(),
            kws@.map_values(|k: &str| k@) == code_keywords(),
            low@ == spec_lowercase(text@),
            forall|k: int| 0 <= k < i ==> !starts_with(spec_lowercase(text@), #[trigger] code_keywords()[k]),
        decreases kws.len() - i,
    {
        let k = chars_of(kws[i]);
        assert(k@ == code_keywords()[i as int]);
        if starts_with_exec(low.as_slice(), k.as_slice()) {
            return true;
        }
        i += 1;
    }
    false
}

/// Decides what submitting the input line does.
pub fn submission(input: &str, snippet: Option<&str>, active_group: usize, auto_enable: bool, groups: &Vec<SkillGroup>) -> (r: Submission)
    ensures
        submission_view(r) == submission_spec(
            input@,
            match snippet {
                Some(s) => Some(s@),
                None => None,
            },
            active_group as nat,
            auto_enable,
            crate::agent::groups_view(groups@).map_values(|g: crate::agent::GroupView| g.name),
        ),
{
    let ghost names = crate::agent::groups_view(groups@).map_values(|g: crate::agent::GroupView| g.name);
    let c = chars_of(input);
    if trimmed(c.as_slice()).len() == 0 {
        return Submission::Cancelled { had_snippet: snippet.is_some() };
    }
    if snippet.is_none() && c.len() > 0 && c[0] == ':' {
        let mut a: usize = 0;
        assert(c@.skip(0) =~= c@);
        while a < c.len() && c[a] == ':'
            invariant
                a <= c.len(),
                strip_start_char(c@, ':') == strip_start_char(c@.skip(a as int), ':'),
            decreases c.len() - a,
        {
            assert(c@.skip(a as int).drop_first() =~= c@.skip(a + 1));
            a += 1;
        }
        let rest = crate::text::copy_range(c.as_slice(), a, c.len());
        assert(rest@ =~= c@.skip(a as int));
        return Submission::Command(string_of(trimmed(rest.as_slice()).as_slice()));
    }
    let text = match snippet {
        Some(s) => {
            let mut t = chars_of(s);
            push_str_chars(&mut t, "\n\n");
            push_str_chars(&mut t, input);
            string_of(t.as_slice())
        },
        None => string_of(c.as_slice()),
    };
    if code_request(text.as_str()) && active_group == 0 {
        if auto_enable {
            let n = groups.len();
            let mut found: usize = 5;
            let mut k: usize = 0;
            let mut hit = false;
            while k < n && !hit
                invariant
                    k <= n == groups@.len(),
                    names == crate::agent::groups_view(groups@).map_values(|g: crate::agent::GroupView| g.name),
                    names.len() == n,
                    hit ==> k < n && names[k as int] == "Code"@ && found == k,
                    !hit ==> found == 5,
                    forall|j: int| 0 <= j < k ==> names[j] != "Code"@,
                decreases n - k + (if hit { 0int } else { 1int }),
            {
                assert(names[k as int] == groups@[k as int].name@);
                if crate::text::chars_eq(chars_of(groups[k].name.as_str()).as_slice(), chars_of("Code").as_slice()) {
                    hit = true;
                    found = k;
                } else {
                    k += 1;
                }
            }
            proof {
                if hit {
                    let w = choose|i: int| 0 <= i < names.len() && names[i] == "Code"@ && forall|j: int| 0 <= j < i ==> names[j] != "Code"@;
                    if w < k {
                    } else if w > k {
                    }
                    assert(w == k);
                } else {
                    assert(!(exists|i: int| 0 <= i < names.len() && names[i] == "Code"@));
                }
            }
            let last = if n > 0 {
                n - 1
            } else {
                0
            };
            let idx = if found < last {
                found
            } else {
                last
            };
            let name = if idx < n {
                assert(names[idx as int] == groups@[idx as int].name@);
                string_of(chars_of(groups[idx].name.as_str()).as_slice())
            } else {
                String::new()
            };
            Submission::AutoSwitch { index: idx, name, text }
        } else {
            Submission::Blocked(text)
        }
    } else {
        Submission::Send(text)
    }
}

} // verus!
