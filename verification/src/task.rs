//! Tasks: a plan with numbered, timestamped steps, their identifiers, their
//! change log and their order.

use vstd::prelude::*;
use crate::fmt::{decimal, decimal_chars};
use crate::misc::{format_hms, format_hms_compact, hms_compact, hms_text, now_unix_secs, two_digits};
use crate::text::{chars_of, extend_from, join_lines, starts_with, starts_with_exec, string_of};

verus! {

broadcast use vstd::string::group_string_axioms;

/// One recorded step of a task.
#[derive(Debug, Clone)]
pub struct TaskStep {
    pub step: u32,
    pub action: String,
    pub target: String,
    pub description: String,
    pub success: bool,
    pub timestamp: String,
}

/// A task: its identifier, plan, steps and status (`active`, `done` or
/// `aborted`).
#[derive(Debug, Clone)]
pub struct Task {
    pub id: String,
    pub title: String,
    pub description: String,
    pub plan: String,
    pub steps: Vec<TaskStep>,
    pub status: String,
    pub created_at: String,
}

fn owned(s: &str) -> (r: String)
    ensures
        r@ == s@,
{
    string_of(chars_of(s).as_slice())
}

/// `n` below 10000 as four digits.
pub open spec fn four_digits(n: nat) -> Seq<char> {
    two_digits(n / 100) + two_digits(n % 100)
}

/// `task_HHMMSS_NNNN`.
pub open spec fn task_id(secs: nat, seq: nat) -> Seq<char> {
    "task_"@ + hms_compact(secs) + seq!['_'] + if seq < 10000 {
        four_digits(seq)
    } else {
        decimal(seq)
    }
}

/// The text of `s` split at every `c` (always at least one piece).
pub open spec fn split_acc(s: Seq<char>, c: char) -> (Seq<Seq<char>>, Seq<char>)
    decreases s.len(),
{
    if s.len() == 0 {
        (Seq::empty(), Seq::empty())
    } else {
        let (done, cur) = split_acc(s.drop_last(), c);
        if s.last() == c {
            (done.push(cur), Seq::empty())
        } else {
            (done, cur.push(s.last()))
        }
    }
}

pub open spec fn split_on(s: Seq<char>, c: char) -> Seq<Seq<char>> {
    let (done, cur) = split_acc(s, c);
    done.push(cur)
}

pub open spec fn is_digit(c: char) -> bool {
    '0' <= c && c <= '9'
}

pub open spec fn digits_value(s: Seq<char>) -> nat
    decreases s.len(),
{
    if s.len() == 0 {
        0
    } else {
        digits_value(s.drop_last()) * 10 + ((s.last() as u32) - ('0' as u32)) as nat
    }
}

/// What follows an optional leading `+`.
pub open spec fn unsigned_body(s: Seq<char>) -> Seq<char> {
    if s.len() > 0 && s[0] == '+' {
        s.drop_first()
    } else {
        s
    }
}

/// `str::parse::<u32>`: an optional `+`, then one or more decimal digits,
/// with a value that fits.
pub open spec fn parse_u32(s: Seq<char>) -> Option<nat> {
    let body = unsigned_body(s);
    if body.len() == 0 || !(forall|i: int| 0 <= i < body.len() ==> is_digit(#[trigger] body[i])) {
        None
    } else if digits_value(body) > u32::MAX {
        None
    } else {
        Some(digits_value(body))
    }
}

/// The sequence number that an entry name contributes: its fourth
/// `_`-separated piece as a number, when it starts with `prefix`.
pub open spec fn seq_of_name(name: Seq<char>, prefix: Seq<char>) -> Option<nat> {
    if starts_with(name, prefix) && split_on(name, '_').len() >= 4 {
        parse_u32(split_on(name, '_')[3])
    } else {
        None
    }
}

/// The largest sequence number among the names.
pub open spec fn max_seq(names: Seq<Seq<char>>, prefix: Seq<char>) -> nat
    decreases names.len(),
{
    if names.len() == 0 {
        0
    } else {
        let m = max_seq(names.drop_last(), prefix);
        match seq_of_name(names.last(), prefix) {
            Some(v) => if v > m {
                v
            } else {
                m
            },
            None => m,
        }
    }
}

pub proof fn lemma_max_seq_bound(names: Seq<Seq<char>>, prefix: Seq<char>)
    ensures
        max_seq(names, prefix) <= u32::MAX,
    decreases names.len(),
{
    if names.len() > 0 {
        lemma_max_seq_bound(names.drop_last(), prefix);
    }
}

fn split_on_exec(s: &[char], c: char) -> (r: Vec<Vec<char>>)
    ensures
        crate::text::lviews(r@) == split_on(s@, c),
{
    let mut done: Vec<Vec<char>> = Vec::new();
    let mut cur: Vec<char> = Vec::new();
    let mut i: usize = 0;
    while i < s.len()
        invariant
            i <= s.len(),
            (crate::text::lviews(done@), cur@) == split_acc(s@.take(i as int), c),
        decreases s.len() - i,
    {
        proof {
            assert(s@.take(i + 1).drop_last() =~= s@.take(i as int));
        }
        if s[i] == c {
            let ghost before = done@;
            let piece = cur;
            cur = Vec::new();
            done.push(piece);
            assert(crate::text::lviews(done@) =~= crate::text::lviews(before).push(piece@));
        } else {
            cur.push(s[i]);
        }
        i += 1;
    }
    assert(s@.take(s.len() as int) =~= s@);
    let ghost before = done@;
    let ghost last = cur@;
    done.push(cur);
    assert(crate::text::lviews(done@) =~= crate::text::lviews(before).push(last));
    done
}

/// Parses a `u32` as `str::parse` does.
pub fn parse_u32_exec(s: &[char]) -> (r: Option<u32>)
    ensures
        r matches Some(v) ==> parse_u32(s@) == Some(v as nat),
        r is None ==> parse_u32(s@) is None,
{
    let start: usize = if s.len() > 0 && s[0] == '+' {
        1
    } else {
        0
    };
    let ghost body = unsigned_body(s@);
    assert(body =~= s@.skip(start as int));
    if start >= s.len() {
        return None;
    }
    let mut i = start;
    while i < s.len()
        invariant
            start <= i <= s.len(),
            body == s@.skip(start as int),
            body == unsigned_body(s@),
            body.len() == s.len() - start,
            forall|k: int| 0 <= k < i - start ==> is_digit(#[trigger] body[k]),
        decreases s.len() - i,
    {
        if !('0' <= s[i] && s[i] <= '9') {
            assert(!is_digit(body[i - start]));
            return None;
        }
        i += 1;
    }
    let mut acc: u64 = 0;
    i = start;
    assert(body.take(0) =~= Seq::<char>::empty());
    while i < s.len()
        invariant
            start <= i <= s.len(),
            body == s@.skip(start as int),
            body == unsigned_body(s@),
            body.len() == s.len() - start,
            forall|k: int| 0 <= k < body.len() ==> is_digit(#[trigger] body[k]),
            acc == digits_value(body.take(i - start)),
            acc <= u32::MAX,
        decreases s.len() - i,
    {
        let c = s[i];
        assert(is_digit(body[i - start]));
        let d = (c as u32 - '0' as u32) as u64;
        proof {
            assert(body.take(i + 1 - start).drop_last() =~= body.take(i - start));
            assert(body.take(i + 1 - start).last() == c);
        }
        let next = acc * 10 + d;
        assert(digits_value(body.take(i + 1 - start)) == next);
        if next > 0xFFFF_FFFF {
            proof {
                lemma_digits_value_prefix(body, (i + 1 - start) as int);
                assert(digits_value(body) > u32::MAX);
            }
            return None;
        }
        acc = next;
        i += 1;
    }
    assert(body.take(s.len() - start) =~= body);
    Some(acc as u32)
}

pub(crate) proof fn lemma_digits_value_prefix(s: Seq<char>, k: int)
    requires
        0 <= k <= s.len(),
        forall|i: int| 0 <= i < s.len() ==> is_digit(#[trigger] s[i]),
    ensures
        digits_value(s) >= digits_value(s.take(k)),
    decreases s.len() - k,
{
    if k < s.len() {
        lemma_digits_value_prefix(s, k + 1);
        assert(s.take(k + 1).drop_last() =~= s.take(k));
    } else {
        assert(s.take(k) =~= s);
    }
}

impl Task {
    /// The directory that holds the tasks.
    pub fn dir_base() -> (r: String)
        ensures
            r@ == ".impl"@,
    {
        owned(".impl")
    }

    /// The next sequence number for a task created at `ts` (`HHMMSS`),
    /// given the entry names already in the task directory: one more than
    /// the largest number that `seq_of_name` reads from them.
    pub fn next_seq(names: &Vec<String>, ts: &str) -> (r: u32)
        requires
            max_seq(crate::text::views(names@), "task_"@ + ts@) < u32::MAX,
        ensures
            r == max_seq(crate::text::views(names@), "task_"@ + ts@) + 1,
    {
        let mut prefix = chars_of("task_");
        let t = chars_of(ts);
        extend_from(&mut prefix, t.as_slice());
        let ghost nv = crate::text::views(names@);
        let mut m: u32 = 0;
        let mut i: usize = 0;
        while i < names.len()
            invariant
                i <= names.len(),
                nv == crate::text::views(names@),
                prefix@ == "task_"@ + ts@,
                m == max_seq(nv.take(i as int), prefix@),
            decreases names.len() - i,
        {
            let name = chars_of(names[i].as_str());
            proof {
                assert(nv.take(i + 1).drop_last() =~= nv.take(i as int));
                assert(nv.take(i + 1).last() == name@);
            }
            if starts_with_exec(name.as_slice(), prefix.as_slice()) {
                let parts = split_on_exec(name.as_slice(), '_');
                if parts.len() >= 4 {
                    match parse_u32_exec(parts[3].as_slice()) {
                        Some(v) => {
                            if v > m {
                                m = v;
                            }
                        },
                        None => {},
                    }
                }
            }
            i += 1;
        }
        assert(nv.take(names.len() as int) =~= nv);
        m + 1
    }

    /// A new active task created at UNIX time `secs` with sequence number
    /// `seq`.
    pub fn new_at(secs: u64, seq: u32, title: &str, description: &str, plan: &str) -> (r: Task)
        ensures
            r.id@ == task_id(secs as nat, seq as nat),
            r.title@ == title@,
            r.description@ == description@,
            r.plan@ == plan@,
            r.steps@.len() == 0,
            r.status@ == "active"@,
            r.created_at@ == hms_text(secs as nat),
    {
        let mut id = chars_of("task_");
        let ts = chars_of(format_hms_compact(secs).as_str());
        extend_from(&mut id, ts.as_slice());
        id.push('_');
        if seq < 10000 {
            let hi = (seq / 100) as u64;
            let lo = (seq % 100) as u64;
            let a = chars_of(format_two(hi).as_str());
            let b = chars_of(format_two(lo).as_str());
            extend_from(&mut id, a.as_slice());
            extend_from(&mut id, b.as_slice());
        } else {
            let d = decimal_chars(seq as u128);
            extend_from(&mut id, d.as_slice());
        }
        assert(id@ =~= task_id(secs as nat, seq as nat));
        Task {
            id: string_of(id.as_slice()),
            title: owned(title),
            description: owned(description),
            plan: owned(plan),
            steps: Vec::new(),
            status: owned("active"),
            created_at: format_hms(secs),
        }
    }

    /// Records a step, numbered after the existing ones and stamped with
    /// the time of day `HH:MM:SS` at UNIX time `secs`.
    pub fn add_step_at(
        &mut self,
        secs: u64,
        action: &str,
        target: &str,
        description: &str,
        success: bool,
    )
        requires
            old(self).steps@.len() < u32::MAX,
        ensures
            final(self).steps@.len() == old(self).steps@.len() + 1,
            final(self).steps@.take(old(self).steps@.len() as int) == old(self).steps@,
            ({
                let s = final(self).steps@.last();
                &&& s.step == old(self).steps@.len() + 1
                &&& s.action@ == action@
                &&& s.target@ == target@
                &&& s.description@ == description@
                &&& s.success == success
                &&& s.timestamp@ == hms_text(secs as nat)
            }),
            final(self).id == old(self).id,
            final(self).title == old(self).title,
            final(self).description == old(self).description,
            final(self).plan == old(self).plan,
            final(self).status == old(self).status,
            final(self).created_at == old(self).created_at,
    {
        let step = TaskStep {
            step: self.steps.len() as u32 + 1,
            action: owned(action),
            target: owned(target),
            description: owned(description),
            success,
            timestamp: format_hms(secs),
        };
        self.steps.push(step);
        assert(self.steps@.take(old(self).steps@.len() as int) =~= old(self).steps@);
    }

    /// Records a step stamped with the current time of day.
    pub fn add_step(&mut self, action: &str, target: &str, description: &str, success: bool)
        requires
            old(self).steps@.len() < u32::MAX,
        ensures
            final(self).steps@.len() == old(self).steps@.len() + 1,
            final(self).steps@.take(old(self).steps@.len() as int) == old(self).steps@,
            ({
                let s = final(self).steps@.last();
                &&& s.step == old(self).steps@.len() + 1
                &&& s.action@ == action@
                &&& s.target@ == target@
                &&& s.description@ == description@
                &&& s.success == success
                &&& exists|t: nat| s.timestamp@ == hms_text(t)
            }),
            final(self).id == old(self).id,
            final(self).status == old(self).status,
    {
        let secs = now_unix_secs();
        self.add_step_at(secs, action, target, description, success);
    }

    /// Marks the task done.
    pub fn complete(&mut self)
        ensures
            final(self).status@ == "done"@,
            final(self).id == old(self).id,
            final(self).steps == old(self).steps,
    {
        self.status = owned("done");
    }

    /// Marks the task aborted.
    pub fn abort(&mut self)
        ensures
            final(self).status@ == "aborted"@,
            final(self).id == old(self).id,
            final(self).steps == old(self).steps,
    {
        self.status = owned("aborted");
    }

    /// The change log written beside the task: one line per step, or
    /// nothing when there are no steps.
    pub fn changes_log(&self) -> (r: Option<String>)
        ensures
            self.steps@.len() == 0 <==> r is None,
            r matches Some(log) ==> log@ == join_lines(
                Seq::new(self.steps@.len(), |i: int| step_line(self.steps@[i])),
            ),
    {
        if self.steps.len() == 0 {
            return None;
        }
        let ghost ls = Seq::new(self.steps@.len(), |i: int| step_line(self.steps@[i]));
        let mut v: Vec<char> = Vec::new();
        let mut i: usize = 0;
        while i < self.steps.len()
            invariant
                i <= self.steps.len(),
                ls == Seq::new(self.steps@.len(), |i: int| step_line(self.steps@[i])),
                v@ == join_lines(ls.take(i as int)),
            decreases self.steps.len() - i,
        {
            proof {
                assert(ls.take(i + 1).drop_last() =~= ls.take(i as int));
            }
            if i > 0 {
                v.push('\n');
            } else {
                assert(join_lines(ls.take(0)) =~= Seq::<char>::empty());
            }
            let l = step_line_exec(&self.steps[i]);
            extend_from(&mut v, l.as_slice());
            proof {
                if i == 0 {
                    assert(v@ =~= ls.take(1)[0]);
                }
            }
            i += 1;
        }
        assert(ls.take(self.steps.len() as int) =~= ls);
        Some(string_of(v.as_slice()))
    }
}

fn format_two(n: u64) -> (r: String)
    requires
        n < 100,
    ensures
        r@ == two_digits(n as nat),
{
    let mut v: Vec<char> = Vec::new();
    v.push(crate::fmt::digit_char_exec((n / 10) as u8));
    v.push(crate::fmt::digit_char_exec((n % 10) as u8));
    assert(v@ =~= two_digits(n as nat));
    string_of(v.as_slice())
}

/// `[time] Step n: action → target | description | ✅` (❌ for a failed
/// step).
pub open spec fn step_line(s: TaskStep) -> Seq<char> {
    seq!['['] + s.timestamp@ + "] Step "@ + decimal(s.step as nat) + ": "@ + s.action@ + " → "@
        + s.target@ + " | "@ + s.description@ + " | "@ + if s.success {
        "✅"@
    } else {
        "❌"@
    }
}

fn push_str(v: &mut Vec<char>, s: &str)
    ensures
        final(v)@ == old(v)@ + s@,
{
    let c = chars_of(s);
    extend_from(v, c.as_slice());
}

fn step_line_exec(s: &TaskStep) -> (r: Vec<char>)
    ensures
        r@ == step_line(*s),
{
    let mut v: Vec<char> = Vec::new();
    v.push('[');
    push_str(&mut v, s.timestamp.as_str());
    push_str(&mut v, "] Step ");
    let d = decimal_chars(s.step as u128);
    extend_from(&mut v, d.as_slice());
    push_str(&mut v, ": ");
    push_str(&mut v, s.action.as_str());
    push_str(&mut v, " → ");
    push_str(&mut v, s.target.as_str());
    push_str(&mut v, " | ");
    push_str(&mut v, s.description.as_str());
    push_str(&mut v, " | ");
    if s.success {
        push_str(&mut v, "✅");
    } else {
        push_str(&mut v, "❌");
    }
    assert(v@ =~= step_line(*s));
    v
}

/// The note on the active task added to each tool result given to the
/// model.
pub open spec fn context_note_text(t: Task) -> Seq<char> {
    "\n\n<active_task>\nID: "@ + t.id@ + "\nTitle: "@ + t.title@ + "\nStatus: "@ + t.status@ + "\nSteps: "@
        + decimal(t.steps@.len()) + "\nPlan:\n"@ + t.plan@ + "\n</active_task>"@
}

impl Task {
    /// The active-task note appended to what a tool returns.
    pub fn context_note(&self) -> (r: String)
        ensures
            r@ == context_note_text(*self),
    {
        let mut v: Vec<char> = Vec::new();
        push_str(&mut v, "\n\n<active_task>\nID: ");
        push_str(&mut v, self.id.as_str());
        push_str(&mut v, "\nTitle: ");
        push_str(&mut v, self.title.as_str());
        push_str(&mut v, "\nStatus: ");
        push_str(&mut v, self.status.as_str());
        push_str(&mut v, "\nSteps: ");
        let d = decimal_chars(self.steps.len() as u128);
        extend_from(&mut v, d.as_slice());
        push_str(&mut v, "\nPlan:\n");
        push_str(&mut v, self.plan.as_str());
        push_str(&mut v, "\n</active_task>");
        string_of(v.as_slice())
    }
}

} // verus!
