//! One cycle of the agent: ask the model, run the tools it calls, and ask
//! again, round by round, until it answers, the user cancels, or the rounds
//! run out. The decisions are a state machine; the program performs each
//! action (a model request, a tool run) and hands back what came of it.

use vstd::prelude::*;
use crate::fmt::{decimal, decimal_chars};
use crate::json::{as_array, as_str, get, get_array, get_str, JsonValue};
use crate::text::{chars_of, extend_from, push_str_chars, string_of};

verus! {

broadcast use vstd::string::group_string_axioms;

/// What the model's reply asks for.
#[derive(Debug, Clone, PartialEq, Eq)]
pub enum ReplyKind {
    /// Run these many tool calls, then ask again.
    ToolCalls(usize),
    /// The answer.
    Text(String),
    /// Neither tool calls nor text.
    Empty,
}

/// Reads the model's reply message.
pub fn classify_reply(message: &JsonValue) -> (r: ReplyKind)
    ensures
        match r {
            ReplyKind::ToolCalls(n) => as_array(get(*message, "tool_calls"@)) matches Some(a) && a.len() == n,
            ReplyKind::Text(t) => as_array(get(*message, "tool_calls"@)) is None && as_str(get(*message, "content"@))
                == Some(t@),
            ReplyKind::Empty => as_array(get(*message, "tool_calls"@)) is None && as_str(get(*message, "content"@))
                is None,
        },
{
    match get_array(message, "tool_calls") {
        Some(a) => ReplyKind::ToolCalls(a.len()),
        None => match get_str(message, "content") {
            Some(t) => ReplyKind::Text(string_of(chars_of(t.as_str()).as_slice())),
            None => ReplyKind::Empty,
        },
    }
}

/// What came of the last action.
#[derive(Debug, Clone, PartialEq, Eq)]
pub enum CycleEvent {
    /// The model replied.
    Reply(ReplyKind),
    /// The current tool call finished.
    ToolDone,
    /// The user cancelled while the model or a tool was working.
    Cancelled,
    /// The model request failed with this error.
    Failed(String),
}

/// What the program does next.
#[derive(Debug, Clone, PartialEq, Eq)]
pub enum CycleAction {
    /// Announce round `round` of `max_rounds` and ask the model.
    AskModel { round: u32, max_rounds: u32 },
    /// Run the tool call at this index of the reply.
    RunTool(usize),
    /// The cycle ends with this text. `note_cancel`: record in the session
    /// that the user cancelled; `send_done`: tell the screen the agent is
    /// done.
    Finish { text: String, note_cancel: bool, send_done: bool },
}

/// The model of a cycle.
pub struct CycleView {
    pub max_rounds: nat,
    /// The rounds begun so far (model requests made).
    pub round: nat,
    /// The tool calls of the current reply, and how many have finished.
    pub tools: nat,
    pub tools_done: nat,
    /// Waiting for the model (not for a tool).
    pub asking: bool,
    pub finished: bool,
}

/// Where a cycle stands.
pub struct Cycle {
    max_rounds: u32,
    round: u32,
    tools: usize,
    tools_done: usize,
    asking: bool,
    finished: bool,
}

impl View for Cycle {
    type V = CycleView;

    closed spec fn view(&self) -> CycleView {
        CycleView {
            max_rounds: self.max_rounds as nat,
            round: self.round as nat,
            tools: self.tools as nat,
            tools_done: self.tools_done as nat,
            asking: self.asking,
            finished: self.finished,
        }
    }
}

/// A running cycle has begun a round within the limit; while tools run,
/// one of them is current.
pub open spec fn cycle_wf(c: CycleView) -> bool {
    &&& c.max_rounds <= u32::MAX
    &&& c.round <= c.max_rounds
    &&& !c.finished ==> 1 <= c.round
    &&& (!c.finished && !c.asking) ==> c.tools_done < c.tools
    &&& c.tools <= usize::MAX
}

pub open spec fn max_rounds_text() -> Seq<char> {
    "⚠️  Max tool-calling rounds reached."@
}

pub open spec fn empty_text() -> Seq<char> {
    "⚠️  LLM returned empty response."@
}

pub open spec fn cancel_text() -> Seq<char> {
    "⛔ Task cancelled by user."@
}

pub open spec fn error_text(e: Seq<char>) -> Seq<char> {
    "❌ LLM Error: "@ + e
}

/// The model of an action: its kind and its numbers or text.
pub enum ActionView {
    AskModel(nat, nat),
    RunTool(nat),
    Finish(Seq<char>, bool, bool),
}

pub open spec fn action_view(a: CycleAction) -> ActionView {
    match a {
        CycleAction::AskModel { round, max_rounds } => ActionView::AskModel(round as nat, max_rounds as nat),
        CycleAction::RunTool(i) => ActionView::RunTool(i as nat),
        CycleAction::Finish { text, note_cancel, send_done } => ActionView::Finish(text@, note_cancel, send_done),
    }
}

/// The next round, or the end when the rounds ran out.
pub open spec fn next_round(c: CycleView) -> (CycleView, ActionView) {
    if c.round < c.max_rounds {
        (
            CycleView { round: c.round + 1, tools: 0, tools_done: 0, asking: true, ..c },
            ActionView::AskModel(c.round + 1, c.max_rounds),
        )
    } else {
        (CycleView { finished: true, ..c }, ActionView::Finish(max_rounds_text(), false, true))
    }
}

pub open spec fn finish(c: CycleView, text: Seq<char>, note_cancel: bool, send_done: bool) -> (CycleView, ActionView) {
    (CycleView { finished: true, ..c }, ActionView::Finish(text, note_cancel, send_done))
}

/// How a cycle starts: the first round, or at once the end when no round
/// is allowed.
pub open spec fn start_spec(max_rounds: nat) -> (CycleView, ActionView) {
    next_round(CycleView { max_rounds, round: 0, tools: 0, tools_done: 0, asking: true, finished: false })
}

/// The event fits the action that was asked for: a reply or a failure
/// while the model was asked, a finished tool while a tool ran; a
/// cancellation at any time.
pub open spec fn event_fits(c: CycleView, e: CycleEvent) -> bool {
    match e {
        CycleEvent::Reply(_) | CycleEvent::Failed(_) => c.asking,
        CycleEvent::ToolDone => !c.asking,
        CycleEvent::Cancelled => true,
    }
}

/// What an event does to a running cycle.
pub open spec fn step_spec(c: CycleView, e: CycleEvent) -> (CycleView, ActionView) {
    match e {
        CycleEvent::Cancelled => finish(c, cancel_text(), true, true),
        CycleEvent::Failed(msg) => finish(c, error_text(msg@), false, false),
        CycleEvent::Reply(kind) => match kind {
            ReplyKind::ToolCalls(n) => if n == 0 {
                next_round(c)
            } else {
                (CycleView { tools: n as nat, tools_done: 0, asking: false, ..c }, ActionView::RunTool(0))
            },
            ReplyKind::Text(t) => finish(c, t@, false, true),
            ReplyKind::Empty => finish(c, empty_text(), false, true),
        },
        CycleEvent::ToolDone => if c.tools_done + 1 < c.tools {
            (CycleView { tools_done: c.tools_done + 1, ..c }, ActionView::RunTool(c.tools_done + 1))
        } else {
            next_round(c)
        },
    }
}

fn text_of(s: &str) -> (r: String)
    ensures
        r@ == s@,
{
    string_of(chars_of(s).as_slice())
}

impl Cycle {
    fn next_round(&mut self) -> (a: CycleAction)
        requires
            old(self)@.round <= old(self)@.max_rounds,
            !old(self)@.finished,
        ensures
            cycle_wf(final(self)@),
            (final(self)@, action_view(a)) == next_round(old(self)@),
    {
        if self.round < self.max_rounds {
            self.round = self.round + 1;
            self.tools = 0;
            self.tools_done = 0;
            self.asking = true;
            CycleAction::AskModel { round: self.round, max_rounds: self.max_rounds }
        } else {
            self.finished = true;
            CycleAction::Finish { text: text_of("⚠️  Max tool-calling rounds reached."), note_cancel: false, send_done: true }
        }
    }

    /// Starts a cycle of at most `max_rounds` rounds.
    pub fn start(max_rounds: u32) -> (r: (Cycle, CycleAction))
        ensures
            cycle_wf(r.0@),
            (r.0@, action_view(r.1)) == start_spec(max_rounds as nat),
    {
        let mut c = Cycle { max_rounds, round: 0, tools: 0, tools_done: 0, asking: true, finished: false };
        let a = c.next_round();
        (c, a)
    }

    pub fn is_finished(&self) -> (b: bool)
        ensures
            b == self@.finished,
    {
        self.finished
    }

    /// Takes what came of the last action and says what to do next.
    pub fn step(&mut self, e: CycleEvent) -> (a: CycleAction)
        requires
            cycle_wf(old(self)@),
            !old(self)@.finished,
            event_fits(old(self)@, e),
        ensures
            cycle_wf(final(self)@),
            (final(self)@, action_view(a)) == step_spec(old(self)@, e),
    {
        match e {
            CycleEvent::Cancelled => {
                self.finished = true;
                CycleAction::Finish { text: text_of("⛔ Task cancelled by user."), note_cancel: true, send_done: true }
            },
            CycleEvent::Failed(msg) => {
                self.finished = true;
                let mut v: Vec<char> = Vec::new();
                push_str_chars(&mut v, "❌ LLM Error: ");
                push_str_chars(&mut v, msg.as_str());
                proof {
                    reveal_strlit("❌ LLM Error: ");
                    assert(v@ =~= error_text(msg@));
                }
                CycleAction::Finish { text: string_of(v.as_slice()), note_cancel: false, send_done: false }
            },
            CycleEvent::Reply(kind) => {
                match kind {
                    ReplyKind::ToolCalls(n) => {
                        if n == 0 {
                            self.next_round()
                        } else {
                            self.tools = n;
                            self.tools_done = 0;
                            self.asking = false;
                            CycleAction::RunTool(0)
                        }
                    },
                    ReplyKind::Text(t) => {
                        self.finished = true;
                        CycleAction::Finish { text: t, note_cancel: false, send_done: true }
                    },
                    ReplyKind::Empty => {
                        self.finished = true;
                        CycleAction::Finish {
                            text: text_of("⚠️  LLM returned empty response."),
                            note_cancel: false,
                            send_done: true,
                        }
                    },
                }
            },
            CycleEvent::ToolDone => {
                if self.tools_done + 1 < self.tools {
                    self.tools_done = self.tools_done + 1;
                    CycleAction::RunTool(self.tools_done)
                } else {
                    self.next_round()
                }
            },
        }
    }
}

/// No cycle asks the model for a round beyond its limit: every model
/// request a step makes is numbered within `1..=max_rounds`.
pub proof fn lemma_rounds_bounded(c: CycleView, e: CycleEvent)
    requires
        cycle_wf(c),
        !c.finished,
        event_fits(c, e),
    ensures
        step_spec(c, e).1 matches ActionView::AskModel(r, m) ==> 1 <= r <= m && m == c.max_rounds,
        cycle_wf(step_spec(c, e).0),
        step_spec(c, e).0.round >= c.round,
{
}

/// Each round begun takes the cycle one round further, so a cycle asks the
/// model at most `max_rounds` times.
pub proof fn lemma_round_advances(c: CycleView, e: CycleEvent)
    requires
        cycle_wf(c),
        !c.finished,
        c.asking,
        e is Reply,
        event_fits(c, e),
    ensures
        step_spec(c, e).1 matches ActionView::AskModel(r, _) ==> r == c.round + 1 && step_spec(c, e).0.round == r,
{
}

/// A cancellation always ends the cycle, with the cancellation recorded.
pub proof fn lemma_cancel_finishes(c: CycleView)
    ensures
        step_spec(c, CycleEvent::Cancelled).0.finished,
        step_spec(c, CycleEvent::Cancelled).1 == ActionView::Finish(cancel_text(), true, true),
{
}

/// The text added to a tool's result while a task is active.
pub open spec fn task_context(id: Seq<char>, title: Seq<char>, status: Seq<char>, steps: nat, plan: Seq<char>) -> Seq<
    char,
> {
    "\n\n<active_task>\nID: "@ + id + "\nTitle: "@ + title + "\nStatus: "@ + status + "\nSteps: "@ + decimal(steps)
        + "\nPlan:\n"@ + plan + "\n</active_task>"@
}

pub fn task_context_text(id: &str, title: &str, status: &str, steps: usize, plan: &str) -> (r: String)
    ensures
        r@ == task_context(id@, title@, status@, steps as nat, plan@),
{
    let mut v: Vec<char> = Vec::new();
    push_str_chars(&mut v, "\n\n<active_task>\nID: ");
    push_str_chars(&mut v, id);
    push_str_chars(&mut v, "\nTitle: ");
    push_str_chars(&mut v, title);
    push_str_chars(&mut v, "\nStatus: ");
    push_str_chars(&mut v, status);
    push_str_chars(&mut v, "\nSteps: ");
    extend_from(&mut v, decimal_chars(steps as u128).as_slice());
    push_str_chars(&mut v, "\nPlan:\n");
    push_str_chars(&mut v, plan);
    push_str_chars(&mut v, "\n</active_task>");
    proof {
        reveal_strlit("\n\n<active_task>\nID: ");
        reveal_strlit("\nTitle: ");
        reveal_strlit("\nStatus: ");
        reveal_strlit("\nSteps: ");
        reveal_strlit("\nPlan:\n");
        reveal_strlit("\n</active_task>");
        assert(v@ =~= task_context(id@, title@, status@, steps as nat, plan@));
    }
    string_of(v.as_slice())
}

} // verus!
