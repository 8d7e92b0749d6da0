use pcode::agent_cycle::{classify_reply, task_context_text, Cycle, CycleAction, CycleEvent, ReplyKind};
use pcode::json::JsonValue;

fn obj(fields: Vec<(&str, JsonValue)>) -> JsonValue {
    JsonValue::Object(fields.into_iter().map(|(k, v)| (k.to_string(), v)).collect())
}

fn finish_text(a: &CycleAction) -> Option<&str> {
    match a {
        CycleAction::Finish { text, .. } => Some(text.as_str()),
        _ => None,
    }
}

#[test]
fn cycle_answer_in_first_round() {
    let (mut c, a) = Cycle::start(3);
    assert_eq!(a, CycleAction::AskModel { round: 1, max_rounds: 3 });
    let a = c.step(CycleEvent::Reply(ReplyKind::Text("hi".to_string())));
    assert_eq!(a, CycleAction::Finish { text: "hi".to_string(), note_cancel: false, send_done: true });
    assert!(c.is_finished());
}

#[test]
fn cycle_runs_tools_then_asks_again() {
    let (mut c, _) = Cycle::start(3);
    assert_eq!(c.step(CycleEvent::Reply(ReplyKind::ToolCalls(2))), CycleAction::RunTool(0));
    assert_eq!(c.step(CycleEvent::ToolDone), CycleAction::RunTool(1));
    assert_eq!(c.step(CycleEvent::ToolDone), CycleAction::AskModel { round: 2, max_rounds: 3 });
    assert_eq!(c.step(CycleEvent::Reply(ReplyKind::ToolCalls(0))), CycleAction::AskModel { round: 3, max_rounds: 3 });
    let a = c.step(CycleEvent::Reply(ReplyKind::ToolCalls(1)));
    assert_eq!(a, CycleAction::RunTool(0));
    let a = c.step(CycleEvent::ToolDone);
    assert_eq!(finish_text(&a), Some("⚠️  Max tool-calling rounds reached."));
}

#[test]
fn cycle_no_rounds_allowed() {
    let (c, a) = Cycle::start(0);
    assert!(c.is_finished());
    assert_eq!(finish_text(&a), Some("⚠️  Max tool-calling rounds reached."));
}

#[test]
fn cycle_cancel_and_failure() {
    let (mut c, _) = Cycle::start(2);
    c.step(CycleEvent::Reply(ReplyKind::ToolCalls(1)));
    let a = c.step(CycleEvent::Cancelled);
    assert_eq!(a, CycleAction::Finish { text: "⛔ Task cancelled by user.".to_string(), note_cancel: true, send_done: true });
    let (mut c, _) = Cycle::start(2);
    let a = c.step(CycleEvent::Failed("timeout".to_string()));
    assert_eq!(a, CycleAction::Finish { text: "❌ LLM Error: timeout".to_string(), note_cancel: false, send_done: false });
    let (mut c, _) = Cycle::start(2);
    let a = c.step(CycleEvent::Reply(ReplyKind::Empty));
    assert_eq!(finish_text(&a), Some("⚠️  LLM returned empty response."));
}

#[test]
fn cycle_classify_reply() {
    let m = obj(vec![("content", JsonValue::Str("x".into())), ("tool_calls", JsonValue::Array(vec![JsonValue::Null]))]);
    assert_eq!(classify_reply(&m), ReplyKind::ToolCalls(1));
    let m = obj(vec![("content", JsonValue::Str("answer".into()))]);
    assert_eq!(classify_reply(&m), ReplyKind::Text("answer".to_string()));
    let m = obj(vec![("content", JsonValue::Null)]);
    assert_eq!(classify_reply(&m), ReplyKind::Empty);
}

#[test]
fn cycle_task_context() {
    assert_eq!(
        task_context_text("t1", "Fix", "active", 2, "do it"),
        "\n\n<active_task>\nID: t1\nTitle: Fix\nStatus: active\nSteps: 2\nPlan:\ndo it\n</active_task>"
    );
}
