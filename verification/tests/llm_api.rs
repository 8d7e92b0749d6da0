use pcode::json::JsonValue;
use pcode::llm_api::{api_url_exec, chat_url, client_base_url, openai_reply, reply_parts, ReplyParts, ToolUse};

fn obj(fields: Vec<(&str, JsonValue)>) -> JsonValue {
    JsonValue::Object(fields.into_iter().map(|(k, v)| (k.to_string(), v)).collect())
}

fn s(t: &str) -> JsonValue {
    JsonValue::Str(t.to_string())
}

#[test]
fn llm_urls() {
    assert_eq!(client_base_url("http://h:1//"), "http://h:1");
    assert_eq!(chat_url("http://h:1", false), "http://h:1/v1/chat/completions");
    assert_eq!(chat_url("http://h:1/v1", false), "http://h:1/v1/chat/completions");
    assert_eq!(chat_url("http://h:1/v1/", true), "http://h:1/v1/messages");
    assert_eq!(chat_url("http://h:1/", true), "http://h:1/v1/messages");
    assert_eq!(api_url_exec("http://h:1/v1", "models"), "http://h:1/v1/models");
}

#[test]
fn llm_reply_parts() {
    let data = obj(vec![
        ("stop_reason", s("tool_use")),
        (
            "content",
            JsonValue::Array(vec![
                obj(vec![("type", s("text")), ("text", s("Let me look. "))]),
                obj(vec![("type", s("tool_use")), ("id", s("t1")), ("name", s("codex_eyes_read")), ("input", obj(vec![]))]),
                obj(vec![("type", s("text")), ("text", s("Done."))]),
            ]),
        ),
    ]);
    let r = reply_parts(&data);
    assert_eq!(r.text, "Let me look. Done.");
    assert!(r.stopped_for_tools);
    assert_eq!(r.tool_uses.len(), 1);
    assert_eq!(r.tool_uses[0].id, "t1");
    assert_eq!(r.tool_uses[0].name, "codex_eyes_read");
    assert_eq!(r.tool_uses[0].block, 1);
    let r = reply_parts(&obj(vec![("stop_reason", s("end_turn"))]));
    assert!(!r.stopped_for_tools);
    assert_eq!(r.text, "");
    assert!(r.tool_uses.is_empty());
}

fn field<'a>(v: &'a JsonValue, k: &str) -> &'a JsonValue {
    match v {
        JsonValue::Object(fs) => &fs.iter().find(|f| f.0 == k).unwrap().1,
        _ => panic!("not an object"),
    }
}

fn text(v: &JsonValue) -> &str {
    match v {
        JsonValue::Str(t) => t.as_str(),
        _ => panic!("not a string"),
    }
}

#[test]
fn openai_reply_from_parts() {
    let parts = ReplyParts {
        text: String::new(),
        tool_uses: vec![ToolUse { id: "t1".to_string(), name: "codex_eyes_read".to_string(), block: 0 }],
        stopped_for_tools: true,
    };
    let r = openai_reply(&parts, &vec!["{\"path\":\"a\"}".to_string()], Some((JsonValue::UInt(10), JsonValue::UInt(3))));
    let choice = match field(&r, "choices") {
        JsonValue::Array(a) => &a[0],
        _ => panic!("no choices"),
    };
    assert_eq!(text(field(choice, "finish_reason")), "tool_calls");
    let msg = field(choice, "message");
    assert_eq!(text(field(msg, "role")), "assistant");
    assert!(matches!(field(msg, "content"), JsonValue::Null));
    let call = match field(msg, "tool_calls") {
        JsonValue::Array(a) => &a[0],
        _ => panic!("no calls"),
    };
    assert_eq!(text(field(call, "id")), "t1");
    assert_eq!(text(field(field(call, "function"), "arguments")), "{\"path\":\"a\"}");
    assert!(matches!(field(field(&r, "usage"), "prompt_tokens"), JsonValue::UInt(10)));

    let plain = ReplyParts { text: "hi".to_string(), tool_uses: vec![], stopped_for_tools: false };
    let r = openai_reply(&plain, &vec![], None);
    match &r {
        JsonValue::Object(fs) => assert_eq!(fs.len(), 1),
        _ => panic!(),
    }
    let choice = match field(&r, "choices") {
        JsonValue::Array(a) => &a[0],
        _ => panic!("no choices"),
    };
    assert_eq!(text(field(choice, "finish_reason")), "stop");
    let msg = field(choice, "message");
    assert_eq!(text(field(msg, "content")), "hi");
    match msg {
        JsonValue::Object(fs) => assert_eq!(fs.len(), 2),
        _ => panic!(),
    }
}
