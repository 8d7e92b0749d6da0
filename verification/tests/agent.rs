use pcode::agent::{
    apply_prompt_change, call_summary, default_skill_groups, diff_events, reasoning_event, short_tool_name, tool_result_events, AgentEvent,
    PromptChange, SkillSelection, AST_SYSTEM_PROMPT, CHAT_PROMPT, SYSTEM_PROMPT,
};
use pcode::json::JsonValue;

fn obj(fields: Vec<(&str, JsonValue)>) -> JsonValue {
    JsonValue::Object(fields.into_iter().map(|(k, v)| (k.to_string(), v)).collect())
}

fn st(s: &str) -> JsonValue {
    JsonValue::Str(s.to_string())
}

fn lines_of(ev: &[AgentEvent]) -> Vec<String> {
    ev.iter()
        .filter_map(|e| match e {
            AgentEvent::DiffLine { line } => Some(line.clone()),
            _ => None,
        })
        .collect()
}

fn result_of(ev: &[AgentEvent]) -> (String, bool, String) {
    match ev.last().unwrap() {
        AgentEvent::ToolResult { name, success, summary } => (name.clone(), *success, summary.clone()),
        other => panic!("unexpected {:?}", other),
    }
}

#[test]
fn default_groups_are_the_eight_builtin_ones() {
    let g = default_skill_groups();
    let names: Vec<&str> = g.iter().map(|x| x.name.as_str()).collect();
    assert_eq!(names, vec!["Chat", "Daemon", "Discover", "AST", "Edit", "Verify", "Code", "Full"]);
    assert!(g[0].tools.is_empty());
    assert_eq!(g[0].prompt, CHAT_PROMPT);
    assert_eq!(g[3].prompt, AST_SYSTEM_PROMPT);
    assert_eq!(g[7].prompt, SYSTEM_PROMPT);
    assert_eq!(g[7].tools.len(), 24);
    assert_eq!(g[1].aliases, vec!["net".to_string()]);
    assert_eq!(g[2].emoji, "🔍");
}

#[test]
fn selecting_a_group_clamps_and_changes_prompt() {
    let mut s = SkillSelection::new(default_skill_groups());
    let (i, c) = s.set_skill_group(99);
    assert_eq!(i, 7);
    assert_eq!(s.active_skill_group, 7);
    let c = c.unwrap();
    assert_eq!(c.prompt, SYSTEM_PROMPT);
    assert!(!c.clear_history);
    let (i0, c0) = s.set_skill_group(0);
    assert_eq!(i0, 0);
    assert!(c0.unwrap().clear_history);
}

#[test]
fn no_groups_means_no_change() {
    let mut s = SkillSelection::new(vec![]);
    let (i, c) = s.set_skill_group(3);
    assert_eq!(i, 0);
    assert!(c.is_none());
    assert_eq!(s.cycle_skill_group().0, 0);
    assert!(!s.toggle_skills().0);
}

#[test]
fn groups_are_found_by_name_or_alias_in_any_case() {
    let mut s = SkillSelection::new(default_skill_groups());
    assert_eq!(s.set_skill_group_by_name("VERIFY").map(|x| x.0), Some(5));
    assert_eq!(s.set_skill_group_by_name("eyes").map(|x| x.0), Some(2));
    assert_eq!(s.set_skill_group_by_name("ALL").map(|x| x.0), Some(7));
    assert!(s.set_skill_group_by_name("nope").is_none());
    assert_eq!(s.active_skill_group, 7);
}

#[test]
fn cycling_visits_every_group_and_returns() {
    let mut s = SkillSelection::new(default_skill_groups());
    s.set_skill_group(5);
    let mut seen = vec![];
    for _ in 0..8 {
        seen.push(s.cycle_skill_group().0);
    }
    assert_eq!(seen, vec![6, 7, 0, 1, 2, 3, 4, 5]);
    assert_eq!(s.active_skill_group, 5);
}

#[test]
fn toggle_goes_between_chat_and_last_group() {
    let mut s = SkillSelection::new(default_skill_groups());
    assert!(s.toggle_skills().0);
    assert_eq!(s.active_skill_group, 7);
    assert!(!s.toggle_skills().0);
    assert_eq!(s.active_skill_group, 0);
    s.set_skill_group(3);
    assert!(!s.toggle_skills().0);
    assert_eq!(s.active_skill_group, 0);
}

#[test]
fn offered_tools_follow_the_group() {
    let mut s = SkillSelection::new(default_skill_groups());
    let names: Vec<String> = vec!["codex_eyes_sed".into(), "daemon_skeleton".into(), "my_custom".into()];
    assert_eq!(s.offered_tools(&names), vec![false, false, false]);
    s.set_skill_group(4);
    assert_eq!(s.offered_tools(&names), vec![true, false, true]);
}

#[test]
fn short_names() {
    assert_eq!(short_tool_name("codex_eyes_find_fuzzy"), "find~");
    assert_eq!(short_tool_name("task_complete"), "task✓");
    assert_eq!(short_tool_name("something_else"), "tool");
}

#[test]
fn call_summaries() {
    assert_eq!(
        call_summary("ast_grep_search", &obj(vec![("pattern", st("foo($A)"))])),
        "🌲 ast-search [rust]: foo($A)"
    );
    assert_eq!(
        call_summary("ast_explain", &obj(vec![("path", st("a.rs")), ("line", JsonValue::UInt(12))])),
        "🔬 AST explain: a.rs @L12"
    );
    assert_eq!(
        call_summary("ast_explain", &obj(vec![("path", st("a.rs")), ("text", st("let x = 1;"))])),
        "🔬 AST explain: a.rs \"let x = 1;\""
    );
    assert_eq!(call_summary("ast_explain", &obj(vec![])), "🔬 AST explain: ?");
    assert_eq!(
        call_summary("apply_patch", &obj(vec![("path", st("b.rs")), ("patch", st("<<<<<<< SEARCH\nx"))])),
        "📝 Patch: b.rs <<<<<<< SEARCH"
    );
    assert_eq!(call_summary("apply_patch", &obj(vec![("patch", st(""))])), "📝 Patch: ? ?");
    assert_eq!(
        call_summary("task_create", &obj(vec![("title", st("T")), ("plan", st("p"))])),
        "📋 Create task: T\n📄 Plan:\np"
    );
    assert_eq!(call_summary("task_step", &obj(vec![("action", st("sed"))])), "📋 Step: sed — ");
    assert_eq!(call_summary("task_list", &obj(vec![])), "📋 List tasks");
    assert_eq!(
        call_summary("codex_eyes_sed", &obj(vec![("path", st("c.rs")), ("find", st("old"))])),
        "✏️  Sed: c.rs s/old/…/"
    );
    assert_eq!(call_summary("codex_eyes_ls", &obj(vec![])), "📂 Ls: .");
    assert_eq!(call_summary("codex_eyes_gitdiff", &obj(vec![])), "🔍 Diff: all");
    assert_eq!(call_summary("custom_thing", &obj(vec![])), "⚙️  custom_thing");
    let long: String = "x".repeat(60);
    assert_eq!(
        call_summary("ast_grep_search", &obj(vec![("pattern", st(&long)), ("lang", st("ts"))])),
        format!("🌲 ast-search [ts]: {}", "x".repeat(50))
    );
}

#[test]
fn result_summaries() {
    let r = tool_result_events("ast_grep_search", &obj(vec![("success", JsonValue::Bool(true)), ("matches", JsonValue::Array(vec![st("a"), st("b")]))]));
    assert_eq!(result_of(&r), ("ast_grep_search".to_string(), true, "2 matches".to_string()));
    let nodes = JsonValue::Array(vec![obj(vec![("suggested_pattern", st("p1"))]), obj(vec![]), obj(vec![("suggested_pattern", st("p2"))])]);
    let r = tool_result_events("ast_explain", &obj(vec![("nodes", nodes)]));
    assert_eq!(result_of(&r).2, "3 node(s), suggestions: p1 | p2");
    let r = tool_result_events("codex_eyes_sed", &obj(vec![("success", JsonValue::Bool(false)), ("error", st("bad"))]));
    assert_eq!(result_of(&r), ("codex_eyes_sed".to_string(), false, "bad".to_string()));
    let r = tool_result_events("codex_eyes_sed", &obj(vec![("success", JsonValue::Bool(true)), ("replacements", JsonValue::UInt(3))]));
    assert_eq!(result_of(&r).2, "3 replacement(s)");
    let r = tool_result_events("codex_eyes_cargo_check", &obj(vec![("exit_code", JsonValue::NegInt(-101))]));
    assert_eq!(result_of(&r).2, "exit -101");
    let r = tool_result_events("codex_eyes_cargo_check", &obj(vec![("exit_code", JsonValue::UInt(0))]));
    assert_eq!(result_of(&r).2, "passed ✅");
    let r = tool_result_events("codex_eyes_cargo_check", &obj(vec![]));
    assert_eq!(result_of(&r).2, "exit -1");
    let r = tool_result_events("task_create", &obj(vec![]));
    assert_eq!(result_of(&r).2, "created");
    let r = tool_result_events("whatever", &obj(vec![("success", JsonValue::Bool(true))]));
    assert_eq!(result_of(&r), ("whatever".to_string(), true, String::new()));
}

#[test]
fn diff_and_read_results_show_lines() {
    let diff: String = (1..=22).map(|i| format!("d{}\n", i)).collect();
    let r = tool_result_events("codex_eyes_gitdiff", &obj(vec![("has_changes", JsonValue::Bool(true)), ("output", st(&diff))]));
    let ls = lines_of(&r);
    assert_eq!(ls.len(), 21);
    assert_eq!(ls[0], "d1");
    assert_eq!(ls[19], "d20");
    assert_eq!(ls[20], "... (2 more)");
    assert_eq!(result_of(&r).2, "changes found");
    let r = tool_result_events("codex_eyes_gitdiff", &obj(vec![("has_changes", JsonValue::Bool(false))]));
    assert_eq!(r.len(), 1);
    assert_eq!(result_of(&r).2, "no changes");
    let r = tool_result_events("codex_eyes_read", &obj(vec![("output", st("a\nb"))]));
    assert_eq!(lines_of(&r), vec!["  a".to_string(), "  b".to_string()]);
    assert_eq!(result_of(&r).2, "");
}

#[test]
fn diff_events_limit() {
    assert_eq!(lines_of(&diff_events("a\nb\nc", 2)), vec!["a", "b", "... (1 more)"]);
    assert_eq!(lines_of(&diff_events("a\nb", 2)), vec!["a", "b"]);
}

#[test]
fn reasoning_preview() {
    assert!(reasoning_event("").is_none());
    match reasoning_event(&"r".repeat(250)) {
        Some(AgentEvent::Reasoning { preview }) => assert_eq!(preview, format!("💭 {}", "r".repeat(200))),
        other => panic!("unexpected {:?}", other),
    }
}

fn same(a: &JsonValue, b: &JsonValue) -> bool {
    match (a, b) {
        (JsonValue::Null, JsonValue::Null) | (JsonValue::OtherNumber, JsonValue::OtherNumber) => true,
        (JsonValue::Bool(x), JsonValue::Bool(y)) => x == y,
        (JsonValue::UInt(x), JsonValue::UInt(y)) => x == y,
        (JsonValue::NegInt(x), JsonValue::NegInt(y)) => x == y,
        (JsonValue::Str(x), JsonValue::Str(y)) => x == y,
        (JsonValue::Array(x), JsonValue::Array(y)) => all_same(x, y),
        (JsonValue::Object(x), JsonValue::Object(y)) => {
            x.len() == y.len() && x.iter().zip(y.iter()).all(|(p, q)| p.0 == q.0 && same(&p.1, &q.1))
        },
        _ => false,
    }
}

fn all_same(a: &[JsonValue], b: &[JsonValue]) -> bool {
    a.len() == b.len() && a.iter().zip(b.iter()).all(|(p, q)| same(p, q))
}

fn session() -> Vec<JsonValue> {
    vec![
        obj(vec![("role", st("system")), ("content", st("old"))]),
        obj(vec![("role", st("user")), ("content", st("hi"))]),
        obj(vec![("role", st("assistant")), ("content", st("hello"))]),
    ]
}

#[test]
fn choosing_a_group_sets_the_system_prompt_and_keeps_history() {
    let mut s = SkillSelection::new(default_skill_groups());
    let mut m = session();
    assert_eq!(s.set_skill_group_in(3, &mut m), 3);
    assert_eq!(m.len(), 3);
    assert!(same(&m[0], &obj(vec![("role", st("system")), ("content", st(AST_SYSTEM_PROMPT))])));
    assert!(same(&m[1], &session()[1]));
    assert!(same(&m[2], &session()[2]));
}

#[test]
fn choosing_chat_keeps_only_the_system_message() {
    let mut s = SkillSelection::new(default_skill_groups());
    s.set_skill_group(7);
    let mut m = session();
    assert!(!s.toggle_skills_in(&mut m));
    assert!(all_same(&m, &vec![obj(vec![("role", st("system")), ("content", st(CHAT_PROMPT))])]));
    assert!(s.toggle_skills_in(&mut m));
    assert!(all_same(&m, &vec![obj(vec![("role", st("system")), ("content", st(SYSTEM_PROMPT))])]));
}

#[test]
fn prompt_change_on_empty_or_null_first_message() {
    let mut empty: Vec<JsonValue> = vec![];
    apply_prompt_change(&mut empty, &PromptChange { prompt: "p".to_string(), clear_history: true });
    assert!(empty.is_empty());
    let mut m = vec![JsonValue::Null, st("x")];
    apply_prompt_change(&mut m, &PromptChange { prompt: "p".to_string(), clear_history: false });
    assert!(all_same(&m, &vec![obj(vec![("content", st("p"))]), st("x")]));
    let mut m2 = vec![obj(vec![("role", st("system"))])];
    apply_prompt_change(&mut m2, &PromptChange { prompt: "q".to_string(), clear_history: false });
    assert!(all_same(&m2, &vec![obj(vec![("role", st("system")), ("content", st("q"))])]));
}

#[test]
fn cycling_and_naming_carry_out_on_the_session() {
    let mut s = SkillSelection::new(default_skill_groups());
    let mut m = session();
    assert_eq!(s.cycle_skill_group_in(&mut m), 1);
    assert_eq!(m.len(), 3);
    assert_eq!(s.set_skill_group_by_name_in("nope", &mut m), None);
    assert_eq!(m.len(), 3);
    assert_eq!(s.set_skill_group_by_name_in("chat", &mut m), Some(0));
    assert!(all_same(&m, &vec![obj(vec![("role", st("system")), ("content", st(CHAT_PROMPT))])]));
}

#[test]
fn naming_a_group_on_any_session() {
    let mut s = SkillSelection::new(default_skill_groups());
    let mut bad = vec![st("not an object")];
    assert_eq!(s.try_set_skill_group_by_name_in("nope", &mut bad), Some(None));
    assert_eq!(s.try_set_skill_group_by_name_in("full", &mut bad), None);
    assert_eq!(s.active_skill_group, 0);
    assert_eq!(s.find_skill_group("AST"), Some(3));
    let mut m = session();
    assert_eq!(s.try_set_skill_group_by_name_in("ast", &mut m), Some(Some(3)));
    assert!(same(&m[0], &obj(vec![("role", st("system")), ("content", st(AST_SYSTEM_PROMPT))])));
}
