use pcode::config::{AppConfig, CustomTool, ExecuteConfig, ParameterDef};
use pcode::json::JsonValue;
use pcode::tool_list::{build_tools, select_tools, ToolChoice, ToolWarning};

fn custom(name: &str, command: &str) -> CustomTool {
    CustomTool {
        name: name.to_string(),
        description: format!("{} tool", name),
        parameters: vec![(
            "file".to_string(),
            ParameterDef { param_type: "string".to_string(), description: "a file".to_string(), required: true },
        )],
        required: vec!["file".to_string()],
        execute: ExecuteConfig {
            exec_type: "shell".to_string(),
            command_template: command.to_string(),
            timeout_secs: 30,
        },
    }
}

fn get<'a>(v: &'a JsonValue, k: &str) -> &'a JsonValue {
    match v {
        JsonValue::Object(fs) => &fs.iter().find(|f| f.0 == k).unwrap().1,
        _ => panic!("not an object"),
    }
}

fn s(v: &JsonValue) -> &str {
    match v {
        JsonValue::Str(t) => t.as_str(),
        _ => panic!("not a string"),
    }
}

fn name_of(t: &JsonValue) -> String {
    s(get(get(t, "function"), "name")).to_string()
}

#[test]
fn all_builtin_tools_are_offered_by_default() {
    let c = AppConfig::default_in("/p");
    let (tools, warnings) = build_tools(&c);
    assert!(warnings.is_empty());
    let names: Vec<String> = tools.iter().map(name_of).collect();
    assert_eq!(names.len(), 24);
    assert_eq!(names[0], "daemon_skeleton");
    assert_eq!(names[5], "apply_patch");
    assert_eq!(names[23], "ast_explain");
    let patch = &tools[5];
    assert_eq!(s(get(patch, "type")), "function");
    assert!(s(get(get(patch, "function"), "description")).starts_with("Apply a SEARCH/REPLACE block to a file."));
    let params = get(get(patch, "function"), "parameters");
    assert_eq!(s(get(params, "type")), "object");
    assert!(matches!(get(params, "required"), JsonValue::Array(a) if a.len() == 2));
    let ast = &tools[17];
    let lang = get(get(get(get(ast, "function"), "parameters"), "properties"), "lang");
    assert_eq!(s(get(lang, "default")), "rust");
}

#[test]
fn switched_off_tools_and_custom_tools() {
    let mut c = AppConfig::default_in("/p");
    c.tools.disabled = vec![("apply_patch".to_string(), true), ("task_list".to_string(), true), ("mine".to_string(), false)];
    c.tools.custom = vec![
        custom("mine", "run {file}"),
        custom("codex_eyes_read", "cat {file}"),
        custom("empty", "   "),
        custom("off", "x"),
    ];
    c.tools.disabled.push(("off".to_string(), true));
    let (choices, warnings) = select_tools(&c);
    assert!(!choices.contains(&ToolChoice::Builtin(5)));
    assert!(choices.contains(&ToolChoice::Builtin(21)));
    assert_eq!(choices.len(), 24);
    assert_eq!(*choices.last().unwrap(), ToolChoice::Custom(0));
    assert_eq!(warnings, vec![ToolWarning::Shadows(1), ToolWarning::NoCommand(2)]);
    let (tools, _) = build_tools(&c);
    let last = tools.last().unwrap();
    assert_eq!(name_of(last), "mine");
    let params = get(get(last, "function"), "parameters");
    assert_eq!(s(get(get(get(params, "properties"), "file"), "type")), "string");
}
