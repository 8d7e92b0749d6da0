use pcode::json::{get_bool, get_i64, get_str, get_u64, JsonValue};
use pcode::tool_output::{
    binary_result, cargo_check_result, command_result, cooldown_wait, custom_command, disabled_result,
    find_report, fuzzy_pattern, ls_entry, ls_result, missing_arg_result, route_tool, search_report, sort_lex,
    undo_result, unknown_result, BuiltinTool, ToolRoute,
};
use pcode::tool_output::{patch_args, patch_file, patch_reply, sed_args, sed_file, sed_reply, PatchTarget};

fn keys(v: &JsonValue) -> Vec<String> {
    match v {
        JsonValue::Object(fs) => fs.iter().map(|(k, _)| k.clone()).collect(),
        _ => vec![],
    }
}

fn out(v: &JsonValue) -> String {
    get_str(v, "output").cloned().unwrap_or_default()
}

fn err(v: &JsonValue) -> String {
    get_str(v, "error").cloned().unwrap_or_default()
}

#[test]
fn tools_route_builtin_custom_unknown() {
    let custom = vec!["lint".to_string(), "codex_eyes_read".to_string(), "lint".to_string()];
    assert_eq!(route_tool("codex_eyes_read", false, &custom), ToolRoute::Builtin(BuiltinTool::Read));
    assert_eq!(route_tool("task_abort", false, &custom), ToolRoute::Builtin(BuiltinTool::TaskAbort));
    assert_eq!(route_tool("daemon_skeleton", false, &custom), ToolRoute::Builtin(BuiltinTool::DaemonSkeleton));
    assert_eq!(route_tool("lint", false, &custom), ToolRoute::Custom(0));
    assert_eq!(route_tool("nope", false, &custom), ToolRoute::Unknown);
    assert_eq!(route_tool("codex_eyes_read", true, &custom), ToolRoute::Disabled);
}

#[test]
fn tools_route_messages() {
    assert_eq!(err(&disabled_result("x")), "Tool 'x' is disabled in config");
    assert_eq!(err(&unknown_result("x")), "Unknown tool: x");
    assert_eq!(err(&missing_arg_result("path")), "Missing required argument: path");
}

#[test]
fn tools_search_report_numbers_lines() {
    let r = search_report("fn a()\nlet b\nfn c()\n", "fn", "src/x.rs");
    assert_eq!(out(&r), "Found 2 match(es) for 'fn' in src/x.rs:\n1: fn a()\n3: fn c()");
    let r = search_report("abc", "zz", "f");
    assert_eq!(out(&r), "No matches found for 'zz' in f");
}

#[test]
fn tools_find_report() {
    let r = find_report(true, "a.rs\nb/c.rs\n", "rs", ".", false);
    assert_eq!(out(&r), "Found 2 file(s) matching 'rs':\na.rs\nb/c.rs");
    let r = find_report(false, "", "q", "src", true);
    assert_eq!(out(&r), "No files fuzzy-matching 'q' found in src");
    let r = find_report(false, "x\n\ny\n", "p", ".", true);
    assert_eq!(out(&r), "Found 2 file(s) fuzzy-matching 'p':\nx\n\ny");
}

#[test]
fn tools_fuzzy_pattern_escapes() {
    assert_eq!(fuzzy_pattern("ab"), "a.*b.*");
    assert_eq!(fuzzy_pattern("a.b"), "a.*\\..*b.*");
    assert_eq!(fuzzy_pattern(""), "");
}

#[test]
fn tools_command_results() {
    let r = command_result(0, "ok", "");
    assert_eq!(keys(&r), vec!["success", "exit_code", "stdout", "stderr"]);
    assert_eq!(get_bool(&r, "success"), Some(true));
    assert_eq!(get_u64(&r, "exit_code"), Some(0));
    let r = command_result(-1, "", "killed");
    assert_eq!(get_bool(&r, "success"), Some(false));
    assert_eq!(get_i64(&r, "exit_code"), Some(-1));
    let r = cargo_check_result(0, "", "");
    assert_eq!(out(&r), "cargo check passed — no compilation errors");
    let r = cargo_check_result(101, "", "error[E0308]");
    assert_eq!(out(&r), "cargo check failed with exit code 101");
    assert_eq!(keys(&r), vec!["success", "exit_code", "stdout", "stderr", "output"]);
}

#[test]
fn tools_cooldown() {
    assert_eq!(cooldown_wait(100, 95, 10), 5);
    assert_eq!(cooldown_wait(100, 80, 10), 0);
    assert_eq!(cooldown_wait(100, 120, 10), 10);
    assert_eq!(cooldown_wait(100, 120, 0), 0);
}

#[test]
fn tools_undo_result() {
    let r = undo_result(true, "a.rs", "\n", "");
    assert_eq!(out(&r), "Reverted a.rs to git state. ");
    let r = undo_result(false, "a.rs", "", "error: pathspec\n");
    assert_eq!(err(&r), "git checkout failed: error: pathspec");
}

#[test]
fn tools_custom_command() {
    let args = vec![("file".to_string(), "a.rs".to_string()), ("n".to_string(), "3".to_string())];
    assert_eq!(custom_command("t", "shell", "wc -l {{file}} | head -{{n}}", &args).unwrap(), "wc -l a.rs | head -3");
    let e = custom_command("t", "shell", "  ", &args).unwrap_err();
    assert_eq!(err(&e), "Custom tool 't' has no command_template");
    let e = custom_command("t", "http", "x", &args).unwrap_err();
    assert_eq!(err(&e), "Unsupported exec_type 'http' for custom tool 't'");
}

#[test]
fn tools_binary_result() {
    let own = JsonValue::Object(vec![("success".to_string(), JsonValue::Bool(true))]);
    let r = binary_result(true, "{...}", "", Some(own));
    assert_eq!(keys(&r), vec!["success"]);
    let r = binary_result(true, "plain", "", None);
    assert_eq!(out(&r), "plain");
    let r = binary_result(false, "o", " bad \n", None);
    assert_eq!(keys(&r), vec!["success", "error", "output"]);
    assert_eq!(err(&r), "bad");
}

#[test]
fn tools_ls_listing_sorted() {
    assert_eq!(ls_entry("src", true, 4096), "src/\tdir\t4096B");
    assert_eq!(ls_entry("a.rs", false, 12), "a.rs/\tfile\t12B");
    let r = ls_result(&vec!["b/\tfile\t1B".to_string(), "a/\tdir\t0B".to_string()]);
    assert_eq!(out(&r), "a/\tdir\t0B\nb/\tfile\t1B");
    let r = ls_result(&vec![]);
    assert_eq!(out(&r), "(empty directory)");
}

#[test]
fn tools_sort_lex_orders() {
    let v: Vec<Vec<char>> = vec!["pear", "apple", "app", "Zoo"].into_iter().map(|s| s.chars().collect()).collect();
    let s: Vec<String> = sort_lex(&v).into_iter().map(|c| c.into_iter().collect()).collect();
    assert_eq!(s, vec!["Zoo", "app", "apple", "pear"]);
}

#[test]
fn tools_route_apply_patch() {
    assert_eq!(route_tool("apply_patch", false, &vec![]), ToolRoute::Builtin(BuiltinTool::ApplyPatch));
    assert_eq!(route_tool("apply_patch", true, &vec![]), ToolRoute::Disabled);
}

#[test]
fn tools_apply_patch_args() {
    let a = JsonValue::Object(vec![
        ("path".to_string(), JsonValue::Str("a.rs".to_string())),
        ("patch".to_string(), JsonValue::Str("x".to_string())),
    ]);
    assert_eq!(patch_args(&a).unwrap(), ("a.rs".to_string(), "x".to_string()));
    let a = JsonValue::Object(vec![("path".to_string(), JsonValue::Str("a.rs".to_string()))]);
    assert_eq!(err(&patch_args(&a).unwrap_err()), "Missing required argument: patch");
    let a = JsonValue::Object(vec![]);
    assert_eq!(err(&patch_args(&a).unwrap_err()), "Missing required argument: path");
    let a = JsonValue::Object(vec![
        ("path".to_string(), JsonValue::Str("a.rs".to_string())),
        ("patch".to_string(), JsonValue::Str("  \n".to_string())),
    ]);
    assert_eq!(err(&patch_args(&a).unwrap_err()), "Empty patch text");
}

#[test]
fn tools_apply_patch_file() {
    let patch = "<<<<<<< SEARCH\nlet x = 1;\n=======\nlet x = 2;\n>>>>>>> REPLACE";
    let (text, msg) = patch_file("a.rs", patch, PatchTarget::Text("fn f() {\nlet x = 1;\n}\n".to_string())).unwrap();
    assert_eq!(text, "fn f() {\nlet x = 2;\n}\n");
    assert_eq!(msg, "Patched a.rs (1 block(s) applied)");
    assert_eq!(patch_file("a.rs", patch, PatchTarget::Missing).unwrap_err(), "File does not exist: a.rs");
    assert_eq!(
        patch_file("d", patch, PatchTarget::Directory).unwrap_err(),
        "Path is a directory, not a file: d"
    );
    assert_eq!(
        patch_file("a.rs", patch, PatchTarget::Unreadable("denied".to_string())).unwrap_err(),
        "Failed to read a.rs: denied"
    );
    assert_eq!(patch_file("a.rs", patch, PatchTarget::Refused("no".to_string())).unwrap_err(), "no");
    assert_eq!(out(&patch_reply(Ok("done".to_string()))), "done");
    assert_eq!(err(&patch_reply(Err("bad".to_string()))), "bad");
}

fn sargs(fields: Vec<(&str, JsonValue)>) -> JsonValue {
    JsonValue::Object(fields.into_iter().map(|(k, v)| (k.to_string(), v)).collect())
}

fn js(s: &str) -> JsonValue {
    JsonValue::Str(s.to_string())
}

#[test]
fn tools_sed_args() {
    let a = sargs(vec![("path", js("a.rs")), ("find", js("x")), ("replace", js("y"))]);
    assert_eq!(sed_args(&a).unwrap(), ("a.rs".to_string(), "x".to_string(), "y".to_string(), true));
    let a = sargs(vec![("path", js("a.rs")), ("find", js("x")), ("replace", js("y")), ("replace_all", JsonValue::Bool(false))]);
    assert!(!sed_args(&a).unwrap().3);
    assert_eq!(err(&sed_args(&sargs(vec![("path", js("a.rs"))])).unwrap_err()), "Missing required argument: find");
    assert_eq!(err(&sed_args(&sargs(vec![])).unwrap_err()), "Missing required argument: path");
    assert_eq!(err(&sed_args(&sargs(vec![("path", js("a")), ("find", js("x"))])).unwrap_err()), "Missing required argument: replace");
    let a = sargs(vec![("path", js("a.rs")), ("find", js("")), ("replace", js("y"))]);
    assert_eq!(err(&sed_args(&a).unwrap_err()), "Find pattern cannot be empty");
}

#[test]
fn tools_sed_file_and_reply() {
    let r = sed_file("a.rs", "ab", "X", true, PatchTarget::Text("ab ab c".to_string())).unwrap();
    assert_eq!(r, ("X X c".to_string(), 2, "Replaced 2 occurrence(s) of 'ab' in a.rs".to_string()));
    let r = sed_file("a.rs", "ab", "X", false, PatchTarget::Text("ab ab c".to_string())).unwrap();
    assert_eq!(r.0, "X ab c");
    assert_eq!(sed_file("a.rs", "q", "X", true, PatchTarget::Text("ab".to_string())).unwrap_err(), "Find pattern 'q' not found in a.rs");
    assert_eq!(sed_file("a.rs", "q", "X", true, PatchTarget::Missing).unwrap_err(), "File does not exist: a.rs");
    assert_eq!(sed_file("d", "q", "X", true, PatchTarget::Directory).unwrap_err(), "Path is a directory, not a file: d");
    assert_eq!(sed_file("a.rs", "q", "X", true, PatchTarget::Unreadable("bad".to_string())).unwrap_err(), "Failed to read file: bad");
    let ok = sed_reply(Ok((2, "done".to_string())));
    assert_eq!(keys(&ok), vec!["success", "output", "replacements"]);
    assert_eq!(get_u64(&ok, "replacements"), Some(2));
    assert_eq!(out(&ok), "done");
    assert_eq!(err(&sed_reply(Err("no".to_string()))), "no");
}
