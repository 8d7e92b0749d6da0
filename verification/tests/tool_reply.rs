use pcode::json::{get_bool, get_str, get_u64, JsonValue};
use pcode::tool_reply::{
    applied_result, ast_replace_result, ast_search_result, err_result, explain_snippet, match_preview, ok_result,
    replace_failed_result, sg_json_result, with_field, zero_matches_result,
};

fn keys(v: &JsonValue) -> Vec<String> {
    match v {
        JsonValue::Object(fs) => fs.iter().map(|(k, _)| k.clone()).collect(),
        _ => vec![],
    }
}

fn obj(fields: Vec<(&str, JsonValue)>) -> JsonValue {
    JsonValue::Object(fields.into_iter().map(|(k, v)| (k.to_string(), v)).collect())
}

fn s(t: &str) -> JsonValue {
    JsonValue::Str(t.to_string())
}

fn array_len(v: &JsonValue, key: &str) -> Option<usize> {
    match v {
        JsonValue::Object(fs) => fs.iter().find(|(k, _)| k == key).and_then(|(_, x)| match x {
            JsonValue::Array(a) => Some(a.len()),
            _ => None,
        }),
        _ => None,
    }
}

#[test]
fn reply_ok_and_err() {
    let r = ok_result("done");
    assert_eq!(keys(&r), vec!["success", "output"]);
    assert_eq!(get_bool(&r, "success"), Some(true));
    assert_eq!(get_str(&r, "output").map(|x| x.as_str()), Some("done"));
    let r = err_result("bad");
    assert_eq!(keys(&r), vec!["success", "error"]);
    assert_eq!(get_bool(&r, "success"), Some(false));
    assert_eq!(get_str(&r, "error").map(|x| x.as_str()), Some("bad"));
}

#[test]
fn reply_with_field_replaces_or_adds() {
    let r = with_field(ok_result("a"), "count", JsonValue::UInt(3));
    assert_eq!(keys(&r), vec!["success", "output", "count"]);
    let r = with_field(r, "output", s("b"));
    assert_eq!(keys(&r), vec!["success", "output", "count"]);
    assert_eq!(get_str(&r, "output").map(|x| x.as_str()), Some("b"));
    assert_eq!(get_u64(&r, "count"), Some(3));
}

#[test]
fn reply_sg_json_empty_output() {
    let r = sg_json_result("  \n", "", "search complete", None, vec![]);
    assert_eq!(keys(&r), vec!["success", "output", "matches", "count"]);
    assert_eq!(get_str(&r, "output").map(|x| x.as_str()), Some("no matches"));
    assert_eq!(array_len(&r, "matches"), Some(0));
    assert_eq!(get_u64(&r, "count"), Some(0));
}

#[test]
fn reply_sg_json_parsed_array() {
    let parsed = JsonValue::Array(vec![obj(vec![("text", s("a"))]), obj(vec![("text", s("b"))])]);
    let r = sg_json_result("[{..},{..}]", " warn \n", "search complete", Some(parsed), vec![None]);
    assert_eq!(keys(&r), vec!["success", "output", "matches", "count", "warnings"]);
    assert_eq!(get_u64(&r, "count"), Some(2));
    assert_eq!(get_str(&r, "warnings").map(|x| x.as_str()), Some("warn"));
    let r = sg_json_result("{}", "", "search complete", Some(obj(vec![])), vec![None]);
    assert_eq!(get_u64(&r, "count"), Some(1));
}

#[test]
fn reply_sg_json_lines_and_raw() {
    let r = sg_json_result(
        "{\"a\":1}\n\nnot json\n{\"b\":2}",
        "",
        "done",
        None,
        vec![Some(obj(vec![("a", JsonValue::UInt(1))])), None, None, Some(obj(vec![("b", JsonValue::UInt(2))]))],
    );
    assert_eq!(keys(&r), vec!["success", "output", "matches", "count"]);
    assert_eq!(get_u64(&r, "count"), Some(2));
    assert_eq!(array_len(&r, "matches"), Some(2));
    let r = sg_json_result("plain text", "", "done", None, vec![None]);
    assert_eq!(keys(&r), vec!["success", "output", "count"]);
    assert_eq!(get_str(&r, "output").map(|x| x.as_str()), Some("plain text"));
    assert_eq!(get_u64(&r, "count"), Some(0));
}

#[test]
fn reply_ast_search_failure() {
    let r = ast_search_result(false, Some(2), "", " bad pattern ", None, vec![]);
    assert_eq!(keys(&r), vec!["success", "error"]);
    assert_eq!(get_str(&r, "error").map(|x| x.as_str()), Some("ast-grep failed (exit 2): bad pattern"));
    let r = ast_search_result(false, None, "", "x", None, vec![]);
    assert_eq!(get_str(&r, "error").map(|x| x.as_str()), Some("ast-grep failed (exit -1): x"));
    let r = ast_search_result(true, Some(0), "", "", None, vec![]);
    assert_eq!(get_str(&r, "output").map(|x| x.as_str()), Some("no matches"));
}

#[test]
fn reply_ast_replace_output() {
    let r = ast_replace_result(true, "a.rs\nb.rs\n", "");
    assert_eq!(keys(&r), vec!["success", "output", "replacements"]);
    assert_eq!(get_str(&r, "output").map(|x| x.as_str()), Some("a.rs\nb.rs\n"));
    assert_eq!(get_u64(&r, "replacements"), Some(2));
    let r = ast_replace_result(false, "", "oops");
    assert_eq!(keys(&r), vec!["success", "error", "replacements", "output"]);
    assert_eq!(get_str(&r, "error").map(|x| x.as_str()), Some("oops"));
    assert_eq!(get_u64(&r, "replacements"), Some(0));
}

#[test]
fn reply_match_preview_fields() {
    assert_eq!(match_preview(&obj(vec![("text", s("fn a()")), ("matched", s("x"))])), Some("fn a()".to_string()));
    assert_eq!(match_preview(&obj(vec![("matched", s("m"))])), Some("m".to_string()));
    assert_eq!(match_preview(&obj(vec![("node", obj(vec![("text", s("n"))]))])), Some("n".to_string()));
    assert_eq!(match_preview(&obj(vec![("file", s("a.rs"))])), None);
}

#[test]
fn reply_zero_matches() {
    let r = zero_matches_result("  note ", Some("try this".to_string()));
    assert_eq!(keys(&r), vec!["success", "error", "sg_warning", "suggestion", "replacements", "dry_run"]);
    assert_eq!(get_str(&r, "sg_warning").map(|x| x.as_str()), Some("note"));
    assert_eq!(get_bool(&r, "dry_run"), Some(true));
    let r = zero_matches_result("", None);
    assert_eq!(keys(&r), vec!["success", "error", "replacements", "dry_run"]);
    assert!(get_str(&r, "error").unwrap().starts_with("Zero matches"));
}

#[test]
fn reply_applied_and_failed() {
    let r = applied_result(3, "a.rs\n\nb.rs\n", "fn x()", "");
    assert_eq!(
        keys(&r),
        vec!["success", "output", "pre_check_matches", "replacements", "files_changed", "matched_preview", "dry_run"]
    );
    assert_eq!(get_str(&r, "output").map(|x| x.as_str()), Some("3 replacement(s) applied across 2 file(s)"));
    assert_eq!(get_u64(&r, "files_changed"), Some(2));
    assert_eq!(get_bool(&r, "dry_run"), Some(false));
    let r = applied_result(1, "a.rs", "p", " w ");
    assert_eq!(get_str(&r, "warnings").map(|x| x.as_str()), Some("w"));
    let r = replace_failed_result(Some(1), "boom\n");
    assert_eq!(get_str(&r, "error").map(|x| x.as_str()), Some("ast-grep replace failed (exit 1): boom"));
}

#[test]
fn reply_explain_snippet_lines() {
    let content = "fn main() {\n    let x = foo(1,\n        2);\n    x\n}\n";
    assert_eq!(explain_snippet(content, 2), Ok("    let x = foo(1,\n        2);".to_string()));
    assert_eq!(explain_snippet(content, 1), Ok(content.trim_end().to_string()));
    assert_eq!(explain_snippet(content, 4), Ok("    x".to_string()));
    assert_eq!(explain_snippet(content, 0), Err("Line must be 1-based and > 0".to_string()));
    assert_eq!(explain_snippet(content, 9), Err("Line 9 out of bounds (file has 5 lines)".to_string()));
}

#[test]
fn reply_explain_snippet_and_chain() {
    let content = "if a &&\n   b {\n}";
    assert_eq!(explain_snippet(content, 1), Ok("if a &&\n   b {\n}".to_string()));
}
