use pcode::tools::{
    check_tool_dependencies, dependency_probes, escape_regex, grep_args, grep_outcome, parse_ast_grep_output,
    read_view, sed_edit, sed_report, simpler_found_message, simplify_pattern, suggest_pattern_from_snippet,
    AstGrepMatch, GrepOutcome,
};

#[test]
fn regex_escaping() {
    assert_eq!(escape_regex("a.b*c"), "a\\.b\\*c");
    assert_eq!(escape_regex("fn(x)[0]{1}^$|?+\\"), "fn\\(x\\)\\[0\\]\\{1\\}\\^\\$\\|\\?\\+\\\\");
    assert_eq!(escape_regex("plain_text"), "plain_text");
}

#[test]
fn snippet_patterns_by_keyword() {
    assert_eq!(suggest_pattern_from_snippet("  let x = 5;"), "let $VAR = $EXPR");
    assert_eq!(suggest_pattern_from_snippet("if a { b }"), "if $COND { $$$BODY }");
    assert_eq!(suggest_pattern_from_snippet("match v {}"), "match $VAL { $$$ARMS }");
    assert_eq!(suggest_pattern_from_snippet("for i in x {}"), "for $VAR in $ITER { $$$BODY }");
    assert_eq!(suggest_pattern_from_snippet("while go {}"), "while $COND { $$$BODY }");
}

#[test]
fn snippet_patterns_by_call_shape() {
    assert_eq!(suggest_pattern_from_snippet("println!(\"hi\")"), "println!($$$ARGS)");
    assert_eq!(suggest_pattern_from_snippet("self.run(a, b)"), "$VAL.run($$$ARGS)");
    assert_eq!(suggest_pattern_from_snippet("a.b().c(1)"), "$VAL.b($$$ARGS)");
    assert_eq!(suggest_pattern_from_snippet("foo(1)"), "foo($$$ARGS)");
    assert_eq!(suggest_pattern_from_snippet("x + y"), "$NODE");
}

#[test]
fn simpler_patterns() {
    assert_eq!(simplify_pattern("obj.method(1, 2)"), Some("$VAL.method($$$ARGS)".to_string()));
    assert_eq!(simplify_pattern("foo (x)"), Some("foo($$$ARGS)".to_string()));
    assert_eq!(simplify_pattern("a.b.c"), Some("$VAL.b.c".to_string()));
    assert_eq!(simplify_pattern("self.f ( x )"), Some("$VAL.f ($$$ARGS)".to_string()));
    assert_eq!(simplify_pattern("plain"), None);
    assert_eq!(simplify_pattern("f($$$ARGS)"), None);
    assert_eq!(
        simpler_found_message("f($$$ARGS)", 2, "f(1)"),
        "Simplified pattern 'f($$$ARGS)' found 2 match(es). First match:\nf(1)"
    );
}

#[test]
fn dependencies_from_probes() {
    assert_eq!(dependency_probes(), vec!["rg", "fd", "sg", "ast-grep", "cargo", "git"]);
    let found: Vec<String> = vec!["rg".into(), "ast-grep".into(), "git".into()];
    assert_eq!(
        check_tool_dependencies(&found),
        vec![("rg", true), ("fd", false), ("sg", true), ("cargo", false), ("git", true)]
    );
}

#[test]
fn sed_replaces_all_or_first() {
    assert_eq!(sed_edit("a-b-a-a", "a", "X", true), Some(("X-b-X-X".to_string(), 3)));
    assert_eq!(sed_edit("a-b-a-a", "a", "X", false), Some(("X-b-a-a".to_string(), 1)));
    assert_eq!(sed_edit("aaaa", "aa", "b", true), Some(("bb".to_string(), 2)));
    assert_eq!(sed_edit("abc", "z", "y", true), None);
    assert_eq!(sed_edit("abc", "z", "y", false), None);
    assert_eq!(sed_report(3, "a", "f.rs"), "Replaced 3 occurrence(s) of 'a' in f.rs");
}

#[test]
fn read_shows_numbered_range() {
    let v = read_view("f.rs", "one\ntwo\nthree\n", 2, 3);
    assert_eq!(v.output, "File: f.rs (3 lines total, showing 2-3)\n     2 | two\n     3 | three");
    assert_eq!(v.line_number, 2);
    assert_eq!(v.total_lines, 3);
}

#[test]
fn read_defaults_and_clamps() {
    let v = read_view("f.rs", "one\ntwo\n", 0, 0);
    assert_eq!(v.output, "File: f.rs (2 lines total, showing 1-2)\n     1 | one\n     2 | two");
    let w = read_view("f.rs", "one\ntwo\n", 9, 0);
    assert_eq!(w.output, "File: f.rs (2 lines total, showing 3-2)\n");
    assert_eq!(w.line_number, 3);
    let x = read_view("f.rs", "one\ntwo\nthree\n", 2, 1);
    assert_eq!(x.output, "File: f.rs (3 lines total, showing 2-2)\n     2 | two");
}

#[test]
fn grep_argument_list() {
    assert_eq!(
        grep_args("foo", true, "*.rs", 50, "/p/src"),
        vec!["--color", "never", "--heading", "-n", "-H", "-m", "50", "-i", "-g", "*.rs", "foo", "/p/src"]
    );
    assert_eq!(
        grep_args("foo", false, "", 7, "."),
        vec!["--color", "never", "--heading", "-n", "-H", "-m", "7", "foo", "."]
    );
}

#[test]
fn grep_outcomes() {
    assert!(matches!(grep_outcome(true, Some(0), "x:1:y\n", "", "y", "."), GrepOutcome::Output(s) if s == "x:1:y\n"));
    assert!(matches!(grep_outcome(false, Some(1), " \n", "", "y", "src"), GrepOutcome::NoMatches(s) if s == "No matches found for 'y' in src"));
    assert!(matches!(grep_outcome(false, Some(2), "", " bad regex \n", "y", "."), GrepOutcome::Failed(s) if s == "rg failed: bad regex"));
    assert!(matches!(grep_outcome(false, None, "", "", "y", "."), GrepOutcome::Failed(s) if s == "rg failed: "));
}

#[test]
fn ast_grep_lines() {
    let out = "src/a.rs:3:4:let x = a:b;\n\nsome note\n";
    let m = parse_ast_grep_output(out);
    assert_eq!(m.len(), 2);
    match &m[0] {
        AstGrepMatch::Located { file, line, col, text } => {
            assert_eq!(file, "src/a.rs");
            assert_eq!(line, "3");
            assert_eq!(col, "4");
            assert_eq!(text, "let x = a:b;");
        }
        other => panic!("unexpected {:?}", other),
    }
    assert!(matches!(&m[1], AstGrepMatch::Text(t) if t == "some note"));
}
