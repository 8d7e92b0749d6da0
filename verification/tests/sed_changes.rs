use pcode::buffer::LineStyle;
use pcode::sed_changes::{
    apply_edits, group_by_file, parse_sed_args, parse_usize_exec, review_lines, reviewed_changes, sed_banner,
    sed_proposals, SedChange, SedTally,
};

fn triple(arg: &str) -> (String, String, String) {
    let a = parse_sed_args(arg);
    (a.find, a.replace, a.path)
}

fn s(x: &str) -> String {
    x.to_string()
}

#[test]
fn sed_args_slash_form() {
    assert_eq!(triple("/foo/bar src"), (s("foo"), s("bar"), s("src")));
    assert_eq!(triple("/foo/bar/"), (s("foo"), s("bar/"), s(".")));
    assert_eq!(triple("/foo//bar  lib/ "), (s("foo"), s("bar"), s("lib/")));
    assert_eq!(triple("/foo"), (s(""), s(""), s(".")));
}

#[test]
fn sed_args_bar_form() {
    assert_eq!(triple("old name|new_name src/a.rs"), (s("old name"), s("new_name"), s("src/a.rs")));
    assert_eq!(triple("a|b"), (s("a"), s("b"), s(".")));
}

#[test]
fn sed_args_word_form() {
    assert_eq!(triple("\"a b\" c"), (s("\"a"), s("b\""), s("c")));
    assert_eq!(triple("'x' \"y\" 'dir one'"), (s("x"), s("y"), s("dir one")));
    assert_eq!(triple("alone"), (s(""), s(""), s(".")));
    assert_eq!(triple("x y"), (s("x"), s("y"), s(".")));
}

#[test]
fn usize_parse_matches_std() {
    let c: Vec<char> = "+42".chars().collect();
    assert_eq!(parse_usize_exec(&c), Some(42));
    let c: Vec<char> = "".chars().collect();
    assert_eq!(parse_usize_exec(&c), None);
    let c: Vec<char> = "4a".chars().collect();
    assert_eq!(parse_usize_exec(&c), None);
    let c: Vec<char> = "99999999999999999999999".chars().collect();
    assert_eq!(parse_usize_exec(&c), None);
}

#[test]
fn proposals_from_search_output() {
    let out = "./src/a.rs:3:let foo = foo();\nnoise\nsrc/b.rs:x:foo:bar\n\n";
    let ps = sed_proposals(out, "foo", "baz");
    assert_eq!(ps.len(), 2);
    assert_eq!(ps[0].file, "src/a.rs");
    assert_eq!(ps[0].line_num, 3);
    assert_eq!(ps[0].old_line, "let foo = foo();");
    assert_eq!(ps[0].new_line, "let baz = baz();");
    assert_eq!(ps[1].file, "src/b.rs");
    assert_eq!(ps[1].line_num, 0);
    assert_eq!(ps[1].old_line, "foo:bar");
    assert_eq!(ps[1].new_line, "baz:bar");
}

#[test]
fn review_buffer_lines_and_footer() {
    let ps = sed_proposals("src/a.rs:12:x = old;\n", "old", "new");
    let ls = review_lines(&ps, "old", "new");
    let texts: Vec<String> = ls.iter().map(|l| l.content()).collect();
    assert_eq!(
        texts,
        vec![
            s("@@ src/a.rs:12"),
            s("- x = old;"),
            s("+ x = new;"),
            s(""),
            s("  1 proposed changes. Edit buffer, [dd] to delete, [w] to apply"),
        ]
    );
    assert_eq!(ls[0].segments[0].1, LineStyle::Info);
    assert_eq!(ls[1].segments[0].1, LineStyle::Error);
    assert_eq!(ls[1].segments[2], (s("old"), LineStyle::User));
    assert_eq!(ls[4].segments[0].1, LineStyle::Info);
    let empty = review_lines(&Vec::new(), "a", "b");
    assert_eq!(empty.len(), 1);
    assert_eq!(empty[0].content(), "  No matches found");
    assert_eq!(empty[0].segments[0].1, LineStyle::Dim);
}

#[test]
fn review_round_trip_on_values() {
    let ps = sed_proposals("a.rs:1:one\nb.rs:20:two one\n", "one", "1");
    let ls = review_lines(&ps, "one", "1");
    let texts: Vec<String> = ls.iter().map(|l| l.content()).collect();
    let cs = reviewed_changes(&texts);
    assert_eq!(cs.len(), 2);
    assert_eq!((cs[0].file.as_str(), cs[0].line_num, cs[0].new_text.as_str()), ("a.rs", 1, "1"));
    assert_eq!((cs[1].file.as_str(), cs[1].line_num, cs[1].new_text.as_str()), ("b.rs", 20, "two 1"));
}

#[test]
fn reviewed_changes_skip_deleted_blocks() {
    let texts = vec![
        s("@@ a.rs:3"),
        s("+ only new"),
        s(""),
        s("@@ b.rs:4"),
        s("- old"),
        s("+ new"),
        s("@@ c.rs:5"),
        s("- o"),
        s("+ n"),
    ];
    let cs = reviewed_changes(&texts);
    assert_eq!(cs.len(), 2);
    assert_eq!(cs[0].file, "b.rs");
    assert_eq!(cs[0].new_text, "new");
    assert_eq!(cs[1].file, "c.rs");
    assert_eq!(cs[1].line_num, 5);
}

fn change(f: &str, n: usize, t: &str) -> SedChange {
    SedChange { file: s(f), line_num: n, new_text: s(t) }
}

#[test]
fn changes_grouped_by_file_in_first_order() {
    let cs = vec![change("b.rs", 1, "x"), change("a.rs", 2, "y"), change("b.rs", 3, "z")];
    let g = group_by_file(&cs);
    assert_eq!(g.len(), 2);
    assert_eq!(g[0].file, "b.rs");
    assert_eq!(g[0].edits, vec![(1, s("x")), (3, s("z"))]);
    assert_eq!(g[1].file, "a.rs");
    assert_eq!(g[1].edits, vec![(2, s("y"))]);
}

#[test]
fn edits_apply_and_keep_final_newline() {
    let r = apply_edits("a\nb\nc\n", &vec![(2, s("B")), (9, s("Z")), (0, s("A"))]);
    assert_eq!(r.applied, 2);
    assert_eq!(r.failed, 1);
    assert_eq!(r.new_content, Some(s("A\nB\nc\n")));
    let r = apply_edits("a\nb", &vec![(2, s("b"))]);
    assert_eq!(r.applied, 1);
    assert_eq!(r.new_content, None);
    let r = apply_edits("a\nb", &vec![(2, s("x")), (2, s("y"))]);
    assert_eq!(r.new_content, Some(s("a\ny")));
}

#[test]
fn tally_and_summary() {
    let mut t = SedTally::new();
    let r = apply_edits("a\n", &vec![(1, s("b"))]);
    t.record_file(&r, 1, false);
    t.record_unreadable(2);
    assert_eq!((t.applied, t.failed), (1, 2));
    assert_eq!(t.summary().content(), "  ✅ Applied 1 changes. 2 failed.");
    assert_eq!(t.summary().segments[0].1, LineStyle::Error);
    let mut w = SedTally::new();
    w.record_file(&r, 1, true);
    assert_eq!((w.applied, w.failed), (0, 1));
    let ok = SedTally::new();
    assert_eq!(ok.summary().segments[0].1, LineStyle::ToolResult);
}

#[test]
fn banner_text() {
    assert_eq!(sed_banner("a", "b").content(), "  🔍 sed: a -> b");
}
