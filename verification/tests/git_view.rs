use pcode::buffer::LineStyle;
use pcode::git_view::{gutter_marks, hunk_at, hunk_popup_items, Hunk};
use pcode::git_view::{
    commit_hash, commit_line_style, commit_request, editor_args, found_file_target, git_report_lines,
    is_file_buffer, numstat_loc, pop_prompt, reset_prompt, search_jump_target, split_words, stage_toggle,
    stash_ref_in, status_entry_file,
};

fn s(x: &str) -> String {
    x.to_string()
}

#[test]
fn search_line_with_file_and_line() {
    let ls = vec![s("src/main.rs:12:fn main() {")];
    assert_eq!(search_jump_target(&ls, 0), Some((s("src/main.rs"), 12)));
    let spaced = vec![s("my file.rs:3:x")];
    assert_eq!(search_jump_target(&spaced, 0), None);
}

#[test]
fn grouped_search_result_uses_heading() {
    let ls = vec![s("src/a.rs"), s("3:let x = 1;"), s(""), s("17:x += 1;")];
    assert_eq!(search_jump_target(&ls, 3), Some((s("src/a.rs"), 17)));
    assert_eq!(search_jump_target(&ls, 1), Some((s("src/a.rs"), 3)));
    assert_eq!(search_jump_target(&ls, 0), None);
    assert_eq!(search_jump_target(&vec![s("5:orphan")], 0), None);
    assert_eq!(search_jump_target(&ls, 9), None);
}

#[test]
fn find_results_open_files() {
    assert_eq!(found_file_target("  src/lib.rs "), Some(s("src/lib.rs")));
    assert_eq!(found_file_target("[3 files]"), None);
    assert_eq!(found_file_target("No matches found"), None);
    assert_eq!(found_file_target("   "), None);
}

#[test]
fn log_line_hash() {
    assert_eq!(commit_hash("* 3f2a9c1 Fix the thing"), Some(s("3f2a9c1")));
    assert_eq!(commit_hash("  abc 1234567890abcdef0 x"), Some(s("1234567890abcdef0")));
    assert_eq!(commit_hash("deadbeZ1 no hash here"), None);
}

#[test]
fn words_split_on_whitespace() {
    let c: Vec<char> = "  a\tbb  c ".chars().collect();
    let w: Vec<String> = split_words(&c).into_iter().map(|v| v.into_iter().collect()).collect();
    assert_eq!(w, vec![s("a"), s("bb"), s("c")]);
}

#[test]
fn show_output_styles() {
    assert_eq!(commit_line_style("commit 3f2a9c1"), LineStyle::User);
    assert_eq!(commit_line_style("Author: me"), LineStyle::Info);
    assert_eq!(commit_line_style("index 1..2"), LineStyle::Info);
    assert_eq!(commit_line_style("+++ b/x"), LineStyle::Tool);
    assert_eq!(commit_line_style("@@ -1 +1 @@"), LineStyle::Tool);
    assert_eq!(commit_line_style("+new"), LineStyle::ToolResult);
    assert_eq!(commit_line_style("-old"), LineStyle::Error);
    assert_eq!(commit_line_style("    message"), LineStyle::Plain);
}

#[test]
fn status_entries() {
    assert_eq!(status_entry_file("    + src/a.rs "), Some(s("src/a.rs")));
    assert_eq!(status_entry_file("    src/b.rs"), Some(s("src/b.rs")));
    assert_eq!(status_entry_file("  Staged:"), None);
    assert_eq!(stash_ref_in("    stash@{1}: WIP on main"), Some(s("stash@{1}")));
    assert_eq!(stash_ref_in("stash@{ open"), None);
    assert_eq!(stash_ref_in("nothing"), None);
}

#[test]
fn staging_toggle_from_porcelain() {
    let p = " M src/a.rs\nM  src/b.rs\n?? new.rs\n";
    assert_eq!(stage_toggle(p, "src/a.rs"), Some(false));
    assert_eq!(stage_toggle(p, "src/b.rs"), Some(true));
    assert_eq!(stage_toggle(p, "new.rs"), Some(false));
    assert_eq!(stage_toggle(p, "gone.rs"), None);
}

#[test]
fn numstat_and_prompts() {
    assert_eq!(numstat_loc("12\t3\tsrc/a.rs\n"), "+12 -3 LOC");
    assert_eq!(numstat_loc(""), "0 LOC");
    assert_eq!(reset_prompt("a.rs", "+1 -0 LOC").content(), "  Reset a.rs to HEAD? (+1 -0 LOC) [n/Y]");
    assert_eq!(pop_prompt("stash@{0}").content(), "  Pop stash@{0}? [n/Y]");
}

#[test]
fn git_command_reports() {
    let both = git_report_lines("📦", " Saved \n", "warn\n", true);
    assert_eq!(both.len(), 2);
    assert_eq!(both[0].content(), "  📦 Saved");
    assert_eq!(both[1].content(), "  ❌ warn");
    assert_eq!(both[1].segments[0].1, LineStyle::Error);
    let one = git_report_lines("📦", "Saved", "warn", false);
    assert_eq!(one.len(), 1);
    let err_only = git_report_lines("📦", "  ", "warn", false);
    assert_eq!(err_only[0].content(), "  ❌ warn");
    assert!(git_report_lines("↩️", "", "", true).is_empty());
}

#[test]
fn editor_arguments() {
    assert_eq!(editor_args("code", "/p/a.rs", 7), vec![s("-g"), s("/p/a.rs:7")]);
    assert_eq!(editor_args("vim", "/p/a.rs", 7), vec![s("+7"), s("/p/a.rs")]);
    assert!(is_file_buffer("src/a.rs"));
    assert!(!is_file_buffer("Console"));
    assert!(!is_file_buffer(""));
    assert!(commit_request().starts_with("Please review the staged changes"));
}

#[test]
fn status_view_sections() {
    let p = "M  src/a.rs\nMM src/b.rs\n M src/c.rs\n?? new.rs\nx\n";
    let ls = pcode::git_view::status_view_lines(p, "main\n", "2 hours ago\n", "stash@{0}: WIP\n");
    let t: Vec<String> = ls.iter().map(|l| l.content()).collect();
    let rule = s("  ────────────────────────────────────────");
    assert_eq!(
        t,
        vec![
            s("  Stage Changes (2)"),
            rule.clone(),
            s("    + src/a.rs"),
            s("    + src/b.rs"),
            s(""),
            s("  Unstage Changes (2)"),
            rule.clone(),
            s("    src/b.rs"),
            s("    src/c.rs"),
            s(""),
            s("  Untracked Files (1)"),
            rule.clone(),
            s("    new.rs"),
            s(""),
            s("  ------ Branch ------"),
            rule.clone(),
            s("    * main 2 hours ago"),
            s(""),
            s("  ------ Stash ------"),
            rule.clone(),
            s("    stash@{0}: WIP"),
            s(""),
            rule.clone(),
            s("  [s] Toggle staged  [r] Reset file  [Enter] Open file  [z] stash [q] Close"),
        ]
    );
    assert_eq!(ls[2].segments[0], (s("    + "), LineStyle::ToolResult));
    assert_eq!(ls[7].segments[0].1, LineStyle::Error);
    assert_eq!(ls[12].segments[0].1, LineStyle::Dim);
}

#[test]
fn status_view_when_clean() {
    let ls = pcode::git_view::status_view_lines("", "", "", "");
    let t: Vec<String> = ls.iter().map(|l| l.content()).collect();
    assert_eq!(t[2], "    (none)");
    assert_eq!(t[14], "    (detached HEAD)");
    assert_eq!(t[18], "    (none)");
    assert_eq!(pcode::git_view::status_cursor(&t, None), Some(14));
}

#[test]
fn status_cursor_targets() {
    let ls = pcode::git_view::status_view_lines(" M a.rs\nM  b.rs\n", "main", "now", "");
    let t: Vec<String> = ls.iter().map(|l| l.content()).collect();
    assert_eq!(pcode::git_view::status_cursor(&t, None), Some(2));
    assert_eq!(pcode::git_view::status_cursor(&t, Some("a.rs")), Some(6));
    assert_eq!(pcode::git_view::status_cursor(&t, Some("b.rs")), Some(2));
    assert_eq!(pcode::git_view::status_cursor(&t, Some("zz.rs")), None);
}

fn hl(origin: char, n: Option<u32>, c: &str) -> pcode::git_view::HunkLine {
    pcode::git_view::HunkLine { origin, new_lineno: n, content: Some(c.to_string()) }
}

#[test]
fn gutter_marks_added_lines() {
    let h = Hunk { new_start: 2, new_lines: 3, lines: vec![hl(' ', Some(2), "a"), hl('+', Some(3), "b"), hl('+', Some(9), "z")] };
    assert_eq!(gutter_marks(5, &vec![h]), vec![' ', ' ', '+', ' ', ' ']);
}

#[test]
fn gutter_marks_deletions() {
    let del = Hunk { new_start: 3, new_lines: 1, lines: vec![hl(' ', Some(2), "a"), hl('-', None, "x"), hl(' ', Some(3), "c")] };
    assert_eq!(gutter_marks(4, &vec![del]), vec![' ', ' ', '+', ' ']);
    let at_end = Hunk { new_start: 4, new_lines: 0, lines: vec![hl(' ', Some(4), "d"), hl('-', None, "x")] };
    assert_eq!(gutter_marks(4, &vec![at_end]), vec![' ', ' ', ' ', '+']);
    assert!(gutter_marks(0, &vec![]).is_empty());
}

#[test]
fn hunk_for_cursor_line() {
    let h1 = Hunk { new_start: 1, new_lines: 2, lines: vec![hl('-', None, "old  "), hl('+', Some(1), "new\n"), hl(' ', Some(2), "same")] };
    let h2 = Hunk { new_start: 10, new_lines: 0, lines: vec![hl('-', None, "gone")] };
    let hs = vec![h1, h2];
    let lines = hunk_at(&hs, 2).unwrap();
    assert_eq!(lines, vec![(0, s("- old")), (1, s("+ new")), (2, s("  same"))]);
    assert_eq!(hunk_at(&hs, 10), Some(vec![(0, s("- gone"))]));
    assert_eq!(hunk_at(&hs, 5), None);
    let (items, active) = hunk_popup_items(&lines, 1);
    assert_eq!(active, 1);
    assert!(items[1].is_active);
    assert_eq!(items[2].text, "  same");
    assert_eq!(hunk_popup_items(&lines, 7).1, 0);
}
