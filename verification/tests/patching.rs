use pcode::apply::{apply_patch_text, levenshtein_distance, success_message, PatchError};
use pcode::patch::parse_patches;

fn chars(s: &str) -> Vec<char> {
    s.chars().collect()
}

fn strings(v: &[&str]) -> Vec<String> {
    v.iter().map(|s| s.to_string()).collect()
}

#[test]
fn parses_search_replace_block_with_filename() {
    let content = "src/main.rs\n<<<<<<< SEARCH\nfn a() {}\n=======\nfn b() {}\n>>>>>>> REPLACE\n";
    let hunks = parse_patches(content);
    assert_eq!(hunks.len(), 1);
    assert_eq!(hunks[0].filename, "src/main.rs");
    assert_eq!(hunks[0].search, strings(&["fn a() {}"]));
    assert_eq!(hunks[0].replace, strings(&["fn b() {}"]));
}

#[test]
fn search_replace_drops_trailing_blank_lines() {
    let content = "// src/x.rs\n<<<<<<< SEARCH\nold\n\n=======\nnew\n\n\n>>>>>>> REPLACE\n";
    let hunks = parse_patches(content);
    assert_eq!(hunks.len(), 1);
    assert_eq!(hunks[0].filename, "src/x.rs");
    assert_eq!(hunks[0].search, strings(&["old"]));
    assert_eq!(hunks[0].replace, strings(&["new"]));
}

#[test]
fn parses_unified_diff() {
    let content = "--- a/x.rs\n+++ b/x.rs\n@@ -1,2 +1,2 @@\n ctx\n-old\n+new\n";
    let hunks = parse_patches(content);
    assert_eq!(hunks.len(), 1);
    assert_eq!(hunks[0].filename, "x.rs");
    assert_eq!(hunks[0].search, strings(&["ctx", "old"]));
    assert_eq!(hunks[0].replace, strings(&["ctx", "new"]));
}

#[test]
fn parses_skeleton_files() {
    let content = "//--+ file:///src/a.rs [abc]\nline1\nline2\n//--+ file:///src/b.rs\nother\n";
    let hunks = parse_patches(content);
    assert_eq!(hunks.len(), 2);
    assert_eq!(hunks[0].filename, "src/a.rs");
    assert_eq!(hunks[0].search, strings(&["line1", "line2"]));
    assert!(hunks[0].replace.is_empty());
    assert_eq!(hunks[1].filename, "src/b.rs");
    assert_eq!(hunks[1].search, strings(&["other"]));
}

#[test]
fn parses_raw_paste_with_filename_comment() {
    let hunks = parse_patches("// src/lib.rs\nfoo\nbar\n");
    assert_eq!(hunks.len(), 1);
    assert_eq!(hunks[0].filename, "src/lib.rs");
    assert_eq!(hunks[0].search, strings(&["foo", "bar"]));
    assert!(hunks[0].replace.is_empty());
}

#[test]
fn empty_paste_has_no_hunks() {
    assert!(parse_patches("").is_empty());
}

#[test]
fn applies_exact_block() {
    let r = apply_patch_text(
        "fn a() {}\nfn c() {}\n",
        "<<<<<<< SEARCH\nfn a() {}\n=======\nfn b() {}\n>>>>>>> REPLACE",
    );
    match r {
        Ok((s, n)) => {
            assert_eq!(s, "fn b() {}\nfn c() {}\n");
            assert_eq!(n, 1);
        }
        Err(e) => panic!("unexpected {:?}", e),
    }
}

#[test]
fn applies_block_by_trimmed_lines_and_reindents() {
    let content = "impl X {\n    fn a() {\n    }\n}\n";
    let patch = "<<<<<<< SEARCH\nfn a() {\n}\n=======\nfn b() {\n}\n>>>>>>> REPLACE";
    match apply_patch_text(content, patch) {
        Ok((s, n)) => {
            assert_eq!(s, "impl X {\n    fn b() {\n    }\n}\n");
            assert_eq!(n, 1);
        }
        Err(e) => panic!("unexpected {:?}", e),
    }
}

#[test]
fn applies_two_blocks_in_order() {
    let patch = "<<<<<<< SEARCH\none\n=======\n1\n>>>>>>> REPLACE\n<<<<<<< SEARCH\ntwo\n=======\n2\n>>>>>>> REPLACE\n";
    match apply_patch_text("one\ntwo\n", patch) {
        Ok((s, n)) => {
            assert_eq!(s, "1\n2\n");
            assert_eq!(n, 2);
        }
        Err(e) => panic!("unexpected {:?}", e),
    }
}

#[test]
fn missing_separator_is_reported() {
    let e = apply_patch_text("x\n", "<<<<<<< SEARCH\nx\n").unwrap_err();
    assert!(matches!(e, PatchError::MissingSeparator));
    assert_eq!(e.message("f.rs"), "Malformed patch: Missing '=======' separator in f.rs");
}

#[test]
fn missing_terminator_is_reported() {
    let e = apply_patch_text("x\n", "<<<<<<< SEARCH\nx\n=======\ny\n").unwrap_err();
    assert!(matches!(e, PatchError::MissingTerminator));
    assert_eq!(e.message("f.rs"), "Malformed patch: Missing '>>>>>>> REPLACE' terminator in f.rs");
}

#[test]
fn empty_search_is_reported() {
    let e = apply_patch_text("x\n", "<<<<<<< SEARCH\n=======\ny\n>>>>>>> REPLACE").unwrap_err();
    assert!(matches!(e, PatchError::EmptySearch));
    assert_eq!(e.message("f.rs"), "SEARCH block cannot be empty");
}

#[test]
fn patch_without_blocks_is_reported() {
    let e = apply_patch_text("x\n", "hello").unwrap_err();
    assert!(matches!(e, PatchError::NoBlocks));
    assert_eq!(e.message("f.rs"), "No valid SEARCH/REPLACE blocks found in patch text");
}

#[test]
fn search_larger_than_file_is_reported() {
    let e = apply_patch_text("a\n", "<<<<<<< SEARCH\nx\ny\n=======\nz\n>>>>>>> REPLACE").unwrap_err();
    assert!(matches!(e, PatchError::SearchTooLarge));
    assert_eq!(
        e.message("f.rs"),
        "SEARCH block not found in f.rs. The search block is larger than the file or empty."
    );
}

#[test]
fn missing_search_reports_closest_line() {
    let e = apply_patch_text("alpha\nbeta\n", "<<<<<<< SEARCH\ngamma\n=======\nz\n>>>>>>> REPLACE").unwrap_err();
    assert_eq!(
        e.message("f.rs"),
        "SEARCH block not found in f.rs.\nExpected:\ngamma\nMake sure the text matches the code exactly.\nClosest match at line 1: alpha"
    );
}

#[test]
fn ambiguous_search_is_reported() {
    let e = apply_patch_text("x\nx\n", "<<<<<<< SEARCH\nx \n=======\ny\n>>>>>>> REPLACE").unwrap_err();
    assert!(matches!(e, PatchError::Ambiguous { count: 2 }));
    assert_eq!(
        e.message("f.rs"),
        "Ambiguous match: SEARCH block found 2 times in f.rs. Add more surrounding context lines to make it unique."
    );
}

#[test]
fn success_message_counts_blocks() {
    assert_eq!(success_message("a.rs", 3), "Patched a.rs (3 block(s) applied)");
}

#[test]
fn levenshtein_examples() {
    assert_eq!(levenshtein_distance(&chars("kitten"), &chars("sitting")), 3);
    assert_eq!(levenshtein_distance(&chars(""), &chars("abc")), 3);
    assert_eq!(levenshtein_distance(&chars("same"), &chars("same")), 0);
}
