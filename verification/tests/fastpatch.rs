use std::hash::{Hash, Hasher};
use pcode::fastpatch::{
    applied_hashes, compute_hash, expand_inline_patches, hunk_block_text, hunk_hash, is_applied, log_entry,
    patched_summary, start_hunk, finish_hunk, HunkStart, HunkTarget,
};
use pcode::patch::PatchHunk;

fn hunk(search: &[&str], replace: &[&str]) -> PatchHunk {
    PatchHunk {
        filename: "a.rs".to_string(),
        search: search.iter().map(|s| s.to_string()).collect(),
        replace: replace.iter().map(|s| s.to_string()).collect(),
    }
}

#[test]
fn hash_is_sixteen_hex_digits_and_stable() {
    let a = compute_hash("hello");
    let b = compute_hash("hello");
    let c = compute_hash("hellp");
    assert_eq!(a.len(), 16);
    assert!(a.chars().all(|ch| ch.is_ascii_hexdigit() && !ch.is_ascii_uppercase()));
    assert_eq!(a, b);
    assert_ne!(a, c);
}

#[test]
fn hash_matches_default_hasher_of_the_string() {
    let s = String::from("<<<<<<< SEARCH\nx\n=======\ny\n>>>>>>> REPLACE");
    let mut h = std::collections::hash_map::DefaultHasher::new();
    s.hash(&mut h);
    assert_eq!(compute_hash(&s), format!("{:016x}", h.finish()));
}

#[test]
fn block_text_of_hunk() {
    let h = hunk(&["a", "b"], &["c"]);
    assert_eq!(hunk_block_text(&h), "<<<<<<< SEARCH\na\nb\n=======\nc\n>>>>>>> REPLACE");
    assert_eq!(hunk_hash(&h), compute_hash("<<<<<<< SEARCH\na\nb\n=======\nc\n>>>>>>> REPLACE"));
}

#[test]
fn log_lines_give_their_hashes() {
    let log = "abc | src/a.rs | 12\n\n  def  | x | 1\n| no hash\nplain\n";
    let hs = applied_hashes(log);
    assert_eq!(hs, vec!["abc".to_string(), "def".to_string(), "plain".to_string()]);
    assert!(is_applied(&hs, "def"));
    assert!(!is_applied(&hs, "zzz"));
}

#[test]
fn log_entry_format() {
    assert_eq!(log_entry("0123", "src/a.rs", 1700000000), "0123 | src/a.rs | 1700000000");
    let hs = applied_hashes(&format!("{}\n", log_entry("beef", "p", 5)));
    assert_eq!(hs, vec!["beef".to_string()]);
}

#[test]
fn inline_items_become_path_and_patch() {
    let doc = "- [ ] fix: path=\"src/a.rs\" patch=\"line1\\nline2\" done";
    assert_eq!(expand_inline_patches(doc), "- [ ] fix: src/a.rs\nline1\nline2 done");
}

#[test]
fn document_without_items_is_unchanged() {
    let doc = "nothing to see\npath=\"x\" only";
    assert_eq!(expand_inline_patches(doc), doc);
}

#[test]
fn summary_shows_short_replacements_whole() {
    let r: Vec<String> = vec!["a".into(), "b  ".into()];
    assert_eq!(patched_summary("✅ f patched (Score: 99.0%)\n", &r), "✅ f patched (Score: 99.0%)\n  a\n  b");
}

#[test]
fn summary_elides_long_replacements() {
    let r: Vec<String> = (1..=8).map(|i| format!("l{}", i)).collect();
    assert_eq!(
        patched_summary("H\n", &r),
        "H\n  l1\n  l2\n  l3\n  ...\n  l6\n  l7\n  l8"
    );
}

#[test]
fn hunk_run_starts_by_search_and_log() {
    let h = hunk(&["a"], &["b"]);
    assert!(matches!(start_hunk(&hunk(&[], &["b"]), &vec![]), HunkStart::Ignore));
    match start_hunk(&h, &vec![hunk_hash(&h)]) {
        HunkStart::Done(m) => assert_eq!(m, "⏭️ a.rs skipped (already applied in patchinfo.log)"),
        _ => panic!("expected done"),
    }
    match start_hunk(&h, &vec!["0000000000000000".to_string()]) {
        HunkStart::Open(x) => assert_eq!(x, hunk_hash(&h)),
        _ => panic!("expected open"),
    }
}

#[test]
fn hunk_run_finishes_on_each_target() {
    let h = hunk(&["a"], &["b"]);
    let d = finish_hunk(&h, "abc", &HunkTarget::Refused("Access denied".to_string()), 5).unwrap();
    assert_eq!(d.report, "❌ a.rs: Access denied");
    assert!(d.new_content.is_none() && d.log_entry.is_none());
    let d = finish_hunk(&h, "abc", &HunkTarget::Missing, 5).unwrap();
    assert_eq!(d.report, "❌ a.rs: File does not exist");
    let e = finish_hunk(&h, "abc", &HunkTarget::Unreadable("denied".to_string()), 5).err().unwrap();
    assert_eq!(e, "Failed to read a.rs: denied");
    let d = finish_hunk(&h, "abc", &HunkTarget::Text("x\na\ny\n".to_string()), 7).unwrap();
    assert_eq!(d.report, "✅ a.rs patched (exact match)\n  b");
    assert_eq!(d.new_content.as_deref(), Some("x\nb\ny\n"));
    assert_eq!(d.log_entry.as_deref(), Some("abc | a.rs | 7"));
    let d = finish_hunk(&h, "abc", &HunkTarget::Text("x\nz\n".to_string()), 7).unwrap();
    assert!(d.report.starts_with("❌ a.rs skipped: SEARCH block not found in a.rs."));
    assert!(d.new_content.is_none() && d.log_entry.is_none());
}

#[test]
fn inline_items_are_found_left_to_right() {
    let doc = "x path=\"a.rs\" nope path=\"b.rs\"\t\n patch=\"<<<<<<< SEARCH\\nq\\n=======\\nr\\n>>>>>>> REPLACE\" y";
    let out = expand_inline_patches(doc);
    assert_eq!(
        out,
        "x path=\"a.rs\" nope b.rs\n<<<<<<< SEARCH\nq\n=======\nr\n>>>>>>> REPLACE y"
    );
    assert_eq!(expand_inline_patches("path=\"\" patch=\"x\""), "path=\"\" patch=\"x\"");
    assert_eq!(expand_inline_patches("path=\"a\"patch=\"x\""), "path=\"a\"patch=\"x\"");
    assert_eq!(expand_inline_patches("path=\"a\" patch=\"x\" path=\"b\" patch=\"y\""), "a\nx b\ny");
}
