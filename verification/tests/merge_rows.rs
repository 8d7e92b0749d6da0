use pcode::buffer::TermColor;
use pcode::merge_rows::{right_rows, summary_popup};
use pcode::merge_view::right_rows_len;
use pcode::patch::PatchHunk;

fn hunk(search: usize, replace: usize) -> PatchHunk {
    PatchHunk {
        filename: "src/lib.rs".to_string(),
        search: (0..search).map(|i| format!("s{}", i)).collect(),
        replace: (0..replace).map(|i| format!("r{}", i)).collect(),
    }
}

#[test]
fn merge_rows_short_hunk() {
    let rows = right_rows(&hunk(2, 1), false);
    let texts: Vec<&str> = rows.iter().map(|r| r.0.as_str()).collect();
    assert_eq!(texts, vec!["<<<<<<< SEARCH", "s0", "s1", "=======", "r0", ">>>>>>> REPLACE"]);
    assert_eq!(rows[1].1, TermColor::Red);
    assert_eq!(rows[4].1, TermColor::Green);
    assert!(rows[0].2 && !rows[1].2);
    assert_eq!(rows[5].1, TermColor::Magenta);
}

#[test]
fn merge_rows_applied_marker() {
    let rows = right_rows(&hunk(0, 0), true);
    assert_eq!(rows.len(), 3);
    assert_eq!(rows[2].0, ">>>>>>> APPLIED");
    assert_eq!(rows[2].1, TermColor::Red);
}

#[test]
fn merge_rows_fold_long_side() {
    let rows = right_rows(&hunk(25, 3), false);
    assert_eq!(rows.len(), right_rows_len(25, 3));
    assert_eq!(rows[10].0, "s9");
    assert_eq!(rows[11].0, "        ... (5) ...");
    assert_eq!(rows[11].1, TermColor::DarkGrey);
    assert_eq!(rows[12].0, "s15");
    assert_eq!(rows[21].0, "s24");
    assert_eq!(rows[22].0, "=======");
}

#[test]
fn merge_summary_packs_items() {
    let (title, items) = summary_popup(&vec![(100, 1), (80, 2), (0, 0)], 80);
    assert_eq!(title, "Hunk Summary");
    assert_eq!(items.len(), 1);
    assert_eq!(items[0].text, "\x1b[32m1(100%|1)\x1b[0m  2(80%|2)  3(0%|0)");
    assert!(items[0].is_active);
}

#[test]
fn merge_summary_wraps_lines() {
    // "1(50%|0)" is 8 columns; two of them with a gap are 18, over 16 - 6.
    let (_, items) = summary_popup(&vec![(50, 0), (50, 0), (50, 0)], 16);
    let texts: Vec<&str> = items.iter().map(|i| i.text.as_str()).collect();
    assert_eq!(texts, vec!["1(50%|0)", "2(50%|0)", "3(50%|0)"]);
}

#[test]
fn merge_summary_all_perfect_and_empty() {
    let (title, _) = summary_popup(&vec![(100, 1), (100, 3)], 80);
    assert_eq!(title, "(All 100%) Hunk Summary");
    let (title, items) = summary_popup(&vec![], 80);
    assert_eq!(title, "Hunk Summary");
    assert_eq!(items.len(), 1);
    assert_eq!(items[0].text, "No hunks found.");
}
