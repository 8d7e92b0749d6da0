use pcode::diffrows::{build_diff_rows, build_match_gutter, rows_from_changes, word_diff, DiffChange, DiffRow, DiffTag};

fn s(v: &[&str]) -> Vec<String> {
    v.iter().map(|x| x.to_string()).collect()
}

fn show(rows: &[DiffRow]) -> Vec<String> {
    rows.iter()
        .map(|r| match r {
            DiffRow::Equal(a) => format!("={}", a),
            DiffRow::Delete(a) => format!("-{}", a),
            DiffRow::Insert(a) => format!("+{}", a),
            DiffRow::Modified(a, b) => format!("~{}>{}", a, b),
        })
        .collect()
}

#[test]
fn deletions_pair_with_insertions() {
    let cs = vec![
        DiffChange { tag: DiffTag::Equal, text: "a\n".into() },
        DiffChange { tag: DiffTag::Delete, text: "b\n".into() },
        DiffChange { tag: DiffTag::Delete, text: "c\n".into() },
        DiffChange { tag: DiffTag::Insert, text: "B\n".into() },
        DiffChange { tag: DiffTag::Equal, text: "d".into() },
        DiffChange { tag: DiffTag::Insert, text: "e\n\n".into() },
    ];
    assert_eq!(show(&rows_from_changes(&cs)), vec!["=a", "~b>B", "-c", "=d", "+e"]);
}

#[test]
fn rows_of_a_changed_block() {
    let rows = build_diff_rows(&s(&["keep", "old", "tail"]), &s(&["keep", "new", "tail"]));
    assert_eq!(show(&rows), vec!["=keep", "~old>new", "=tail"]);
}

#[test]
fn identical_blocks_are_all_equal() {
    let rows = build_diff_rows(&s(&["x", "y"]), &s(&["x", "y"]));
    assert_eq!(show(&rows), vec!["=x", "=y"]);
}

#[test]
fn gutter_marks_matched_lines() {
    let (g, eq, total) = build_match_gutter(&s(&["a", "b", "c"]), &s(&["a", "B", "c"]));
    assert_eq!(g.iter().collect::<String>(), "=~=");
    assert_eq!((eq, total), (2, 3));
    let (g2, eq2, total2) = build_match_gutter(&s(&["a", "c"]), &s(&["a", "x", "c"]));
    assert_eq!(g2.iter().collect::<String>(), "=+=");
    assert_eq!((eq2, total2), (2, 3));
    let (g3, eq3, total3) = build_match_gutter(&s(&["a", "b", "c"]), &s(&["a", "c"]));
    assert_eq!(g3.iter().collect::<String>(), "==");
    assert_eq!((eq3, total3), (2, 3));
    // the last line of a block has no newline, so it differs from the
    // same text followed by more lines
    let (g4, _, _) = build_match_gutter(&s(&["a", "b", "c"]), &s(&["a", "B", "c", "extra"]));
    assert_eq!(g4.iter().collect::<String>(), "=~~+");
}

#[test]
fn word_diff_marks_changed_words() {
    let (l, r) = word_diff("the old cat", "the new cat");
    // each word comes as `Change::to_string` gives it, with a newline
    let changed_l: Vec<&str> = l.iter().filter(|w| w.1).map(|w| w.0.as_str()).collect();
    let changed_r: Vec<&str> = r.iter().filter(|w| w.1).map(|w| w.0.as_str()).collect();
    assert_eq!(changed_l, vec!["old\n"]);
    assert_eq!(changed_r, vec!["new\n"]);
    assert_eq!(l.iter().map(|w| w.0.as_str()).collect::<String>(), "the\n \nold\n \ncat\n");
    assert_eq!(r.len(), 5);
}
