use pcode::bracket::{find_matching_bracket, try_find_matching_bracket};

fn lines(v: &[&str]) -> Vec<String> {
    v.iter().map(|s| s.to_string()).collect()
}

#[test]
fn opening_bracket_finds_its_close_forward() {
    let l = lines(&["fn f() {", "    if x { y(); }", "}"]);
    assert_eq!(find_matching_bracket(&l, 0, 7), Some((2, 0)));
    assert_eq!(find_matching_bracket(&l, 0, 4), Some((0, 5)));
    assert_eq!(find_matching_bracket(&l, 1, 9), Some((1, 16)));
}

#[test]
fn closing_bracket_finds_its_open_backward() {
    let l = lines(&["fn f() {", "    if x { y(); }", "}"]);
    assert_eq!(find_matching_bracket(&l, 2, 0), Some((0, 7)));
    assert_eq!(find_matching_bracket(&l, 1, 13), Some((1, 12)));
}

#[test]
fn column_past_the_end_uses_last_cluster() {
    let l = lines(&["(a)"]);
    assert_eq!(find_matching_bracket(&l, 0, 99), Some((0, 0)));
}

#[test]
fn no_bracket_or_no_match() {
    let l = lines(&["abc", "", "(x"]);
    assert_eq!(find_matching_bracket(&l, 0, 1), None);
    assert_eq!(find_matching_bracket(&l, 1, 0), None);
    assert_eq!(find_matching_bracket(&l, 2, 0), None);
    assert_eq!(find_matching_bracket(&l, 9, 0), None);
}

#[test]
fn columns_count_grapheme_clusters() {
    let l = lines(&["é(ü)"]);
    assert_eq!(find_matching_bracket(&l, 0, 1), Some((0, 3)));
}

#[test]
fn backward_search_skips_empty_line() {
    let l = lines(&["(", "", ")"]);
    assert_eq!(try_find_matching_bracket(&l, 2, 0), Ok(Some((0, 0))));
    assert_eq!(find_matching_bracket(&lines(&["{", "", "}"]), 2, 0), Some((0, 0)));
    let m = lines(&["(", "x", ")"]);
    assert_eq!(try_find_matching_bracket(&m, 2, 0), Ok(Some((0, 0))));
    assert_eq!(try_find_matching_bracket(&l, 0, 0), Ok(Some((2, 0))));
}

#[test]
fn found_bracket_leads_back() {
    let l = lines(&["fn f() {", "", "    if x { y(); }", "}"]);
    for (sl, sc) in [(0usize, 7usize), (0, 4), (2, 9), (2, 12), (3, 0), (2, 16)] {
        let (ml, mc) = find_matching_bracket(&l, sl, sc).unwrap();
        assert_ne!((ml, mc), (sl, sc));
        assert_eq!(find_matching_bracket(&l, ml, mc), Some((sl, sc)));
    }
}
