use pcode::navigate::{
    cursor_after_removal, fallback_function_starts, gutter_added_lines, line_span, next_after, next_gutter_target,
    prev_before, prev_gutter_target, push_count_digit, sed_block_range, word_under_cursor,
};

fn lines(v: &[&str]) -> Vec<String> {
    v.iter().map(|s| s.to_string()).collect()
}

#[test]
fn added_gutter_lines() {
    let g: Vec<char> = " ++ -+".chars().collect();
    assert_eq!(gutter_added_lines(&g), vec![2, 3, 6]);
}

#[test]
fn jumps_forward_and_backward() {
    let ls = vec![3, 8, 15];
    assert_eq!(next_after(&ls, 8), Some(15));
    assert_eq!(next_after(&ls, 15), None);
    assert_eq!(prev_before(&ls, 8), Some(3));
    assert_eq!(prev_before(&ls, 3), None);
    assert_eq!(next_gutter_target(&ls, 15), Some(3));
    assert_eq!(prev_gutter_target(&ls, 2), Some(15));
    assert_eq!(next_gutter_target(&vec![], 1), None);
}

#[test]
fn definitions_by_keyword() {
    let l = lines(&["use x;", "pub fn a() {}", "  impl B {", "    fn c() {}", "}", "export async function d() {}", "fnord"]);
    assert_eq!(fallback_function_starts(&l), vec![1, 2, 3, 5]);
}

#[test]
fn counts_from_digits() {
    assert_eq!(push_count_digit(None, '0'), None);
    assert_eq!(push_count_digit(None, '4'), Some(4));
    assert_eq!(push_count_digit(Some(4), '2'), Some(42));
    assert_eq!(push_count_digit(Some(4), '0'), Some(40));
}

#[test]
fn spans_and_cursor() {
    assert_eq!(line_span(3, 5, 6), (3, 6));
    assert_eq!(line_span(0, 2, 6), (0, 2));
    assert_eq!(cursor_after_removal(5, 3), 2);
    assert_eq!(cursor_after_removal(1, 3), 1);
    assert_eq!(cursor_after_removal(4, 0), 0);
}

#[test]
fn sed_blocks() {
    let l = lines(&["intro", "@@ a.rs:1", "- old", "+ new", "", "@@ b.rs:2", "- x", "+ y", ""]);
    assert_eq!(sed_block_range(&l, 2), Some((1, 5)));
    assert_eq!(sed_block_range(&l, 7), Some((5, 9)));
    assert_eq!(sed_block_range(&l, 0), None);
}

#[test]
fn word_under_the_cursor() {
    assert_eq!(word_under_cursor("let foo_bar = 1;", 6), Some("foo_bar".to_string()));
    assert_eq!(word_under_cursor("let foo_bar = 1;", 3), None);
    assert_eq!(word_under_cursor("x", 10), Some("x".to_string()));
    assert_eq!(word_under_cursor("", 0), None);
    assert_eq!(word_under_cursor("héllo wörld", 8), Some("wörld".to_string()));
}
