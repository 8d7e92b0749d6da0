use pcode::outline::{function_list, function_starts, sort_rows};

fn s(x: &str) -> String {
    x.to_string()
}

#[test]
fn rows_sorted_once() {
    assert_eq!(sort_rows(&vec![9, 2, 9, 0, 2, 5]), vec![0, 2, 5, 9]);
    assert!(sort_rows(&vec![]).is_empty());
}

#[test]
fn starts_prefer_the_tree() {
    let texts = vec![s("fn a() {}"), s("x"), s("  pub fn b() {}")];
    assert_eq!(function_starts(&texts, &vec![2, 1, 2]), vec![1, 2]);
    assert_eq!(function_starts(&texts, &vec![]), vec![0, 2]);
}

#[test]
fn popup_from_tree_rows() {
    let long = format!("fn {}() {{}}", "x".repeat(90));
    let texts = vec![s("  fn a() {}  "), s("let y = 1;"), long.clone()];
    let entries = function_list(&texts, &vec![2, 0, 7], 2);
    assert_eq!(entries.len(), 2);
    assert_eq!(entries[0].row, 0);
    assert_eq!(entries[0].item.text, "L   1: fn a() {}");
    assert!(!entries[0].item.is_active);
    assert_eq!(entries[1].item.text, format!("L   3: {}...", &long[..77]));
    assert!(entries[1].item.is_active);
}

#[test]
fn popup_by_keyword_without_tree() {
    let texts = vec![s("use x;"), s("  impl Foo {"), s("def py():")];
    let entries = function_list(&texts, &vec![], 0);
    assert_eq!(entries.len(), 1);
    assert_eq!(entries[0].row, 1);
    assert_eq!(entries[0].item.text, "L   2:   impl Foo {");
    let none = function_list(&texts, &vec![40], 0);
    assert_eq!(none.len(), 1);
}
