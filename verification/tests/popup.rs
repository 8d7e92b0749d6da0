use pcode::popup::{disp_width, pad_to_width, Popup, PopupItem};

fn item(t: &str, a: bool) -> PopupItem {
    PopupItem { text: t.to_string(), is_active: a }
}

#[test]
fn widths_and_padding() {
    assert_eq!(disp_width("abc"), 3);
    assert_eq!(disp_width("日本"), 4);
    assert_eq!(pad_to_width("ab", 4), "ab  ");
    assert_eq!(pad_to_width("abcdef", 4), "abcdef");
}

#[test]
fn cursor_wraps_round() {
    let mut p = Popup::new();
    assert!(!p.active);
    p.show("T", vec![item("a", false), item("b", false), item("c", true)], 9);
    assert!(p.active);
    assert_eq!(p.cursor, 2);
    p.move_down();
    assert_eq!(p.cursor, 0);
    p.move_up();
    assert_eq!(p.cursor, 2);
    p.close();
    assert!(!p.active);
    let mut q = Popup::new();
    q.show("E", vec![], 3);
    assert_eq!(q.cursor, 0);
    q.move_down();
    assert_eq!(q.cursor, 0);
}

#[test]
fn layout_of_a_small_popup() {
    let mut p = Popup::new();
    assert!(p.layout(40, 10).is_none());
    p.show("Skills", vec![item("a", false), item("bb", true)], 1);
    let lay = p.layout(40, 10).unwrap();
    assert_eq!(lay.inner_width, 36);
    assert_eq!((lay.col, lay.row), (1, 3));
    assert_eq!(lay.top, format!("╭ {}Skills{} ╮", " ".repeat(14), " ".repeat(14)));
    assert_eq!(lay.lines.len(), 2);
    assert_eq!(lay.lines[0], (4, format!("    a{}", " ".repeat(31)), false));
    assert_eq!(lay.lines[1], (5, format!("> * bb{}", " ".repeat(30)), true));
    assert_eq!(lay.bottom, format!("╰{}╯", "─".repeat(36)));
    assert_eq!(lay.bottom_row, 6);
}
