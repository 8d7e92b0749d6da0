use pcode::buffer::{BufferLine, LineStyle, ResponseBuffer, TermColor};

fn buf(lines: &[&str]) -> ResponseBuffer {
    let mut b = ResponseBuffer::new();
    for l in lines {
        b.push(BufferLine::new(l, LineStyle::Plain));
    }
    b
}

fn contents(b: &ResponseBuffer) -> Vec<String> {
    b.lines().iter().map(|l| l.content()).collect()
}

#[test]
fn new_buffer_is_an_empty_chat() {
    let b = ResponseBuffer::new();
    assert_eq!(b.name(), "Chat");
    assert!(b.is_empty());
    assert_eq!(b.cursor_line(), 0);
    let mut n = ResponseBuffer::with_name("Console");
    assert_eq!(n.name(), "Console");
    n.set_name("GitLog");
    assert_eq!(n.name(), "GitLog");
}

#[test]
fn push_str_splits_lines() {
    let mut b = ResponseBuffer::new();
    b.push_str("a\nb\r\nc\n", LineStyle::Info);
    b.push_blank();
    b.push_separator();
    assert_eq!(contents(&b), vec!["a", "b", "c", "", &"─".repeat(60)]);
    assert_eq!(b.lines()[0].fg_color(), TermColor::Blue);
    assert_eq!(b.lines()[4].fg_color(), TermColor::DarkGrey);
}

#[test]
fn styles_give_colours_and_weight() {
    assert_eq!(LineStyle::User.fg_color(), TermColor::Magenta);
    assert!(LineStyle::User.is_bold());
    assert!(!LineStyle::Plain.is_bold());
    let empty = BufferLine::from_segments(vec![]);
    assert_eq!(empty.fg_color(), TermColor::White);
    assert!(!empty.is_bold());
}

#[test]
fn cursor_moves_stay_in_the_text() {
    let mut b = buf(&["abc", "de", ""]);
    b.move_down(5);
    assert_eq!(b.cursor_line(), 2);
    b.move_up(1);
    b.set_cursor(1, 9);
    assert_eq!((b.cursor_line(), b.cursor_col()), (1, 1));
    b.move_right();
    assert_eq!((b.cursor_line(), b.cursor_col()), (2, 0));
    b.move_left();
    assert_eq!((b.cursor_line(), b.cursor_col()), (1, 1));
    b.move_up(10);
    assert_eq!((b.cursor_line(), b.cursor_col()), (0, 1));
}

#[test]
fn undo_restores_removed_lines() {
    let mut b = buf(&["a", "b", "c", "d"]);
    b.set_cursor(3, 0);
    b.remove_lines(1, 3);
    assert_eq!(contents(&b), vec!["a", "d"]);
    assert_eq!(b.cursor_line(), 1);
    assert!(b.undo());
    assert_eq!(contents(&b), vec!["a", "b", "c", "d"]);
    assert_eq!(b.cursor_line(), 1);
    assert!(!b.undo());
    b.remove_lines(2, 1);
    assert_eq!(b.len(), 4);
}

#[test]
fn rows_wrap_at_width() {
    let mut b = ResponseBuffer::new();
    b.push(BufferLine::from_segments(vec![("abc".into(), LineStyle::Plain), ("def".into(), LineStyle::Error)]));
    b.push(BufferLine::new("", LineStyle::Plain));
    let rows = b.visual_rows(4);
    assert_eq!(rows.len(), 3);
    assert_eq!(rows[0].content, "abcd");
    assert_eq!(rows[0].segments.len(), 2);
    assert_eq!((rows[0].start_col, rows[0].end_col), (0, 4));
    assert_eq!(rows[1].content, "ef");
    assert_eq!(rows[1].fg_color, TermColor::Red);
    assert_eq!(rows[2].logical_line, 1);
    assert_eq!((rows[2].start_col, rows[2].end_col), (0, 0));
}

#[test]
fn cursor_row_and_scrolling() {
    let mut b = buf(&["0", "1", "2", "3", "4", "5", "6", "7", "8", "9"]);
    b.scroll_to_bottom(4, 80);
    assert_eq!(b.scroll_offset(), 6);
    assert_eq!(b.cursor_line(), 9);
    assert_eq!(b.cursor_visual_row(80), 9);
    b.move_top();
    assert_eq!((b.cursor_line(), b.scroll_offset()), (0, 0));
    b.half_page_down(4, 80);
    assert_eq!(b.scroll_offset(), 2);
    assert_eq!(b.cursor_line(), 0);
    b.set_cursor(9, 0);
    b.ensure_cursor_visible(4, 80);
    assert_eq!(b.scroll_offset(), 6);
    b.set_cursor(5, 0);
    b.center_cursor(4, 80);
    assert_eq!(b.scroll_offset(), 3);
    b.half_page_up(4, 80);
    assert_eq!(b.scroll_offset(), 1);
    b.clear();
    assert!(b.is_empty());
}

#[test]
fn cursor_stays_within_lines() {
    let mut b = buf(&["one", "two", "three"]);
    b.set_cursor(2, 4);
    b.remove_lines(1, 3);
    assert!(b.cursor_line() < b.len());
    assert!(b.cursor_col() <= 2);
    b.remove_lines(0, 1);
    assert!(b.is_empty());
    assert_eq!((b.cursor_line(), b.cursor_col()), (0, 0));
    assert!(b.undo());
    assert_eq!(b.cursor_line(), 0);
    b.move_down(10);
    b.move_right();
    assert!(b.cursor_line() < b.len());
}

#[test]
fn cursor_kept_in_sight() {
    let names: Vec<String> = (0..30).map(|i| format!("line {}", i)).collect();
    let refs: Vec<&str> = names.iter().map(|s| s.as_str()).collect();
    let mut b = buf(&refs);
    b.set_cursor(25, 0);
    b.ensure_cursor_visible(5, 80);
    let row = b.cursor_visual_row(80);
    assert!(b.scroll_offset() <= row && row < b.scroll_offset() + 5);
    b.set_cursor(2, 0);
    b.ensure_cursor_visible(5, 80);
    assert_eq!(b.scroll_offset(), 2);
    b.center_cursor(5, 80);
    assert_eq!(b.scroll_offset(), 0);
}
