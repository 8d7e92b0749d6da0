use pcode::buffer::{BufferLine, LineStyle, ResponseBuffer};
use pcode::workspace::{content_width, gutter_width, term_width, CloseOutcome, Workspace};

fn names(w: &Workspace) -> Vec<String> {
    let mut v = Vec::new();
    for i in 0..w.len() {
        v.push(w.buffer_at(i).name().to_string());
    }
    v
}

#[test]
fn workspace_starts_with_chat() {
    let w = Workspace::new();
    assert_eq!(names(&w), vec!["Chat"]);
    assert_eq!(w.active_index(), 0);
}

#[test]
fn workspace_console_made_once() {
    let mut w = Workspace::new();
    assert_eq!(w.console_index(), 1);
    assert_eq!(w.console_index(), 1);
    assert_eq!(w.chat_index(), 0);
    assert_eq!(names(&w), vec!["Chat", "Console"]);
}

#[test]
fn workspace_switch_wraps() {
    let mut w = Workspace::new();
    assert!(!w.switch_buffer(1));
    w.console_index();
    assert!(w.switch_buffer(1));
    assert_eq!(w.active_index(), 1);
    assert!(w.switch_buffer(1));
    assert_eq!(w.active_index(), 0);
    assert!(w.switch_buffer(-1));
    assert_eq!(w.active_index(), 1);
    assert!(w.switch_buffer(-1));
    assert_eq!(w.active_index(), 0);
}

#[test]
fn workspace_close_last_clears() {
    let mut w = Workspace::new();
    assert!(matches!(w.close_buffer(), CloseOutcome::ClearedLast));
    assert_eq!(w.len(), 1);
}

#[test]
fn workspace_close_primary_clears() {
    let mut w = Workspace::new();
    w.console_index();
    w.set_active(1);
    assert!(matches!(w.close_buffer(), CloseOutcome::ClearedPrimary));
    assert_eq!(w.len(), 2);
}

#[test]
fn workspace_close_other_buffer() {
    let mut w = Workspace::new();
    w.console_index();
    let i = w.add_buffer(ResponseBuffer::with_name("notes"));
    assert_eq!(i, 2);
    w.set_active(2);
    match w.close_buffer() {
        CloseOutcome::Closed(name) => assert_eq!(name, "notes"),
        _ => panic!("expected the buffer to close"),
    }
    assert_eq!(names(&w), vec!["Chat", "Console"]);
    // The last index is gone, and the Console is not shown while another
    // buffer is open.
    assert_eq!(w.active_index(), 0);
}

#[test]
fn workspace_close_shifts_primaries() {
    let mut w = Workspace::new();
    let notes = w.add_buffer(ResponseBuffer::with_name("notes"));
    assert_eq!(notes, 1);
    assert_eq!(w.console_index(), 2);
    w.set_active(1);
    assert!(matches!(w.close_buffer(), CloseOutcome::Closed(_)));
    assert_eq!(names(&w), vec!["Chat", "Console"]);
    assert_eq!(w.console_index(), 1);
    assert_eq!(w.chat_index(), 0);
    assert_eq!(w.active_index(), 0);
}

#[test]
fn workspace_active_buffer_mut_edits_shown() {
    let mut w = Workspace::new();
    w.active_buffer_mut().push(BufferLine::new("hello", LineStyle::Plain));
    assert_eq!(w.active_buffer().len(), 1);
}

#[test]
fn workspace_clear_keeps_name() {
    let mut w = Workspace::new();
    assert!(matches!(w.close_buffer(), CloseOutcome::ClearedLast));
    assert_eq!(w.buffer_at(0).name(), "Chat");
    assert!(w.active_buffer().is_empty());
}

#[test]
fn workspace_layout_widths() {
    assert_eq!(term_width(0), 120);
    assert_eq!(term_width(80), 80);
    assert_eq!(gutter_width(0), 3);
    assert_eq!(gutter_width(9), 3);
    assert_eq!(gutter_width(10), 4);
    assert_eq!(gutter_width(999), 5);
    assert_eq!(gutter_width(12345), 7);
    assert_eq!(content_width(80, 3), 76);
    assert_eq!(content_width(3, 3), 0);
}
