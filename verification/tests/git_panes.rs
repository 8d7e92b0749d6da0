use pcode::diffrows::DiffRow;
use pcode::git_panes::{
    changed_files, clipboard_content, gdiff_scroll, pane_split, short_hash_of, GdiffState, GlogAction,
    GlogState,
};
use pcode::keymap::Key;

fn commits() -> Vec<String> {
    vec![
        "a1b2c3d4e5 first".to_string(),
        "0f0f0f0f0f second".to_string(),
        "1234567890 third".to_string(),
    ]
}

#[test]
fn glog_short_hash_is_seven_bytes() {
    assert_eq!(short_hash_of("a1b2c3d4e5f6"), "a1b2c3d");
    assert_eq!(short_hash_of("abc"), "abc");
    // Seven bytes that end inside a character: the whole text.
    assert_eq!(short_hash_of("abcdefé"), "abcdefé");
    assert_eq!(short_hash_of("abcdeé"), "abcdeé");
    assert_eq!(short_hash_of("abcdeéxyz"), "abcdeé");
}

#[test]
fn glog_moves_and_resets_right_pane() {
    let mut g = GlogState::new();
    let c = commits();
    g.key(&c, Key::Tab, 20);
    assert!(!g.left_active());
    g.key(&c, Key::Char('j'), 20);
    g.key(&c, Key::Down, 20);
    assert_eq!(g.right_cursor(), 2);
    g.key(&c, Key::Tab, 20);
    g.key(&c, Key::Char('j'), 20);
    assert_eq!(g.left_cursor(), 1);
    assert_eq!(g.right_cursor(), 0);
    g.key(&c, Key::PageDown, 20);
    assert_eq!(g.left_cursor(), 2);
    g.key(&c, Key::Char('j'), 20);
    assert_eq!(g.left_cursor(), 2);
    g.key(&c, Key::PageUp, 20);
    assert_eq!(g.left_cursor(), 0);
    g.key(&c, Key::Char('k'), 20);
    assert_eq!(g.left_cursor(), 0);
}

#[test]
fn glog_space_picks_and_unpicks() {
    let mut g = GlogState::new();
    let c = commits();
    assert_eq!(g.key(&c, Key::Char(' '), 20), GlogAction::Stay);
    assert_eq!(g.selected(), &vec!["a1b2c3d".to_string()]);
    assert_eq!(g.left_cursor(), 1);
    g.key(&c, Key::Char('k'), 20);
    g.key(&c, Key::Char(' '), 20);
    assert!(g.selected().is_empty());
}

#[test]
fn glog_copy_and_quit() {
    let mut g = GlogState::new();
    let c = commits();
    assert_eq!(g.key(&c, Key::Char('c'), 20), GlogAction::NothingSelected);
    g.key(&c, Key::Char(' '), 20);
    assert_eq!(g.key(&c, Key::Char('c'), 20), GlogAction::CopySelected);
    g.clear_selected();
    assert!(g.selected().is_empty());
    assert_eq!(g.key(&c, Key::Char('q'), 20), GlogAction::ToNormal);
    assert_eq!(g.key(&c, Key::Esc, 20), GlogAction::ToNormal);
}

#[test]
fn glog_changed_files_once_each() {
    let outs = vec!["\nsrc/a.rs\nsrc/b.rs\n".to_string(), "src/b.rs\r\n  src/c.rs  \n".to_string()];
    assert_eq!(changed_files(&outs), vec!["src/a.rs", "src/b.rs", "src/c.rs"]);
}

#[test]
fn glog_clipboard_text() {
    let names = vec!["a.rs".to_string(), "b.rs".to_string(), "c.rs".to_string()];
    let contents = vec![Some("fn a() {}\n".to_string()), Some("fn b() {}".to_string()), None];
    assert_eq!(
        clipboard_content(&names, &contents),
        "// a.rs\nfn a() {}\n// b.rs\nfn b() {}\n// c.rs\n<failed to read file>\n"
    );
}

fn rows() -> Vec<DiffRow> {
    vec![
        DiffRow::Equal("a".to_string()),
        DiffRow::Delete("b".to_string()),
        DiffRow::Equal("c".to_string()),
        DiffRow::Equal("d".to_string()),
        DiffRow::Insert("e".to_string()),
        DiffRow::Equal("f".to_string()),
    ]
}

#[test]
fn gdiff_jumps_between_changes() {
    let r = rows();
    let mut s = GdiffState { left_active: true, cursor: 0 };
    assert!(!s.key(&r, Key::Char('l'), 20));
    assert_eq!(s.cursor, 1);
    s.key(&r, Key::Char('l'), 20);
    assert_eq!(s.cursor, 4);
    s.key(&r, Key::Char('l'), 20);
    assert_eq!(s.cursor, 4);
    s.key(&r, Key::Char('h'), 20);
    assert_eq!(s.cursor, 1);
    s.key(&r, Key::Char('h'), 20);
    assert_eq!(s.cursor, 1);
}

#[test]
fn gdiff_moves_and_pages() {
    let r = rows();
    let mut s = GdiffState { left_active: true, cursor: 0 };
    s.key(&r, Key::Char('j'), 4);
    assert_eq!(s.cursor, 1);
    s.key(&r, Key::PageDown, 4);
    assert_eq!(s.cursor, 3);
    s.key(&r, Key::Char(' '), 4);
    assert_eq!(s.cursor, 5);
    s.key(&r, Key::Char('j'), 4);
    assert_eq!(s.cursor, 5);
    s.key(&r, Key::PageUp, 4);
    assert_eq!(s.cursor, 3);
    s.key(&r, Key::Up, 4);
    assert_eq!(s.cursor, 2);
    s.key(&r, Key::Tab, 4);
    assert!(!s.left_active);
    assert!(s.key(&r, Key::Char('q'), 4));
}

#[test]
fn gdiff_scroll_keeps_cursor_visible() {
    assert_eq!(gdiff_scroll(0, 0, 100, 10), 0);
    assert_eq!(gdiff_scroll(0, 15, 100, 10), 6);
    assert_eq!(gdiff_scroll(20, 5, 100, 10), 5);
    assert_eq!(gdiff_scroll(95, 92, 100, 10), 90);
}

#[test]
fn panes_split_widths() {
    assert_eq!(pane_split(100, true), (60, 59, 39));
    assert_eq!(pane_split(100, false), (40, 39, 59));
    assert_eq!(pane_split(0, true), (0, 0, 0));
}
