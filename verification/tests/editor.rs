use pcode::editor::LineEditor;

fn typed(s: &str) -> LineEditor {
    let mut e = LineEditor::new();
    for c in s.chars() {
        e.insert_char(c);
    }
    e
}

#[test]
fn typing_and_editing() {
    let mut e = typed("héllo");
    assert_eq!(e.content(), "héllo");
    assert_eq!(e.cursor_display_col(), 5);
    e.move_left();
    e.backspace();
    assert_eq!(e.content(), "hélo");
    e.move_home();
    e.delete();
    assert_eq!(e.content(), "élo");
    e.move_end();
    e.insert_char('!');
    assert_eq!(e.content(), "élo!");
    e.clear();
    assert!(e.is_empty());
}

#[test]
fn submit_records_history_once() {
    let mut e = typed("one");
    assert_eq!(e.submit(), "one");
    assert!(e.is_empty());
    let mut e2 = e;
    for c in "one".chars() {
        e2.insert_char(c);
    }
    e2.submit();
    for c in "   ".chars() {
        e2.insert_char(c);
    }
    e2.submit();
    assert_eq!(e2.history_to_save(), vec!["one".to_string()]);
}

#[test]
fn history_search_by_prefix() {
    let mut e = LineEditor::new();
    e.set_history(&vec!["git status".to_string(), "ls".to_string(), "git log".to_string()]);
    for c in "git".chars() {
        e.insert_char(c);
    }
    e.history_up();
    assert_eq!(e.content(), "git log");
    e.history_up();
    assert_eq!(e.content(), "git status");
    e.history_up();
    assert_eq!(e.content(), "git status");
    e.history_down();
    assert_eq!(e.content(), "git log");
    e.history_down();
    assert_eq!(e.content(), "git");
}

#[test]
fn tab_completion() {
    let mut e = typed("sa");
    e.tab_complete(&["save", "saveas", "load"]);
    assert_eq!(e.content(), "save");
    let mut f = typed("lo");
    f.tab_complete(&["save", "load"]);
    assert_eq!(f.content(), "load");
    let mut g = typed("x");
    g.tab_complete(&["save"]);
    assert_eq!(g.content(), "x");
}

#[test]
fn kills() {
    let mut e = typed("foo bar baz");
    e.kill_word_back();
    assert_eq!(e.content(), "foo bar ");
    e.move_left();
    e.move_left();
    e.kill_to_end();
    assert_eq!(e.content(), "foo ba");
    e.kill_to_start();
    assert_eq!(e.content(), "");
    let mut s = typed("   ");
    s.kill_word_back();
    assert_eq!(s.content(), "");
}

#[test]
fn history_file_lines_and_cap() {
    let mut e = LineEditor::new();
    let text: String = (0..510).map(|i| format!("  cmd{}  \n\n", i)).collect();
    e.append_history_lines(&text);
    let saved = e.history_to_save();
    assert_eq!(saved.len(), 500);
    assert_eq!(saved[0], "cmd10");
    assert_eq!(saved[499], "cmd509");
}

#[test]
fn history_down_undoes_history_up() {
    let mut e = LineEditor::new();
    for s in ["cargo build", "cargo test", "ls"] {
        for c in s.chars() {
            e.insert_char(c);
        }
        e.submit();
    }
    for c in "car".chars() {
        e.insert_char(c);
    }
    e.history_up();
    assert_eq!(e.content(), "cargo test");
    e.history_down();
    assert_eq!(e.content(), "car");
    assert_eq!(e.cursor_display_col(), 3);
}
