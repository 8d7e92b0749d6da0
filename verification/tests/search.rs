use pcode::editor::LineEditor;
use pcode::keymap::{Key, Modifiers};
use pcode::search::{find_matches, search_key, SearchState};

const PLAIN: Modifiers = Modifiers { ctrl: false, alt: false, meta: false, shift: false };
const CTRL: Modifiers = Modifiers { ctrl: true, alt: false, meta: false, shift: false };

fn buffer() -> Vec<String> {
    vec![
        "fn main() {".to_string(),
        "    println!(\"Hello\");".to_string(),
        "}".to_string(),
        "// HELLO again".to_string(),
    ]
}

#[test]
fn search_finds_lines_ignoring_case() {
    assert_eq!(find_matches(&buffer(), "hello"), vec![1, 3]);
    assert_eq!(find_matches(&buffer(), "HeLLo"), vec![1, 3]);
    assert_eq!(find_matches(&buffer(), "main"), vec![0]);
    assert_eq!(find_matches(&buffer(), "absent"), Vec::<usize>::new());
}

#[test]
fn search_update_jumps_to_first_match() {
    let mut s = SearchState::new();
    assert_eq!(s.update(&buffer(), "hello"), Some(1));
    assert_eq!(s.current(), Some(0));
    assert_eq!(s.query(), Some("hello".to_string()));
    assert_eq!(s.matches(), &vec![1, 3]);
}

#[test]
fn search_same_matches_keep_position() {
    let mut s = SearchState::new();
    s.update(&buffer(), "hell");
    assert_eq!(s.next_match(), Some(3));
    // A longer query that finds the same lines keeps the current match.
    assert_eq!(s.update(&buffer(), "hello"), None);
    assert_eq!(s.current(), Some(1));
}

#[test]
fn search_empty_query_clears() {
    let mut s = SearchState::new();
    s.update(&buffer(), "hello");
    assert_eq!(s.update(&buffer(), ""), None);
    assert_eq!(s.query(), None);
    assert_eq!(s.current(), None);
    assert!(s.matches().is_empty());
}

#[test]
fn search_no_match_has_no_current() {
    let mut s = SearchState::new();
    assert_eq!(s.update(&buffer(), "zzz"), None);
    assert_eq!(s.current(), None);
    assert_eq!(s.next_match(), None);
    assert_eq!(s.prev_match(), None);
}

#[test]
fn search_next_and_prev_wrap() {
    let mut s = SearchState::new();
    s.update(&buffer(), "hello");
    assert_eq!(s.next_match(), Some(3));
    assert_eq!(s.next_match(), Some(1));
    assert_eq!(s.prev_match(), Some(3));
    assert_eq!(s.prev_match(), Some(1));
}

#[test]
fn search_prev_then_next_returns() {
    let mut s = SearchState::new();
    s.update(&buffer(), "o");
    let start = s.current();
    s.prev_match();
    s.next_match();
    assert_eq!(s.current(), start);
}

#[test]
fn search_key_typing_runs_search() {
    let mut e = LineEditor::new();
    let mut s = SearchState::new();
    let lines = buffer();
    let r = search_key(&mut e, &mut s, &lines, Key::Char('('), PLAIN);
    assert!(!r.to_normal);
    assert_eq!(r.target, Some(0));
    assert_eq!(s.matches(), &vec![0, 1]);
    let r = search_key(&mut e, &mut s, &lines, Key::Backspace, PLAIN);
    assert!(r.to_normal);
    assert_eq!(r.target, None);
    assert_eq!(s.query(), None);
}

#[test]
fn search_key_escape_and_enter_leave() {
    let mut e = LineEditor::new();
    let mut s = SearchState::new();
    let lines = buffer();
    search_key(&mut e, &mut s, &lines, Key::Char('x'), PLAIN);
    let r = search_key(&mut e, &mut s, &lines, Key::Esc, PLAIN);
    assert!(r.to_normal);
    assert!(e.is_empty());
    search_key(&mut e, &mut s, &lines, Key::Char('m'), PLAIN);
    let r = search_key(&mut e, &mut s, &lines, Key::Enter, PLAIN);
    assert!(r.to_normal);
    assert!(e.is_empty());
    assert_eq!(s.query(), Some("m".to_string()));
}

#[test]
fn search_key_ctrl_edits_without_search() {
    let mut e = LineEditor::new();
    let mut s = SearchState::new();
    let lines = buffer();
    search_key(&mut e, &mut s, &lines, Key::Char('a'), PLAIN);
    search_key(&mut e, &mut s, &lines, Key::Char('b'), PLAIN);
    let r = search_key(&mut e, &mut s, &lines, Key::Char('u'), CTRL);
    assert!(!r.to_normal);
    assert_eq!(r.target, None);
    assert_eq!(e.content(), "");
    // The search still holds the last query.
    assert_eq!(s.query(), Some("ab".to_string()));
}
