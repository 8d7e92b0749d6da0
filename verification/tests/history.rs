use pcode::history::MergeHistory;

#[test]
fn pop_gives_back_what_was_pushed() {
    let mut h = MergeHistory::new();
    assert!(!h.any_undo_available());
    h.push_undo("a.rs", "v1");
    h.push_undo("a.rs", "v2");
    h.push_undo("b.rs", "w1");
    assert_eq!(h.undo_stack_len("a.rs"), 2);
    assert_eq!(h.undo_stack_len("b.rs"), 1);
    assert!(h.any_undo_available());
    assert_eq!(h.pop_undo("a.rs"), Some("v2".to_string()));
    assert_eq!(h.pop_undo("a.rs"), Some("v1".to_string()));
    assert_eq!(h.pop_undo("a.rs"), None);
    assert_eq!(h.undo_stack_len("a.rs"), 0);
    assert!(h.any_undo_available());
    assert_eq!(h.pop_undo("b.rs"), Some("w1".to_string()));
    assert!(!h.any_undo_available());
}

#[test]
fn unknown_file_has_no_history() {
    let mut h = MergeHistory::new();
    assert_eq!(h.undo_stack_len("x"), 0);
    assert_eq!(h.pop_undo("x"), None);
    assert_eq!(h.get_last_applied_range("x"), None);
}

#[test]
fn applied_range_is_set_read_and_cleared() {
    let mut h = MergeHistory::new();
    h.set_last_applied_range("a.rs", 3, 7);
    h.set_last_applied_range("b.rs", 1, 2);
    assert_eq!(h.get_last_applied_range("a.rs"), Some((3, 7)));
    h.set_last_applied_range("a.rs", 4, 9);
    assert_eq!(h.get_last_applied_range("a.rs"), Some((4, 9)));
    h.clear_last_applied_range("a.rs");
    assert_eq!(h.get_last_applied_range("a.rs"), None);
    assert_eq!(h.get_last_applied_range("b.rs"), Some((1, 2)));
}
