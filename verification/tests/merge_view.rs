use pcode::keymap::{Key, Modifiers};
use pcode::merge_view::{
    cursor_after_undo, delete_line, edge_down, edge_up, find_line, may_quit, merge_key, merge_patch_text,
    next_candidate, no_match_exec, open_line, page_down, page_up, pane_down, pane_up, prev_hunk,
    range_after_delete, range_after_open, right_rows_len, set_end, set_start, skip_hunk, MatchRange, MergeKey,
    Panes,
};

const PLAIN: Modifiers = Modifiers { ctrl: false, alt: false, meta: false, shift: false };
const CTRL: Modifiers = Modifiers { ctrl: true, alt: false, meta: false, shift: false };
const META: Modifiers = Modifiers { ctrl: false, alt: false, meta: true, shift: false };

fn r(start: usize, end: usize, cursor: usize) -> MatchRange {
    MatchRange { start, end, cursor }
}

fn s(x: &str) -> String {
    x.to_string()
}

#[test]
fn marks_set_block_edges() {
    assert_eq!(set_start(r(2, 5, 7)), r(7, 8, 7));
    assert_eq!(set_start(r(2, 5, 3)), r(3, 5, 3));
    assert_eq!(set_end(r(6, 9, 3)), r(3, 4, 3));
    assert_eq!(set_end(r(2, 5, 7)), r(2, 8, 7));
}

#[test]
fn nearer_edge_moves() {
    assert_eq!(edge_down(r(2, 10, 3)), r(3, 10, 3));
    assert_eq!(edge_down(r(2, 10, 8)), r(2, 11, 10));
    assert_eq!(edge_down(r(2, 3, 2)), r(3, 4, 3));
    assert_eq!(edge_up(r(2, 10, 3)), r(1, 10, 1));
    assert_eq!(edge_up(r(2, 10, 8)), r(2, 9, 8));
    assert_eq!(edge_up(r(0, 10, 0)), r(0, 10, 0));
    assert_eq!(edge_up(edge_down(r(4, 9, 5))), r(4, 9, 4));
}

#[test]
fn block_follows_line_edits() {
    assert_eq!(range_after_delete(r(5, 8, 0), 2), r(4, 7, 0));
    assert_eq!(range_after_delete(r(5, 8, 0), 6), r(5, 7, 0));
    assert_eq!(range_after_delete(r(5, 6, 0), 5), r(5, 6, 0));
    assert_eq!(range_after_delete(r(5, 8, 0), 9), r(5, 8, 0));
    assert_eq!(range_after_open(r(5, 8, 2)), r(6, 9, 2));
    assert_eq!(range_after_open(r(5, 8, 6)), r(5, 9, 6));
    assert_eq!(range_after_open(r(5, 8, 9)), r(5, 8, 9));
    let a = r(5, 8, 6);
    assert_eq!(range_after_delete(range_after_open(a), 7), a);
}

#[test]
fn hunk_pane_rows() {
    assert_eq!(right_rows_len(2, 3), 8);
    assert_eq!(right_rows_len(25, 20), 44);
}

#[test]
fn panes_move() {
    let p = Panes { left_active: false, cursor: 4, cursor_col: 1, file_scroll: 2, right_cursor: 6, scroll: 0 };
    assert_eq!(pane_down(p, 8).right_cursor, 7);
    assert_eq!(pane_down(pane_down(p, 8), 8).right_cursor, 7);
    assert_eq!(pane_up(p).right_cursor, 5);
    let pd = page_down(p, 10, 8);
    assert_eq!((pd.scroll, pd.right_cursor), (10, 7));
    let pu = page_up(p, 10);
    assert_eq!((pu.scroll, pu.right_cursor), (0, 0));
    let l = Panes { left_active: true, ..p };
    assert_eq!(pane_down(l, 8).cursor, 5);
    assert_eq!(pane_up(Panes { cursor: 0, ..l }).cursor, 0);
    let ld = page_down(l, 10, 8);
    assert_eq!((ld.file_scroll, ld.cursor), (12, 14));
    let lu = page_up(l, 3);
    assert_eq!((lu.file_scroll, lu.cursor), (0, 1));
}

#[test]
fn candidates_and_hunks_cycle() {
    let c = vec![(1, 3), (7, 9)];
    assert_eq!(next_candidate(0, &c), Some((1, 7, 9)));
    assert_eq!(next_candidate(1, &c), Some((0, 1, 3)));
    assert_eq!(next_candidate(0, &vec![]), None);
    assert_eq!(prev_hunk(0), None);
    assert_eq!(prev_hunk(3), Some(2));
    assert_eq!(skip_hunk(2, 3), Some(0));
    assert_eq!(skip_hunk(0, 1), None);
}

#[test]
fn line_search_wraps() {
    let f = vec![s("a"), s("b  "), s("c"), s("b")];
    assert_eq!(find_line(&f, 2, "b"), Some(3));
    assert_eq!(find_line(&f, 4, "b \t"), Some(1));
    assert_eq!(find_line(&f, 0, "z"), None);
    assert_eq!(find_line(&f, 9, "a"), Some(0));
}

#[test]
fn delete_and_open_lines() {
    assert_eq!(delete_line("a\nb\nc\n", 1), Some((s("a\nc\n"), 1, 2)));
    assert_eq!(delete_line("a\nb", 9), Some((s("a"), 1, 1)));
    assert_eq!(delete_line("only\n", 0), Some((s(""), 0, 0)));
    assert_eq!(delete_line("", 0), None);
    assert_eq!(open_line("a\nb\n", 0), (s("a\n\nb\n"), 1));
    assert_eq!(open_line("a\nb", 5), (s("a\nb\n"), 2));
}

#[test]
fn patch_text_uses_matched_block() {
    let f = vec![s("x"), s("y"), s("z")];
    let search = vec![s("old")];
    let replace = vec![s("n1"), s("n2")];
    assert_eq!(
        merge_patch_text(&f, 1, 3, &search, &replace),
        "<<<<<<< SEARCH\ny\nz\n=======\nn1\nn2\n>>>>>>> REPLACE"
    );
    let none = no_match_exec();
    assert_eq!(
        merge_patch_text(&f, none, none, &search, &replace),
        "<<<<<<< SEARCH\nold\n=======\nn1\nn2\n>>>>>>> REPLACE"
    );
}

#[test]
fn cursor_follows_match_after_undo() {
    let none = no_match_exec();
    assert_eq!(cursor_after_undo(10, 8, 5, 100), 7);
    assert_eq!(cursor_after_undo(1, 8, 5, 100), 0);
    assert_eq!(cursor_after_undo(0, none, 5, 100), 5);
    assert_eq!(cursor_after_undo(3, none, 5, 100), 3);
    assert_eq!(cursor_after_undo(30, none, none, 10), 9);
    assert_eq!(cursor_after_undo(30, none, none, 0), 0);
}

#[test]
fn quitting_with_pending_changes() {
    assert!(may_quit(&vec![false, false], false, true));
    assert!(!may_quit(&vec![false, true], false, true));
    assert!(!may_quit(&vec![], true, true));
    assert!(may_quit(&vec![true], true, false));
}

#[test]
fn merge_keys() {
    assert_eq!(merge_key(Key::Char('j'), CTRL, false, false, true), MergeKey::Ignore);
    assert_eq!(merge_key(Key::Char('o'), CTRL, false, false, true), MergeKey::OpenEditor);
    assert_eq!(merge_key(Key::Char('Q'), META, false, false, true), MergeKey::TryQuit);
    assert_eq!(merge_key(Key::Char('d'), META, false, false, true), MergeKey::DeleteLine);
    assert_eq!(merge_key(Key::Char('d'), META, false, false, false), MergeKey::Nothing);
    assert_eq!(merge_key(Key::Char('w'), META, false, false, true), MergeKey::Save);
    assert_eq!(merge_key(Key::Char('a'), PLAIN, false, true, true), MergeKey::CloseHelp);
    assert_eq!(merge_key(Key::Char('a'), PLAIN, true, false, true), MergeKey::SetStart);
    assert_eq!(merge_key(Key::Char('A'), PLAIN, true, false, true), MergeKey::SetEnd);
    assert_eq!(merge_key(Key::Char('x'), PLAIN, true, false, true), MergeKey::DropMark);
    assert_eq!(merge_key(Key::Char('a'), PLAIN, false, false, true), MergeKey::Apply);
    assert_eq!(merge_key(Key::Char('%'), PLAIN, false, false, false), MergeKey::Nothing);
    assert_eq!(merge_key(Key::Char('='), PLAIN, false, false, true), MergeKey::EdgeDown);
    assert_eq!(merge_key(Key::F(9), PLAIN, false, false, true), MergeKey::ToggleBufferMode);
    assert_eq!(merge_key(Key::Enter, PLAIN, false, false, false), MergeKey::FindLine);
}
