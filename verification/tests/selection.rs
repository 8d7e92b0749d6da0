use pcode::buffer::{LineStyle, ResponseBuffer};
use pcode::keymap::{Key, Modifiers};
use pcode::selection::{delete_selection, grabbed_lines, selection_text, visual_key, VisualAction};

const PLAIN: Modifiers = Modifiers { ctrl: false, alt: false, meta: false, shift: false };
const CTRL: Modifiers = Modifiers { ctrl: true, alt: false, meta: false, shift: false };

fn s(x: &str) -> String {
    x.to_string()
}

fn texts(b: &ResponseBuffer) -> Vec<String> {
    b.lines().iter().map(|l| l.content()).collect()
}

fn buf(text: &str) -> ResponseBuffer {
    let mut b = ResponseBuffer::new();
    b.push_str(text, LineStyle::Plain);
    b
}

#[test]
fn selection_text_charwise() {
    let t = vec![s("hello world"), s("second"), s("third line")];
    assert_eq!(selection_text(&t, (0, 6), (0, 10), false), "world");
    assert_eq!(selection_text(&t, (0, 10), (0, 6), false), "world");
    assert_eq!(selection_text(&t, (0, 6), (2, 2), false), "world\nsecond\nthi");
    assert_eq!(selection_text(&t, (2, 2), (0, 6), false), "world\nsecond\nthi");
    assert_eq!(selection_text(&t, (0, 50), (0, 60), false), "");
    assert_eq!(selection_text(&t, (1, 0), (9, 0), false), "second\nthird line\n");
}

#[test]
fn selection_text_linewise() {
    let t = vec![s("a"), s("b"), s("c")];
    assert_eq!(selection_text(&t, (2, 0), (1, 0), true), "b\nc\n");
    assert_eq!(selection_text(&t, (5, 0), (7, 0), true), "");
}

#[test]
fn delete_linewise_selection() {
    let mut b = buf("a\nb\nc\nd");
    delete_selection(&mut b, (2, 0), (1, 0), true);
    assert_eq!(texts(&b), vec![s("a"), s("d")]);
    assert_eq!(b.cursor_line(), 1);
    let mut e = buf("a\nb");
    delete_selection(&mut e, (1, 0), (1, 0), true);
    assert_eq!(texts(&e), vec![s("a")]);
    assert_eq!(e.cursor_line(), 0);
}

#[test]
fn delete_charwise_selection() {
    let mut b = buf("hello world\nsecond\nthird line");
    delete_selection(&mut b, (0, 5), (2, 5), false);
    assert_eq!(texts(&b), vec![s("hello"), s("line")]);
    assert_eq!((b.cursor_line(), b.cursor_col()), (0, 4));
    assert!(b.undo());
    assert_eq!(texts(&b), vec![s("hello world"), s("second"), s("third line"), s("hello"), s("line")]);
    let mut one = buf("abc");
    delete_selection(&mut one, (0, 0), (0, 2), false);
    assert!(texts(&one).is_empty());
}

#[test]
fn visual_keys() {
    assert_eq!(visual_key(Key::Char('c'), CTRL, false), VisualAction::Exit);
    assert_eq!(visual_key(Key::Char('f'), CTRL, false), VisualAction::HalfPageDown);
    assert_eq!(visual_key(Key::Char('w'), PLAIN, false), VisualAction::Right);
    assert_eq!(visual_key(Key::Char('g'), PLAIN, false), VisualAction::PendingG);
    assert_eq!(visual_key(Key::Char('g'), PLAIN, true), VisualAction::Top);
    assert_eq!(visual_key(Key::Char('x'), PLAIN, false), VisualAction::Delete);
    assert_eq!(visual_key(Key::Char('>'), PLAIN, false), VisualAction::GrabToChat);
    assert_eq!(visual_key(Key::Char('q'), PLAIN, false), VisualAction::Nothing);
}

#[test]
fn grabbed_text_is_fenced() {
    let ls = grabbed_lines("fn a()\n{}");
    let t: Vec<String> = ls.iter().map(|l| l.content()).collect();
    assert_eq!(t, vec![s("```"), s("fn a()"), s("{}"), s("```")]);
    assert_eq!(ls[1].segments[0].1, LineStyle::Dim);
}
