use pcode::editor::LineEditor;
use pcode::insert_mode::{insert_key, offer_skills, skill_candidates, type_str, Completion, InsertAction, SkillDir};
use pcode::keymap::{Key, Modifiers};

const PLAIN: Modifiers = Modifiers { ctrl: false, alt: false, meta: false, shift: false };
const CTRL: Modifiers = Modifiers { ctrl: true, alt: false, meta: false, shift: false };
const ALT: Modifiers = Modifiers { ctrl: false, alt: true, meta: false, shift: false };
const SHIFT: Modifiers = Modifiers { ctrl: false, alt: false, meta: false, shift: true };

fn typed(s: &str) -> LineEditor {
    let mut e = LineEditor::new();
    type_str(&mut e, s);
    e
}

#[test]
fn insert_mode_typing_and_editing() {
    let mut e = LineEditor::new();
    let mut c = Completion::new();
    for ch in "hi".chars() {
        assert_eq!(insert_key(&mut e, &mut c, Key::Char(ch), PLAIN), InsertAction::Nothing);
    }
    insert_key(&mut e, &mut c, Key::Backspace, PLAIN);
    assert_eq!(e.content(), "h");
    insert_key(&mut e, &mut c, Key::Char('a'), CTRL);
    insert_key(&mut e, &mut c, Key::Char('x'), PLAIN);
    assert_eq!(e.content(), "xh");
    insert_key(&mut e, &mut c, Key::Char('k'), CTRL);
    assert_eq!(e.content(), "x");
    insert_key(&mut e, &mut c, Key::Char('u'), CTRL);
    assert_eq!(e.content(), "");
}

#[test]
fn enter_submits_and_shift_enter_breaks_line() {
    let mut e = typed("ask");
    let mut c = Completion::new();
    assert_eq!(insert_key(&mut e, &mut c, Key::Enter, SHIFT), InsertAction::Nothing);
    assert_eq!(e.content(), "ask\n");
    assert_eq!(insert_key(&mut e, &mut c, Key::Enter, PLAIN), InsertAction::Submit("ask\n".to_string()));
    assert_eq!(e.content(), "");
}

#[test]
fn escape_and_paste() {
    let mut e = LineEditor::new();
    let mut c = Completion::new();
    assert_eq!(insert_key(&mut e, &mut c, Key::Esc, PLAIN), InsertAction::ToNormal);
    assert_eq!(insert_key(&mut e, &mut c, Key::Char('V'), ALT), InsertAction::PasteFromClipboard);
}

#[test]
fn skill_completion_cycles() {
    let mut e = typed("/re");
    let mut c = Completion::new();
    assert_eq!(insert_key(&mut e, &mut c, Key::Tab, PLAIN), InsertAction::LookUpSkills("re".to_string()));
    let cands = vec!["/refactor".to_string(), "/review".to_string()];
    assert_eq!(offer_skills(&mut e, &mut c, "re", cands), InsertAction::Nothing);
    assert_eq!(e.content(), "/refactor");
    assert!(c.active);
    assert_eq!(insert_key(&mut e, &mut c, Key::Tab, PLAIN), InsertAction::LookUpSkills("refactor".to_string()));
    let mut e2 = typed("/re");
    let mut c2 = Completion { active: true, candidates: vec!["/refactor".to_string(), "/review".to_string()], prefix: "re".to_string(), idx: 0 };
    insert_key(&mut e2, &mut c2, Key::Tab, PLAIN);
    assert_eq!(e2.content(), "/review");
    assert_eq!(c2.idx, 1);
    assert_eq!(insert_key(&mut e2, &mut c2, Key::Right, PLAIN), InsertAction::SkillPopup);
    assert_eq!(e2.content(), "/review ");
    let mut e3 = typed("/zz");
    let mut c3 = Completion::new();
    assert_eq!(offer_skills(&mut e3, &mut c3, "zz", vec![]), InsertAction::NoSkillFound);
    assert_eq!(e3.content(), "/zz");
    assert_eq!(insert_key(&mut typed("no slash"), &mut Completion::new(), Key::Tab, PLAIN), InsertAction::Nothing);
}

#[test]
fn skill_directories_filtered_and_sorted() {
    let d = |n: &str, dir: bool, md: bool| SkillDir { name: n.to_string(), is_dir: dir, has_skill_md: md };
    let es = vec![d("review", true, true), d("refactor", true, true), d("readme.md", false, false), d("rebase", true, false), d("zap", true, true)];
    assert_eq!(skill_candidates(&es, "re"), vec!["/refactor".to_string(), "/review".to_string()]);
    assert_eq!(skill_candidates(&es, ""), vec!["/refactor".to_string(), "/review".to_string(), "/zap".to_string()]);
}

#[test]
fn command_line_keys() {
    use_command_line();
}

fn use_command_line() {
    let mut e = LineEditor::new();
    for ch in "wor".chars() {
        assert_eq!(pcode::insert_mode::command_line_key(&mut e, Key::Char(ch), PLAIN), pcode::insert_mode::CommandLineAction::Nothing);
    }
    pcode::insert_mode::command_line_key(&mut e, Key::Tab, PLAIN);
    assert_eq!(e.content(), "workflow");
    assert_eq!(
        pcode::insert_mode::command_line_key(&mut e, Key::Enter, PLAIN),
        pcode::insert_mode::CommandLineAction::Execute("workflow".to_string())
    );
    let mut one = typed("q");
    assert_eq!(pcode::insert_mode::command_line_key(&mut one, Key::Backspace, PLAIN), pcode::insert_mode::CommandLineAction::ToNormal);
    let mut esc = typed("abc");
    assert_eq!(pcode::insert_mode::command_line_key(&mut esc, Key::Esc, PLAIN), pcode::insert_mode::CommandLineAction::ToNormal);
    assert_eq!(esc.content(), "");
}
