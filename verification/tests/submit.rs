use pcode::agent::default_skill_groups;
use pcode::submit::{submission, Submission};

fn s(x: &str) -> String {
    x.to_string()
}

#[test]
fn empty_input_cancels() {
    let g = default_skill_groups();
    assert_eq!(submission("   ", None, 0, true, &g), Submission::Cancelled { had_snippet: false });
    assert_eq!(submission("", Some("snip"), 0, true, &g), Submission::Cancelled { had_snippet: true });
}

#[test]
fn colon_input_is_a_command() {
    let g = default_skill_groups();
    assert_eq!(submission("::w  out.txt ", None, 3, true, &g), Submission::Command(s("w  out.txt")));
    assert_eq!(submission(":q", Some("x"), 3, true, &g), Submission::Send(s("x\n\n:q")));
}

#[test]
fn code_request_in_chat_mode() {
    let g = default_skill_groups();
    assert_eq!(
        submission("Fix the parser", None, 0, true, &g),
        Submission::AutoSwitch { index: 6, name: s("Code"), text: s("Fix the parser") }
    );
    assert_eq!(submission("fix it", None, 0, false, &g), Submission::Blocked(s("fix it")));
    assert_eq!(submission("fix it", None, 2, false, &g), Submission::Send(s("fix it")));
    assert_eq!(submission("explain this", None, 0, false, &g), Submission::Send(s("explain this")));
}

#[test]
fn code_group_index_falls_back() {
    let mut g = default_skill_groups();
    g.truncate(3);
    assert_eq!(
        submission("add a test", None, 0, true, &g),
        Submission::AutoSwitch { index: 2, name: g[2].name.clone(), text: s("add a test") }
    );
    let none: Vec<pcode::agent::SkillGroup> = Vec::new();
    assert_eq!(
        submission("add a test", None, 0, true, &none),
        Submission::AutoSwitch { index: 0, name: s(""), text: s("add a test") }
    );
}
