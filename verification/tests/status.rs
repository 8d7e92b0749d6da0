use pcode::agent::{default_skill_groups, AgentEvent, SkillSelection};
use pcode::buffer::TermColor;
use pcode::mode::Mode;
use pcode::status::{detail_label, fit_width, git_summary, skill_label, status_segments, StatusInput};

fn input() -> StatusInput {
    StatusInput {
        mode: Mode::Normal,
        pending: None,
        waiting: false,
        spinner: '|',
        elapsed: "1.5".to_string(),
        last_event: None,
        buffer_name: "Chat".to_string(),
        modified: false,
        active_buffer: 0,
        buffer_count: 2,
        git_info: String::new(),
        model: "m".to_string(),
        api_type: "openai".to_string(),
        status_error: None,
        file_picker_loc: (0, 0),
    }
}

fn texts(v: &[(String, TermColor)]) -> Vec<String> {
    v.iter().map(|x| x.0.clone()).collect()
}

#[test]
fn width_fitting_cuts_with_ellipsis() {
    assert_eq!(fit_width("short", 20), "short");
    assert_eq!(fit_width("abcdefghijklmnopqrstuvwxyz", 20), "abcdefghijklmnopq...");
    assert_eq!(fit_width("日本語日本語日本語日本語", 20), "日本語日本語日本...");
}

#[test]
fn agent_detail_texts() {
    assert_eq!(detail_label(&Some(AgentEvent::Thinking { round: 2, max_rounds: 10 })), "Think 2/10");
    assert_eq!(detail_label(&Some(AgentEvent::RunningTool { name: "grep".to_string() })), "Run grep");
    assert_eq!(detail_label(&Some(AgentEvent::Verifying)), "Verify");
    let long = format!("{}\nsecond", "x".repeat(40));
    assert_eq!(
        detail_label(&Some(AgentEvent::ToolCall { name: "t".to_string(), summary: long })),
        "x".repeat(30)
    );
    assert_eq!(detail_label(&Some(AgentEvent::Done)), "Wait");
    assert_eq!(detail_label(&None), "Wait");
}

#[test]
fn skill_label_clamps_and_warns() {
    let mut s = SkillSelection::new(default_skill_groups());
    s.active_skill_group = 99;
    assert_eq!(skill_label(Some(&s)), format!("{} {}", s.skill_groups[7].emoji, "Full"));
    assert_eq!(skill_label(None), "⚠️ Working...");
}

#[test]
fn idle_status_bar() {
    let mut st = input();
    st.modified = true;
    st.git_info = "main +2".to_string();
    st.file_picker_loc = (3, 120);
    let segs = status_segments(&st, None);
    assert_eq!(
        texts(&segs),
        vec![
            " NORMAL ", "[1/2] ", "[+] ", "Chat", " │ ", "⚠️ Working...", " │ ", "m", "[openai]", " │ ",
            "[C-o] EDITOR [Ins] PastePatchCode", " main +2 ", " │ ", "📁 3f 120 LOC",
        ]
    );
    assert_eq!(segs[0].1, TermColor::Cyan);
    assert_eq!(segs[2].1, TermColor::Red);
    st.status_error = Some("boom".to_string());
    assert_eq!(texts(&status_segments(&st, None))[10], "boom ");
}

#[test]
fn waiting_status_bar() {
    let mut st = input();
    st.waiting = true;
    st.mode = Mode::Insert;
    st.pending = Some('g');
    st.last_event = Some(AgentEvent::Verifying);
    let s = SkillSelection::new(default_skill_groups());
    let segs = status_segments(&st, Some(&s));
    let chat = format!("{} Chat", s.skill_groups[0].emoji);
    assert_eq!(
        texts(&segs),
        vec![" | ", "LLM(g)", " [1/2]  ", "Chat ", " ⏳ 1.5s", " │ ", "Verify", " │ ", chat.as_str(), " │ ", "m", "[openai]"]
    );
}

#[test]
fn git_summary_counts_added_lines_and_hunks() {
    assert_eq!(git_summary(None), "");
    assert_eq!(git_summary(Some(&vec![' ', '~', ' '])), "");
    assert_eq!(git_summary(Some(&vec!['+', '+', ' ', '+', '~', '+', '+'])), "│ +5 (3h)");
}
