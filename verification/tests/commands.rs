use pcode::buffer::LineStyle;
use pcode::commands::{
    config_lines, find_buffer_lines, indented_lines, parse_command, search_banner, search_buffer_lines,
    write_target, ReplCommand, SkillsArg,
};

fn s(x: &str) -> String {
    x.to_string()
}

fn texts(ls: &[pcode::buffer::BufferLine]) -> Vec<String> {
    ls.iter().map(|l| l.content()).collect()
}

#[test]
fn commands_parse() {
    assert_eq!(parse_command("  q "), ReplCommand::Quit);
    assert_eq!(parse_command("exit"), ReplCommand::Quit);
    assert_eq!(parse_command("e src/a.rs"), ReplCommand::Open(s("src/a.rs")));
    assert_eq!(parse_command("open"), ReplCommand::Open(s("")));
    assert_eq!(parse_command("sed a b c"), ReplCommand::Sed(s("a b c")));
    assert_eq!(parse_command("w"), ReplCommand::Write(s("")));
    assert_eq!(parse_command("ssave"), ReplCommand::SessionSave(s("default")));
    assert_eq!(parse_command("sload work"), ReplCommand::SessionLoad(s("work")));
    assert_eq!(parse_command("rm old"), ReplCommand::Delete(s("old")));
    assert_eq!(parse_command("rg  two spaces"), ReplCommand::Rg(s(" two spaces")));
    assert_eq!(parse_command("find *.rs"), ReplCommand::Fd(s("*.rs")));
    assert_eq!(parse_command("ls"), ReplCommand::Ls(s(".")));
    assert_eq!(parse_command("cls"), ReplCommand::Clear);
    assert_eq!(parse_command("bd"), ReplCommand::CloseBuffer);
    assert_eq!(parse_command("frobnicate now"), ReplCommand::Unknown(s("frobnicate")));
}

#[test]
fn skills_arguments() {
    assert_eq!(parse_command("skills"), ReplCommand::Skills(SkillsArg::Popup));
    assert_eq!(parse_command("skills next"), ReplCommand::Skills(SkillsArg::Next));
    assert_eq!(parse_command("skills toggle"), ReplCommand::Skills(SkillsArg::Toggle));
    assert_eq!(parse_command("skills 2"), ReplCommand::Skills(SkillsArg::Index(2)));
    assert_eq!(parse_command("skills edit"), ReplCommand::Skills(SkillsArg::Name(s("edit"))));
}

#[test]
fn write_targets() {
    assert_eq!(write_target("out.txt", "rg"), "out.txt");
    assert_eq!(write_target("", "rg"), "rg_results.txt");
    assert_eq!(write_target("", "Chat"), "chat.md");
    assert_eq!(write_target("", ""), "chat.md");
    assert_eq!(write_target("", "src/a.rs*"), "src/a.rs");
}

#[test]
fn search_output_with_headings() {
    let out = "src/a.rs\n3:let x = 1;\n\nsrc/b.rs\n007:y\n";
    let ls = search_buffer_lines(out);
    assert_eq!(
        texts(&ls),
        vec![s("src/a.rs"), s("3:let x = 1;"), s(""), s("src/b.rs"), s("7:y"), s("  [5 lines]")]
    );
    assert_eq!(ls[0].segments[0].1, LineStyle::ToolResult);
    assert_eq!(ls[1].segments[0], (s("3"), LineStyle::Info));
    assert_eq!(ls[1].segments[1], (s(":"), LineStyle::Dim));
    assert_eq!(ls[5].segments[0].1, LineStyle::Dim);
}

#[test]
fn search_output_in_grep_form() {
    let out = "./a.rs:2:x:y\nnoise\n./b.rs:10:z";
    let ls = search_buffer_lines(out);
    assert_eq!(texts(&ls), vec![s("./a.rs:2:x:y"), s("./b.rs:10:z"), s("  [3 lines]")]);
    assert_eq!(ls[0].segments.len(), 5);
    assert_eq!(ls[0].segments[4], (s("x:y"), LineStyle::Plain));
    let none = search_buffer_lines("");
    assert_eq!(texts(&none), vec![s("  No matches found"), s("  [0 lines]")]);
}

#[test]
fn find_output() {
    let ls = find_buffer_lines("./src/a.rs\n\n././b.rs\n");
    assert_eq!(texts(&ls), vec![s("src/a.rs"), s("b.rs"), s("  [3 files]")]);
    let many: String = (0..1005).map(|i| format!("f{}\n", i)).collect();
    let ls = find_buffer_lines(&many);
    assert_eq!(ls.len(), 1001);
    assert_eq!(ls[999].content(), "f999");
    assert_eq!(ls[1000].content(), "  [1005 files]");
    assert_eq!(texts(&find_buffer_lines("")), vec![s("  No matches found"), s("  [0 files]")]);
}

#[test]
fn banners_and_listings() {
    assert_eq!(search_banner("rg", "foo").content(), "  🔍 rg: foo");
    assert_eq!(texts(&indented_lines("a\nb")), vec![s("    a"), s("    b")]);
    let c = config_lines("http://x", "m", 30, true, 8);
    assert_eq!(
        texts(&c),
        vec![
            s("  ⚙️  Config:"),
            s("    base_url: http://x"),
            s("    model: m"),
            s("    timeout: 30s"),
            s("    auto_verify: true"),
            s("    max_rounds: 8"),
        ]
    );
}

#[test]
fn help_table_layout() {
    let ls = pcode::commands::help_lines();
    let t: Vec<String> = ls.iter().map(|l| l.content()).collect();
    assert_eq!(t[0], "  pcode — Vim-Modal Commands");
    assert_eq!(t[1], "");
    assert_eq!(t[2], format!("  {:<22} {}", ":q / :quit", "Exit the REPL"));
    assert_eq!(t.len(), 2 + 24 + 2 + 18 + 2 + 7);
    assert_eq!(t[26], "");
    assert_eq!(t[27], "  Normal mode keys:");
    assert_eq!(t[29], format!("  {:<22} {}", ": / >", "Enter Command mode"));
    assert_eq!(t[t.len() - 1], format!("  {:<22} {}", "Esc", "Back to Normal mode"));
    assert_eq!(ls[27].segments[0].1, LineStyle::Info);
}

#[test]
fn welcome_text() {
    let ls = pcode::commands::welcome_lines();
    assert_eq!(ls.len(), 20);
    assert_eq!(ls[0].content(), "pcode — vim-modal patch REPL");
    assert_eq!(ls[4].segments[0].1, LineStyle::Tool);
    assert_eq!(ls[19].content(), "");
}
