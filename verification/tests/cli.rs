use pcode::cli::{changed_rust_files, fzf_choices, help_text, parse_args, patch_template, CliStep};

fn args(v: &[&str]) -> Vec<String> {
    v.iter().map(|s| s.to_string()).collect()
}

#[test]
fn no_arguments_start_the_repl() {
    assert_eq!(parse_args(&args(&[])), vec![CliStep::Run]);
}

#[test]
fn config_and_todo_are_collected_before_the_repl() {
    let r = parse_args(&args(&["-c", "my.toml", "--todo", "todo.md"]));
    assert_eq!(
        r,
        vec![
            CliStep::SetConfig("my.toml".to_string()),
            CliStep::SetPrompt("Do the todo: todo.md".to_string()),
            CliStep::Run,
        ]
    );
}

#[test]
fn missing_config_argument_fails() {
    let r = parse_args(&args(&["--config"]));
    assert_eq!(r, vec![CliStep::Fail("Error: Missing argument for -c".to_string())]);
}

#[test]
fn missing_todo_argument_fails() {
    let r = parse_args(&args(&["--pb", "--todo"]));
    assert_eq!(
        r,
        vec![CliStep::UseClipboard, CliStep::Fail("Error: Missing argument for --todo".to_string())]
    );
}

#[test]
fn fastpatch_defaults_to_todo_md() {
    assert_eq!(
        parse_args(&args(&["--fastpatch"])),
        vec![CliStep::SetTarget("todo.md".to_string()), CliStep::Run]
    );
    assert_eq!(
        parse_args(&args(&["--fastpatch", "impl.md"])),
        vec![CliStep::SetTarget("impl.md".to_string()), CliStep::Run]
    );
}

#[test]
fn quickswitch_takes_the_rest() {
    let r = parse_args(&args(&["--pb", "-q", "a", "--help"]));
    assert_eq!(
        r,
        vec![CliStep::UseClipboard, CliStep::QuickSwitch(vec!["a".to_string(), "--help".to_string()])]
    );
    assert_eq!(parse_args(&args(&["-s"])), vec![CliStep::Sync(vec![])]);
}

#[test]
fn help_and_patch_end_the_arguments() {
    assert_eq!(parse_args(&args(&["help", "-c", "x.toml"])), vec![CliStep::Help]);
    assert_eq!(parse_args(&args(&["-p", "--pb"])), vec![CliStep::PatchTemplate]);
}

#[test]
fn fmt_edition_is_checked() {
    assert_eq!(parse_args(&args(&["--fmt", "2018"])), vec![CliStep::Format("2018".to_string())]);
    assert_eq!(parse_args(&args(&["--fmt", "2019"])), vec![CliStep::Format("2021".to_string())]);
    assert_eq!(parse_args(&args(&["--fmt"])), vec![CliStep::Format("2021".to_string())]);
}

#[test]
fn toml_file_is_a_config_other_files_are_opened() {
    let r = parse_args(&args(&["custom.toml", "src/main.rs", "--fzf"]));
    assert_eq!(
        r,
        vec![
            CliStep::SetConfig("custom.toml".to_string()),
            CliStep::SetPrompt(":open src/main.rs".to_string()),
            CliStep::PickTarget,
            CliStep::Run,
        ]
    );
}

#[test]
fn only_rust_files_are_formatted() {
    let r = changed_rust_files("src/a.rs\nREADME.md\nsrc/b.rs\n");
    assert_eq!(r, vec!["src/a.rs".to_string(), "src/b.rs".to_string()]);
    assert!(changed_rust_files("").is_empty());
}

#[test]
fn picker_lists_bug_files_then_the_usual_ones() {
    let names = args(&["bug1.md", "bug.md", "bug12.md", "notes.md", "bugs", "todo.md"]);
    assert_eq!(fzf_choices(&names), "bug1.md\nbug12.md\ntodo.md\ntemp.md\nimpl.md");
    assert_eq!(fzf_choices(&args(&["buga.md"])), "buga.md\ntodo.md\ntemp.md\nimpl.md");
}

#[test]
fn texts_are_the_usage_and_the_format() {
    assert!(help_text().starts_with("pcode — vim-modal patch REPL\n\nUsage:"));
    assert!(help_text().ends_with("Show this help message"));
    assert!(patch_template().contains("<<<<<<< SEARCH"));
    assert!(patch_template().ends_with(">>>>>>> REPLACE\n```"));
}
