use pcode::config::{
    default_api_type, default_base_url, default_cargo_check_cooldown, default_daemon_url, default_exec_timeout,
    default_exec_type, default_max_rounds, default_model, default_num_ctx, default_param_type, default_timeout,
    default_true, is_disabled, join_path_exec, AppConfig, ReplConfig,
};

#[test]
fn defaults() {
    assert_eq!(default_daemon_url(), "http://127.0.0.1:7890");
    assert_eq!(default_base_url(), "http://localhost:11434");
    assert_eq!(default_model(), "qwen3:32b");
    assert_eq!(default_api_type(), "openai");
    assert_eq!(default_timeout(), 120);
    assert_eq!(default_cargo_check_cooldown(), 10);
    assert!(default_true());
    assert_eq!(default_param_type(), "string");
    assert_eq!(default_exec_type(), "shell");
    assert_eq!(default_exec_timeout(), 30);
    assert_eq!(default_max_rounds(), 15);
    assert_eq!(default_num_ctx(), 65536);
}

#[test]
fn repl_files_under_config_dir() {
    let r = ReplConfig::default_in("/home/u/.config");
    assert_eq!(r.history_file, "/home/u/.config/pcode/history.txt");
    assert_eq!(r.command_history_file, "/home/u/.config/pcode/cmd_history.txt");
    assert_eq!(r.sessions_dir, "/home/u/.config/pcode/sessions");
    assert_eq!(join_path_exec("/a/", "b"), "/a/b");
    assert_eq!(join_path_exec("", "b"), "b");
}

#[test]
fn disabled_tools() {
    let mut c = AppConfig::default_in("/c");
    assert!(!is_disabled(&c, "codex_eyes_sed"));
    c.tools.disabled = vec![("codex_eyes_sed".to_string(), true), ("apply_patch".to_string(), false)];
    assert!(is_disabled(&c, "codex_eyes_sed"));
    assert!(!is_disabled(&c, "apply_patch"));
    assert_eq!(c.server.model, "qwen3:32b");
}
