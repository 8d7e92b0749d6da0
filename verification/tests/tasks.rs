use pcode::task::{parse_u32_exec, Task};

fn names(v: &[&str]) -> Vec<String> {
    v.iter().map(|s| s.to_string()).collect()
}

#[test]
fn task_id_and_time_from_seconds() {
    // 13:05:09 UTC
    let secs = 13 * 3600 + 5 * 60 + 9;
    let t = Task::new_at(secs, 7, "Title", "desc", "plan");
    assert_eq!(t.id, "task_130509_0007");
    assert_eq!(t.created_at, "13:05:09");
    assert_eq!(t.status, "active");
    assert!(t.steps.is_empty());
    let big = Task::new_at(secs + 86400, 12345, "T", "", "");
    assert_eq!(big.id, "task_130509_12345");
}

#[test]
fn next_sequence_number_from_directory_names() {
    // the number is read from the fourth `_`-separated piece of a name
    let n = names(&["task_130509_0001", "task_130509_0004"]);
    assert_eq!(Task::next_seq(&n, "130509"), 1);
    let m = names(&["task_130509_a_0007", "task_130509_b_0003", "task_120000_c_0009", "task_130509_d_x", "other"]);
    assert_eq!(Task::next_seq(&m, "130509"), 8);
    assert_eq!(Task::next_seq(&names(&[]), "130509"), 1);
    assert_eq!(Task::next_seq(&names(&["task_130509_x_+0010"]), "130509"), 11);
}

#[test]
fn u32_parsing_like_std() {
    let p = |s: &str| parse_u32_exec(&s.chars().collect::<Vec<char>>());
    assert_eq!(p("42"), Some(42));
    assert_eq!(p("+7"), Some(7));
    assert_eq!(p("0004"), Some(4));
    assert_eq!(p("4294967295"), Some(u32::MAX));
    assert_eq!(p("4294967296"), None);
    assert_eq!(p(""), None);
    assert_eq!(p("+"), None);
    assert_eq!(p("-1"), None);
    assert_eq!(p("12a"), None);
    for s in ["0", "17", "+3", "99999999999", "1x", " 1"] {
        assert_eq!(p(s), s.parse::<u32>().ok());
    }
}

#[test]
fn steps_are_numbered_and_logged() {
    let mut t = Task::new_at(0, 1, "T", "", "p");
    assert_eq!(t.changes_log(), None);
    t.add_step_at(3600 + 61, "sed", "src/a.rs", "rename", true);
    t.add_step_at(7200, "verify", "cargo", "check", false);
    assert_eq!(t.steps.len(), 2);
    assert_eq!(t.steps[1].step, 2);
    assert_eq!(t.steps[0].timestamp, "01:01:01");
    assert_eq!(
        t.changes_log(),
        Some("[01:01:01] Step 1: sed → src/a.rs | rename | ✅\n[02:00:00] Step 2: verify → cargo | check | ❌".to_string())
    );
}

#[test]
fn complete_abort_and_context() {
    let mut t = Task::new_at(0, 2, "Fix", "d", "1. do it");
    t.add_step("sed", "x", "y", true);
    assert!(t.steps[0].timestamp.len() == 8);
    assert_eq!(
        t.context_note(),
        "\n\n<active_task>\nID: task_000000_0002\nTitle: Fix\nStatus: active\nSteps: 1\nPlan:\n1. do it\n</active_task>"
    );
    t.complete();
    assert_eq!(t.status, "done");
    t.abort();
    assert_eq!(t.status, "aborted");
    assert_eq!(Task::dir_base(), ".impl");
}
