use pcode::buffer::{BufferLine, LineStyle};
use pcode::debug::{separator, DebugLog};
use pcode::fmt::{decimal_string, hex16};
use pcode::misc::{command_list, format_hms, format_hms_compact, get_timestamp, highlight_search, highlight_segments, splice_line, unquote};
use pcode::mode::{Mode, PopupMode};

#[test]
fn number_formatting() {
    assert_eq!(decimal_string(0), "0");
    assert_eq!(decimal_string(1234567890), "1234567890");
    assert_eq!(hex16(255), "00000000000000ff");
    assert_eq!(hex16(u64::MAX), "ffffffffffffffff");
}

#[test]
fn clock_formatting() {
    assert_eq!(format_hms(0), "00:00:00");
    assert_eq!(format_hms(86399), "23:59:59");
    assert_eq!(format_hms(86400 + 3661), "01:01:01");
    assert_eq!(format_hms_compact(3661), "010101");
    let ts = get_timestamp();
    assert_eq!(ts.len(), 8);
    assert_eq!(&ts[2..3], ":");
}

#[test]
fn search_highlighting_is_case_insensitive() {
    assert_eq!(highlight_search("Foo foo", "foo"), "\x1b[43;30;1mFoo\x1b[0m \x1b[43;30;1mfoo\x1b[0m");
    assert_eq!(highlight_search("abc", "x"), "abc");
}

#[test]
fn segments_highlight_pattern() {
    let s = highlight_segments("a-b-a", "a", LineStyle::Plain, LineStyle::Error, "+ ", LineStyle::Info);
    let texts: Vec<&str> = s.iter().map(|x| x.0.as_str()).collect();
    assert_eq!(texts, vec!["+ ", "a", "-b-", "a"]);
    assert_eq!(s[1].1, LineStyle::Error);
    assert_eq!(s[2].1, LineStyle::Plain);
    let e = highlight_segments("abc", "", LineStyle::Plain, LineStyle::Error, "", LineStyle::Info);
    assert_eq!(e.len(), 2);
}

#[test]
fn quotes_are_stripped() {
    assert_eq!(unquote("  \"a b\" "), "a b");
    assert_eq!(unquote("'x'"), "x");
    assert_eq!(unquote("\"x'"), "\"x'");
    assert_eq!(unquote("\""), "\"");
}

#[test]
fn splicing_keeps_styles() {
    let line = BufferLine::from_segments(vec![("abc".to_string(), LineStyle::Plain), ("def".to_string(), LineStyle::Error)]);
    let out = splice_line(&line, 2, 4);
    assert_eq!(out.content(), "abef");
    assert_eq!(out.segments.len(), 2);
    assert_eq!(out.segments[1].1, LineStyle::Error);
}

#[test]
fn separator_lines() {
    assert_eq!(separator(""), "─".repeat(72));
    assert_eq!(separator("CALL"), format!("\n{} CALL {}", "─".repeat(33), "─".repeat(33)));
    assert_eq!(separator("abc"), format!("\n{} abc {}", "─".repeat(33), "─".repeat(34)));
}

#[test]
fn mode_labels() {
    assert_eq!(Mode::Insert.as_str(), "LLM");
    assert_eq!(Mode::VisualLine.as_str(), "VISUAL-LINE");
    assert!(PopupMode::WhichKey != PopupMode::Message);
    assert_eq!(command_list().len(), 35);
}

#[test]
fn debug_log_writes_only_when_on() {
    let mut d = DebugLog::new();
    assert!(!d.is_debug());
    assert_eq!(d.dbg_msg("hello"), None);
    let long = "x".repeat(100);
    assert_eq!(d.section(&long), None);
    d.set_debug(true);
    assert!(d.is_debug());
    assert_eq!(d.dbg_msg("hello"), Some("hello".to_string()));
    assert_eq!(d.section("CALL"), Some(format!("\n{} CALL {}", "─".repeat(33), "─".repeat(33))));
    d.set_debug(false);
    assert_eq!(d.dbg_msg("x"), None);
}
