use pcode::access::{decide_access, is_blocked_component, path_contains_blocked_dir, resolve_path, Guard};
use pcode::fastpatch::{path_contains_blocked_dir as patch_blocked, validate_path};

#[test]
fn blocked_components() {
    assert!(is_blocked_component("target"));
    assert!(is_blocked_component(".git"));
    assert!(is_blocked_component(".hidden"));
    assert!(is_blocked_component("node_modules"));
    assert!(!is_blocked_component("src"));
    assert!(!is_blocked_component("targets"));
}

#[test]
fn blocked_directories_in_paths() {
    assert!(path_contains_blocked_dir("/p/target/debug/x"));
    assert!(path_contains_blocked_dir("dist/app.js"));
    assert!(!path_contains_blocked_dir("/p/src/main.rs"));
    // the patcher's rule is narrower than the tools' one
    assert!(!patch_blocked("dist/app.js"));
    assert!(patch_blocked("vendor/x.rs"));
    assert!(patch_blocked("a/.cargo/config"));
}

#[test]
fn path_under_root_is_allowed() {
    let r = resolve_path("src/main.rs", "/p", Ok("/p/src/main.rs".to_string()), &vec![]);
    assert_eq!(r, Ok("/p/src/main.rs".to_string()));
}

#[test]
fn raw_path_into_blocked_dir_is_refused_first() {
    let r = resolve_path("target/x", "/p", Err("should not be reached".to_string()), &vec![]);
    assert_eq!(
        r,
        Err("🚫 Access denied: 'target/x' is inside a blocked directory (target, .git, node_modules, etc.)".to_string())
    );
    let r2 = validate_path("target/x", "/p", Err("unused".to_string()), &vec![]);
    assert_eq!(r2, Err("🚫 Access denied: 'target/x' is inside a blocked directory".to_string()));
}

#[test]
fn failure_to_resolve_target_is_passed_on() {
    let r = resolve_path("src/x", "/p", Err("Parent directory does not exist for 'src/x'".to_string()), &vec![]);
    assert_eq!(r, Err("Parent directory does not exist for 'src/x'".to_string()));
}

#[test]
fn path_outside_root_is_refused() {
    let r = resolve_path("/etc/passwd", "/p", Ok("/etc/passwd".to_string()), &vec![]);
    assert_eq!(
        r,
        Err("🚫 Access denied: '/etc/passwd' is outside the project root (/p) and not in allow_paths".to_string())
    );
}

#[test]
fn allowed_root_admits_path() {
    let allowed = vec![None, Some("/shared".to_string())];
    let r = resolve_path("/shared/lib.rs", "/p", Ok("/shared/lib.rs".to_string()), &allowed);
    assert_eq!(r, Ok("/shared/lib.rs".to_string()));
}

#[test]
fn symlink_into_blocked_dir_is_refused() {
    let r = decide_access(Guard::Tools, "link", "/p", Ok("/p/target/x".to_string()), &vec![]);
    assert_eq!(r, Err("🚫 Access denied: 'link' is inside a blocked directory".to_string()));
}

#[test]
fn prefix_is_by_whole_components() {
    let r = resolve_path("/pp/x", "/p", Ok("/pp/x".to_string()), &vec![]);
    assert!(r.is_err());
}
