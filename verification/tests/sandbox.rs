use nas_rs::sandbox::{check_path, sanitize_checked, sanitize_path, sanitize_path_enum};

// A root that does not exist on disk: joining under it can never hit a
// symbolic link, so the screening rules alone decide.
const ROOT: &str = "/tmp/nas_rs_missing_root";

#[test]
fn rejects_parent_traversal() {
    assert!(sanitize_path("../secret", ROOT).is_none());
}

#[test]
fn rejects_absolute_path() {
    assert!(sanitize_path("/etc/passwd", ROOT).is_none());
}

#[test]
fn rejects_backslash_prefix() {
    assert!(sanitize_path("\\windows", ROOT).is_none());
}

#[test]
fn rejects_inner_dot_and_dotdot() {
    assert!(sanitize_path("a/./b", ROOT).is_none());
    assert!(sanitize_path("a/../b", ROOT).is_none());
    assert!(sanitize_path("a/..", ROOT).is_none());
    assert!(sanitize_path("./a", ROOT).is_none());
}

#[test]
fn resolves_plain_path_under_root() {
    let p = sanitize_path("a/b/c", ROOT).expect("plain relative path passes");
    assert_eq!(p.as_str(), "/tmp/nas_rs_missing_root/a/b/c");
}

#[test]
fn accepts_names_that_merely_contain_dots() {
    assert!(sanitize_path("a.txt", ROOT).is_some());
    assert!(sanitize_path("..a", ROOT).is_some());
    assert!(sanitize_path("a..", ROOT).is_some());
    assert!(sanitize_path("...", ROOT).is_some());
    assert!(sanitize_path("a\\b", ROOT).is_some());
}

#[test]
fn empty_path_is_the_root() {
    let p = sanitize_path("", ROOT).expect("empty path passes");
    assert_eq!(p.as_str(), ROOT);
}

#[test]
fn dot_is_rejected_outside_enumeration() {
    assert!(sanitize_path(".", ROOT).is_none());
}

#[test]
fn dot_is_the_root_alias_for_enumeration() {
    let p = sanitize_path_enum(".", ROOT).expect("the alias always resolves");
    assert_eq!(p.as_str(), ROOT);
}

#[test]
fn enumeration_defers_to_the_common_rules_otherwise() {
    assert!(sanitize_path_enum("../secret", ROOT).is_none());
    let p = sanitize_path_enum("sub", ROOT).expect("plain path passes");
    assert_eq!(p.as_str(), "/tmp/nas_rs_missing_root/sub");
}

#[test]
fn symlink_leaf_is_rejected() {
    assert!(sanitize_checked("a", ROOT, true).is_none());
    let p = sanitize_checked("a", ROOT, false).expect("no symlink, plain path");
    assert_eq!(p.as_str(), "/tmp/nas_rs_missing_root/a");
}

#[test]
fn screening_alone() {
    assert!(check_path("a/b"));
    assert!(check_path("a//b"));
    assert!(check_path(""));
    assert!(!check_path("."));
    assert!(!check_path(".."));
    assert!(!check_path("/a"));
    assert!(!check_path("\\a"));
    assert!(!check_path("a/."));
}
