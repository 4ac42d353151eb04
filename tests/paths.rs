use tome::paths::{
    is_absolute, join_path, parent_of, path_components, resolve_symlink_target, same_path_text,
    starts_with, symlink_points_to,
};

#[test]
fn resolve_absolute_target_unchanged() {
    let result = resolve_symlink_target("/some/link", "/absolute/target");
    assert_eq!(result, "/absolute/target");
}

#[test]
fn resolve_relative_target_against_parent() {
    let result = resolve_symlink_target("/lib/skills/my-skill", "../../sources/my-skill");
    assert_eq!(result, "/lib/skills/../../sources/my-skill");
}

#[test]
fn resolve_relative_target_of_bare_link() {
    assert_eq!(resolve_symlink_target("link", "target"), "target");
    assert_eq!(resolve_symlink_target("/", "x"), "/x");
}

#[test]
fn components_ignore_repeated_separators_and_dots() {
    assert_eq!(path_components("/a//b/./c/"), vec!["a", "b", "c"]);
    assert_eq!(path_components("a/../b"), vec!["a", "..", "b"]);
    assert!(path_components("/").is_empty());
}

#[test]
fn same_path_compares_components() {
    assert!(same_path_text("/a/b/", "/a//b"));
    assert!(!same_path_text("/a/b", "a/b"));
    assert!(!same_path_text("/a/../b", "/b"));
}

#[test]
fn starts_with_is_by_component() {
    assert!(starts_with("/lib/skills/x", "/lib/skills"));
    assert!(starts_with("/lib/skills", "/lib/skills/"));
    assert!(!starts_with("/lib/skillset/x", "/lib/skills"));
    assert!(!starts_with("lib/skills/x", "/lib/skills"));
}

#[test]
fn parent_and_join() {
    assert_eq!(parent_of("/a/b/c"), Some("/a/b".to_string()));
    assert_eq!(parent_of("/a"), Some("/".to_string()));
    assert_eq!(parent_of("/"), None);
    assert_eq!(join_path("/a", "b"), "/a/b");
    assert_eq!(join_path("/a/", "b"), "/a/b");
    assert_eq!(join_path("/a", "/b"), "/b");
    assert!(is_absolute("/x") && !is_absolute("x"));
}

#[test]
fn symlink_points_to_matches_absolute() {
    let c = Some("/tmp/src/skill".to_string());
    assert!(symlink_points_to("/tmp/lib/skill", "/tmp/src/skill", &c, "/tmp/src/skill", &c));
}

#[test]
fn symlink_points_to_matches_relative() {
    let c = Some("/tmp/sources/skill".to_string());
    assert!(symlink_points_to("/tmp/library/skill", "../sources/skill", &c, "/tmp/sources/skill", &c));
}

#[test]
fn symlink_points_to_detects_mismatch() {
    let a = Some("/tmp/a".to_string());
    let b = Some("/tmp/b".to_string());
    assert!(!symlink_points_to("/tmp/link", "/tmp/a", &a, "/tmp/b", &b));
}

#[test]
fn symlink_points_to_falls_back_when_dangling() {
    assert!(symlink_points_to("/lib/x", "/gone/x", &None, "/gone/x/", &None));
    assert!(!symlink_points_to("/lib/x", "/gone/x", &None, "/gone/y", &None));
    assert!(symlink_points_to("/lib/x", "gone", &None, "/lib/gone", &Some("/real".to_string())));
}
