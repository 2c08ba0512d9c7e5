//! Tests of the pure path, name and diff-matching logic, with no repository.

use gitbrowse::{name_projection, pair_branches, pair_tags, split_at_last_slash, touches, NameWithId};

#[test]
fn split_plain_name() {
    let (prefix, name) = split_at_last_slash("Cargo.toml");
    assert_eq!(prefix, "");
    assert_eq!(name, "Cargo.toml");
}

#[test]
fn split_nested_path() {
    let (prefix, name) = split_at_last_slash("src/inner/lib.rs");
    assert_eq!(prefix, "src/inner/");
    assert_eq!(name, "lib.rs");
}

#[test]
fn split_trailing_slash() {
    let (prefix, name) = split_at_last_slash("dir/");
    assert_eq!(prefix, "dir/");
    assert_eq!(name, "");
}

#[test]
fn split_empty() {
    let (prefix, name) = split_at_last_slash("");
    assert_eq!(prefix, "");
    assert_eq!(name, "");
}

#[test]
fn tag_pairing_strips_and_skips() {
    let raw = vec![
        (Some("refs/tags/release-1.0".to_string()), "a1".to_string()),
        (None, "b2".to_string()),
        (Some("refs/tags/v2".to_string()), "c3".to_string()),
    ];
    let tags = pair_tags(&raw);
    assert_eq!(tags.len(), 2);
    assert_eq!(tags[0].name, "release-1.0");
    assert_eq!(tags[0].commit_id, "a1");
    assert_eq!(tags[1].name, "v2");
    assert_eq!(tags[1].commit_id, "c3");
}

#[test]
fn branch_pairing_skips_incomplete() {
    let raw = vec![
        (Some("main".to_string()), Some("a1".to_string())),
        (None, Some("b2".to_string())),
        (Some("broken".to_string()), None),
        (Some("dev".to_string()), Some("d4".to_string())),
    ];
    let branches = pair_branches(&raw);
    assert_eq!(branches.len(), 2);
    assert_eq!(branches[0].name, "main");
    assert_eq!(branches[0].commit_id, "a1");
    assert_eq!(branches[1].name, "dev");
    assert_eq!(branches[1].commit_id, "d4");
}

#[test]
fn name_projection_keeps_order() {
    let v = vec![
        NameWithId { name: "main".to_string(), commit_id: "a1".to_string() },
        NameWithId { name: "dev".to_string(), commit_id: "b2".to_string() },
    ];
    assert_eq!(name_projection(&v), vec!["main".to_string(), "dev".to_string()]);
}

#[test]
fn touches_is_exact_match_only() {
    let target = "src/lib.rs".to_string();
    let paths = vec![
        Some("src/lib.rs.bak".to_string()),
        Some("lib.rs".to_string()),
        None,
        Some("src/lib".to_string()),
    ];
    assert!(!touches(&paths, &target));
    let paths2 = vec![None, Some("src/lib.rs".to_string())];
    assert!(touches(&paths2, &target));
    let empty: Vec<Option<String>> = Vec::new();
    assert!(!touches(&empty, &target));
}
