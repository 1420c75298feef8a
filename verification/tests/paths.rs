use archive_sync::paths::{apply, project_dir_name};

fn path(parts: &[&str]) -> Vec<String> {
    parts.iter().map(|p| p.to_string()).collect()
}

#[test]
fn stripping_every_component_skips_the_member() {
    assert_eq!(apply(&path(&["wrapper"]), 1), None);
    assert_eq!(apply(&path(&["a", "b"]), 2), None);
    assert_eq!(apply(&path(&["a", "b"]), 3), None);
    assert_eq!(apply(&path(&["a", "b"]), usize::MAX), None);
}

#[test]
fn stripping_nothing_keeps_the_path() {
    assert_eq!(apply(&path(&["a"]), 0), Some(path(&["a"])));
    assert_eq!(apply(&path(&["a", "b", "c"]), 0), Some(path(&["a", "b", "c"])));
}

#[test]
fn an_empty_path_is_always_skipped() {
    assert_eq!(apply(&path(&[]), 0), None);
    assert_eq!(apply(&path(&[]), 1), None);
}

#[test]
fn stripping_drops_leading_components() {
    assert_eq!(apply(&path(&["wrapper", "file.txt"]), 1), Some(path(&["file.txt"])));
    assert_eq!(apply(&path(&["a", "b", "c", "d"]), 2), Some(path(&["c", "d"])));
    assert_eq!(apply(&path(&["a", "b", "c", "d"]), 3), Some(path(&["d"])));
}

#[test]
fn project_dir_name_is_the_last_segment() {
    assert_eq!(project_dir_name("a/b/c"), "c");
    assert_eq!(project_dir_name("group/app"), "app");
    assert_eq!(project_dir_name("/x"), "x");
}

#[test]
fn project_dir_name_falls_back_on_a_trailing_slash() {
    assert_eq!(project_dir_name("a/b/"), "a/b/");
    assert_eq!(project_dir_name("/"), "/");
}

#[test]
fn project_dir_name_without_slash_is_the_name() {
    assert_eq!(project_dir_name("solo"), "solo");
    assert_eq!(project_dir_name(""), "");
}

#[test]
fn project_dir_name_counts_characters_not_bytes() {
    assert_eq!(project_dir_name("gruppe/größe"), "größe");
    assert_eq!(project_dir_name("日本/語"), "語");
}
