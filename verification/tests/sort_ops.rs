use lms::file_ops::Dir;
use lms::paths::{join_path, path_depth, strip_prefix};
use lms::sort::sort_files;

#[test]
fn no_dir() {
    let no_dir: Vec<Dir> = Vec::new();
    assert_eq!(sort_files(no_dir), Vec::<Dir>::new());
}

#[test]
fn file_ops_single_dir() {
    let dir = Dir::from("/");
    let single_dir = vec![Dir::from("/")];
    let expected = vec![dir];
    assert_eq!(sort_files(single_dir), expected);
}

#[test]
fn multi_dir_unique() {
    let dir1 = Dir::from("/");
    let dir2 = Dir::from("/a");
    let dir3 = Dir::from("/a/b");
    let multi_dir = vec![Dir::from("/"), Dir::from("/a"), Dir::from("/a/b")];
    let expected = vec![dir3, dir2, dir1];
    assert_eq!(sort_files(multi_dir), expected);
}

#[test]
fn multi_dir() {
    let dir1 = Dir::from("/");
    let multi_dir = vec![Dir::from("/"), Dir::from("/a/c"), Dir::from("/a/b")];
    let expected = vec![Dir::from("/a/c"), Dir::from("/a/b"), dir1];
    assert_eq!(sort_files(multi_dir).get(2).unwrap(), &expected[2]);
}

#[test]
fn depth_ordered_deletion_chain() {
    let dirs = vec![
        Dir::from("a"),
        Dir::from("a/b"),
        Dir::from("a/b/c"),
        Dir::from("d"),
    ];
    let sorted = sort_files(dirs);
    let pos = |name: &str| {
        sorted
            .iter()
            .position(|d| d == &Dir::from(name))
            .unwrap()
    };
    assert!(pos("a/b/c") < pos("a/b"));
    assert!(pos("a/b") < pos("a"));
    assert_eq!(sorted.len(), 4);
}

#[test]
fn depth_counts_components() {
    assert_eq!(path_depth(""), 0);
    assert_eq!(path_depth("/"), 1);
    assert_eq!(path_depth("/usr"), 2);
    assert_eq!(path_depth("/usr/bin"), 3);
    assert_eq!(path_depth("/etc"), 2);
    assert_eq!(path_depth("a"), 1);
    assert_eq!(path_depth("a/b"), 2);
    assert_eq!(path_depth("a//b"), 2);
    assert_eq!(path_depth("a/b/"), 2);
}

#[test]
fn join_resolves_relative_paths() {
    assert_eq!(join_path("base", "rel"), "base/rel");
    assert_eq!(join_path("base/", "rel"), "base/rel");
    assert_eq!(join_path("", "rel"), "rel");
    assert_eq!(join_path("base", ""), "base/");
}

#[test]
fn strip_prefix_normalizes_scanned_paths() {
    assert_eq!(strip_prefix("a/b/c", "a"), Some(String::from("b/c")));
    assert_eq!(strip_prefix("root/x", "root"), Some(String::from("x")));
    assert_eq!(strip_prefix("a", "a"), None);
    assert_eq!(strip_prefix("ab/c", "a"), None);
    assert_eq!(strip_prefix("b/c", "a"), None);
}

#[test]
fn strip_prefix_accepts_roots_ending_in_a_separator() {
    assert_eq!(strip_prefix("src/foo", "src/"), Some(String::from("foo")));
    assert_eq!(strip_prefix("a/b/c", "a/"), Some(String::from("b/c")));
    assert_eq!(strip_prefix("a/", "a/"), None);
    assert_eq!(strip_prefix("foo", ""), Some(String::from("foo")));
    assert_eq!(strip_prefix("", ""), None);
}

#[test]
fn strip_prefix_inverts_join_path() {
    let joined = join_path("base", "x/y");
    assert_eq!(strip_prefix(&joined, "base"), Some(String::from("x/y")));
    let joined_slash = join_path("base/", "x");
    assert_eq!(strip_prefix(&joined_slash, "base/"), Some(String::from("x")));
    let joined_empty = join_path("", "x");
    assert_eq!(strip_prefix(&joined_empty, ""), Some(String::from("x")));
}
