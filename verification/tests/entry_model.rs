use lms::file_ops::{Dir, File, FileSets, Symlink};

#[test]
fn create_dir() {
    assert_eq!(
        Dir::from("."),
        Dir {
            path: String::from("."),
        }
    )
}

#[test]
fn create_file() {
    assert_eq!(
        File::from(".", 10),
        File {
            path: String::from("."),
            size: 10,
        }
    )
}

#[test]
fn create_symlink() {
    assert_eq!(
        Symlink::from(".", "file"),
        Symlink {
            path: String::from("."),
            target: String::from("file"),
        }
    )
}

#[test]
fn file_size_getter() {
    assert_eq!(File::from("a.txt", 42).size(), 42);
}

#[test]
fn file_of_largest_size() {
    let f = File::from("big", u64::MAX);
    assert_eq!(f.size(), u64::MAX);
    assert_ne!(f, File::from("big", u64::MAX - 1));
}

#[test]
fn symlink_target_getter() {
    assert_eq!(Symlink::from("link", "else/where").target(), "else/where");
}

#[test]
fn with_keeps_distinct_entries() {
    let sets = FileSets::with(
        vec![File::from("a", 1), File::from("b", 2)],
        vec![Dir::from("d")],
        vec![Symlink::from("l", "t")],
    );
    assert_eq!(sets.files().len(), 2);
    assert_eq!(sets.dirs().len(), 1);
    assert_eq!(sets.symlinks().len(), 1);
}

#[test]
fn with_drops_repeated_paths_first_wins() {
    let sets = FileSets::with(
        vec![File::from("a", 1), File::from("a", 2), File::from("b", 3)],
        vec![Dir::from("d"), Dir::from("d")],
        vec![],
    );
    assert_eq!(
        sets.files(),
        &vec![File::from("a", 1), File::from("b", 3)]
    );
    assert_eq!(sets.dirs(), &vec![Dir::from("d")]);
}

#[test]
fn total_entries_counts_all_kinds() {
    let sets = FileSets::with(
        vec![File::from("a", 1), File::from("b", 2)],
        vec![Dir::from("d")],
        vec![Symlink::from("l", "t")],
    );
    assert_eq!(sets.total_entries(), 4);
}

#[test]
fn empty_sets() {
    let sets = FileSets::with(vec![], vec![], vec![]);
    assert_eq!(sets.files(), &Vec::<File>::new());
    assert_eq!(sets.dirs(), &Vec::<Dir>::new());
    assert_eq!(sets.symlinks(), &Vec::<Symlink>::new());
    assert_eq!(sets.total_entries(), 0);
}
