use lms::compare::needs_copy;
use lms::engine::{copy, remove, synchronize};
use lms::file_ops::{Dir, File, FileSets, Symlink};
use lms::parse::Flag;

fn src_dest_scenario() -> (FileSets, FileSets) {
    // src = { file.txt (4 bytes), subdir/ }
    // dest = { file.txt (4 bytes, different content), old.txt }
    let src = FileSets::with(
        vec![File::from("file.txt", 4)],
        vec![Dir::from("subdir")],
        vec![],
    );
    let dest = FileSets::with(
        vec![File::from("file.txt", 4), File::from("old.txt", 4)],
        vec![],
        vec![],
    );
    (src, dest)
}

#[test]
fn concrete_synchronize_scenario() {
    let (src, dest) = src_dest_scenario();
    let plan = synchronize(&src, &dest, &vec![]);
    // old.txt is deleted, subdir/ created, file.txt compared.
    assert_eq!(plan.delete_files, vec![File::from("old.txt", 4)]);
    assert_eq!(plan.delete_symlinks, Vec::<Symlink>::new());
    assert_eq!(plan.create_dirs, vec![Dir::from("subdir")]);
    assert_eq!(plan.create_symlinks, Vec::<Symlink>::new());
    assert_eq!(plan.copy_files, Vec::<File>::new());
    assert_eq!(plan.compare_files, vec![File::from("file.txt", 4)]);
    assert_eq!(plan.delete_dirs, Vec::<Dir>::new());
    // The comparison of "abcd" against "abce" demands the overwrite.
    let src_content = b"abcd".to_vec();
    let dest_content = b"abce".to_vec();
    assert!(needs_copy(Some(&src_content), Some(&dest_content), false));
    assert!(needs_copy(Some(&src_content), Some(&dest_content), true));
}

#[test]
fn synchronize_identical_trees_plans_no_work() {
    let make = || {
        FileSets::with(
            vec![File::from("a", 1), File::from("b", 2)],
            vec![Dir::from("d"), Dir::from("d/e")],
            vec![Symlink::from("l", "t")],
        )
    };
    let src = make();
    let dest = make();
    let plan = synchronize(&src, &dest, &vec![]);
    assert_eq!(plan.delete_files, Vec::<File>::new());
    assert_eq!(plan.delete_symlinks, Vec::<Symlink>::new());
    assert_eq!(plan.delete_dirs, Vec::<Dir>::new());
    assert_eq!(plan.copy_files, Vec::<File>::new());
    assert_eq!(plan.create_dirs, Vec::<Dir>::new());
    assert_eq!(plan.create_symlinks, Vec::<Symlink>::new());
    // Every common file is still re-verified by comparison.
    assert_eq!(plan.compare_files, vec![File::from("a", 1), File::from("b", 2)]);
}

#[test]
fn synchronize_converges_on_arbitrary_states() {
    let src = FileSets::with(
        vec![File::from("keep", 1), File::from("new", 2), File::from("mod", 3)],
        vec![Dir::from("fresh")],
        vec![Symlink::from("l", "new_t")],
    );
    let dest = FileSets::with(
        vec![File::from("keep", 1), File::from("stale", 9), File::from("mod", 5)],
        vec![Dir::from("gone"), Dir::from("gone/deep")],
        vec![Symlink::from("l", "old_t")],
    );
    let plan = synchronize(&src, &dest, &vec![]);
    // Destination ends as: kept common entries + created source-only
    // entries, which together are exactly the source's entries.
    assert_eq!(
        plan.delete_files,
        vec![File::from("stale", 9), File::from("mod", 5)]
    );
    assert_eq!(plan.copy_files, vec![File::from("new", 2), File::from("mod", 3)]);
    assert_eq!(plan.compare_files, vec![File::from("keep", 1)]);
    assert_eq!(plan.create_dirs, vec![Dir::from("fresh")]);
    assert_eq!(plan.delete_symlinks, vec![Symlink::from("l", "old_t")]);
    assert_eq!(plan.create_symlinks, vec![Symlink::from("l", "new_t")]);
    // gone/deep is deleted before gone.
    assert_eq!(
        plan.delete_dirs,
        vec![Dir::from("gone/deep"), Dir::from("gone")]
    );
}

#[test]
fn no_delete_preserves_extras() {
    let src = FileSets::with(vec![File::from("new", 1)], vec![], vec![]);
    let dest = FileSets::with(
        vec![File::from("extra", 2), File::from("new", 1)],
        vec![Dir::from("extra_dir")],
        vec![Symlink::from("extra_link", "t")],
    );
    let plan = synchronize(&src, &dest, &vec![Flag::NoDelete]);
    // Nothing is deleted...
    assert_eq!(plan.delete_files, Vec::<File>::new());
    assert_eq!(plan.delete_symlinks, Vec::<Symlink>::new());
    assert_eq!(plan.delete_dirs, Vec::<Dir>::new());
    // ...while source-only entries are still added and common ones still
    // compared.
    assert_eq!(plan.copy_files, Vec::<File>::new());
    assert_eq!(plan.compare_files, vec![File::from("new", 1)]);
}

#[test]
fn changed_symlink_is_recreated_not_edited() {
    let src = FileSets::with(vec![], vec![], vec![Symlink::from("file", "../Cargo.lock")]);
    let dest = FileSets::with(vec![], vec![], vec![Symlink::from("file", "../Cargo.toml")]);
    let plan = synchronize(&src, &dest, &vec![]);
    assert_eq!(
        plan.delete_symlinks,
        vec![Symlink::from("file", "../Cargo.toml")]
    );
    assert_eq!(
        plan.create_symlinks,
        vec![Symlink::from("file", "../Cargo.lock")]
    );
}

#[test]
fn copy_plans_everything() {
    let src = FileSets::with(
        vec![File::from("a", 1)],
        vec![Dir::from("d")],
        vec![Symlink::from("l", "t")],
    );
    let plan = copy(&src, &vec![Flag::Sequential]);
    assert_eq!(plan.files, vec![File::from("a", 1)]);
    assert_eq!(plan.dirs, vec![Dir::from("d")]);
    assert_eq!(plan.symlinks, vec![Symlink::from("l", "t")]);
}

#[test]
fn remove_deletes_root_last_in_depth_order() {
    let target = FileSets::with(
        vec![File::from("a/f", 1)],
        vec![Dir::from("a"), Dir::from("a/b"), Dir::from("a/b/c")],
        vec![Symlink::from("l", "t")],
    );
    let plan = remove(&target, &vec![]);
    assert_eq!(plan.files, vec![File::from("a/f", 1)]);
    assert_eq!(plan.symlinks, vec![Symlink::from("l", "t")]);
    assert_eq!(
        plan.dirs,
        vec![
            Dir::from("a/b/c"),
            Dir::from("a/b"),
            Dir::from("a"),
            Dir::from(""),
        ]
    );
}

#[test]
fn second_synchronize_run_plans_nothing() {
    // After a converged first run the destination scan matches the source;
    // the second run plans zero copies and zero deletions.
    let (src, _) = src_dest_scenario();
    let rescanned_dest = FileSets::with(
        vec![File::from("file.txt", 4)],
        vec![Dir::from("subdir")],
        vec![],
    );
    let plan = synchronize(&src, &rescanned_dest, &vec![]);
    assert_eq!(plan.delete_files, Vec::<File>::new());
    assert_eq!(plan.delete_symlinks, Vec::<Symlink>::new());
    assert_eq!(plan.delete_dirs, Vec::<Dir>::new());
    assert_eq!(plan.copy_files, Vec::<File>::new());
    assert_eq!(plan.create_dirs, Vec::<Dir>::new());
    assert_eq!(plan.create_symlinks, Vec::<Symlink>::new());
    assert_eq!(plan.compare_files, vec![File::from("file.txt", 4)]);
    // Re-verifying the now equal contents asks for no further copy.
    let content = b"abcd".to_vec();
    let same = b"abcd".to_vec();
    assert!(!needs_copy(Some(&content), Some(&same), false));
    assert!(!needs_copy(Some(&content), Some(&same), true));
}
