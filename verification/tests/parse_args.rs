use lms::parse::{
    classify_subcommand, collect_flags, derive_copy_dest, file_name, has_flag,
    retain_valid_targets, Flag, SubCommandType,
};

#[test]
fn classify_known_subcommands() {
    assert_eq!(classify_subcommand("cp"), Some(SubCommandType::Copy));
    assert_eq!(classify_subcommand("rm"), Some(SubCommandType::Remove));
    assert_eq!(classify_subcommand("sync"), Some(SubCommandType::Synchronize));
}

#[test]
fn classify_unknown_subcommand() {
    assert_eq!(classify_subcommand("mv"), None);
    assert_eq!(classify_subcommand(""), None);
    assert_eq!(classify_subcommand("synchronize"), None);
}

#[test]
fn collect_all_flags() {
    let flags = collect_flags(true, true, true, true);
    assert_eq!(
        flags,
        vec![Flag::Verbose, Flag::NoDelete, Flag::Secure, Flag::Sequential]
    );
}

#[test]
fn collect_no_flags() {
    assert_eq!(collect_flags(false, false, false, false), Vec::<Flag>::new());
}

#[test]
fn collect_some_flags() {
    assert_eq!(
        collect_flags(false, true, false, true),
        vec![Flag::NoDelete, Flag::Sequential]
    );
}

#[test]
fn has_flag_finds_only_present_flags() {
    let flags = vec![Flag::NoDelete, Flag::Secure];
    assert!(has_flag(&flags, Flag::NoDelete));
    assert!(has_flag(&flags, Flag::Secure));
    assert!(!has_flag(&flags, Flag::Verbose));
    assert!(!has_flag(&flags, Flag::Sequential));
}

#[test]
fn file_name_of_ordinary_paths() {
    assert_eq!(file_name("a/b"), Some(String::from("b")));
    assert_eq!(file_name("a/b/"), Some(String::from("b")));
    assert_eq!(file_name("plain"), Some(String::from("plain")));
    assert_eq!(file_name("/x/y/z.txt"), Some(String::from("z.txt")));
}

#[test]
fn file_name_of_degenerate_paths() {
    assert_eq!(file_name(""), None);
    assert_eq!(file_name("/"), None);
    assert_eq!(file_name("."), None);
    assert_eq!(file_name(".."), None);
    assert_eq!(file_name("a/.."), None);
}

#[test]
fn copy_destination_inside_existing_directory() {
    assert_eq!(derive_copy_dest("src/dir", "dest", true), "dest/dir");
    assert_eq!(derive_copy_dest("tree", "out", true), "out/tree");
}

#[test]
fn copy_destination_when_absent_or_unusable() {
    assert_eq!(derive_copy_dest("src/dir", "dest", false), "dest");
    assert_eq!(derive_copy_dest("..", "dest", true), "dest");
}

#[test]
fn retain_only_directory_targets() {
    let targets = vec![
        String::from("one"),
        String::from("two"),
        String::from("three"),
    ];
    let probed = vec![true, false, true];
    assert_eq!(
        retain_valid_targets(&targets, &probed),
        vec![String::from("one"), String::from("three")]
    );
}

#[test]
fn retain_nothing_when_no_target_validates() {
    let targets = vec![String::from("one")];
    let probed = vec![false];
    assert_eq!(retain_valid_targets(&targets, &probed), Vec::<String>::new());
}
