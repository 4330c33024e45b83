use ttipc::cli::{changed_files, migrated_message, parse_cli, tree_is_clean, CliMode, BRANCH, COMMIT_MESSAGE};

fn args(parts: &[&str]) -> Vec<String> {
    parts.iter().map(|p| String::from(*p)).collect()
}

#[test]
fn the_command_line_picks_a_mode() {
    match parse_cli(args(&["--write", "a.rs", "b.rs"])) {
        CliMode::Write(files) => assert_eq!(files, args(&["a.rs", "b.rs"])),
        _ => panic!("write mode"),
    }
    assert!(matches!(parse_cli(args(&["--write"])), CliMode::WriteUsage));
    match parse_cli(args(&["lib.rs"])) {
        CliMode::Preview(path) => assert_eq!(path, "lib.rs"),
        _ => panic!("preview mode"),
    }
    assert!(matches!(parse_cli(args(&[])), CliMode::Usage));
    assert!(matches!(parse_cli(args(&["a.rs", "b.rs"])), CliMode::Usage));
}

#[test]
fn only_changed_files_are_written() {
    let inputs = args(&["same", "old", "also same", "x"]);
    let outputs = args(&["same", "new", "also same", "y"]);
    assert_eq!(changed_files(&inputs, &outputs), vec![1, 3]);
    assert!(changed_files(&inputs, &inputs).is_empty());
}

#[test]
fn a_dirty_tree_is_refused() {
    assert!(tree_is_clean(""));
    assert!(!tree_is_clean(" M src/lib.rs\n"));
}

#[test]
fn the_report_names_the_branch() {
    assert_eq!(BRANCH, "ttipc-migration");
    assert_eq!(COMMIT_MESSAGE, "migrate from taurpc to ttipc");
    assert_eq!(migrated_message(2), "ttipc-migrate: migrated 2 file(s) on branch ttipc-migration");
    assert_eq!(migrated_message(10), "ttipc-migrate: migrated 10 file(s) on branch ttipc-migration");
}
