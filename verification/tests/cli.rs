use std::path::PathBuf;

use hexdump::cli::{process_file, Cli, Plan, DEFAULT_COLUMNS};

#[test]
fn without_a_path_the_run_reports_no_input_file() {
    let cli = Cli { path: None, colored: false, columns: 4 };
    match cli.go() {
        Plan::Report { line } => assert_eq!(line, "No input file"),
        other => panic!("unexpected plan {:?}", other),
    }
}

#[test]
fn without_a_path_the_column_count_is_not_looked_at() {
    let cli = Cli { path: None, colored: true, columns: 0 };
    assert!(matches!(cli.go(), Plan::Report { line } if line == "No input file"));
}

#[test]
fn with_a_path_the_file_is_to_be_read() {
    let cli = Cli { path: Some(PathBuf::from("notes.txt")), colored: true, columns: 16 };
    match cli.go() {
        Plan::Read { path, colored, stride } => {
            assert_eq!(path, PathBuf::from("notes.txt"));
            assert!(colored);
            assert_eq!(stride, 16);
        }
        other => panic!("unexpected plan {:?}", other),
    }
}

#[test]
fn one_column_is_the_narrowest_dump() {
    let cli = Cli { path: Some(PathBuf::from("a")), colored: false, columns: 1 };
    assert!(matches!(cli.go(), Plan::Read { colored: false, stride: 1, .. }));
    let cli = Cli { path: Some(PathBuf::from("a")), colored: false, columns: i32::MAX };
    assert!(matches!(cli.go(), Plan::Read { stride: 2_147_483_647, .. }));
}

#[test]
fn column_counts_below_one_are_refused() {
    for columns in [0, -1, -4, i32::MIN] {
        let cli = Cli { path: Some(PathBuf::from("a")), colored: false, columns };
        match cli.go() {
            Plan::Reject { columns: refused } => assert_eq!(refused, columns),
            other => panic!("unexpected plan {:?}", other),
        }
    }
}

#[test]
fn default_is_four_columns() {
    assert_eq!(DEFAULT_COLUMNS, 4);
}

#[test]
fn read_failure_is_reported_in_one_line() {
    let lines = process_file(Err("No such file or directory (os error 2)".to_string()), false, 4);
    assert_eq!(lines, vec!["Error reading file: No such file or directory (os error 2)"]);
    let lines = process_file(Err(String::new()), true, 1);
    assert_eq!(lines, vec!["Error reading file: "]);
}

#[test]
fn text_of_the_file_is_dumped() {
    let lines = process_file(Ok("AB".to_string()), false, 4);
    assert_eq!(lines, vec!["00000000: 41 42         AB"]);
    let lines = process_file(Ok("A B".to_string()), false, 2);
    assert_eq!(lines, vec!["00000000: 41 20   A\u{2022}", "00000002: 42       B"]);
}

#[test]
fn empty_file_gives_no_lines() {
    assert!(process_file(Ok(String::new()), false, 4).is_empty());
    assert!(process_file(Ok(String::new()), true, 1).is_empty());
}

#[test]
fn text_is_dumped_byte_by_byte() {
    let lines = process_file(Ok("é\n".to_string()), false, 2);
    assert_eq!(lines, vec!["00000000: c3 a9   é", "00000002: 0a       \u{2022}"]);
}
