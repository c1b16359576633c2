use git_copyright::error::Error;
use git_copyright::git_ops::{
    changes_report, check_for_changes, commit_years, entries_of, get_added_mod_times_for_file,
    parse_cmd_output, years_for_history,
};

fn strings(items: &[&str]) -> Vec<String> {
    items.iter().map(|&elm| elm.into()).collect()
}

#[test]
fn history_years_collapse() {
    assert_eq!(years_for_history(&strings(&["2023", "2021", "2019"]), "2030"), "2019-2023");
    assert_eq!(years_for_history(&strings(&["2022"]), "2030"), "2022");
    assert_eq!(years_for_history(&strings(&[]), "2030"), "2030");
    assert_eq!(years_for_history(&strings(&["2021", "2020", "2021"]), "2030"), "2021");
    assert_eq!(years_for_history(&strings(&["2024", "2023"]), "2030"), "2023-2024");
    assert_eq!(years_for_history(&strings(&["2024", "2024"]), "2030"), "2024");
}

#[test]
fn years_come_from_the_history_output() {
    let log = "2023-05-01 10:00:00 +0200\n2021-01-31 09:30:00 +0100\n2019-12-24 18:00:00 +0100\n";
    assert_eq!(commit_years(log), strings(&["2023", "2021", "2019"]));
    assert_eq!(get_added_mod_times_for_file(log), "2019-2023");
    assert_eq!(get_added_mod_times_for_file("2022-03-04 11:12:13 +0000\n"), "2022");
    assert_eq!(get_added_mod_times_for_file("\n2020-01-01 x\n\n2020-06-01 y"), "2020");
    assert_eq!(commit_years("20\n\n2021-x"), strings(&["20", "2021"]));
    assert_eq!(commit_years(""), Vec::<String>::new());
}

#[test]
fn file_without_history_gets_the_current_year() {
    for log in ["", "\n", "\n\n"] {
        let years = get_added_mod_times_for_file(log);
        assert_eq!(years.chars().count(), 4);
        assert!(years.chars().all(|c| c.is_ascii_digit()));
        assert!(years.as_str() >= "2024");
    }
}

#[test]
fn output_entries_are_the_lines_that_are_not_empty() {
    assert_eq!(entries_of("a\n\nb\n"), strings(&["a", "b"]));
    assert_eq!(entries_of(""), Vec::<String>::new());
    assert_eq!(entries_of("\n\n"), Vec::<String>::new());
    assert_eq!(entries_of("one"), strings(&["one"]));
    assert_eq!(entries_of(" \n\r\n"), strings(&[" ", "\r"]));
}

#[test]
fn command_output_is_parsed() {
    let parsed = parse_cmd_output(true, b"src/main.rs\nREADME.md\n", b"ignored");
    assert_eq!(parsed.unwrap(), strings(&["src/main.rs", "README.md"]));
    let parsed = parse_cmd_output(true, "gr\u{fc}n.py\n\nb.rs".as_bytes(), b"");
    assert_eq!(parsed.unwrap(), strings(&["gr\u{fc}n.py", "b.rs"]));
    assert_eq!(parse_cmd_output(true, b"", b"").unwrap(), Vec::<String>::new());
}

#[test]
fn failed_command_reports_its_error_output() {
    match parse_cmd_output(false, b"src/main.rs\n", b"fatal: not a git repository\n") {
        Err(Error::GitCommand(report)) => assert_eq!(report, "fatal: not a git repository\n"),
        other => panic!("{:?}", other),
    }
    match parse_cmd_output(false, b"", &[b'a', 0xff, b'b']) {
        Err(Error::GitCommand(report)) => assert_eq!(report, "a\u{fffd}b"),
        other => panic!("{:?}", other),
    }
    match parse_cmd_output(false, &[0xff], b"") {
        Err(Error::GitCommand(report)) => assert_eq!(report, ""),
        other => panic!("{:?}", other),
    }
}

#[test]
fn output_that_is_not_text_is_an_error() {
    match parse_cmd_output(true, &[b'a', b'\n', 0xc3, 0x28], b"") {
        Err(Error::Utf8(report)) => assert!(!report.is_empty()),
        other => panic!("{:?}", other),
    }
}

#[test]
fn changes_fail_only_with_the_flag() {
    let changed = strings(&["src/main.rs"]);
    let none = strings(&[]);
    assert!(matches!(check_for_changes(&changed, true), Err(Error::FilesChanged)));
    assert!(check_for_changes(&changed, false).is_ok());
    assert!(check_for_changes(&none, true).is_ok());
    assert!(check_for_changes(&none, false).is_ok());
}

#[test]
fn changed_files_are_listed() {
    assert_eq!(
        changes_report(&strings(&["src/main.rs", "b.py"])),
        strings(&["The following files have changed:", "- src/main.rs", "- b.py"])
    );
    assert_eq!(changes_report(&strings(&[])), Vec::<String>::new());
}
