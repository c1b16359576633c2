use git_copyright::cli::Args;
use git_copyright::config::Config;
use git_copyright::error::Error;
use git_copyright::file_ops::updated_content;
use git_copyright::regex_ops::RegexCache;
use git_copyright::runner::{
    check_repo_copyright, decide, file_checker, DispatchStep, Dispatcher, FileCheck, Phase,
};
use git_copyright::CommentSign;

fn strings(items: &[&str]) -> Vec<String> {
    items.iter().map(|&elm| elm.into()).collect()
}

fn header(lines: &[&str]) -> Vec<Option<String>> {
    lines.iter().map(|&line| Some(line.to_string())).collect()
}

#[test]
fn file_without_header_gets_one() {
    let entries = vec![("py".to_string(), CommentSign::LeftOnly("#".into()))];
    let cfg = Config::new(entries, Vec::new(), Vec::new());
    let mut cache = RegexCache::new("Copyright {years} Acme.");
    let content = "import os\n\nprint(os.name)\n";
    let first_lines = header(&["import os", "", "print(os.name)"]);

    let check = file_checker(&cfg, &mut cache, "main.py", "2024", &first_lines).unwrap();
    let copyright = match check {
        FileCheck::Missing { copyright } => copyright,
        other => panic!("{:?}", other),
    };
    assert_eq!(copyright, "# Copyright 2024 Acme.");

    let updated = updated_content(content, &copyright, None);
    assert_eq!(updated, "# Copyright 2024 Acme.\n\nimport os\n\nprint(os.name)\n");
    assert!(updated.starts_with("# Copyright 2024 Acme.\n\n"));
    assert!(updated.ends_with(content));
}

#[test]
fn correct_copyright_is_left_alone() {
    let cfg = Config::default();
    let mut cache = RegexCache::new("Copyright {years} Acme.");
    let first_lines = header(&["#!/usr/bin/env python", "# Copyright 2019-2023 Acme.", ""]);
    let check = file_checker(&cfg, &mut cache, "tool.py", "2019-2023", &first_lines).unwrap();
    assert!(matches!(check, FileCheck::UpToDate));

    let content = "#!/usr/bin/env python\n# Copyright 2019-2023 Acme.\n\n";
    assert_eq!(updated_content(content, "# Copyright 2019-2023 Acme.", Some(1)), content);
}

#[test]
fn outdated_copyright_is_replaced_where_it_stands() {
    let cfg = Config::default();
    let mut cache = RegexCache::new("Copyright {years} Acme.");
    let first_lines = header(&["#!/bin/sh", "# Copyright 2019 Acme.", "echo hi"]);
    let check = file_checker(&cfg, &mut cache, "run.sh", "2019-2023", &first_lines).unwrap();
    match check {
        FileCheck::Outdated { line, found, copyright } => {
            assert_eq!(line, 1);
            assert_eq!(found, "2019");
            assert_eq!(copyright, "# Copyright 2019-2023 Acme.");
            let updated =
                updated_content("#!/bin/sh\n# Copyright 2019 Acme.\necho hi\n", &copyright, Some(line));
            let first_lines = header(&["#!/bin/sh", "# Copyright 2019-2023 Acme.", "echo hi"]);
            assert_eq!(updated, "#!/bin/sh\n# Copyright 2019-2023 Acme.\necho hi\n");
            let again = file_checker(&cfg, &mut cache, "run.sh", "2019-2023", &first_lines);
            assert!(matches!(again, Ok(FileCheck::UpToDate)));
        }
        other => panic!("{:?}", other),
    }
}

#[test]
fn enclosing_sign_is_used_on_both_sides() {
    let cfg = Config::default();
    let mut cache = RegexCache::new("Copyright {years} Acme.");
    let check = file_checker(&cfg, &mut cache, "web/site.css", "2020", &header(&["body {}"]));
    match check.unwrap() {
        FileCheck::Missing { copyright } => assert_eq!(copyright, "/* Copyright 2020 Acme. */"),
        other => panic!("{:?}", other),
    }
    let check = file_checker(
        &cfg,
        &mut cache,
        "web/site.css",
        "2020",
        &header(&["/* Copyright 2020 Acme. */", "body {}"]),
    );
    assert!(matches!(check, Ok(FileCheck::UpToDate)));
}

#[test]
fn file_without_comment_sign_is_an_error() {
    let cfg = Config::default();
    let mut cache = RegexCache::new("Copyright {years} Acme.");
    match file_checker(&cfg, &mut cache, "data.bin", "2024", &Vec::new()) {
        Err(Error::UnknownCommentSign(name)) => assert_eq!(name, "data.bin"),
        other => panic!("{:?}", other),
    }
}

#[test]
fn rejected_pattern_is_reported() {
    let entries = vec![("x".to_string(), CommentSign::LeftOnly("[".into()))];
    let cfg = Config::new(entries, Vec::new(), Vec::new());
    let mut cache = RegexCache::new("Copyright {years} Acme.");
    let check = file_checker(&cfg, &mut cache, "a.x", "2024", &header(&["[ Copyright 2024 Acme."]));
    assert!(matches!(check, Ok(FileCheck::PatternRejected)));
}

#[test]
fn decision_follows_the_existing_copyright() {
    let line = "# Copyright 2024".to_string();
    assert!(matches!(decide(Some((2, "2024".into())), "2024", line.clone()), FileCheck::UpToDate));
    match decide(Some((2, "2023".into())), "2024", line.clone()) {
        FileCheck::Outdated { line: idx, found, copyright } => {
            assert_eq!((idx, found.as_str(), copyright.as_str()), (2, "2023", "# Copyright 2024"));
        }
        other => panic!("{:?}", other),
    }
    match decide(None, "2024", line.clone()) {
        FileCheck::Missing { copyright } => assert_eq!(copyright, line),
        other => panic!("{:?}", other),
    }
}

#[test]
fn each_file_is_handed_out_once_and_in_order() {
    let files = strings(&["a.rs", "b.py", "c.sh"]);
    let mut dispatcher = Dispatcher::new(files.clone());
    assert_eq!(dispatcher.phase(), Phase::Idle);

    let mut sent = Vec::new();
    loop {
        match dispatcher.advance() {
            DispatchStep::Queue(filename) => {
                assert_eq!(dispatcher.phase(), Phase::Distributing);
                sent.push(filename);
            }
            DispatchStep::CloseAndJoin => {
                assert_eq!(dispatcher.phase(), Phase::Draining);
                break;
            }
            DispatchStep::Finish => panic!("finished before draining"),
        }
    }
    assert_eq!(sent, files);
    assert!(matches!(dispatcher.advance(), DispatchStep::Finish));
    assert_eq!(dispatcher.phase(), Phase::Done);
    assert!(matches!(dispatcher.advance(), DispatchStep::Finish));
    assert_eq!(dispatcher.phase(), Phase::Done);
    assert!(dispatcher.errors().is_empty());
    assert!(dispatcher.result().is_ok());
}

#[test]
fn run_without_files_drains_at_once() {
    let mut dispatcher = Dispatcher::new(Vec::new());
    assert!(matches!(dispatcher.advance(), DispatchStep::CloseAndJoin));
    assert!(matches!(dispatcher.advance(), DispatchStep::Finish));
    assert!(dispatcher.result().is_ok());
}

#[test]
fn every_error_is_kept_and_the_first_one_fails_the_run() {
    let mut dispatcher = Dispatcher::new(strings(&["a.bin", "b.rs", "c.bin"]));
    assert!(matches!(dispatcher.advance(), DispatchStep::Queue(_)));
    dispatcher.report_error(Error::UnknownCommentSign("a.bin".into()));
    assert!(matches!(dispatcher.advance(), DispatchStep::Queue(_)));
    assert!(matches!(dispatcher.advance(), DispatchStep::Queue(_)));
    assert!(matches!(dispatcher.advance(), DispatchStep::CloseAndJoin));
    dispatcher.report_error(Error::Io("reading file", "denied".into()));
    assert!(matches!(dispatcher.advance(), DispatchStep::Finish));
    dispatcher.report_error(Error::UnknownCommentSign("c.bin".into()));

    let messages: Vec<String> = dispatcher.errors().iter().map(|e| e.message()).collect();
    assert_eq!(
        messages,
        strings(&[
            "No comment sign found for file a.bin, please update the configuration",
            "I/O error while reading file: denied",
            "No comment sign found for file c.bin, please update the configuration",
        ])
    );
    match dispatcher.result() {
        Err(Error::UnknownCommentSign(name)) => assert_eq!(name, "a.bin"),
        other => panic!("{:?}", other),
    }
}

#[test]
fn run_starts_with_the_files_that_are_not_ignored() {
    let cfg = Config::default();
    let on_ref = strings(&["src/main.rs", "notes.txt", "lib/__pycache__/x.py", "tool.py"]);
    let mut dispatcher = check_repo_copyright(&cfg, on_ref);
    assert_eq!(dispatcher.phase(), Phase::Idle);
    let mut sent = Vec::new();
    while let DispatchStep::Queue(filename) = dispatcher.advance() {
        sent.push(filename);
    }
    assert_eq!(sent, strings(&["src/main.rs", "tool.py"]));
}

#[test]
fn error_messages() {
    assert_eq!(Error::FilesChanged.message(), "The copyright of some files have changed");
    assert_eq!(
        Error::Io("writing file with copyright", "disk full".into()).message(),
        "I/O error while writing file with copyright: disk full"
    );
    assert_eq!(Error::Utf8("invalid utf-8".into()).message(), "invalid utf-8");
    assert_eq!(
        Error::GitCommand("fatal: bad revision".into()).message(),
        "Failed to run git subcommand: fatal: bad revision"
    );
    assert_eq!(
        Error::ParseConfig("missing field".into()).message(),
        "Failed to parse config: missing field"
    );
    assert_eq!(
        Error::UnknownCommentSign("a.xyz".into()).message(),
        "No comment sign found for file a.xyz, please update the configuration"
    );
}

#[test]
fn default_arguments() {
    let args = Args::default();
    assert_eq!(args.repo_path, "./");
    assert_eq!(args.copyright_template, "Copyright {years} DummyCorp. All rights reserved.");
    assert_eq!(args.config_path, None);
    assert!(!args.fail_on_changes);
}
