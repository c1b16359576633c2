use git_copyright::config::Config;
use git_copyright::file_ops::{
    filter_files, read_copyright_years, starts_with_shebang, updated_content,
};
use git_copyright::regex_ops::generate_copyright_regex;
use git_copyright::CommentSign;

#[test]
fn add_new_copyright() {
    let original_content = "use std::path::Path;\n\nfn main() {}\n";
    let expected_content = "// Copyright 2026\n\nuse std::path::Path;\n\nfn main() {}\n";

    let copyright_line = "// Copyright 2026";
    let with_copyright = updated_content(original_content, copyright_line, None);

    assert_eq!(expected_content, with_copyright);
}

#[test]
fn add_new_copyright_shebang() {
    let original_content = "#!/bin/bash\n\necho \"Hello\"\n";
    let expected_content = "#!/bin/bash\n# Copyright 2026\n\necho \"Hello\"\n";

    let copyright_line = "# Copyright 2026";
    let with_copyright = updated_content(original_content, copyright_line, None);

    assert_eq!(expected_content, with_copyright);
}

#[test]
fn update_existing_copyright() {
    let original_content = "// Copyright 2025\n\nuse std::path::Path;\n\nfn main() {}\n";
    let expected_content = "// Copyright 2026\n\nuse std::path::Path;\n\nfn main() {}\n";

    let copyright_line = "// Copyright 2026";
    let with_copyright = updated_content(original_content, copyright_line, Some(0));

    assert_eq!(expected_content, with_copyright);
}

#[test]
fn update_copyright_shebang() {
    let original_content = "#!/bin/bash\n# Copyright 2025\n\necho \"Hello\"\n";
    let expected_content = "#!/bin/bash\n# Copyright 2026\n\necho \"Hello\"\n";

    let copyright_line = "# Copyright 2026";
    let with_copyright = updated_content(original_content, copyright_line, Some(1));

    assert_eq!(expected_content, with_copyright);
}

#[test]
fn shebang_line_stays_first() {
    let updated = updated_content("#!/bin/bash\n\necho hi\n", "# Copyright 2024 Acme.", None);
    assert_eq!(updated, "#!/bin/bash\n# Copyright 2024 Acme.\n\necho hi\n");
}

#[test]
fn empty_content_gets_line_and_blank_line() {
    assert_eq!(updated_content("", "// Copyright 2026", None), "// Copyright 2026\n\n");
}

#[test]
fn shebang_only_content() {
    assert_eq!(
        updated_content("#!/bin/sh\n", "# Copyright 2026", None),
        "#!/bin/sh\n# Copyright 2026\n"
    );
    assert_eq!(
        updated_content("#!/bin/sh", "# Copyright 2026", None),
        "#!/bin/sh\n# Copyright 2026"
    );
}

#[test]
fn content_without_trailing_newline_keeps_its_end() {
    assert_eq!(updated_content("a\nb", "x", Some(1)), "a\nx");
    assert_eq!(updated_content("a\nb\n", "x", Some(1)), "a\nx\n");
    assert_eq!(updated_content("a\nb\n", "x", Some(2)), "a\nb\nx");
}

#[test]
fn index_past_the_last_line_changes_nothing() {
    assert_eq!(updated_content("a\nb\n", "x", Some(3)), "a\nb\n");
    assert_eq!(updated_content("", "x", Some(1)), "");
    assert_eq!(updated_content("", "x", Some(0)), "x");
}

#[test]
fn hash_without_bang_is_no_shebang() {
    assert!(starts_with_shebang("#!/usr/bin/env python\n"));
    assert!(starts_with_shebang("#!"));
    assert!(!starts_with_shebang("# comment\n"));
    assert!(!starts_with_shebang("#"));
    assert!(!starts_with_shebang(""));
    assert!(!starts_with_shebang(" #!"));
    assert_eq!(updated_content("# note\n", "# Copyright 2026", None), "# Copyright 2026\n\n# note\n");
}

#[test]
fn rewriting_twice_is_rewriting_once() {
    let content = "#!/bin/bash\n# Copyright 2019\n\necho hi\n";
    let once = updated_content(content, "# Copyright 2019-2021", Some(1));
    let twice = updated_content(&once, "# Copyright 2019-2024", Some(1));
    assert_eq!(twice, "#!/bin/bash\n# Copyright 2019-2024\n\necho hi\n");
    assert_eq!(twice, updated_content(content, "# Copyright 2019-2024", Some(1)));
}

#[test]
fn replacing_a_line_by_itself_is_a_no_op() {
    let content = "// Copyright 2026\n\nfn main() {}\n";
    assert_eq!(updated_content(content, "// Copyright 2026", Some(0)), content);
}

#[test]
fn copyright_is_found_in_the_first_three_lines_only() {
    let sign = CommentSign::LeftOnly("#".into());
    let re = generate_copyright_regex("Copyright {years} Acme.", &sign).unwrap();
    let line = Some("# Copyright 2020-2021 Acme.".to_string());
    let other = Some("import os".to_string());

    let header = vec![line.clone(), other.clone(), other.clone()];
    assert_eq!(read_copyright_years(&header, &re), Some((0, "2020-2021".to_string())));

    let header = vec![other.clone(), None, line.clone()];
    assert_eq!(read_copyright_years(&header, &re), Some((2, "2020-2021".to_string())));

    let header = vec![other.clone(), other.clone(), other.clone(), line.clone()];
    assert_eq!(read_copyright_years(&header, &re), None);

    let header = vec![other.clone(), Some("# Copyright 2019 Acme.".to_string()), line.clone()];
    assert_eq!(read_copyright_years(&header, &re), Some((1, "2019".to_string())));

    assert_eq!(read_copyright_years(&Vec::new(), &re), None);
}

#[test]
fn files_matching_a_pattern_are_left_out() {
    let cfg = Config::new(Vec::new(), vec!["*.txt".to_string(), "[".to_string()], vec![
        "*target*".to_string(),
    ]);
    let patterns = cfg.glob_pattern().as_ref().unwrap();
    assert_eq!(patterns.len(), 2);
    let files: Vec<String> =
        vec!["a.rs", "notes.txt", "target/debug/a.rs", "src/b.rs"].iter().map(|f| f.to_string()).collect();
    assert_eq!(filter_files(patterns, files), vec!["a.rs".to_string(), "src/b.rs".to_string()]);
    assert_eq!(filter_files(patterns, Vec::new()), Vec::<String>::new());
}
