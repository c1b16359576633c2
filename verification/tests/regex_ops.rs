use git_copyright::file_ops::read_copyright_years;
use git_copyright::regex_ops::{
    copyright_pattern_expr, escape_for_regex, generate_copyright_line, generate_copyright_regex,
    get_hash, RegexCache,
};
use git_copyright::CommentSign;
use std::sync::Arc;

#[test]
fn test_escape_for_regex() {
    assert_eq!(escape_for_regex("/"), r"/");
    assert_eq!(escape_for_regex("//"), r"//");
    assert_eq!(escape_for_regex("/*"), r"/\*");
    assert_eq!(escape_for_regex("*/"), r"\*/");
    assert_eq!(escape_for_regex("#"), "#");
}

#[test]
fn test_regex_match() {
    let valid_copyrights = [
        "# Copyright (c) DummyCompany Ltd. 2019",
        "# Copyright (c) DummyCompany Ltd. 2020-2021",
    ];
    let invalid_copyrights = [
        "# Copyright (c) DummyCompany Ltd. 2019-",
        "# Copyright (c) DummyCompany Ltd. 2020-2021-2023",
        "# Copyright (c) DummyCompany Ltd. 20202021",
    ];

    let template = "Copyright (c) DummyCompany Ltd. {years}";
    let comment_sign = CommentSign::LeftOnly("#".into());
    let copyright_re = generate_copyright_regex(template, &comment_sign).unwrap();

    for example in valid_copyrights {
        assert!(copyright_re.is_match(example));
    }

    for example in invalid_copyrights {
        assert!(!copyright_re.is_match(example));
    }
}

#[test]
fn every_special_character_is_escaped() {
    assert_eq!(escape_for_regex("*.(){}^$"), r"\*\.\(\)\{\}\^\$");
    assert_eq!(escape_for_regex(""), "");
    assert_eq!(escape_for_regex("a+b?[c]|d"), "a+b?[c]|d");
    assert_eq!(escape_for_regex("{years}"), r"\{years\}");
}

#[test]
fn copyright_line_has_single_spaces() {
    let left = CommentSign::LeftOnly("#".into());
    assert_eq!(
        generate_copyright_line("Copyright {years} Acme.", &left, "2024"),
        "# Copyright 2024 Acme."
    );
    let both = CommentSign::Enclosing("/*".into(), "*/".into());
    assert_eq!(
        generate_copyright_line("Copyright (c) DummyCompany Ltd. {years}", &both, "2019-2023"),
        "/* Copyright (c) DummyCompany Ltd. 2019-2023 */"
    );
}

#[test]
fn every_placeholder_is_filled() {
    let left = CommentSign::LeftOnly("//".into());
    assert_eq!(generate_copyright_line("{years} and {years}", &left, "2020"), "// 2020 and 2020");
    assert_eq!(generate_copyright_line("no placeholder", &left, "2020"), "// no placeholder");
    assert_eq!(generate_copyright_line("{years", &left, "2020"), "// {years");
    assert_eq!(generate_copyright_line("{{years}}", &left, "2020"), "// {2020}");
}

#[test]
fn pattern_expression_is_anchored_and_escaped() {
    let left = CommentSign::LeftOnly("#".into());
    assert_eq!(
        copyright_pattern_expr("Copyright (c) DummyCompany Ltd. {years}", &left),
        r"^# Copyright \(c\) DummyCompany Ltd\. (\d{4}(-\d{4}){0,1})$"
    );
    let both = CommentSign::Enclosing("/*".into(), "*/".into());
    assert_eq!(
        copyright_pattern_expr("Copyright {years} Acme.", &both),
        r"^/\* Copyright (\d{4}(-\d{4}){0,1}) Acme\. \*/$"
    );
}

#[test]
fn generated_line_is_recognised_by_its_pattern() {
    let signs = [
        CommentSign::LeftOnly("#".into()),
        CommentSign::LeftOnly("//".into()),
        CommentSign::Enclosing("/*".into(), "*/".into()),
        CommentSign::Enclosing("<!--".into(), "-->".into()),
        CommentSign::Enclosing("(*".into(), "*)".into()),
    ];
    let templates = [
        "Copyright {years} Acme.",
        "Copyright (c) DummyCompany Ltd. {years}",
        "(C) {years} A*B^C$ {all} rights.",
    ];
    for sign in signs.iter() {
        for template in templates {
            for years in ["2024", "2019-2023"] {
                let line = generate_copyright_line(template, sign, years);
                let re = generate_copyright_regex(template, sign).unwrap();
                let header = vec![Some(line)];
                assert_eq!(read_copyright_years(&header, &re), Some((0, years.to_string())));
            }
        }
    }
}

#[test]
fn special_characters_match_themselves_only() {
    let sign = CommentSign::Enclosing("/*".into(), "*/".into());
    let re = generate_copyright_regex("Copyright (c) {years} A.B", &sign).unwrap();
    assert!(re.is_match("/* Copyright (c) 2024 A.B */"));
    assert!(!re.is_match("/* Copyright (c) 2024 AxB */"));
    assert!(!re.is_match("/* Copyright c 2024 A.B */"));
    assert!(!re.is_match("// Copyright (c) 2024 A.B */"));
    assert!(!re.is_match("/* Copyright (c) 2024 A.B **/"));
    assert!(!re.is_match(" /* Copyright (c) 2024 A.B */"));

    let sign = CommentSign::LeftOnly("$^".into());
    let re = generate_copyright_regex("{x} ^{years}$ *", &sign).unwrap();
    assert!(re.is_match("$^ {x} ^2024$ *"));
    assert!(!re.is_match("$^ {x} ^2024$ "));
}

#[test]
fn pattern_that_does_not_compile_is_none() {
    let sign = CommentSign::LeftOnly("[".into());
    assert!(generate_copyright_regex("Copyright {years}", &sign).is_none());
    let sign = CommentSign::LeftOnly("#".into());
    assert!(generate_copyright_regex("Copyright {years} +", &sign).is_some());
    assert!(generate_copyright_regex("Copyright {years} [", &sign).is_none());
    assert!(generate_copyright_regex("Copyright {years} \\", &sign).is_some());
}

#[test]
fn equal_signs_have_equal_hashes() {
    let a = CommentSign::LeftOnly("#".into());
    let b = CommentSign::LeftOnly(String::from("#"));
    assert_eq!(get_hash(&a), get_hash(&b));
    assert_ne!(get_hash(&a), get_hash(&CommentSign::LeftOnly("//".into())));
    assert_ne!(
        get_hash(&CommentSign::LeftOnly("/*".into())),
        get_hash(&CommentSign::Enclosing("/*".into(), "".into()))
    );
    assert_ne!(
        get_hash(&CommentSign::Enclosing("a".into(), "bc".into())),
        get_hash(&CommentSign::Enclosing("ab".into(), "c".into()))
    );
}

#[test]
fn cache_compiles_once_per_sign() {
    let mut cache = RegexCache::new("Copyright {years} Acme.");
    let hash = CommentSign::LeftOnly("#".into());
    let slashes = CommentSign::LeftOnly("//".into());
    assert!(cache.lookup(&hash).is_none());

    let first = cache.get_regex(&hash).unwrap();
    let second = cache.get_regex(&CommentSign::LeftOnly("#".into())).unwrap();
    assert!(Arc::ptr_eq(&first, &second));
    assert!(Arc::ptr_eq(&first, &cache.lookup(&hash).unwrap()));
    assert_eq!(first.as_str(), r"^# Copyright (\d{4}(-\d{4}){0,1}) Acme\.$");

    let third = cache.get_regex(&slashes).unwrap();
    assert!(!Arc::ptr_eq(&first, &third));
    assert_eq!(third.as_str(), r"^// Copyright (\d{4}(-\d{4}){0,1}) Acme\.$");
    assert_eq!(cache.template_str(), "Copyright {years} Acme.");

    let broken = CommentSign::LeftOnly("(?".into());
    assert!(cache.get_regex(&broken).is_none() || cache.lookup(&broken).is_some());
}

#[test]
fn sign_copies_compare_equal() {
    let sign = CommentSign::Enclosing("<!--".into(), "-->".into());
    let copy = sign.duplicate();
    assert_eq!(sign, copy);
    assert!(sign.same_as(&copy));
    assert!(!sign.same_as(&CommentSign::LeftOnly("<!--".into())));
    assert!(!sign.same_as(&CommentSign::Enclosing("<!--".into(), "->".into())));
}

#[test]
fn pattern_is_the_escaped_line_with_the_years_expression() {
    let years_expr = r"(\d{4}(-\d{4}){0,1})";
    let signs = [
        CommentSign::LeftOnly("#".into()),
        CommentSign::Enclosing("/*".into(), "*/".into()),
        CommentSign::Enclosing("{".into(), "}".into()),
    ];
    let templates = ["Copyright {years} Acme.", "{years}{years}", "\\{years} (c) {years\\}", "{{years}}"];
    for sign in signs.iter() {
        for template in templates {
            let line = generate_copyright_line(template, sign, "2019-2023");
            let escaped_line = format!("^{}$", escape_for_regex(&line));
            let expr = copyright_pattern_expr(template, sign);
            assert_eq!(expr.replace(years_expr, "2019-2023"), escaped_line);
        }
    }
}
