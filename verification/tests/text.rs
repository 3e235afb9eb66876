use speakiput::decimal::{
    decimal, parse_u32, parse_u64, parse_usize, signed_decimal, NumberFault,
};
use speakiput::paths::{file_name, file_stem, join_path};
use speakiput::split::{
    contains, ends_with, join_with, replace_char, split, split_once, split_words, starts_with,
    strip_prefix, Delimiter,
};
use speakiput::text::{
    alphanumeric, blank, lowercase_chars, same_ignoring_ascii_case, same_text, to_ascii_lowercase,
    trim, white_space,
};

#[test]
fn characters_are_classed_as_unicode_does() {
    for n in 0..=0x10_ffff_u32 {
        if let Some(c) = char::from_u32(n) {
            assert_eq!(white_space(c), c.is_whitespace(), "{n:x}");
            assert_eq!(alphanumeric(c), c.is_alphanumeric(), "{n:x}");
            assert_eq!(lowercase_chars(c), c.to_lowercase().collect::<Vec<_>>(), "{n:x}");
        }
    }
}

#[test]
fn trimming_matches_the_standard_library() {
    for text in ["", " ", "a", "\u{3000} x y \t", "no", "\u{85}\u{a0}z\u{2028}"] {
        assert_eq!(trim(text), text.trim());
        assert_eq!(blank(text), text.trim().is_empty());
        assert_eq!(trim(&trim(text)), trim(text));
    }
}

#[test]
fn splitting_matches_the_standard_library() {
    for text in ["", ".", "a.b", "a..b.", ".x", "no dots"] {
        assert_eq!(
            split(text, Delimiter::Char('.')),
            text.split('.').collect::<Vec<_>>()
        );
    }
    for text in ["", "  ", "a b", "\ta \n b  c "] {
        assert_eq!(split_words(text), text.split_whitespace().collect::<Vec<_>>());
    }
    assert_eq!(split_once("a:b:c", ':'), Some(("a".into(), "b:c".into())));
    assert_eq!(split_once("abc", ':'), None);
}

#[test]
fn joining_and_replacing() {
    let parts = vec!["a".to_owned(), String::new(), "c".to_owned()];
    assert_eq!(join_with(&parts, ", "), "a, , c");
    assert_eq!(join_with(&vec![], ", "), "");
    assert_eq!(replace_char("it's 'x'", '\'', "''"), "it''s ''x''");
}

#[test]
fn searching() {
    assert!(contains("prompt", "omp"));
    assert!(contains("prompt", ""));
    assert!(!contains("prompt", "mop"));
    assert!(starts_with("macos:1", "macos:"));
    assert!(!starts_with("mac", "macos:"));
    assert!(ends_with("x```", "```"));
    assert!(!ends_with("``", "```"));
    assert_eq!(strip_prefix("macos:12", "macos:"), Some("12".into()));
    assert_eq!(strip_prefix("x11:12", "macos:"), None);
}

#[test]
fn comparing_without_case() {
    assert!(same_text("é", "é"));
    assert!(!same_text("a", "ab"));
    assert!(same_ignoring_ascii_case("HeLLo", "hEllO"));
    assert!(!same_ignoring_ascii_case("É", "é"));
    assert_eq!(to_ascii_lowercase("ÀBc"), "Àbc");
}

#[test]
fn numbers_read_back() {
    for n in [0, 7, 10, 42, 999, 1_000, u64::MAX] {
        assert_eq!(decimal(n), n.to_string());
        assert_eq!(parse_u64(&decimal(n)), Some(n));
    }
    for n in [0, -1, 5, i64::MIN, i64::MAX] {
        assert_eq!(signed_decimal(n), n.to_string());
    }
}

#[test]
fn numbers_are_read_as_the_standard_library_reads_them() {
    for text in [
        "", "+", "-", "0", "007", "+12", "-1", "1a", " 1", "18446744073709551615",
        "18446744073709551616", "99999999999999999999x", "4294967295", "4294967296",
    ] {
        assert_eq!(parse_u64(text), text.parse::<u64>().ok(), "{text}");
        assert_eq!(parse_usize(text), text.parse::<usize>().ok(), "{text}");
        match (parse_u32(text), text.parse::<u32>()) {
            (Ok(a), Ok(b)) => assert_eq!(a, b),
            (Err(fault), Err(error)) => assert_eq!(fault.words(), error.to_string(), "{text}"),
            (a, b) => panic!("{text}: {a:?} {b:?}"),
        }
    }
    assert_eq!(parse_u32(""), Err(NumberFault::Empty));
}

#[test]
fn paths_follow_the_standard_library() {
    for path in [
        "", "/", ".", "..", "a", "a/b", "a/b/", "a/b/.", "/x/..", "./y.tar.gz", ".hidden",
        "/m/ggml-base.bin", "a//b.c", "dir.d/file",
    ] {
        let reference = std::path::Path::new(path);
        assert_eq!(
            file_name(path),
            reference.file_name().map(|name| name.to_str().unwrap().to_owned()),
            "{path}"
        );
        assert_eq!(
            file_stem(path),
            reference.file_stem().map(|name| name.to_str().unwrap().to_owned()),
            "{path}"
        );
        for rest in ["speakiput/x", "/abs", ""] {
            assert_eq!(
                join_path(path, rest),
                reference.join(rest).to_str().unwrap(),
                "{path} {rest}"
            );
        }
    }
}
