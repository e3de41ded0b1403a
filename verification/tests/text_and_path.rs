use rewind::path::{file_name, file_stem, join, parent};
use rewind::text::{
    i32_text, is_whitespace, joined, joined3, lines, parse_u64, same, split, starts_with, to_lower, to_upper,
    trim, u64_text,
};
use std::path::Path;

const PATHS: &[&str] = &[
    "",
    "/",
    "//",
    ".",
    "..",
    "./",
    "../",
    "/.",
    "/..",
    "a",
    "a/",
    "a//",
    "a/.",
    "a/..",
    "a/b",
    "a//b",
    "a/./b",
    "a/b/",
    "a/b/.",
    "a/b/./",
    "./a",
    "./.",
    ".//",
    "././a/./",
    "/a",
    "//a",
    "/a/b.c",
    "/a/.b",
    "/a/..b",
    "a/b.c.d",
    "...",
    ".a.",
    "a.",
    "clips/rewind_1751500000.mp4",
    "/a/../b",
    "a/../..",
    ".b/..",
];

#[test]
fn paths_are_taken_apart_as_usual() {
    for p in PATHS {
        let std_path = Path::new(p);
        assert_eq!(
            file_name(p),
            std_path.file_name().map(|s| s.to_str().unwrap().to_string()),
            "file name of {p:?}"
        );
        assert_eq!(
            file_stem(p),
            std_path.file_stem().map(|s| s.to_str().unwrap().to_string()),
            "file stem of {p:?}"
        );
        assert_eq!(
            parent(p),
            std_path.parent().map(|q| q.to_str().unwrap().to_string()),
            "parent of {p:?}"
        );
    }
}

#[test]
fn paths_are_joined_as_usual() {
    for a in PATHS {
        for b in PATHS {
            let want = Path::new(a).join(b);
            assert_eq!(join(a, b), want.to_str().unwrap(), "{a:?} joined with {b:?}");
        }
    }
}

#[test]
fn joining_a_name_and_splitting_gives_it_back() {
    let p = join("/home/me/clips", "one.mp4");
    assert_eq!(file_name(&p), Some("one.mp4".to_string()));
    assert_eq!(parent(&p), Some("/home/me/clips".to_string()));
    assert_eq!(parent(&join("/home/me/clips/", "one.mp4")), Some("/home/me/clips".to_string()));
}

#[test]
fn white_space_is_that_of_unicode() {
    for n in 0..=0x10ffffu32 {
        if let Some(c) = char::from_u32(n) {
            assert_eq!(is_whitespace(c), c.is_whitespace(), "{n:x}");
        }
    }
}

#[test]
fn texts_are_cut_as_usual() {
    for s in ["", "\n", "a", "a\n", "a\r\nb", "a\n\nb\n", "\r", "a\r", "\r\n\r\n", "x=1\n y = 2"] {
        assert_eq!(lines(s), s.lines().collect::<Vec<_>>(), "lines of {s:?}");
        assert_eq!(split(s, '\n'), s.split('\n').collect::<Vec<_>>(), "split of {s:?}");
        assert_eq!(trim(s), s.trim(), "trim of {s:?}");
    }
    assert_eq!(trim(" \u{3000}a b\t"), "a b");
}

#[test]
fn letter_case_is_that_of_ascii() {
    for s in ["", "AbC", "\u{c4}x", "F12", "z{`@["] {
        assert_eq!(to_lower(s), s.to_ascii_lowercase());
        assert_eq!(to_upper(s), s.to_ascii_uppercase());
    }
}

#[test]
fn texts_are_compared_and_joined() {
    assert!(same("", "") && same("caf\u{e9}", "caf\u{e9}"));
    assert!(!same("a", "b") && !same("a", "ab"));
    assert!(starts_with("abc", "ab") && starts_with("", "") && !starts_with("a", "ab"));
    assert!(!starts_with("ba", "ab"));
    assert_eq!(joined("a", "b"), "ab");
    assert_eq!(joined3("a", "", "c"), "ac");
}

#[test]
fn numbers_are_written_in_decimal() {
    for n in [0u64, 7, 10, 1751500000, u64::MAX] {
        assert_eq!(u64_text(n), n.to_string());
    }
    for n in [0i32, -1, 12, i32::MAX, i32::MIN] {
        assert_eq!(i32_text(n), n.to_string());
    }
}

#[test]
fn numbers_are_read_in_decimal() {
    for s in [
        "", "+", "-", "0", "007", "+5", "++5", "5 ", " 5", "12a", "-1", "1_000",
        "18446744073709551615", "18446744073709551616", "99999999999999999999999",
        "\u{0661}",
    ] {
        assert_eq!(parse_u64(s), s.parse::<u64>().ok(), "{s:?}");
    }
}
