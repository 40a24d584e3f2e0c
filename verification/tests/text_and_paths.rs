use obsidian_launcher::hotkey_daemon::{parse_hotkey, KEY_LEFTCTRL, KEY_LEFTMETA};
use obsidian_launcher::paths::{extract_folder, join, path_extension, path_file_name, path_file_stem, same_path};
use obsidian_launcher::text::{
    join_with, parse_usize, replace_str, split_char, split_words, trim_str, usize_to_string,
};

#[test]
fn trims_unicode_white_space() {
    assert_eq!(trim_str("\u{3000} a b\t\n"), "a b");
    assert_eq!(trim_str("   "), "");
    assert_eq!(trim_str("x"), "x");
}

#[test]
fn splits_like_str_split() {
    assert_eq!(split_char("a+b++c", '+'), vec!["a", "b", "", "c"]);
    assert_eq!(split_char("", '+'), vec![""]);
    assert_eq!(split_char("+", '+'), vec!["", ""]);
}

#[test]
fn splits_words_like_split_whitespace() {
    assert_eq!(split_words("  one\ttwo\n three "), vec!["one", "two", "three"]);
    assert!(split_words(" \u{a0} ").is_empty());
}

#[test]
fn joins_and_replaces() {
    assert_eq!(join_with(&vec!["a".to_string(), "b".to_string()], ", "), "a, b");
    assert_eq!(join_with(&vec![], "-"), "");
    assert_eq!(replace_str("aaaa", "aa", "b"), "bb");
    assert_eq!(replace_str("aaa", "aa", "b"), "ba");
    assert_eq!(replace_str("KeyKeyA", "Key", ""), "A");
}

#[test]
fn numbers_like_std() {
    assert_eq!(usize_to_string(0), "0");
    assert_eq!(usize_to_string(50), "50");
    assert_eq!(usize_to_string(usize::MAX), usize::MAX.to_string());
    assert_eq!(parse_usize("42"), Some(42));
    assert_eq!(parse_usize("+7"), Some(7));
    assert_eq!(parse_usize("007"), Some(7));
    assert_eq!(parse_usize(""), None);
    assert_eq!(parse_usize("+"), None);
    assert_eq!(parse_usize("-1"), None);
    assert_eq!(parse_usize("1 "), None);
    assert_eq!(parse_usize("99999999999999999999999"), None);
    assert_eq!(parse_usize(&usize::MAX.to_string()), Some(usize::MAX));
    for s in ["12", "+3", "x", "", "18446744073709551616", "-0"] {
        assert_eq!(parse_usize(s), s.parse::<usize>().ok(), "{}", s);
    }
}

#[test]
fn shortcut_parts_are_lowercased() {
    assert_eq!(parse_hotkey("SuPeR+SPACE"), (vec![KEY_LEFTMETA], 57));
    assert_eq!(parse_hotkey("CONTROL+Return"), (vec![KEY_LEFTCTRL], 28));
}

#[test]
fn path_parts_like_std_path() {
    for p in ["/a/b/c.md", "a//b/", "./x.tar.gz", ".hidden", "/", "..", "a/..", "", ".", "dir/.md", "x/y/"] {
        let path = std::path::Path::new(p);
        assert_eq!(
            path_file_name(p),
            path.file_name().map(|s| s.to_string_lossy().into_owned()),
            "file_name {}",
            p
        );
        assert_eq!(
            path_extension(p),
            path.extension().map(|s| s.to_string_lossy().into_owned()),
            "extension {}",
            p
        );
        assert_eq!(
            path_file_stem(p),
            path.file_stem().map(|s| s.to_string_lossy().into_owned()),
            "stem {}",
            p
        );
        let folder = path
            .parent()
            .and_then(|parent| parent.file_name())
            .map(|name| name.to_string_lossy().to_string())
            .unwrap_or_default();
        assert_eq!(extract_folder(p), folder, "folder {}", p);
    }
}

#[test]
fn joins_like_pathbuf() {
    for (base, rel) in [("/home/u", "x"), ("/home/u/", "x"), ("", "x"), ("/a", "/b")] {
        let expected = std::path::Path::new(base).join(rel).to_string_lossy().into_owned();
        assert_eq!(join(base, rel), expected);
    }
}

#[test]
fn compares_paths_by_components() {
    assert!(same_path("/a/b", "/a//b/"));
    assert!(same_path("/a/./b", "/a/b"));
    assert!(!same_path("/a/b", "/a/c"));
    assert!(!same_path("a/b", "/a/b"));
    assert!(same_path("./a", "./a/"));
    assert!(!same_path("./a", "a"));
}
