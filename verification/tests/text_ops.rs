use niri_quickshell::paths::{join, last_component_is};
use niri_quickshell::text::{
    contains_str, ends_with_str, i64_to_text, nth_word_str, parse_i8, remove_all_str,
    remove_char, same_text, sort_texts, trim_str, u64_to_text,
};

#[test]
fn decimal_formatting() {
    assert_eq!(u64_to_text(0), "0");
    assert_eq!(u64_to_text(7), "7");
    assert_eq!(u64_to_text(42), "42");
    assert_eq!(u64_to_text(u64::MAX), u64::MAX.to_string());
    assert_eq!(i64_to_text(-5), "-5");
    assert_eq!(i64_to_text(i64::MIN), i64::MIN.to_string());
    assert_eq!(i64_to_text(1234), "1234");
}

#[test]
fn integer_parsing_follows_std() {
    for s in ["57", "+5", "-128", "127", "128", "-129", "007", "", "+", "-", "5a", " 5", "-0", "99999999999", "٣"] {
        assert_eq!(parse_i8(s), s.parse::<i8>().ok(), "input {:?}", s);
    }
}

#[test]
fn trimming_follows_std() {
    for s in ["  a b \n", "\t\u{3000}x\u{85}", "", "   ", "abc", "\u{a0}\u{2009}y z\u{202f}"] {
        assert_eq!(trim_str(s), s.trim());
    }
}

#[test]
fn words_follow_split_whitespace() {
    for s in ["Volume: 0.45 [MUTED]", "  a\t\tb  c", "one", "", "   "] {
        for k in 0..4usize {
            assert_eq!(nth_word_str(s, k), s.split_whitespace().nth(k).map(String::from));
        }
    }
}

#[test]
fn replacing_and_searching() {
    assert_eq!(remove_char("#24273a", '#'), "24273a");
    assert_eq!(remove_char("#a#b#", '#'), "ab");
    assert_eq!(remove_all_str("x.toml.toml", ".toml"), "x");
    assert_eq!(remove_all_str("a.tomlb.toml", ".toml"), "ab");
    assert_eq!(remove_all_str("..tomll", ".toml"), ".l");
    assert!(contains_str("Volume: 0.40 [MUTED]", "[MUTED]"));
    assert!(!contains_str("Volume: 0.40", "[MUTED]"));
    assert!(contains_str("abc", ""));
    assert!(ends_with_str("dark.toml", ".toml"));
    assert!(!ends_with_str("toml", ".toml"));
    assert!(same_text("toggle-cc", "toggle-cc"));
    assert!(!same_text("toggle-cc", "toggle-c"));
}

#[test]
fn sorting_is_alphabetical() {
    let v: Vec<String> = ["nord", "Dracula", "catppuccin", "nord", "ä", "b"].iter().map(|s| s.to_string()).collect();
    let mut expected = v.clone();
    expected.sort();
    assert_eq!(sort_texts(&v), expected);
}

#[test]
fn path_joining_follows_pathbuf() {
    let cases = [("/home/a/.config", "niri-quickshell"), ("/home/a/", "x"), ("", "x"), ("a", "/abs"), ("a", "")];
    for (b, p) in cases {
        let expected = std::path::PathBuf::from(b).join(p);
        assert_eq!(join(b.as_bytes(), p.as_bytes()), expected.as_os_str().as_encoded_bytes());
    }
    assert_eq!(join(&[0xff, b'a'], b"x"), vec![0xff, b'a', b'/', b'x']);
}

#[test]
fn last_component_follows_path_ends_with() {
    for p in ["/a/theme.toml", "theme.toml", "/a/theme.toml/", "/a/theme.toml/.", "/a/b.toml", "/", "", ".", "/x/theme.toml.bak", "./theme.toml"] {
        assert_eq!(last_component_is(p.as_bytes(), b"theme.toml"), std::path::Path::new(p).ends_with("theme.toml"), "path {:?}", p);
    }
}
