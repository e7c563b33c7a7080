use maid::numeral::{parse_u32, parse_u64, to_decimal, to_hex16};
use maid::string_set::StringSet;
use maid::{path, text};

#[test]
fn white_space_is_what_unicode_says() {
    for c in '\0'..=char::MAX {
        assert_eq!(text::white(c), c.is_whitespace(), "{:x}", c as u32);
        assert_eq!(text::lower(c), c.to_ascii_lowercase());
        assert_eq!(text::ascii_alphanumeric(c), c.is_ascii_alphanumeric());
    }
}

#[test]
fn strings_are_trimmed_and_split() {
    assert_eq!(text::trim("\u{2003} a b \n"), "a b");
    assert_eq!(text::trim(" \t"), "");
    assert_eq!(text::trim_line_end("a\r\n"), "a");
    assert_eq!(text::trim_line_end("a \n\n"), "a ");
    assert_eq!(text::split("a/b//", '/'), vec!["a", "b", "", ""]);
    assert_eq!(text::split("", '/'), vec![""]);
    assert_eq!(
        text::split_once("a/b/c", '/'),
        Some(("a".to_string(), "b/c".to_string()))
    );
    assert_eq!(text::split_once("abc", '/'), None);
    assert_eq!(text::strip_prefix("~/x", "~/").as_deref(), Some("x"));
    assert_eq!(text::strip_prefix("x", "~/"), None);
    assert!(text::contains("abcd", "bc"));
    assert!(!text::contains("abcd", "cb"));
    assert!(text::contains_char("abcd", 'd'));
    assert!(text::same_ignoring_case("Maid-BOT", "maid-bot"));
    assert!(!text::same_ignoring_case("\u{c4}", "\u{e4}"));
    assert!(text::before("a", "aa") && text::before("Z", "a") && !text::before("b", "a"));
}

#[test]
fn numerals_read_back() {
    for n in [0, 1, 9, 10, 42, 1200, u64::MAX] {
        assert_eq!(to_decimal(n), n.to_string());
        assert_eq!(parse_u64(&to_decimal(n)), Some(n));
        assert_eq!(to_hex16(n), format!("{n:016x}"));
    }
    for s in ["", "+", "-1", " 1", "1 ", "0x1", "18446744073709551616"] {
        assert_eq!(parse_u64(s), s.parse::<u64>().ok(), "{s:?}");
    }
    for s in ["+7", "007", "4294967295", "4294967296"] {
        assert_eq!(parse_u64(s), s.parse::<u64>().ok(), "{s:?}");
        assert_eq!(parse_u32(s), s.parse::<u32>().ok(), "{s:?}");
    }
}

#[test]
fn paths_are_joined_as_the_system_joins_them() {
    for base in ["", "/", "/a", "/a/", "a"] {
        for part in ["", "b", "/b", "b/c"] {
            let expected = std::path::Path::new(base).join(part);
            assert_eq!(path::join(base, part), expected.to_string_lossy());
        }
        assert_eq!(path::is_absolute(base), base.starts_with('/'));
    }
}

#[test]
fn string_sets_hold_each_string_once() {
    let mut set = StringSet::from_list(&vec!["b".to_string(), "a".to_string(), "b".to_string()]);

    assert_eq!(set.to_list(), vec!["a", "b"]);
    set.insert("ab");
    assert_eq!(set.to_list(), vec!["a", "ab", "b"]);
    set.remove("a");
    set.remove("missing");
    assert!(!set.contains("a"));
    assert!(set.contains("ab"));
    assert_eq!(StringSet::new().to_list(), Vec::<String>::new());
}
