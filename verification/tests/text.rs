use upnp_media_server::order::is_before;
use upnp_media_server::path::{contains_parent_segment, is_absolute, join};
use upnp_media_server::text::{
    append_decimal, chars_of, eq_ignore_ascii_case, find_first, find_last, is_whitespace, lower, spells, split_line,
    starts_with, str_eq, string_of, trim, trim_end, trim_start,
};

fn trimmed(text: &str) -> String {
    string_of(trim(&chars_of(text)))
}

#[test]
fn texts_are_taken_apart_and_put_together() {
    let text = "a\u{e9}\u{1f3b5}";
    assert_eq!(chars_of(text), ['a', '\u{e9}', '\u{1f3b5}']);
    assert_eq!(string_of(&chars_of(text)), text);
    assert_eq!(string_of(&[]), "");
}

#[test]
fn white_space_is_that_of_unicode() {
    for c in '\0'..=char::MAX {
        assert_eq!(is_whitespace(c), c.is_whitespace(), "{c:?}");
    }
}

#[test]
fn white_space_is_trimmed() {
    assert_eq!(trimmed(" \t\r\na b\u{a0}\u{3000}"), "a b");
    assert_eq!(trimmed(""), "");
    assert_eq!(trimmed(" \n "), "");
    assert_eq!(string_of(trim_start(&chars_of("  a "))), "a ");
    assert_eq!(string_of(trim_end(&chars_of("  a "))), "  a");
}

#[test]
fn only_ascii_letters_are_lowered() {
    assert_eq!(lower("AZaz@[`{\u{c4}09"), "azaz@[`{\u{c4}09");
    assert!(eq_ignore_ascii_case("MediaServer", "MEDIAserver"));
    assert!(!eq_ignore_ascii_case("\u{c4}", "\u{e4}"));
}

#[test]
fn texts_are_compared() {
    assert!(str_eq("", ""));
    assert!(str_eq("\u{e9}", "\u{e9}"));
    assert!(!str_eq("a", "b"));
    assert!(!str_eq("a", "ab"));
    assert!(spells(&['a', 'b'], "ab"));
    assert!(!spells(&['a', 'b'], "a"));
    assert!(!spells(&['a'], "ab"));
    assert!(starts_with(&['a', 'b'], "a"));
    assert!(starts_with(&['a', 'b'], ""));
    assert!(!starts_with(&['a'], "ab"));
    assert!(!starts_with(&['b', 'a'], "a"));
}

#[test]
fn characters_are_found() {
    assert_eq!(find_first(&['a', '/', 'b', '/'], '/'), Some(1));
    assert_eq!(find_last(&['a', '/', 'b', '/'], '/'), Some(3));
    assert_eq!(find_first(&['a'], '/'), None);
    assert_eq!(find_last(&[], '/'), None);
}

#[test]
fn lines_are_split_off() {
    let split = |text: &str| {
        let chars = chars_of(text);
        let (line, after) = split_line(&chars);
        (string_of(line), string_of(after))
    };
    assert_eq!(split("a\r\nb\nc"), ("a".to_string(), "b\nc".to_string()));
    assert_eq!(split("a\n"), ("a".to_string(), "".to_string()));
    assert_eq!(split("a\r"), ("a\r".to_string(), "".to_string()));
    assert_eq!(split("\r\r\n"), ("\r".to_string(), "".to_string()));
    assert_eq!(split("\nb"), ("".to_string(), "b".to_string()));
}

#[test]
fn written_lines_come_back() {
    let mut rest = chars_of("first\r\n\r\nthird\r\nrest");
    let mut read = Vec::new();
    while !rest.is_empty() {
        let (line, after) = split_line(&rest);
        read.push(string_of(line));
        rest = after.to_vec();
    }
    assert_eq!(read, ["first", "", "third", "rest"]);
}

#[test]
fn numbers_are_written_in_decimal() {
    let written = |n: usize| {
        let mut out = "n=".to_string();
        append_decimal(&mut out, n);
        out
    };
    assert_eq!(written(0), "n=0");
    assert_eq!(written(9), "n=9");
    assert_eq!(written(10), "n=10");
    assert_eq!(written(1_002_030), "n=1002030");
    assert_eq!(written(usize::MAX), format!("n={}", usize::MAX));
}

#[test]
fn bytes_are_in_the_order_of_a_dictionary() {
    assert!(is_before(b"", b"a"));
    assert!(is_before(b"a", b"ab"));
    assert!(is_before(b"ab", b"b"));
    assert!(is_before(b"Z", b"a"));
    assert!(!is_before(b"a", b"a"));
    assert!(!is_before(b"b", b"ab"));
    assert!(!is_before(b"", b""));
}

#[test]
fn paths_are_judged() {
    assert!(is_absolute("/"));
    assert!(is_absolute("/a"));
    assert!(!is_absolute("a/"));
    assert!(!is_absolute(""));
    for path in ["..", "../a", "a/..", "a/../b", "a//../b"] {
        assert!(contains_parent_segment(path), "{path}");
    }
    for path in ["", ".", "...", "a..", "..a", "a/..b", "a/.../b"] {
        assert!(!contains_parent_segment(path), "{path}");
    }
}

#[test]
fn paths_are_joined_like_those_of_the_system() {
    for base in ["", "/", "/a", "/a/", "a"] {
        for path in ["", "b", "b/c", "/d", "b/"] {
            let expected = std::path::PathBuf::from(base).join(path);
            assert_eq!(join(base, path), expected.to_str().unwrap(), "{base} {path}");
        }
    }
}

#[test]
fn paths_are_judged_like_those_of_the_system() {
    for path in ["", "/", "a", "/a", "..", "a/../b", "a/..b", "./..", "a//..", "a/./..", "...", "a/.."] {
        let system = std::path::Path::new(path);
        assert_eq!(is_absolute(path), system.is_absolute(), "{path}");
        assert_eq!(contains_parent_segment(path), system.iter().any(|item| item == ".."), "{path}");
    }
}
