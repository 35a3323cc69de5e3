use notes_api::text::{
    cat, chars_of, contains_char, contains_str, i64_to_string, is_whitespace, join_strings,
    join_strs, replace, split, str_eq, trim, trim_each, u64_to_string,
};

#[test]
fn trim_removes_unicode_white_space() {
    assert_eq!(trim("  a b \t"), "a b");
    assert_eq!(trim("\u{3000}x\u{85}\n"), "x");
    assert_eq!(trim("   "), "");
    assert_eq!(trim(""), "");
    assert_eq!(trim("\u{200B}x"), "\u{200B}x");
}

#[test]
fn trim_is_idempotent_on_examples() {
    for s in ["  a  ", "\tb\n", "c", "", " \u{A0} "] {
        assert_eq!(trim(trim(s)), trim(s));
        assert_eq!(trim(s), s.trim());
    }
}

#[test]
fn whitespace_matches_std() {
    for c in ['\t', '\n', '\u{b}', '\u{c}', '\r', ' ', '\u{85}', '\u{a0}', '\u{1680}', '\u{2000}', '\u{200a}', '\u{2028}', '\u{2029}', '\u{202f}', '\u{205f}', '\u{3000}', 'a', '\u{200b}', '\u{180e}', '0'] {
        assert_eq!(is_whitespace(c), c.is_whitespace(), "{:?}", c);
    }
}

#[test]
fn split_matches_std() {
    assert_eq!(split("a,,b", ','), vec!["a", "", "b"]);
    assert_eq!(split("", ','), vec![""]);
    assert_eq!(split(",", ','), vec!["", ""]);
    assert_eq!(split("no separator", ','), vec!["no separator"]);
    let s = "x.y.z";
    assert_eq!(split(s, '.'), s.split('.').collect::<Vec<_>>());
}

#[test]
fn split_then_join_gives_the_text_back() {
    for s in ["a;b;;c", "", ";", "abc;", ";abc"] {
        assert_eq!(join_strs(&split(s, ';'), ";"), s);
    }
}

#[test]
fn join_matches_std() {
    assert_eq!(join_strs(&vec!["a", "b", "c"], ", "), "a, b, c");
    assert_eq!(join_strs(&vec![], ", "), "");
    assert_eq!(join_strs(&vec!["only"], ", "), "only");
    assert_eq!(join_strings(&vec!["x".to_string(), "y".to_string()], "-"), "x-y");
}

#[test]
fn trim_each_trims_every_piece() {
    assert_eq!(trim_each(&vec![" a", "b ", " c "]), vec!["a", "b", "c"]);
}

#[test]
fn contains_matches_std() {
    assert!(contains_str("notes.title", "title"));
    assert!(contains_str("abc", ""));
    assert!(!contains_str("ab", "abc"));
    assert!(!contains_str("", "a"));
    assert!(contains_str("aab", "ab"));
    assert!(contains_char("a=b", '='));
    assert!(!contains_char("ab", '='));
}

#[test]
fn replace_matches_std() {
    assert_eq!(replace("$a-$a", "$a", "X"), "X-X");
    assert_eq!(replace("aaa", "aa", "b"), "ba");
    assert_eq!(replace("abc", "z", "q"), "abc");
    assert_eq!(replace("", "z", "q"), "");
    let t = "SELECT $f FROM t LIMIT $limit OFFSET $limit_x";
    assert_eq!(replace(t, "$limit", "10"), t.replace("$limit", "10"));
}

#[test]
fn decimal_formatting_matches_display() {
    assert_eq!(u64_to_string(0), "0");
    assert_eq!(u64_to_string(1234567890), "1234567890");
    assert_eq!(u64_to_string(u64::MAX), u64::MAX.to_string());
    assert_eq!(i64_to_string(-42), "-42");
    assert_eq!(i64_to_string(7), "7");
    assert_eq!(i64_to_string(i64::MIN), "-9223372036854775808");
}

#[test]
fn small_helpers() {
    assert_eq!(cat("ab", "cd"), "abcd");
    assert_eq!(chars_of("héllo"), vec!['h', 'é', 'l', 'l', 'o']);
    assert!(str_eq("same", "same"));
    assert!(!str_eq("same", "sane"));
}
