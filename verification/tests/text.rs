use letraspip::text::{
    chars_of, has_infix, has_prefix, lines, matches_at, replace_char, string_of, trim, trim_bounds,
};

fn chars(s: &str) -> Vec<char> {
    s.chars().collect()
}

#[test]
fn characters_and_back() {
    assert_eq!(chars_of("aé😀"), vec!['a', 'é', '😀']);
    assert!(chars_of("").is_empty());
    assert_eq!(string_of(&chars("hello"), 1, 4), "ell");
    assert_eq!(string_of(&chars("hello"), 2, 2), "");
    assert_eq!(string_of(&chars("héllo"), 0, 5), "héllo");
}

#[test]
fn trim_removes_whitespace_at_both_ends() {
    assert_eq!(trim("  a b \t\r\n"), "a b");
    assert_eq!(trim("\u{2003}x\u{00a0}"), "x");
    assert_eq!(trim("x"), "x");
    assert_eq!(trim(" \n "), "");
    assert_eq!(trim(""), "");
    assert_eq!(trim_bounds(&chars("  ab ")), (2, 4));
    assert_eq!(trim_bounds(&chars("   ")), (3, 3));
}

#[test]
fn lines_end_at_line_feeds() {
    assert_eq!(lines("a\nb"), vec!["a", "b"]);
    assert_eq!(lines("a\nb\n"), vec!["a", "b"]);
    assert_eq!(lines("a\r\nb\r\n"), vec!["a", "b"]);
    assert_eq!(lines("a\rb\n\nc\r"), vec!["a\rb", "", "c\r"]);
    assert_eq!(lines("\n"), vec![""]);
    assert_eq!(lines("\r\n\r\n"), vec!["", ""]);
    assert_eq!(lines("a\r\r\n"), vec!["a\r"]);
    assert!(lines("").is_empty());
}

#[test]
fn lines_agree_with_the_standard_library() {
    for text in ["", "x", "\n", "a\n\nb", "a\r\nb\rc\n", "\r", "\r\n", "é\n😀\r\n\r", "\n\n\n"] {
        let expected: Vec<String> = text.lines().map(|l| l.to_string()).collect();
        assert_eq!(lines(text), expected, "{:?}", text);
    }
}

#[test]
fn trim_agrees_with_the_standard_library() {
    for text in ["", " ", " a ", "\t\u{3000}a b\u{2028}", "a", "\u{feff}a"] {
        assert_eq!(trim(text), text.trim(), "{:?}", text);
    }
}

#[test]
fn prefixes_and_infixes_are_found() {
    assert!(has_prefix(&chars("[ar:x]"), "[ar:"));
    assert!(has_prefix(&chars("abc"), ""));
    assert!(has_prefix(&chars("abc"), "abc"));
    assert!(!has_prefix(&chars("ab"), "abc"));
    assert!(!has_prefix(&chars("xabc"), "abc"));
    assert!(has_infix(&chars("the outro here"), "outro"));
    assert!(has_infix(&chars("outro"), "outro"));
    assert!(has_infix(&chars("xxoutro"), "outro"));
    assert!(has_infix(&chars("abc"), ""));
    assert!(has_infix(&chars(""), ""));
    assert!(!has_infix(&chars("outr"), "outro"));
    assert!(!has_infix(&chars(""), "a"));
    assert!(matches_at(&chars("abcabc"), &chars("cab"), 2));
    assert!(!matches_at(&chars("abcabc"), &chars("cab"), 3));
    assert!(!matches_at(&chars("abc"), &chars("c"), usize::MAX));
    assert!(matches_at(&chars("abc"), &chars(""), 3));
    assert!(!matches_at(&chars("abc"), &chars(""), 4));
}

#[test]
fn characters_are_replaced_one_for_one() {
    assert_eq!(replace_char("a b  c", ' ', '_'), "a_b__c");
    assert_eq!(replace_char("abc", 'x', 'y'), "abc");
    assert_eq!(replace_char("", 'x', 'y'), "");
}

#[test]
fn whitespace_is_the_unicode_property() {
    let white = [
        '\u{9}', '\u{a}', '\u{b}', '\u{c}', '\u{d}', ' ', '\u{85}', '\u{a0}', '\u{1680}',
        '\u{2000}', '\u{2001}', '\u{2002}', '\u{2003}', '\u{2004}', '\u{2005}', '\u{2006}',
        '\u{2007}', '\u{2008}', '\u{2009}', '\u{200a}', '\u{2028}', '\u{2029}', '\u{202f}',
        '\u{205f}', '\u{3000}',
    ];
    for c in white {
        assert_eq!(trim(&format!("{}x{}", c, c)), "x", "{:?}", c);
    }
    for c in ['\u{8}', '\u{e}', '\u{1f}', '\u{200b}', '\u{feff}', '\u{180e}', '\u{2060}', '_'] {
        let text = format!("{}x{}", c, c);
        assert_eq!(trim(&text), text, "{:?}", c);
    }
}
