use paper_format_checker::text::{
    char_is_whitespace, chars_of, contains_str, count_words, find_byte_str, find_str, is_blank,
    lines_of, push_char, push_debug_option, push_decimal, push_join, rfind_byte_str, slice,
    slice_from, slice_to, split_str, str_eq, to_lowercase, trim_str,
};

#[test]
fn finding_text() {
    assert_eq!(find_str("abcabc", "ca"), Some(2));
    assert_eq!(find_str("abc", "d"), None);
    assert_eq!(find_str("中文abc", "abc"), Some(6));
    assert_eq!(find_str("abc", ""), Some(0));
    assert_eq!(find_byte_str("a{b{", b'{'), Some(1));
    assert_eq!(rfind_byte_str("a}b}c", b'}'), Some(3));
    assert_eq!(rfind_byte_str("abc", b'}'), None);
    assert!(contains_str("hello world", "o w"));
    assert!(!contains_str("hello", "world"));
    assert!(str_eq("same", "same"));
    assert!(!str_eq("same", "Same"));
}

#[test]
fn slicing_text() {
    assert_eq!(slice_from("hello", 2), "llo");
    assert_eq!(slice_to("hello", 2), "he");
    assert_eq!(slice("hello", 1, 4), "ell");
    assert_eq!(slice("中文字", 3, 6), "文");
}

#[test]
fn splitting_text() {
    assert_eq!(split_str("a</w:p>b</w:p>", "</w:p>"), vec!["a", "b", ""]);
    assert_eq!(split_str("none", "</w:p>"), vec!["none"]);
    assert_eq!(split_str("", ","), vec![""]);
}

#[test]
fn lines_of_text() {
    assert_eq!(lines_of("a\r\nb\n\nc"), vec!["a", "b", "", "c"]);
    assert_eq!(lines_of("a\n"), vec!["a"]);
    assert_eq!(lines_of("a\r"), vec!["a\r"]);
    assert!(lines_of("").is_empty());
}

#[test]
fn whitespace_and_words() {
    assert!(char_is_whitespace('\u{3000}'));
    assert!(char_is_whitespace('\u{c}'));
    assert!(!char_is_whitespace('a'));
    assert!(is_blank(" \t\n\u{3000}"));
    assert!(is_blank(""));
    assert!(!is_blank(" x "));
    assert_eq!(trim_str("\u{3000} a b \n"), "a b");
    assert_eq!(trim_str(" \t\u{85}\u{2029} "), "");
    assert_eq!(trim_str(""), "");
    assert_eq!(trim_str("中文"), "中文");
    assert_eq!(trim_str("\u{a0}x\u{200b}"), "x\u{200b}");
    let mixed = " \u{2003}段落\u{3000}内容\r\n";
    assert_eq!(trim_str(mixed), mixed.trim());
    assert_eq!(count_words("  one two\tthree\n"), 3);
    assert_eq!(count_words(""), 0);
    assert_eq!(count_words("中文 字数"), 2);
    assert_eq!(chars_of("a中"), vec!['a', '中']);
}

#[test]
fn building_text() {
    let mut s = String::from("n=");
    push_decimal(&mut s, 0);
    s.push(',');
    push_decimal(&mut s, 1203);
    push_char(&mut s, ';');
    push_debug_option(&mut s, Some(7));
    push_debug_option(&mut s, None);
    assert_eq!(s, "n=0,1203;Some(7)None");
    let mut j = String::from("[");
    push_join(&mut j, &vec!["a".to_string(), "b".to_string(), "c".to_string()], ", ");
    assert_eq!(j, "[a, b, c");
    let mut e = String::new();
    push_join(&mut e, &Vec::new(), ", ");
    assert_eq!(e, "");
    assert_eq!(to_lowercase("Heading ÄB"), "heading äb");
}


#[test]
fn whitespace_agrees_with_std() {
    for u in 0u32..0x11000 {
        if let Some(c) = char::from_u32(u) {
            assert_eq!(char_is_whitespace(c), c.is_whitespace(), "{:x}", u);
        }
    }
}
