use materia_forge::text::{
    chars_of, contains, decimal, find_text, parse_u32, same_text, split_words, take_before,
};

#[test]
fn chars_of_keeps_order() {
    assert_eq!(chars_of("añb"), vec!['a', 'ñ', 'b']);
    assert_eq!(chars_of(""), Vec::<char>::new());
}

#[test]
fn same_text_compares_characters() {
    assert!(same_text("Proton", "Proton"));
    assert!(same_text("", ""));
    assert!(!same_text("Proton", "proton"));
    assert!(!same_text("Proton", "Proton "));
}

#[test]
fn find_text_gives_first_position() {
    assert_eq!(find_text("abcabc", "bc"), Some(1));
    assert_eq!(find_text("abcabc", "abcabc"), Some(0));
    assert_eq!(find_text("abcabc", ""), Some(0));
    assert_eq!(find_text("", ""), Some(0));
    assert_eq!(find_text("abc", "abcd"), None);
    assert_eq!(find_text("abc", "cb"), None);
    assert_eq!(find_text("ñandú", "dú"), Some(3));
}

#[test]
fn contains_finds_infix() {
    assert!(contains("/steamapps/compatdata/39140/pfx", "compatdata/39140/pfx"));
    assert!(!contains("/steamapps/compatdata/39140", "compatdata/39140/pfx"));
    assert!(contains("anything", ""));
}

#[test]
fn take_before_cuts_at_first() {
    assert_eq!(take_before("8.0-5", '-'), "8.0");
    assert_eq!(take_before("a.b.c", '.'), "a");
    assert_eq!(take_before("abc", '.'), "abc");
    assert_eq!(take_before(".abc", '.'), "");
    assert_eq!(take_before("", '.'), "");
}

#[test]
fn decimal_writes_base_ten() {
    assert_eq!(decimal(0), "0");
    assert_eq!(decimal(7), "7");
    assert_eq!(decimal(10), "10");
    assert_eq!(decimal(39140), "39140");
    assert_eq!(decimal(1698970154), "1698970154");
    assert_eq!(decimal(u32::MAX), "4294967295");
}

#[test]
fn parse_u32_reads_base_ten() {
    assert_eq!(parse_u32("0"), Some(0));
    assert_eq!(parse_u32("1391110"), Some(1391110));
    assert_eq!(parse_u32("+42"), Some(42));
    assert_eq!(parse_u32("007"), Some(7));
    assert_eq!(parse_u32("4294967295"), Some(u32::MAX));
}

#[test]
fn parse_u32_rejects_what_is_no_number() {
    assert_eq!(parse_u32(""), None);
    assert_eq!(parse_u32("+"), None);
    assert_eq!(parse_u32("-1"), None);
    assert_eq!(parse_u32("++1"), None);
    assert_eq!(parse_u32("12a"), None);
    assert_eq!(parse_u32(" 12"), None);
    assert_eq!(parse_u32("12 "), None);
    assert_eq!(parse_u32("1.0"), None);
    assert_eq!(parse_u32("٣"), None);
}

#[test]
fn parse_u32_rejects_what_is_too_large() {
    assert_eq!(parse_u32("4294967296"), None);
    assert_eq!(parse_u32("99999999999999999999999999"), None);
    assert_eq!(parse_u32("00000000004294967295"), Some(u32::MAX));
}

#[test]
fn parse_u32_agrees_with_std() {
    for s in ["0", "+0", "12", "+", "", "-0", "4294967295", "4294967296", "1_000", "0x10"] {
        assert_eq!(parse_u32(s), s.parse::<u32>().ok());
    }
}

#[test]
fn split_words_splits_at_white_space() {
    assert_eq!(split_words("Proton 8.0-5"), vec!["Proton", "8.0-5"]);
    assert_eq!(split_words("  a \t b\nc  "), vec!["a", "b", "c"]);
    assert_eq!(split_words("a\u{a0}b\u{3000}c"), vec!["a", "b", "c"]);
    assert_eq!(split_words("single"), vec!["single"]);
    assert_eq!(split_words("   "), Vec::<String>::new());
    assert_eq!(split_words(""), Vec::<String>::new());
}

#[test]
fn split_words_agrees_with_std() {
    for s in ["Proton  Experimental", " x", "x ", "a b c d", "\t\n", "tab\tsep"] {
        let expected: Vec<String> = s.split_whitespace().map(|w| w.to_string()).collect();
        assert_eq!(split_words(s), expected);
    }
}
