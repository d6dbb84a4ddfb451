use codegen::text::{
    chars_of, concat2, concat3, contains_string, is_whitespace_char, join, parse_u32, repeat,
    replace, same_text, starts_with_at, trim_end, u32_to_decimal,
};

fn parse_text(text: &str) -> Option<u32> {
    let chars = chars_of(text);
    parse_u32(&chars, 0, chars.len())
}

fn trimmed(text: &str) -> String {
    let chars = chars_of(text);
    let end = trim_end(&chars, 0, chars.len());
    chars[..end].iter().collect()
}

#[test]
fn repeat_writes_the_unit_in_a_row() {
    assert_eq!(repeat("ab", 0), "");
    assert_eq!(repeat("ab", 1), "ab");
    assert_eq!(repeat("ab", 3), "ababab");
    assert_eq!(repeat("", 5), "");
}

#[test]
fn join_separates_neighbours() {
    assert_eq!(join(&vec![], ", "), "");
    assert_eq!(join(&vec!["a".to_string()], ", "), "a");
    assert_eq!(join(&vec!["a".to_string(), "".to_string(), "c".to_string()], ", "), "a, , c");
}

#[test]
fn concat_puts_parts_in_a_row() {
    assert_eq!(concat2("ab", "cd"), "abcd");
    assert_eq!(concat3("ab", "", "cd"), "abcd");
}

#[test]
fn chars_of_gives_the_characters() {
    assert_eq!(chars_of("aé€😀"), vec!['a', 'é', '€', '😀']);
    assert_eq!(chars_of(""), Vec::<char>::new());
}

#[test]
fn same_text_compares_characters() {
    assert!(same_text("", ""));
    assert!(same_text("abc", "abc"));
    assert!(!same_text("abc", "abd"));
    assert!(!same_text("abc", "ab"));
    assert!(!same_text("ab", "abc"));
}

#[test]
fn contains_string_finds_equal_text() {
    let names = vec!["Int".to_string(), "String".to_string()];
    assert!(contains_string(&names, "Int"));
    assert!(contains_string(&names, "String"));
    assert!(!contains_string(&names, "int"));
    assert!(!contains_string(&vec![], "Int"));
}

#[test]
fn decimal_matches_display() {
    for number in [0u32, 1, 9, 10, 11, 99, 100, 101, 12345, 907060870, u32::MAX - 1, u32::MAX] {
        assert_eq!(u32_to_decimal(number), number.to_string());
    }
}

#[test]
fn parse_matches_std() {
    let samples = [
        "", "0", "7", "42", "007", "+5", "+", "-", "-5", "++5", "+-5", "5+", " 5", "5 ", "4294967295",
        "4294967296", "04294967295", "42949672950", "99999999999999999999999999999", "12a", "a12",
        "١٢", "1_000", "0x10", "+0", "+4294967295", "+4294967296", "1.0", "٣",
    ];
    for sample in samples {
        assert_eq!(parse_text(sample), sample.parse::<u32>().ok(), "parsing {:?}", sample);
    }
}

#[test]
fn parse_reads_a_range() {
    let chars = chars_of("ab123cd");
    assert_eq!(parse_u32(&chars, 2, 5), Some(123));
    assert_eq!(parse_u32(&chars, 2, 2), None);
    assert_eq!(parse_u32(&chars, 1, 5), None);
}

#[test]
fn parse_gives_back_what_decimal_wrote() {
    for number in [0u32, 5, 10, 4096, 907060870, u32::MAX] {
        assert_eq!(parse_text(&u32_to_decimal(number)), Some(number));
    }
}

#[test]
fn whitespace_is_what_std_says() {
    for code in 0..=0x10FFFFu32 {
        if let Some(c) = char::from_u32(code) {
            assert_eq!(is_whitespace_char(c), c.is_whitespace(), "code point {:#x}", code);
        }
    }
}

#[test]
fn trim_end_matches_std() {
    let samples = [
        "", " ", "a", "a ", " a", "a \t\r\n", "a\u{a0}", "a\u{2003}\u{3000}", "a b ", "\n\n",
        "12\r\n", "a\u{200b}", "a\u{85}",
    ];
    for sample in samples {
        assert_eq!(trimmed(sample), sample.trim_end(), "trimming {:?}", sample);
    }
}

#[test]
fn starts_with_at_looks_at_an_offset() {
    let chars = chars_of("hello world");
    assert!(starts_with_at(&chars, 0, &chars_of("hello")));
    assert!(starts_with_at(&chars, 6, &chars_of("world")));
    assert!(starts_with_at(&chars, 11, &chars_of("")));
    assert!(starts_with_at(&chars, 3, &chars_of("")));
    assert!(!starts_with_at(&chars, 6, &chars_of("worlds")));
    assert!(!starts_with_at(&chars, 1, &chars_of("hello")));
}

#[test]
fn replace_matches_std() {
    let cases = [
        ("", "a", "b"),
        ("aaa", "a", "b"),
        ("aaa", "aa", "b"),
        ("aaaa", "aa", "a"),
        ("abcabc", "bc", ""),
        ("abcabc", "abcabc", "x"),
        ("abcabc", "abcabcd", "x"),
        ("a\tb\t\tc", "\t", "    "),
        ("ababab", "aba", "X"),
        ("héllo wörld", "ö", "oe"),
        ("__RUNTIME_PACKAGE__ and __RUNTIME_PACKAGE__", "__RUNTIME_PACKAGE__", "rt"),
        ("xay", "a", "aa"),
        ("", "", "-"),
        ("ab", "", "-"),
        ("héllo", "", ""),
        ("abc", "", "<>"),
        ("tail match ab", "ab", "!"),
        ("ab head match", "ab", "!"),
        ("éa😀b€", "😀", "x"),
        ("aXbXc", "X", "--"),
    ];
    for (text, pattern, replacement) in cases {
        assert_eq!(
            replace(text, pattern, replacement),
            text.replace(pattern, replacement),
            "replacing {:?} by {:?} in {:?}",
            pattern,
            replacement,
            text
        );
    }
}
