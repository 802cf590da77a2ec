use zarr_reader::text::{
    chars_of, decimal_string, find_char, has_prefix, has_suffix, parse_i64, parse_parts,
    parse_usize, remove_all, same_text, trim_start,
};

fn chars(text: &str) -> Vec<char> {
    text.chars().collect()
}

#[test]
fn unsigned_numbers_parse_as_the_standard_library_does() {
    let max = usize::MAX.to_string();
    let over = format!("{}0", usize::MAX);
    let cases = [
        "0", "7", "42", "007", "+5", "+", "-", "", "-0", "-1", "1a", "a1", " 1", "1 ", "1.0",
        "18446744073709551615", "18446744073709551616", "99999999999999999999", "++1", "+-1",
        "٣", "1_000", max.as_str(), over.as_str(),
    ];
    for case in cases {
        assert_eq!(parse_usize(&chars(case)), case.parse::<usize>().ok(), "{case:?}");
    }
}

#[test]
fn signed_numbers_parse_as_the_standard_library_does() {
    let cases = [
        "0", "-0", "+0", "7", "-7", "+7", "", "+", "-", "--1", "9223372036854775807",
        "9223372036854775808", "-9223372036854775808", "-9223372036854775809", "12x", "x12",
        "1-", "0009", "-0009", "99999999999999999999999",
    ];
    for case in cases {
        assert_eq!(parse_i64(&chars(case)), case.parse::<i64>().ok(), "{case:?}");
    }
}

#[test]
fn decimal_numerals_are_those_of_the_standard_library() {
    for n in [0usize, 1, 9, 10, 11, 99, 100, 101, 12345, usize::MAX, usize::MAX - 1] {
        assert_eq!(decimal_string(n), n.to_string());
    }
}

#[test]
fn text_is_compared_by_characters() {
    assert!(same_text("gzip", "gzip"));
    assert!(!same_text("gzip", "gzi"));
    assert!(!same_text("gzip", "Gzip"));
    assert!(same_text("", ""));
    assert_eq!(chars_of("aé𝄞z"), vec!['a', 'é', '𝄞', 'z']);
    assert_eq!(chars_of(""), Vec::<char>::new());
}

#[test]
fn first_occurrence_of_a_character() {
    assert_eq!(find_char(&chars("a.b.c"), '.'), 1);
    assert_eq!(find_char(&chars("abc"), '.'), 3);
    assert_eq!(find_char(&chars(""), '.'), 0);
    assert_eq!(find_char(&chars(".x"), '.'), 0);
}

#[test]
fn prefixes_and_suffixes() {
    assert!(has_prefix(".zmetadata", ".z"));
    assert!(!has_prefix("a/.zarray", ".z"));
    assert!(has_prefix("abc", ""));
    assert!(!has_prefix("a", "ab"));
    assert!(has_suffix("a/.zattrs", ".zattrs"));
    assert!(has_suffix("a/.zarray", "/.zarray"));
    assert!(!has_suffix("zarray", ".zarray"));
    assert!(has_suffix("abc", ""));
    assert!(!has_suffix("bc", "abc"));
}

#[test]
fn occurrences_are_removed_as_the_standard_library_does() {
    let cases = [
        ("a/.zarray", "/.zarray"),
        ("a/.zarray", ".zarray"),
        ("/a/b/.zarray", "/.zarray"),
        ("x.zarray.y/.zarray", ".zarray"),
        ("aaaa", "aa"),
        ("aaa", "aa"),
        ("abab", "ab"),
        ("", "ab"),
        ("abc", "abcd"),
        ("héllo/.zarray", "/.zarray"),
    ];
    for (text, pattern) in cases {
        assert_eq!(remove_all(text, pattern), text.replace(pattern, ""), "{text:?} {pattern:?}");
    }
}

#[test]
fn leading_run_is_trimmed_as_the_standard_library_does() {
    for text in ["/a/b", "///a", "a/", "", "/", "//", "é/"] {
        assert_eq!(trim_start(text, '/'), text.trim_start_matches('/'), "{text:?}");
    }
}

#[test]
fn numeric_parts_of_a_separated_text() {
    assert_eq!(parse_parts(&chars("1.2.3"), '.'), vec![1, 2, 3]);
    assert_eq!(parse_parts(&chars("1.2.3"), '/'), Vec::<usize>::new());
    assert_eq!(parse_parts(&chars(".1."), '.'), vec![1]);
    assert_eq!(parse_parts(&chars(""), '.'), Vec::<usize>::new());
    let expected: Vec<usize> = "4/x/5//6".split('/').filter_map(|s| s.parse().ok()).collect();
    assert_eq!(parse_parts(&chars("4/x/5//6"), '/'), expected);
}
