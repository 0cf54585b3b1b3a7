use cam_manager::text::{
    byte_len, comes_before, contains_char, decimal_string, has_text, is_blank, parse_number,
    remove_all, same_text, to_chars, trim_bounds, truncate_chars,
};

#[test]
fn decimal_notation() {
    assert_eq!(decimal_string(0), "0");
    assert_eq!(decimal_string(7), "7");
    assert_eq!(decimal_string(10), "10");
    assert_eq!(decimal_string(1234567890), "1234567890");
    assert_eq!(decimal_string(u64::MAX), "18446744073709551615");
}

#[test]
fn text_is_found_where_it_occurs() {
    assert!(has_text("UNIQUE constraint failed", "UNIQUE"));
    assert!(has_text("a UNIQUE", "UNIQUE"));
    assert!(!has_text("a UNIQU", "UNIQUE"));
    assert!(!has_text("", "UNIQUE"));
    assert!(has_text("", ""));
    assert!(has_text("abc", ""));
    assert!(contains_char("a@b", '@'));
    assert!(!contains_char("ab", '@'));
    assert!(same_text("true", "true"));
    assert!(!same_text("true", "True"));
    assert!(!same_text("true", "tru"));
    assert!(same_text("", ""));
}

#[test]
fn dictionary_order_is_the_order_of_strings() {
    let words = ["", "0", "07:59", "08:00", "18:00", "8:00", "a", "ab", "b", "é", "z", "\u{10000}"];
    for a in words {
        for b in words {
            assert_eq!(comes_before(a, b), a < b, "{:?} before {:?}", a, b);
        }
    }
}

#[test]
fn white_space_is_taken_off_both_ends() {
    for text in ["", " ", "  a  ", "a", "\t a b \n", "\u{a0}x\u{2003}", " \u{feff} "] {
        let v = to_chars(text);
        let (a, b) = trim_bounds(&v, 0, v.len());
        let cut: String = v[a..b].iter().collect();
        assert_eq!(cut, text.trim(), "for {:?}", text);
        assert_eq!(is_blank(text), text.trim().is_empty(), "for {:?}", text);
    }
}

#[test]
fn truncation_counts_characters() {
    assert_eq!(truncate_chars("héllo", 2), "hé");
    assert_eq!(truncate_chars("héllo", 5), "héllo");
    assert_eq!(truncate_chars("héllo", 9), "héllo");
    assert_eq!(truncate_chars("héllo", 0), "");
    assert_eq!(byte_len("héllo"), 6);
    assert_eq!(byte_len(""), 0);
}

#[test]
fn numbers_are_read_as_the_standard_library_reads_them() {
    let texts = [
        "", "0", "7", "+7", "-7", "++7", "+", "-", " 7", "7 ", "007", "+007", "1_000", "12a",
        "4294967295", "4294967296", "+4294967295", "99999999999999999999", "٣", "１２", "0x10",
        "1e3", "3.0",
    ];
    for text in texts {
        let chars = to_chars(text);
        let read = parse_number(&chars, 0, chars.len(), u32::MAX as u64);
        assert_eq!(read, text.parse::<u32>().ok().map(u64::from), "for {:?}", text);
        let wide = parse_number(&chars, 0, chars.len(), u64::MAX);
        assert_eq!(wide, text.parse::<u64>().ok(), "for {:?}", text);
    }
}

#[test]
fn patterns_are_taken_out_as_the_standard_library_does() {
    let cases = [
        ("http://mediamtx:9997", "http://"),
        ("http://http://a", "http://"),
        ("hhttp://ttp://a", "http://"),
        ("aaaa", "aa"),
        ("aaa", "aa"),
        ("abcabc", "abc"),
        ("abc", ""),
        ("", "abc"),
        ("ñandú ñandú", "ñ"),
    ];
    for (text, pattern) in cases {
        let out: String = remove_all(&to_chars(text), &to_chars(pattern)).into_iter().collect();
        assert_eq!(out, text.replace(pattern, ""), "for {:?} without {:?}", text, pattern);
    }
}
