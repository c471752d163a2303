use zeroclaw::text::{
    byte_prefix, chars_of, comes_before, is_blank, is_white_space, join, print_i32,
    print_u64, same_but_for_case, same_text, text_between, trim,
};

#[test]
fn white_space_is_what_unicode_says() {
    for n in 0..=0x10FFFFu32 {
        if let Some(c) = char::from_u32(n) {
            assert_eq!(is_white_space(c), c.is_whitespace(), "{n:x}");
        }
    }
}

#[test]
fn trimming_takes_both_ends() {
    for s in ["", " ", "a", " a b \n", "\u{3000}x\u{2003}", "\u{200b}x"] {
        assert_eq!(trim(s), s.trim());
        assert_eq!(is_blank(s), s.trim().is_empty());
    }
}

#[test]
fn numbers_are_printed() {
    for n in [0u64, 9, 10, 12345, u64::MAX] {
        assert_eq!(print_u64(n), n.to_string());
    }
    for n in [0i32, -1, 7, -14, i32::MIN, i32::MAX] {
        assert_eq!(print_i32(n), n.to_string());
    }
}

#[test]
fn order_is_that_of_strings() {
    let words = ["", "A", "Z", "a", "aa", "ab", "b", "é", "\u{FFFF}", "\u{10000}"];
    for a in words {
        for b in words {
            assert_eq!(comes_before(a, b), a < b, "{a} {b}");
            assert_eq!(same_text(a, b), a == b);
        }
    }
}

#[test]
fn parts_are_joined() {
    let parts: Vec<String> = vec!["a".into(), "".into(), "c".into()];
    assert_eq!(join(&parts, ", "), "a, , c");
    assert_eq!(join(&vec![], ", "), "");
    assert_eq!(join(&vec!["x".to_string()], ", "), "x");
}

#[test]
fn prefixes_are_cut_by_bytes() {
    for s in ["", "abcdef", "aé漢😀z"] {
        for n in 0..16usize {
            let expected = (0..=n).rev().find_map(|k| s.get(..k.min(s.len()))).unwrap();
            assert_eq!(byte_prefix(s, n), expected, "{s} {n}");
        }
    }
}

#[test]
fn case_is_ignored_in_ascii_alone() {
    assert!(same_but_for_case("SiLk", "silk"));
    assert!(!same_but_for_case("Ä", "ä"));
    assert!(!same_but_for_case("a", "ab"));
}

#[test]
fn texts_are_read_by_characters() {
    let chars = chars_of("aé漢");
    assert_eq!(chars, vec!['a', 'é', '漢']);
    assert_eq!(text_between(&chars, 1, 3), "é漢");
}
