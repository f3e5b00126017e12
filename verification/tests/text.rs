use aether_dev::order::sort;
use aether_dev::table::{clip, fit, indent, megabytes, pad};
use aether_dev::text::{
    char_is_white, chars_of, find_text, join, number_text, parse_number, replace_text,
    same_ignoring_case, signed_text, split_text, string_of, trim, words,
};

#[test]
fn white_space_is_what_unicode_says_it_is() {
    for code in 0..=0x0010_ffffu32 {
        if let Some(c) = char::from_u32(code) {
            assert_eq!(char_is_white(c), c.is_whitespace(), "{code:x}");
        }
    }
}

#[test]
fn words_and_trimming_agree_with_the_standard_library() {
    for text in ["", "  ", " a b ", "a\u{a0}b\tc\n", "\u{3000}x"] {
        let chars = chars_of(text);
        assert_eq!(string_of(trim(&chars)), text.trim());
        let found: Vec<String> = words(&chars).iter().map(|word| string_of(word)).collect();
        assert_eq!(found, text.split_whitespace().collect::<Vec<_>>());
    }
}

#[test]
fn numbers_are_read_as_the_standard_library_reads_them() {
    for text in ["0", "7", "+7", "007", "65535", "65536", "", "+", "-1", "1_0", " 1"] {
        assert_eq!(
            parse_number(&chars_of(text), 65535),
            text.parse::<u16>().ok().map(u64::from),
            "{text:?}"
        );
    }
    assert_eq!(number_text(u64::MAX), u64::MAX.to_string());
    assert_eq!(signed_text(i32::MIN), i32::MIN.to_string());
}

#[test]
fn texts_are_searched_and_taken_apart() {
    assert_eq!(find_text(&chars_of("broken pipe"), &chars_of("pipe")), Some(7));
    assert_eq!(find_text(&chars_of("broken"), &chars_of("pipe")), None);
    let parts: Vec<String> = split_text(&chars_of("a || b||c"), &chars_of("||"))
        .iter()
        .map(|part| string_of(part))
        .collect();
    assert_eq!(parts, "a || b||c".split("||").collect::<Vec<_>>());
    assert_eq!(replace_text("{}/{}", "{}", "x"), "x/x");
    assert!(same_ignoring_case(&chars_of("LISTEN"), &chars_of("listen")));
    assert_eq!(join(&["a".to_string(), "b".to_string()], ", "), "a, b");
}

#[test]
fn sorting_orders_texts_and_keeps_them_all() {
    let sorted = sort(vec!["b".to_string(), "a".to_string(), "B".to_string(), "a".to_string()]);
    assert_eq!(sorted, vec!["B", "a", "a", "b"]);
}

#[test]
fn a_column_has_its_width_whatever_is_in_it() {
    assert_eq!(clip("abcdef", 4), "abc…");
    assert_eq!(clip("abcd", 4), "abcd");
    assert_eq!(pad("ab", 4), "ab  ");
    assert_eq!(indent("ab", 4), "  ab");
    for text in ["", "ab", "abcd", "abcdefgh"] {
        assert_eq!(fit(text, 4).chars().count(), 4);
    }
    assert_eq!(megabytes(Some(1_048_575)), "0 MB");
    assert_eq!(megabytes(Some(1_048_576)), "1 MB");
    assert_eq!(megabytes(None), "-");
}
