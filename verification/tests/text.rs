use packfix::pieces::{decimal_of, lines_of, replaced, sorted_texts, split_on};
use packfix::text::white;

#[test]
fn white_space_agrees_with_the_standard_library() {
    for n in 0..=0x10FFFFu32 {
        if let Some(c) = char::from_u32(n) {
            assert_eq!(white(c), c.is_whitespace(), "U+{:04X}", n);
        }
    }
}

#[test]
fn lines_agree_with_the_standard_library() {
    for s in ["", "\n", "a", "a\n", "a\r\nb", "a\r", "\r\n\r\n", "a\n\nb\r\n\rc\r\r\n", "é\nü"] {
        let expected: Vec<String> = s.lines().map(str::to_string).collect();
        assert_eq!(lines_of(s), expected, "{:?}", s);
    }
}

#[test]
fn fields_and_replacements_agree_with_the_standard_library() {
    for s in ["", ",", "a,b", ",a,,b,", "aaa", "a,a"] {
        let expected: Vec<String> = s.split(',').map(str::to_string).collect();
        assert_eq!(split_on(s, ','), expected);
        assert_eq!(replaced(s, "a", "bc"), s.replace("a", "bc"));
        assert_eq!(replaced(s, "aa", "x"), s.replace("aa", "x"));
    }
}

#[test]
fn numbers_are_written_in_decimal() {
    for n in [0u64, 7, 10, 99, 100, 18446744073709551615] {
        assert_eq!(decimal_of(n), n.to_string());
    }
}

#[test]
fn sorting_orders_and_drops_repetitions() {
    let items: Vec<String> = ["b", "a", "ab", "b", "", "é"].iter().map(|s| s.to_string()).collect();
    assert_eq!(sorted_texts(&items), ["", "a", "ab", "b", "é"]);
}
