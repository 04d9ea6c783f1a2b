use remote_transfer::text::{
    parse_u64, remove_all, split_whitespace, trim, trim_end_matches, white_space,
};

#[test]
fn white_space_is_that_of_unicode() {
    for code in 0u32..0x110000 {
        if let Some(c) = char::from_u32(code) {
            assert_eq!(white_space(c), c.is_whitespace(), "{:x}", code);
        }
    }
}

#[test]
fn texts_are_trimmed() {
    for text in ["", " ", "a", " a b \n", "\u{3000}\u{85}x\u{2009}", "é ", "\t\r\n"] {
        assert_eq!(trim(text), text.trim());
    }
}

#[test]
fn texts_are_split_at_white_space() {
    for text in ["", "  ", "a", " a  b\tc\n", "x\u{a0}y", "one two "] {
        let parts: Vec<&str> = text.split_whitespace().collect();
        assert_eq!(split_whitespace(text), parts);
    }
}

#[test]
fn trailing_characters_are_dropped() {
    for text in ["", "/", "///", "/a/", "a//", "/a/b", "é/"] {
        assert_eq!(trim_end_matches(text, '/'), text.trim_end_matches('/'));
    }
}

#[test]
fn all_occurrences_are_removed() {
    for text in ["", ",", "1,234,567", ",,a,", "abc"] {
        assert_eq!(remove_all(text, ','), text.replace(',', ""));
    }
}

#[test]
fn numbers_are_read() {
    for text in [
        "", "0", "7", "007", "42", "+42", "+", "-1", "++1", "1+", "4 2", "x", "1_000", "٣",
        "18446744073709551615", "18446744073709551616", "99999999999999999999999",
        "000000000000000000000000000001", "+0",
    ] {
        assert_eq!(parse_u64(text), text.parse::<u64>().ok(), "{}", text);
    }
}
