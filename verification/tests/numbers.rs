use sunrise_alarm::decimal::{parse_u8, read_i16, read_u8};
use sunrise_alarm::scan::{
    find, position, same_text, split3, starts_with, strip_prefix, trim, white_space,
};

#[test]
fn fields_are_read_modulo_256() {
    assert_eq!(parse_u8("0"), Ok(0));
    assert_eq!(parse_u8("07"), Ok(7));
    assert_eq!(parse_u8("255"), Ok(255));
    assert_eq!(parse_u8("256"), Ok(0));
    assert_eq!(parse_u8("300"), Ok(44));
    assert_eq!(parse_u8("99999"), Ok((99999u32 % 256) as u8));
    assert_eq!(parse_u8(" \t42 "), Ok(42));
}

#[test]
fn fields_that_are_no_digits_are_refused() {
    assert_eq!(parse_u8(""), Err(()));
    assert_eq!(parse_u8("   "), Err(()));
    assert_eq!(parse_u8("1 2"), Err(()));
    assert_eq!(parse_u8("-1"), Err(()));
    assert_eq!(parse_u8("+1"), Err(()));
    assert_eq!(parse_u8("7a"), Err(()));
    assert_eq!(parse_u8("/"), Err(()));
    assert_eq!(parse_u8(":"), Err(()));
}

#[test]
fn only_the_low_byte_of_a_character_counts() {
    // U+0131 and U+0237 have the low bytes of '1' and '7'.
    assert_eq!(parse_u8("\u{131}\u{237}"), Ok(17));
    assert_eq!(parse_u8("\u{13a}"), Err(()));
}

#[test]
fn bytes_are_read_as_the_standard_library_reads_them() {
    for s in [
        "0", "7", "07", "255", "256", "+5", "-5", "-0", "+", "-", "", "1 ", "0000255", "99999999999999",
        "3\u{661}", "++1",
    ] {
        assert_eq!(read_u8(s), s.parse::<u8>().ok(), "{}", s);
    }
}

#[test]
fn signed_numbers_are_read_as_the_standard_library_reads_them() {
    for s in [
        "0", "-0", "225", "-7", "+12", "32767", "32768", "-32768", "-32769", "40000", "40001", "400000",
        "123456789012", "-", "+", "", "--1", "1.5", " 1",
    ] {
        assert_eq!(read_i16(s), s.parse::<i16>().ok(), "{}", s);
    }
}

#[test]
fn white_space_is_that_of_the_standard_library() {
    for code in 0..0x11_0000u32 {
        if let Some(c) = char::from_u32(code) {
            assert_eq!(white_space(c), c.is_whitespace(), "{:x}", code);
        }
    }
}

#[test]
fn trimming_takes_both_ends() {
    for s in ["", " ", "a", " a", "a ", "\r\n a b \t", "\u{85}x\u{a0}", "\u{3000}\u{e9}\u{2028}"] {
        assert_eq!(trim(s), s.trim());
    }
}

#[test]
fn prefixes_are_found_and_stripped() {
    assert!(starts_with("SA:7:30", "SA:"));
    assert!(!starts_with("SA", "SA:"));
    assert!(!starts_with("ST:", "SA:"));
    assert!(starts_with("", ""));
    assert_eq!(strip_prefix("AH:07", "AH:"), Some("07"));
    assert_eq!(strip_prefix("AH:07", "AM:"), None);
    assert_eq!(strip_prefix("T:", "T:"), Some(""));
    assert!(same_text("SN", "SN"));
    assert!(!same_text("SN", "SNX"));
    assert!(!same_text("SN", "DA"));
}

#[test]
fn positions_are_those_of_the_first_occurrence() {
    assert_eq!(position("a:b:c", ':'), 1);
    assert_eq!(position("abc", ':'), 3);
    assert_eq!(position("", ':'), 0);
    assert_eq!(find("ababc", "abc"), Some(2));
    assert_eq!(find("ababc", "c"), Some(4));
    assert_eq!(find("ababc", "d"), None);
    assert_eq!(find("ab", "abc"), None);
    assert_eq!(find("ab", ""), Some(0));
}

#[test]
fn three_parts_of_a_string() {
    assert_eq!(split3("1:2:3", ':'), ["1", "2", "3"]);
    assert_eq!(split3("1:2:3:4", ':'), ["1", "2", "3:4"]);
    assert_eq!(split3("1:2", ':'), ["1", "2", ""]);
    assert_eq!(split3("1", ':'), ["1", "", ""]);
    assert_eq!(split3("", ':'), ["", "", ""]);
    assert_eq!(split3("::", ':'), ["", "", ""]);
    assert_eq!(split3("\u{e9}:\u{e8}", ':'), ["\u{e9}", "\u{e8}", ""]);
    assert_eq!(split3("abc", '\u{e9}'), ["abc", "", ""]);
}
