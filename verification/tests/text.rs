use mastermind::text::{first_char, is_single_byte, is_whitespace, parse_decimal, to_chars, trim};

#[test]
fn white_space_is_what_unicode_marks_so() {
    for c in '\0'..=char::MAX {
        assert_eq!(is_whitespace(c), c.is_whitespace(), "{:?}", c);
    }
}

const LINES: [&str; 22] = [
    "",
    " ",
    "\n",
    "abc",
    "  abc",
    "abc  ",
    "  abc  ",
    "\t\r\n abc \n",
    "a b c",
    "  a  b  ",
    "12\n",
    " 12 \r\n",
    "\u{3000}J\u{2003}",
    "\u{85}x\u{a0}",
    "\u{200b}x\u{200b}",
    "\u{feff}x",
    "   \t\n  ",
    "é ",
    " 日本 語 ",
    "\u{1680}\u{2028}\u{2029}\u{202f}\u{205f}q",
    "x\u{b}\u{c}",
    "\u{180e}y\u{180e}",
];

#[test]
fn trim_takes_the_white_space_off_both_ends() {
    for line in LINES {
        assert_eq!(trim(line), line.trim(), "{:?}", line);
    }
    assert_eq!(trim("  A B  "), "A B");
    assert_eq!(trim("\n"), "");
}

#[test]
fn to_chars_lists_the_characters() {
    for line in LINES {
        assert_eq!(to_chars(line), line.chars().collect::<Vec<char>>());
    }
}

#[test]
fn first_char_is_the_first_character() {
    for line in LINES {
        assert_eq!(first_char(line), line.chars().next());
    }
    assert_eq!(first_char("Jot"), Some('J'));
    assert_eq!(first_char(""), None);
}

#[test]
fn single_byte_is_one_ascii_character() {
    for line in LINES {
        assert_eq!(is_single_byte(line), line.len() == 1, "{:?}", line);
    }
    assert!(is_single_byte("\n"));
    assert!(is_single_byte("7"));
    assert!(!is_single_byte(""));
    assert!(!is_single_byte("é"));
    assert!(!is_single_byte("\r\n"));
}

const NUMBERS: [&str; 40] = [
    "",
    "0",
    "7",
    "+7",
    "-7",
    "++7",
    "+",
    "-",
    "007",
    "+007",
    "26",
    "27",
    "255",
    "256",
    "0255",
    "65535",
    "65536",
    "000065535",
    "18446744073709551615",
    "18446744073709551616",
    "18446744073709551625",
    "99999999999999999999",
    "184467440737095516150",
    "+18446744073709551615",
    "1 2",
    " 12",
    "12 ",
    "12a",
    "a12",
    "1_000",
    "1.5",
    "1e3",
    "0x10",
    "٣",
    "１２",
    "12\n",
    "+-1",
    "4294967295",
    "4294967296",
    "0000000000000000000000000",
];

#[test]
fn parse_decimal_reads_what_the_integer_types_read() {
    for text in NUMBERS {
        assert_eq!(
            parse_decimal(text, u8::MAX as u64),
            text.parse::<u8>().ok().map(u64::from),
            "{:?}",
            text
        );
        assert_eq!(
            parse_decimal(text, u16::MAX as u64),
            text.parse::<u16>().ok().map(u64::from),
            "{:?}",
            text
        );
        assert_eq!(parse_decimal(text, u64::MAX), text.parse::<u64>().ok(), "{:?}", text);
    }
}

#[test]
fn parse_decimal_reads_every_small_number() {
    for n in 0u64..=70000 {
        let text = n.to_string();
        assert_eq!(parse_decimal(&text, u64::MAX), Some(n));
        assert_eq!(parse_decimal(&text, u16::MAX as u64), text.parse::<u16>().ok().map(u64::from));
        assert_eq!(parse_decimal(&text, u8::MAX as u64), text.parse::<u8>().ok().map(u64::from));
    }
}

#[test]
fn parse_decimal_holds_to_its_bound() {
    assert_eq!(parse_decimal("26", 26), Some(26));
    assert_eq!(parse_decimal("27", 26), None);
    assert_eq!(parse_decimal("0", 0), Some(0));
    assert_eq!(parse_decimal("1", 0), None);
    assert_eq!(parse_decimal("10", 9), None);
    assert_eq!(parse_decimal("09", 9), Some(9));
}
