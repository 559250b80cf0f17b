use midiline::token::{char_is_whitespace, parse_u8, tokenize};

#[test]
fn whitespace_is_what_std_calls_whitespace() {
    for code in 0u32..=0x10FFFF {
        if let Some(c) = char::from_u32(code) {
            assert_eq!(char_is_whitespace(c), c.is_whitespace(), "U+{:04X}", code);
        }
    }
}

#[test]
fn tokenize_single_spaces() {
    assert_eq!(tokenize("noteon 60 100 0"), vec!["noteon", "60", "100", "0"]);
    assert_eq!(tokenize("cc 7 127 1"), vec!["cc", "7", "127", "1"]);
    assert_eq!(tokenize("quit"), vec!["quit"]);
}

#[test]
fn tokenize_blank_lines_have_no_tokens() {
    assert_eq!(tokenize(""), Vec::<&str>::new());
    assert_eq!(tokenize(" "), Vec::<&str>::new());
    assert_eq!(tokenize("\n"), Vec::<&str>::new());
    assert_eq!(tokenize(" \t \r\n"), Vec::<&str>::new());
}

#[test]
fn tokenize_runs_of_whitespace_separate_once() {
    assert_eq!(tokenize("  noteon   60\t100 \t 0  \n"), vec!["noteon", "60", "100", "0"]);
    assert_eq!(tokenize("a\u{00A0}b\u{3000}c"), vec!["a", "b", "c"]);
    assert_eq!(tokenize("x"), vec!["x"]);
    assert_eq!(tokenize(" x"), vec!["x"]);
    assert_eq!(tokenize("x "), vec!["x"]);
}

#[test]
fn tokenize_keeps_characters_of_any_width() {
    assert_eq!(tokenize("h\u{00E9}llo w\u{00F6}rld"), vec!["h\u{00E9}llo", "w\u{00F6}rld"]);
    assert_eq!(tokenize("\u{65E5}\u{672C} \u{1F3B9}"), vec!["\u{65E5}\u{672C}", "\u{1F3B9}"]);
}

#[test]
fn tokenize_agrees_with_split_whitespace() {
    let lines = [
        "",
        " ",
        "noteon 60 100 0",
        "  leading",
        "trailing  ",
        "a  b",
        "tab\tseparated\twords",
        "line\r\n",
        "mixed \u{2003}unicode\u{2028}spaces\u{0085}here",
        "\u{000B}\u{000C}",
        "one",
        "cc 7 127 1 extra tokens",
        "\u{1F600} smile \u{00E9}",
    ];
    for line in lines {
        let expected: Vec<&str> = line.split_whitespace().collect();
        assert_eq!(tokenize(line), expected, "{:?}", line);
    }
}

#[test]
fn tokens_are_never_empty_and_hold_no_whitespace() {
    for line in ["  a  bb   ccc ", "\t\tx\ty", "noteon 1 2", " "] {
        for token in tokenize(line) {
            assert!(!token.is_empty());
            assert!(!token.chars().any(|c| c.is_whitespace()));
        }
    }
}

#[test]
fn parse_u8_exact_values() {
    assert_eq!(parse_u8("0"), Some(0));
    assert_eq!(parse_u8("7"), Some(7));
    assert_eq!(parse_u8("60"), Some(60));
    assert_eq!(parse_u8("100"), Some(100));
    assert_eq!(parse_u8("127"), Some(127));
    assert_eq!(parse_u8("255"), Some(255));
}

#[test]
fn parse_u8_plus_sign_and_leading_zeros() {
    assert_eq!(parse_u8("+5"), Some(5));
    assert_eq!(parse_u8("+255"), Some(255));
    assert_eq!(parse_u8("007"), Some(7));
    assert_eq!(parse_u8("0000000000000000000255"), Some(255));
    assert_eq!(parse_u8("+000"), Some(0));
}

#[test]
fn parse_u8_rejects_what_is_no_number() {
    assert_eq!(parse_u8(""), None);
    assert_eq!(parse_u8("+"), None);
    assert_eq!(parse_u8("-"), None);
    assert_eq!(parse_u8("-5"), None);
    assert_eq!(parse_u8("-0"), None);
    assert_eq!(parse_u8("++5"), None);
    assert_eq!(parse_u8("5+"), None);
    assert_eq!(parse_u8("1a"), None);
    assert_eq!(parse_u8("a1"), None);
    assert_eq!(parse_u8("x"), None);
    assert_eq!(parse_u8(" 1"), None);
    assert_eq!(parse_u8("1 "), None);
    assert_eq!(parse_u8("1.0"), None);
    assert_eq!(parse_u8("0x10"), None);
    assert_eq!(parse_u8("\u{0663}"), None);
    assert_eq!(parse_u8("\u{FF11}"), None);
}

#[test]
fn parse_u8_rejects_what_is_above_255() {
    assert_eq!(parse_u8("256"), None);
    assert_eq!(parse_u8("260"), None);
    assert_eq!(parse_u8("999"), None);
    assert_eq!(parse_u8("1000"), None);
    assert_eq!(parse_u8("+256"), None);
    assert_eq!(parse_u8("0256"), None);
    assert_eq!(parse_u8("99999999999999999999999999999999"), None);
    assert_eq!(parse_u8("2560x"), None);
}

#[test]
fn parse_u8_agrees_with_std_on_every_number_up_to_999() {
    for number in 0u32..1000 {
        let text = number.to_string();
        assert_eq!(parse_u8(&text), text.parse::<u8>().ok(), "{}", text);
        let signed = format!("+{}", number);
        assert_eq!(parse_u8(&signed), signed.parse::<u8>().ok(), "{}", signed);
        let padded = format!("00{}", number);
        assert_eq!(parse_u8(&padded), padded.parse::<u8>().ok(), "{}", padded);
    }
}

#[test]
fn parse_u8_agrees_with_std_on_odd_tokens() {
    let tokens = [
        "", "+", "-", "-1", "+-1", "++1", "1+", "12a", "a12", " 12", "12 ", "1 2", "0", "00",
        "+0", "255", "256", "0255", "+0255", "25 5", "\u{0661}\u{0662}", "1e2", "0b1", "1_0",
        "\u{FF15}", "4294967296",
    ];
    for token in tokens {
        assert_eq!(parse_u8(token), token.parse::<u8>().ok(), "{:?}", token);
    }
}
