use hydra_tnc::text::{format_number, is_white_space, parse_number, split, text_eq, trim};

#[test]
fn white_space_is_that_of_std() {
    for u in 0..=0x10ffffu32 {
        if let Some(c) = char::from_u32(u) {
            assert_eq!(is_white_space(c), c.is_whitespace());
        }
    }
}

#[test]
fn numbers_are_read_as_std_reads_them() {
    for s in [
        "0", "7", "+7", "007", "1234", "", "+", "-", "++1", "-0", "-1", "12a", "a12", " 1", "1 ", "1.0",
        "18446744073709551615", "18446744073709551616", "99999999999999999999999", "0x10", "\u{0661}",
        "+18446744073709551615", "00000000000000000000000000001",
    ] {
        assert_eq!(parse_number(s), s.parse::<usize>().ok(), "{}", s);
    }
}

#[test]
fn numbers_are_written_in_decimal() {
    assert_eq!(format_number(0), "0");
    assert_eq!(format_number(9), "9");
    assert_eq!(format_number(10), "10");
    assert_eq!(format_number(8300), "8300");
    for n in [0, 1, 99, 100, 1234567890, usize::MAX - 1, usize::MAX] {
        assert_eq!(format_number(n), n.to_string());
        assert_eq!(parse_number(&format_number(n)), Some(n));
    }
}

#[test]
fn fields_are_split_as_std_splits_them() {
    for s in ["", " ", "  ", "a", "a b", " a", "a ", "a  b", "BUFFER 12", "é ü", "\u{1f600} x "] {
        let expected: Vec<&str> = s.split(' ').collect();
        assert_eq!(split(s, ' '), expected);
        assert_eq!(split(s, ' ').join(" "), s);
    }
}

#[test]
fn white_space_is_trimmed_as_std_trims_it() {
    for s in ["", " ", "a", " a", "a ", "\t a b \r\n", "\u{a0}x\u{3000}", "  ", "\u{200b}x"] {
        assert_eq!(trim(s), s.trim());
        assert_eq!(trim(trim(s)), trim(s));
    }
}

#[test]
fn texts_are_compared() {
    assert!(text_eq("", ""));
    assert!(text_eq("ON", "ON"));
    assert!(!text_eq("ON", "OFF"));
    assert!(!text_eq("ON", "on"));
    assert!(!text_eq("ON", "ON "));
    assert!(!text_eq("é", "e"));
}
