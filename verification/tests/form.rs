use pattern_editor::form::parse_count;

#[test]
fn parse_count_reads_decimal_digits() {
    assert_eq!(parse_count("0"), Some(0));
    assert_eq!(parse_count("7"), Some(7));
    assert_eq!(parse_count("42"), Some(42));
    assert_eq!(parse_count("000120"), Some(120));
    assert_eq!(parse_count("+15"), Some(15));
}

#[test]
fn parse_count_reads_up_to_the_largest_count() {
    assert_eq!(parse_count(&usize::MAX.to_string()), Some(usize::MAX));
    assert_eq!(parse_count(&format!("+00{}", usize::MAX)), Some(usize::MAX));
    assert_eq!(parse_count(&format!("{}", usize::MAX as u128 + 1)), None);
    assert_eq!(parse_count(&format!("{}0", usize::MAX)), None);
    assert_eq!(parse_count("340282366920938463463374607431768211456"), None);
}

#[test]
fn parse_count_refuses_what_is_no_count() {
    for text in ["", "+", "-", "-1", "++1", "1+", " 1", "1 ", "1.0", "0x10", "1_0", "ten", "\u{661}\u{662}", "1\u{e9}", "+\u{e9}"] {
        assert_eq!(parse_count(text), None);
    }
}

#[test]
fn parse_count_agrees_with_the_standard_reading() {
    for text in ["0", "+0", "12", "0012", "+12", "-12", "", "+", "1a", "a1", "18446744073709551615",
        "18446744073709551616", "4294967295", "4294967296", "99999999999999999999"]
    {
        assert_eq!(parse_count(text), text.parse::<usize>().ok());
    }
}
