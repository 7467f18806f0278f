use dice_bot::seed::parse_seed;

#[test]
fn service_answer_with_newline() {
    assert_eq!(parse_seed("123456789\n"), Some(123456789));
}

#[test]
fn surrounding_whitespace_is_trimmed() {
    assert_eq!(parse_seed(" \t42\r\n"), Some(42));
    assert_eq!(parse_seed("\u{3000}7\u{a0}"), Some(7));
}

#[test]
fn plus_sign_and_limits() {
    assert_eq!(parse_seed("+5"), Some(5));
    assert_eq!(parse_seed("18446744073709551615"), Some(u64::MAX));
    assert_eq!(parse_seed("18446744073709551616"), None);
    assert_eq!(parse_seed("0"), Some(0));
}

#[test]
fn non_numeric_answers_are_refused() {
    for text in ["", "   ", "+", "-1", "12a", "1 2", "Error: quota exceeded", "++1"] {
        assert_eq!(parse_seed(text), None, "{:?}", text);
    }
}

#[test]
fn agrees_with_std_parsing() {
    for text in ["  99 ", "+0", "00012", "4294967296", "x", " -3", "\n"] {
        assert_eq!(parse_seed(text), text.trim().parse::<u64>().ok(), "{:?}", text);
    }
}
