use dice_bot::notation::{parse, Fix, ParseError, RollRequest};

fn parsed(text: &str) -> RollRequest {
    match parse(text) {
        Ok(q) => q,
        Err(e) => panic!("{:?} for {:?}", e, text),
    }
}

#[test]
fn plain_die_defaults() {
    let q = parsed("d10");
    assert_eq!(q.count, 1);
    assert_eq!(q.dimension, 10);
    assert!(q.fixes.is_empty());
    assert_eq!(q.comment, "");
}

#[test]
fn two_hundred_sided_dice() {
    let q = parsed("2d100");
    assert_eq!(q.count, 2);
    assert_eq!(q.dimension, 100);
    assert!(q.fixes.is_empty());
}

#[test]
fn one_fix_per_die() {
    let q = parsed("2d10+3+5");
    assert_eq!(q.fixes, vec![Fix::Add(3), Fix::Add(5)]);
}

#[test]
fn fixes_and_comment() {
    let q = parsed("3d10+30-50+40 attack roll");
    assert_eq!(q.count, 3);
    assert_eq!(q.fixes, vec![Fix::Add(30), Fix::Sub(50), Fix::Add(40)]);
    assert_eq!(q.comment, "attack roll");
}

#[test]
fn plain_word_is_not_notation() {
    assert_eq!(parse("hello").unwrap_err(), ParseError::NotDiceNotation);
}

#[test]
fn too_many_dice() {
    assert_eq!(parse("200d10").unwrap_err(), ParseError::TooManyDice);
    assert_eq!(parse("101d6+1+2 x").unwrap_err(), ParseError::TooManyDice);
    assert_eq!(parsed("100d6").count, 100);
}

#[test]
fn fix_count_must_match() {
    assert_eq!(parse("2d10+1+2+3").unwrap_err(), ParseError::FixCountMismatch);
    assert_eq!(parse("3d10+1+2").unwrap_err(), ParseError::FixCountMismatch);
    assert_eq!(parsed("3d10-1").fixes, vec![Fix::Sub(1)]);
    assert_eq!(parsed("3d10+1+2+3").fixes.len(), 3);
}

#[test]
fn oversized_fix_is_invalid() {
    assert_eq!(parse("d10+99999999999999999999").unwrap_err(), ParseError::InvalidFix);
    assert_eq!(parsed("d10+18446744073709551615").fixes, vec![Fix::Add(u64::MAX)]);
}

#[test]
fn validation_errors_are_told_apart_from_no_notation() {
    assert!(ParseError::TooManyDice.is_validation_error());
    assert!(ParseError::FixCountMismatch.is_validation_error());
    assert!(ParseError::InvalidFix.is_validation_error());
    assert!(!ParseError::NotDiceNotation.is_validation_error());
}

#[test]
fn malformed_notation() {
    for text in ["", "d", "2d", "dd10", "2d10+", "2d10+3-", "2d10++3", "2d10x", "d10\tx", "d10 a\nb", " d10", "x2d10"] {
        assert_eq!(parse(text).unwrap_err(), ParseError::NotDiceNotation, "{:?}", text);
    }
}

#[test]
fn upper_case_marker() {
    let q = parsed("4D6");
    assert_eq!((q.count, q.dimension), (4, 6));
}

#[test]
fn unreadable_numbers_fall_back() {
    assert_eq!(parsed("99999999999999999999d6").count, 1);
    assert_eq!(parsed("d99999999999999999999").dimension, 10);
    assert_eq!(parsed("007d012").count, 7);
    assert_eq!(parsed("007d012").dimension, 12);
}

#[test]
fn zero_counts_and_faces_parse() {
    assert_eq!(parsed("0d10").count, 0);
    assert_eq!(parsed("d0").dimension, 0);
}

#[test]
fn comment_after_spaces() {
    assert_eq!(parsed("d10   a b ").comment, "a b ");
    assert_eq!(parsed("d10 ").comment, "");
    assert_eq!(parsed("d10    ").comment, "");
    assert_eq!(parsed("2d6+1 攻击").comment, "攻击");
}

#[test]
fn parsing_twice_gives_equal_requests() {
    for text in ["3d10+30-50+40 attack roll", "d6", "2d10-3"] {
        let a = parsed(text);
        let b = parsed(text);
        assert_eq!((a.count, a.dimension, a.fixes, a.comment), (b.count, b.dimension, b.fixes, b.comment));
    }
    assert_eq!(parse("hello").unwrap_err(), parse("hello").unwrap_err());
}

#[test]
fn fix_magnitude() {
    assert_eq!(Fix::Add(3).get_value(), 3);
    assert_eq!(Fix::Sub(7).get_value(), 7);
}

#[test]
fn whitespace_only_comment_is_empty() {
    assert_eq!(parsed("d10 \t").comment, "");
    assert_eq!(parsed("2d6+1  \u{3000} \r").comment, "");
    assert_eq!(parsed("d10 \ta").comment, "\ta");
}
