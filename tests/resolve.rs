use dice_bot::notation::{parse, Fix, RollRequest};
use dice_bot::resolve::{resolve, resolve_with_rolls, ResolveError};
use rand::rngs::StdRng;
use rand::SeedableRng;

fn request(text: &str) -> RollRequest {
    parse(text).unwrap()
}

#[test]
fn single_die_is_one_line() {
    let r = resolve_with_rolls(&request("d10"), &vec![7]);
    assert_eq!(r.text, "7");
    assert_eq!(r.outcomes.len(), 1);
    assert_eq!(r.outcomes[0].die_index, 1);
    assert_eq!(r.outcomes[0].final_value, 7);
}

#[test]
fn several_dice_are_labelled() {
    let r = resolve_with_rolls(&request("2d100"), &vec![5, 42]);
    assert_eq!(r.text, "第1个骰子：5\n第2个骰子：42");
    assert!(r.outcomes.iter().all(|o| o.applied_fix.is_none()));
}

#[test]
fn each_die_gets_its_fix() {
    let r = resolve_with_rolls(&request("2d10+3+5"), &vec![4, 9]);
    assert_eq!(r.outcomes[0].applied_fix, Some(Fix::Add(3)));
    assert_eq!(r.outcomes[1].applied_fix, Some(Fix::Add(5)));
    assert_eq!(r.text, "第1个骰子：4 + 3 = 7\n第2个骰子：9 + 5 = 14");
}

#[test]
fn comment_is_a_title() {
    let r = resolve_with_rolls(&request("3d10+30-50+40 attack roll"), &vec![1, 2, 3]);
    assert_eq!(
        r.text,
        "<b>attack roll：</b>\n\n第1个骰子：1 + 30 = 31\n第2个骰子：2 - 50 = -48\n第3个骰子：3 + 40 = 43"
    );
    assert_eq!(r.outcomes[1].final_value, -48);
}

#[test]
fn one_fix_for_all_dice() {
    let r = resolve_with_rolls(&request("2d10-3"), &vec![1, 10]);
    assert_eq!(r.text, "第1个骰子：1 - 3 = -2\n第2个骰子：10 - 3 = 7");
}

#[test]
fn single_die_with_fix() {
    let r = resolve_with_rolls(&request("d10+3"), &vec![6]);
    assert_eq!(r.text, "6 + 3 = 9");
}

#[test]
fn extreme_fix_values_are_exact() {
    let q = RollRequest { count: 1, dimension: u64::MAX, fixes: vec![Fix::Add(u64::MAX)], comment: String::new() };
    let r = resolve_with_rolls(&q, &vec![u64::MAX]);
    assert_eq!(r.outcomes[0].final_value, 2 * (u64::MAX as i128));
    assert_eq!(r.text, "18446744073709551615 + 18446744073709551615 = 36893488147419103230");
    let q = RollRequest { count: 1, dimension: 6, fixes: vec![Fix::Sub(u64::MAX)], comment: String::new() };
    let r = resolve_with_rolls(&q, &vec![1]);
    assert_eq!(r.outcomes[0].final_value, 1 - (u64::MAX as i128));
}

#[test]
fn no_dice_give_an_empty_reply() {
    let r = resolve_with_rolls(&request("0d10"), &vec![]);
    assert!(r.outcomes.is_empty());
    assert_eq!(r.text, "");
}

#[test]
fn drawn_values_stay_on_the_die() {
    let mut rng = StdRng::seed_from_u64(42);
    for (count, dimension) in [(1u64, 1u64), (3, 6), (100, 20), (50, 1000)] {
        let q = RollRequest { count, dimension, fixes: vec![], comment: String::new() };
        let r = resolve(&q, &mut rng).unwrap();
        assert_eq!(r.outcomes.len() as u64, count);
        for (i, o) in r.outcomes.iter().enumerate() {
            assert_eq!(o.die_index, i as u64 + 1);
            assert!(1 <= o.raw_value && o.raw_value <= dimension);
            assert_eq!(o.final_value, o.raw_value as i128);
        }
    }
}

#[test]
fn draws_vary() {
    let mut rng = StdRng::seed_from_u64(1);
    let q = RollRequest { count: 100, dimension: 1000, fixes: vec![], comment: String::new() };
    let r = resolve(&q, &mut rng).unwrap();
    assert!(r.outcomes.iter().any(|o| o.raw_value != 1));
    assert!(r.outcomes.iter().any(|o| o.raw_value != 1000));
}

#[test]
fn resolved_reply_matches_outcomes() {
    let mut rng = StdRng::seed_from_u64(9);
    let q = request("2d10+3-4 hit");
    let r = resolve(&q, &mut rng).unwrap();
    let raws: Vec<u64> = r.outcomes.iter().map(|o| o.raw_value).collect();
    let again = resolve_with_rolls(&q, &raws);
    assert_eq!(again.text, r.text);
    assert_eq!(again.outcomes, r.outcomes);
}

#[test]
fn no_faces_is_an_error() {
    let mut rng = StdRng::seed_from_u64(3);
    assert_eq!(resolve(&request("d0"), &mut rng).unwrap_err(), ResolveError::NoFaces);
    assert!(resolve(&request("0d0"), &mut rng).is_ok());
}

#[test]
fn whitespace_only_comment_has_no_title() {
    let r = resolve_with_rolls(&request("d10 \t"), &vec![4]);
    assert_eq!(r.text, "4");
}
