use dice_bot::handler::{plan_text, respond, syntax_help, yes_or_no, yes_or_no_reply, Plan};
use dice_bot::notation::ParseError;
use dice_bot::resolve::ResolveError;
use rand::rngs::StdRng;
use rand::SeedableRng;

const HELP: &str = "骰子语法不正确，请使用 /help 查看帮助";

fn reply_of(p: Plan) -> Option<String> {
    match p {
        Plan::Reply(s) => Some(s),
        _ => None,
    }
}

#[test]
fn error_messages() {
    assert_eq!(syntax_help(), HELP);
    assert_eq!(ParseError::TooManyDice.message(), "骰子个数不能大于100");
    assert_eq!(ParseError::FixCountMismatch.message(), "修正值和骰子面数不匹配");
    assert_eq!(ParseError::NotDiceNotation.message(), HELP);
    assert_eq!(ResolveError::NoFaces.message(), "骰子面数不能为0");
}

#[test]
fn wrong_notation_in_a_group_is_ignored() {
    assert!(matches!(plan_text("", false, "hello"), Plan::Silent));
    assert_eq!(reply_of(plan_text("", true, "hello")).unwrap(), HELP);
}

#[test]
fn prefix_must_be_present() {
    assert!(matches!(plan_text(".r", false, "d10"), Plan::Silent));
    assert_eq!(reply_of(plan_text(".r", true, "d10")).unwrap(), HELP);
    assert_eq!(reply_of(plan_text(".r", false, ".rhello")).unwrap(), HELP);
    match plan_text(".r", false, ".r2d6+1 x") {
        Plan::Roll(q) => {
            assert_eq!((q.count, q.dimension, q.comment.as_str()), (2, 6, "x"));
        }
        _ => panic!("expected a roll"),
    }
}

#[test]
fn validation_errors_are_replied() {
    assert_eq!(reply_of(plan_text("", false, "200d10")).unwrap(), "骰子个数不能大于100");
    assert_eq!(reply_of(plan_text("", false, "2d10+1+2+3")).unwrap(), "修正值和骰子面数不匹配");
}

#[test]
fn respond_rolls_or_stays_silent() {
    let mut rng = StdRng::seed_from_u64(5);
    assert_eq!(respond("", false, "hello", &mut rng), None);
    assert_eq!(respond("", true, "hello", &mut rng).unwrap(), HELP);
    let v: u64 = respond("", false, "d6", &mut rng).unwrap().parse().unwrap();
    assert!((1..=6).contains(&v));
    assert_eq!(respond("", false, "d0", &mut rng).unwrap(), "骰子面数不能为0");
    let t = respond("", false, "2d1+1 x", &mut rng).unwrap();
    assert_eq!(t, "<b>x：</b>\n\n第1个骰子：1 + 1 = 2\n第2个骰子：1 + 1 = 2");
}

#[test]
fn yes_or_no_answers() {
    assert_eq!(yes_or_no_reply("", 0), "Yes!");
    assert_eq!(yes_or_no_reply("", 1), "No!");
    assert_eq!(yes_or_no_reply("rain?", 0), "<b>rain?：</b>\n\nYes!");
    let mut rng = StdRng::seed_from_u64(11);
    let answers: Vec<String> = (0..64).map(|_| yes_or_no("q", &mut rng)).collect();
    assert!(answers.iter().all(|a| a == "<b>q：</b>\n\nYes!" || a == "<b>q：</b>\n\nNo!"));
    assert!(answers.iter().any(|a| a.ends_with("Yes!")));
    assert!(answers.iter().any(|a| a.ends_with("No!")));
}
