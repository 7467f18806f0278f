//! What the bot answers to a message: silence, an error, or a roll.

use vstd::prelude::*;

use rand::rngs::StdRng;

use crate::notation::{parse, parse_spec, ParseError, RequestView, RollRequest};
use crate::resolve::{
    outcomes_of, random_in, reply_of, resolve, title_of, ResolveError, RollOutcome,
};
use crate::text::{chars_of, push_chars, push_str};

verus! {

/// The bot's settings.
#[derive(Clone, Debug)]
pub struct Config {
    /// The bot's access token.
    pub token: String,
    /// Text that a roll must start with; empty for none.
    pub prefix: String,
    /// Whether to seed the generator from an outside randomness service.
    pub real_random: bool,
}

/// The reply for text that is not dice notation.
pub open spec fn syntax_help_text() -> Seq<char> {
    "骰子语法不正确，请使用 /help 查看帮助"@
}

/// The reply that tells the user the notation is wrong.
pub fn syntax_help() -> (r: String)
    ensures
        r@ == syntax_help_text(),
{
    String::from_str("骰子语法不正确，请使用 /help 查看帮助")
}

/// The message shown for a rule that the notation broke.
pub open spec fn error_text(e: ParseError) -> Seq<char> {
    match e {
        ParseError::NotDiceNotation => syntax_help_text(),
        ParseError::TooManyDice => "骰子个数不能大于100"@,
        ParseError::FixCountMismatch => "修正值和骰子面数不匹配"@,
        ParseError::InvalidFix => "number too large to fit in target type"@,
    }
}

/// The reply for dice with no faces.
pub open spec fn no_faces_text() -> Seq<char> {
    "骰子面数不能为0"@
}

impl ParseError {
    /// The message shown to the user for this error.
    pub fn message(&self) -> (r: String)
        ensures
            r@ == error_text(*self),
    {
        match self {
            ParseError::NotDiceNotation => syntax_help(),
            ParseError::TooManyDice => String::from_str("骰子个数不能大于100"),
            ParseError::FixCountMismatch => String::from_str("修正值和骰子面数不匹配"),
            ParseError::InvalidFix => String::from_str("number too large to fit in target type"),
        }
    }
}

impl ResolveError {
    /// The message shown to the user for this error.
    pub fn message(&self) -> (r: String)
        ensures
            r@ == no_faces_text(),
    {
        String::from_str("骰子面数不能为0")
    }
}

/// What to do with a message.
#[derive(Clone, Debug)]
pub enum Plan {
    /// Say nothing.
    Silent,
    /// Reply with this text.
    Reply(String),
    /// Roll this request and reply with the result.
    Roll(RollRequest),
}

/// What a plan stands for.
pub enum PlanView {
    Silent,
    Reply(Seq<char>),
    Roll(RequestView),
}

impl View for Plan {
    type V = PlanView;

    open spec fn view(&self) -> PlanView {
        match self {
            Plan::Silent => PlanView::Silent,
            Plan::Reply(s) => PlanView::Reply(s@),
            Plan::Roll(q) => PlanView::Roll(q@),
        }
    }
}

/// The text after the configured prefix; all of it when no prefix is set, and
/// `None` when the text does not start with the prefix.
pub open spec fn body_of(prefix: Seq<char>, text: Seq<char>) -> Option<Seq<char>> {
    if prefix.len() == 0 {
        Some(text)
    } else if prefix.is_prefix_of(text) {
        Some(text.skip(prefix.len() as int))
    } else {
        None
    }
}

/// What to do with `text`. Private chats hear of wrong notation; other chats
/// do only when a prefix is set and the text carries it.
pub open spec fn plan_spec(prefix: Seq<char>, is_private: bool, text: Seq<char>) -> PlanView {
    match body_of(prefix, text) {
        None => if is_private {
            PlanView::Reply(syntax_help_text())
        } else {
            PlanView::Silent
        },
        Some(body) => match parse_spec(body) {
            Err(ParseError::NotDiceNotation) => if is_private || prefix.len() > 0 {
                PlanView::Reply(syntax_help_text())
            } else {
                PlanView::Silent
            },
            Err(e) => PlanView::Reply(error_text(e)),
            Ok(q) => PlanView::Roll(q),
        },
    }
}

/// The text after `prefix`, or `None` when `text` does not start with it.
fn strip_prefix(prefix: &str, text: &str) -> (r: Option<String>)
    ensures
        r is Some <==> prefix@.is_prefix_of(text@),
        r matches Some(b) ==> b@ == text@.skip(prefix@.len() as int),
{
    let ps = chars_of(prefix);
    let cs = chars_of(text);
    if ps.len() > cs.len() {
        return None;
    }
    let mut i: usize = 0;
    while i < ps.len()
        invariant
            i <= ps@.len() <= cs@.len(),
            ps@ == prefix@,
            cs@ == text@,
            forall|j: int| 0 <= j < i ==> ps@[j] == cs@[j],
        decreases ps@.len() - i,
    {
        if ps[i] != cs[i] {
            assert(!prefix@.is_prefix_of(text@)) by {
                if prefix@.is_prefix_of(text@) {
                    assert(prefix@[i as int] == text@.subrange(0, prefix@.len() as int)[i as int]);
                }
            }
            return None;
        }
        i += 1;
    }
    let mut body = String::new();
    push_chars(&mut body, &cs, ps.len(), cs.len());
    assert(body@ =~= text@.skip(prefix@.len() as int));
    Some(body)
}

/// Decides what to do with a message's text.
pub fn plan_text(prefix: &str, is_private: bool, text: &str) -> (r: Plan)
    ensures
        r@ == plan_spec(prefix@, is_private, text@),
{
    let body = if prefix.is_empty() {
        String::from_str(text)
    } else {
        match strip_prefix(prefix, text) {
            None => {
                return if is_private {
                    Plan::Reply(syntax_help())
                } else {
                    Plan::Silent
                };
            },
            Some(b) => b,
        }
    };
    match parse(body.as_str()) {
        Err(ParseError::NotDiceNotation) => if is_private || !prefix.is_empty() {
            Plan::Reply(syntax_help())
        } else {
            Plan::Silent
        },
        Err(e) => Plan::Reply(e.message()),
        Ok(q) => Plan::Roll(q),
    }
}

/// The reply to a message's text, if any: an error message, or the roll's
/// result drawn from `rng`.
pub fn respond(prefix: &str, is_private: bool, text: &str, rng: &mut StdRng) -> (r: Option<String>)
    ensures
        r is None <==> plan_spec(prefix@, is_private, text@) is Silent,
        plan_spec(prefix@, is_private, text@) matches PlanView::Reply(m) ==> r matches Some(t)
            && t@ == m,
        plan_spec(prefix@, is_private, text@) matches PlanView::Roll(q) ==> r matches Some(t) && (
        if q.count >= 1 && q.dimension == 0 {
            t@ == no_faces_text()
        } else {
            exists|raws: Seq<u64>|
                {
                    &&& raws.len() == q.count
                    &&& forall|i: int| 0 <= i < raws.len() ==> 1 <= #[trigger] raws[i] <= q.dimension
                    &&& t@ == reply_of(q, outcomes_of(q, raws))
                }
        }),
{
    match plan_text(prefix, is_private, text) {
        Plan::Silent => None,
        Plan::Reply(m) => Some(m),
        Plan::Roll(q) => {
            assert(q.wf());
            match resolve(&q, rng) {
                Err(e) => Some(e.message()),
                Ok(res) => {
                    let ghost raws = res.outcomes@.map_values(|o: RollOutcome| o.raw_value);
                    assert(raws.len() == q.count);
                    assert(forall|i: int| 0 <= i < raws.len() ==> 1 <= #[trigger] raws[i] <= q.dimension);
                    Some(res.text)
                },
            }
        },
    }
}

/// The answer to a yes-or-no question under its title block.
pub open spec fn yes_or_no_spec(title: Seq<char>, yes: bool) -> Seq<char> {
    title_of(title) + if yes {
        "Yes!"@
    } else {
        "No!"@
    }
}

/// The answer to a yes-or-no question: yes for a draw of 0, no otherwise,
/// under the question's title block.
pub fn yes_or_no_reply(title: &str, draw: u64) -> (r: String)
    ensures
        r@ == yes_or_no_spec(title@, draw == 0),
{
    let mut s = String::new();
    if !title.is_empty() {
        proof {
            reveal_strlit("<b>");
            reveal_strlit("：</b>\n\n");
        }
        push_str(&mut s, "<b>");
        push_str(&mut s, title);
        push_str(&mut s, "：</b>\n\n");
    }
    assert(s@ =~= title_of(title@));
    if draw == 0 {
        push_str(&mut s, "Yes!");
    } else {
        push_str(&mut s, "No!");
    }
    s
}

/// Answers a yes-or-no question with a fair draw from `rng`.
pub fn yes_or_no(title: &str, rng: &mut StdRng) -> (r: String)
    ensures
        r@ == yes_or_no_spec(title@, true) || r@ == yes_or_no_spec(title@, false),
{
    let draw = random_in(rng, 0, 1);
    yes_or_no_reply(title, draw)
}

} // verus!
