//! Rolling a request: one draw per die, the fixes applied, and the reply rendered.

use vstd::prelude::*;

use rand::rngs::StdRng;
use rand::Rng;

use crate::notation::{Fix, RequestView, RollRequest};
use crate::text::{decimal, push_char, push_decimal, push_signed_decimal, push_str, signed_decimal};

verus! {

#[verifier::external_type_specification]
#[verifier::external_body]
pub struct ExStdRng(StdRng);

/// Relies on rand's `Rng::random_range` on an inclusive range: a value in
/// `low..=high`. It panics only on an empty range, which `requires` leaves out.
#[verifier::external_body]
pub(crate) fn random_in(rng: &mut StdRng, low: u64, high: u64) -> (r: u64)
    requires
        low <= high,
    ensures
        low <= r <= high,
{
    rng.random_range(low..=high)
}

/// One die's result.
#[derive(Clone, Copy, Debug, PartialEq, Eq, Structural)]
pub struct RollOutcome {
    /// Position among the dice, from 1.
    pub die_index: u64,
    pub raw_value: u64,
    pub applied_fix: Option<Fix>,
    pub final_value: i128,
}

/// The outcomes of a roll and the reply that shows them.
#[derive(Clone, Debug)]
pub struct Resolution {
    pub outcomes: Vec<RollOutcome>,
    pub text: String,
}

/// Why a roll could not be made.
#[derive(Clone, Copy, Debug, PartialEq, Eq, Structural)]
pub enum ResolveError {
    /// Dice with no faces: there is nothing to draw from.
    NoFaces,
}

/// The fix that die `i` (from 0) gets: the only one, or the one at its position.
pub open spec fn applied_fix(fixes: Seq<Fix>, i: int) -> Option<Fix> {
    if fixes.len() == 0 {
        None
    } else if fixes.len() == 1 {
        Some(fixes[0])
    } else {
        Some(fixes[i])
    }
}

/// A raw value with a fix applied; it may fall below zero.
pub open spec fn fixed_value(raw: int, fix: Option<Fix>) -> int {
    match fix {
        None => raw,
        Some(Fix::Add(n)) => raw + n,
        Some(Fix::Sub(n)) => raw - n,
    }
}

/// The outcome of die `i` (from 0) of a request, given its raw value.
pub open spec fn outcome_of(q: RequestView, i: int, raw: u64) -> RollOutcome {
    RollOutcome {
        die_index: (i + 1) as u64,
        raw_value: raw,
        applied_fix: applied_fix(q.fixes, i),
        final_value: fixed_value(raw as int, applied_fix(q.fixes, i)) as i128,
    }
}

/// The outcomes of a request, given the raw values in order.
pub open spec fn outcomes_of(q: RequestView, raws: Seq<u64>) -> Seq<RollOutcome> {
    Seq::new(raws.len(), |i: int| outcome_of(q, i, raws[i]))
}

/// The sign that a fix is shown with.
pub open spec fn sign_char(f: Fix) -> char {
    match f {
        Fix::Add(_) => '+',
        Fix::Sub(_) => '-',
    }
}

/// The label in front of each die's line when several dice are rolled.
pub open spec fn die_label(index: nat) -> Seq<char> {
    seq!['第'] + decimal(index) + seq!['个', '骰', '子', '：']
}

/// One die's line: its label where the roll has several dice, its raw value,
/// and the fix with the final value where a fix applies.
pub open spec fn line_of(count: u64, o: RollOutcome) -> Seq<char> {
    let label = if count != 1 {
        die_label(o.die_index as nat)
    } else {
        seq![]
    };
    let fix = match o.applied_fix {
        None => seq![],
        Some(f) => seq![' ', sign_char(f), ' '] + decimal(f.magnitude() as nat) + seq![' ', '=', ' ']
            + signed_decimal(o.final_value as int),
    };
    label + decimal(o.raw_value as nat) + fix
}

/// The lines joined by line breaks.
pub open spec fn joined(lines: Seq<Seq<char>>) -> Seq<char>
    decreases lines.len(),
{
    if lines.len() == 0 {
        seq![]
    } else if lines.len() == 1 {
        lines[0]
    } else {
        joined(lines.drop_last()) + seq!['\n'] + lines.last()
    }
}

/// The bold title block for a comment, followed by a blank line; nothing for no comment.
pub open spec fn title_of(comment: Seq<char>) -> Seq<char> {
    if comment.len() == 0 {
        seq![]
    } else {
        seq!['<', 'b', '>'] + comment + seq!['：', '<', '/', 'b', '>', '\n', '\n']
    }
}

/// The reply for a request and its outcomes.
pub open spec fn reply_of(q: RequestView, outcomes: Seq<RollOutcome>) -> Seq<char> {
    title_of(q.comment) + joined(outcomes.map_values(|o: RollOutcome| line_of(q.count, o)))
}

/// The outcomes of a roll whose raw values are `raws`, in order.
pub fn outcomes_for(request: &RollRequest, raws: &Vec<u64>) -> (r: Vec<RollOutcome>)
    requires
        request.wf(),
        raws@.len() == request.count,
    ensures
        r@ == outcomes_of(request@, raws@),
{
    let n = raws.len();
    let nfix = request.fixes.len();
    let mut r: Vec<RollOutcome> = Vec::new();
    let mut i: usize = 0;
    while i < n
        invariant
            i <= n == raws@.len() == request.count,
            nfix == request.fixes@.len(),
            request.wf(),
            r@ == outcomes_of(request@, raws@.take(i as int)),
        decreases n - i,
    {
        let raw = raws[i];
        let fix: Option<Fix> = if nfix == 0 {
            None
        } else if nfix == 1 {
            Some(request.fixes[0])
        } else {
            Some(request.fixes[i])
        };
        let final_value: i128 = match fix {
            None => raw as i128,
            Some(Fix::Add(m)) => raw as i128 + m as i128,
            Some(Fix::Sub(m)) => raw as i128 - m as i128,
        };
        r.push(RollOutcome { die_index: (i + 1) as u64, raw_value: raw, applied_fix: fix, final_value });
        proof {
            assert(outcomes_of(request@, raws@.take(i + 1)) =~= outcomes_of(request@, raws@.take(i as int)).push(outcome_of(request@, i as int, raw)));
        }
        i += 1;
    }
    assert(raws@.take(n as int) =~= raws@);
    r
}

/// An outcome whose final value is its raw value with its fix applied.
pub open spec fn consistent(o: RollOutcome) -> bool {
    o.final_value as int == fixed_value(o.raw_value as int, o.applied_fix)
}

/// Appends one die's line.
fn push_line(s: &mut String, count: u64, o: &RollOutcome)
    requires
        consistent(*o),
    ensures
        final(s)@ == old(s)@ + line_of(count, *o),
{
    let ghost start = s@;
    if count != 1 {
        push_char(s, '第');
        push_decimal(s, o.die_index as u128);
        proof {
            reveal_strlit("个骰子：");
        }
        push_str(s, "个骰子：");
    }
    let ghost labelled = s@;
    push_decimal(s, o.raw_value as u128);
    match o.applied_fix {
        None => {},
        Some(f) => {
            push_char(s, ' ');
            match f {
                Fix::Add(_) => push_char(s, '+'),
                Fix::Sub(_) => push_char(s, '-'),
            }
            push_char(s, ' ');
            push_decimal(s, f.get_value() as u128);
            proof {
                reveal_strlit(" = ");
            }
            push_str(s, " = ");
            push_signed_decimal(s, o.final_value);
        },
    }
    assert(s@ =~= start + line_of(count, *o));
}

proof fn lemma_joined_step(lines: Seq<Seq<char>>, k: int)
    requires
        0 <= k < lines.len(),
    ensures
        joined(lines.take(k + 1)) == joined(lines.take(k)) + (if k == 0 {
            seq![]
        } else {
            seq!['\n']
        }) + lines[k],
{
    assert(lines.take(k + 1).drop_last() =~= lines.take(k));
    if k == 0 {
        assert(joined(lines.take(0)) =~= seq![]);
        assert(seq![] + seq![] + lines[0] =~= lines[0]);
    }
}

/// The reply for a request and its outcomes: the comment's title block, if any,
/// then one line per die.
pub fn render_reply(request: &RollRequest, outcomes: &Vec<RollOutcome>) -> (r: String)
    requires
        forall|i: int| 0 <= i < outcomes@.len() ==> consistent(#[trigger] outcomes@[i]),
    ensures
        r@ == reply_of(request@, outcomes@),
{
    let mut s = String::new();
    if !request.comment.as_str().is_empty() {
        proof {
            reveal_strlit("<b>");
            reveal_strlit("：</b>\n\n");
        }
        push_str(&mut s, "<b>");
        push_str(&mut s, request.comment.as_str());
        push_str(&mut s, "：</b>\n\n");
    }
    assert(s@ =~= title_of(request.comment@));
    let ghost title = s@;
    let ghost lines = outcomes@.map_values(|o: RollOutcome| line_of(request.count, o));
    let n = outcomes.len();
    let mut k: usize = 0;
    while k < n
        invariant
            k <= n == outcomes@.len() == lines.len(),
            forall|i: int| 0 <= i < outcomes@.len() ==> consistent(#[trigger] outcomes@[i]),
            lines == outcomes@.map_values(|o: RollOutcome| line_of(request.count, o)),
            s@ == title + joined(lines.take(k as int)),
        decreases n - k,
    {
        proof {
            lemma_joined_step(lines, k as int);
        }
        if k > 0 {
            push_char(&mut s, '\n');
        }
        push_line(&mut s, request.count, &outcomes[k]);
        assert(s@ =~= title + joined(lines.take(k + 1)));
        k += 1;
    }
    assert(lines.take(n as int) =~= lines);
    s
}

/// The roll of a request whose raw values are `raws`, in order.
pub fn resolve_with_rolls(request: &RollRequest, raws: &Vec<u64>) -> (r: Resolution)
    requires
        request.wf(),
        raws@.len() == request.count,
    ensures
        r.outcomes@ == outcomes_of(request@, raws@),
        r.text@ == reply_of(request@, r.outcomes@),
{
    let outcomes = outcomes_for(request, raws);
    let text = render_reply(request, &outcomes);
    Resolution { outcomes, text }
}

/// Rolls a request: one draw from `1..=dimension` per die. Fails when a die
/// must be drawn from no faces.
pub fn resolve(request: &RollRequest, rng: &mut StdRng) -> (r: Result<Resolution, ResolveError>)
    requires
        request.wf(),
    ensures
        r is Err <==> request.count >= 1 && request.dimension == 0,
        r matches Ok(res) ==> {
            &&& res.outcomes@.len() == request.count
            &&& forall|i: int|
                0 <= i < request.count ==> 1 <= #[trigger] res.outcomes@[i].raw_value
                    <= request.dimension
            &&& res.outcomes@ == outcomes_of(
                request@,
                res.outcomes@.map_values(|o: RollOutcome| o.raw_value),
            )
            &&& res.text@ == reply_of(request@, res.outcomes@)
        },
{
    if request.count >= 1 && request.dimension == 0 {
        return Err(ResolveError::NoFaces);
    }
    let mut raws: Vec<u64> = Vec::new();
    let mut i: u64 = 0;
    while i < request.count
        invariant
            i <= request.count,
            request.count >= 1 ==> request.dimension >= 1,
            raws@.len() == i,
            forall|j: int| 0 <= j < i ==> 1 <= #[trigger] raws@[j] <= request.dimension,
        decreases request.count - i,
    {
        let v = random_in(rng, 1, request.dimension);
        raws.push(v);
        i += 1;
    }
    let res = resolve_with_rolls(request, &raws);
    assert(res.outcomes@.map_values(|o: RollOutcome| o.raw_value) =~= raws@);
    Ok(res)
}

} // verus!
