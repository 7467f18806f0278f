//! Properties that relate the parser's and the resolver's contracts.

use vstd::prelude::*;

use crate::notation::{
    count_of, is_notation, parse_spec, result_view, terms_of, Fix, ParseError, RequestView,
    RollRequest, MAX_DICE,
};
use crate::resolve::outcomes_of;

verus! {

/// Notation that asks for more than `MAX_DICE` dice is rejected as too many
/// dice, whatever its dimension, fixes and comment.
pub proof fn too_many_dice_rejected(s: Seq<char>)
    requires
        is_notation(s),
        count_of(s) > MAX_DICE,
    ensures
        parse_spec(s) == Err::<RequestView, ParseError>(ParseError::TooManyDice),
{
}

/// A nonempty list of fixes passes the count check exactly when it holds one
/// fix or one per die; any other length is a fix-count mismatch.
pub proof fn fix_count_rule(s: Seq<char>)
    requires
        is_notation(s),
        count_of(s) <= MAX_DICE,
        terms_of(s).len() >= 1,
    ensures
        (parse_spec(s) == Err::<RequestView, ParseError>(ParseError::FixCountMismatch)) <==> !(
        terms_of(s).len() == 1 || terms_of(s).len() == count_of(s)),
{
}

/// A die's final value is its raw value plus the magnitude of an `Add` fix,
/// minus that of a `Sub` fix, or the raw value itself without a fix, with no
/// floor at zero.
pub proof fn final_value_rule(q: RequestView, raws: Seq<u64>, i: int)
    requires
        0 <= i < raws.len(),
    ensures
        ({
            let o = outcomes_of(q, raws)[i];
            match o.applied_fix {
                None => o.final_value == o.raw_value as int,
                Some(Fix::Add(n)) => o.final_value == o.raw_value as int + n as int,
                Some(Fix::Sub(n)) => o.final_value == o.raw_value as int - n as int,
            }
        }),
{
}

/// Parsing is deterministic: two parses of the same text give equal requests,
/// or the same error.
pub proof fn parse_deterministic(
    s: Seq<char>,
    r1: Result<RollRequest, ParseError>,
    r2: Result<RollRequest, ParseError>,
)
    requires
        result_view(r1) == parse_spec(s),
        result_view(r2) == parse_spec(s),
    ensures
        result_view(r1) == result_view(r2),
{
}

} // verus!
