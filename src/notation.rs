//! Dice notation: `[count]d<dimension>[+n|-n]*[ comment]`, read into a roll request.

use vstd::prelude::*;

use crate::text::{all_whitespace, all_whitespace_in, chars_of, push_chars};

verus! {

/// The most dice that one request may roll.
pub const MAX_DICE: u64 = 100;

/// The count of dice when the notation gives none.
pub const DEFAULT_COUNT: u64 = 1;

/// The number of faces when the notation's digits cannot be read.
pub const DEFAULT_DIMENSION: u64 = 10;

/// A signed adjustment to one die's result.
#[derive(Clone, Copy, Debug, PartialEq, Eq, Structural)]
pub enum Fix {
    Add(u64),
    Sub(u64),
}

impl Fix {
    /// The size of the adjustment.
    pub open spec fn magnitude(self) -> u64 {
        match self {
            Fix::Add(n) => n,
            Fix::Sub(n) => n,
        }
    }

    /// The magnitude of the adjustment, whatever its sign.
    pub fn get_value(&self) -> (r: u64)
        ensures
            r == self.magnitude(),
    {
        match self {
            Fix::Add(n) => *n,
            Fix::Sub(n) => *n,
        }
    }
}

/// A roll request read from dice notation.
#[derive(Clone, Debug)]
pub struct RollRequest {
    pub count: u64,
    pub dimension: u64,
    pub fixes: Vec<Fix>,
    pub comment: String,
}

/// What a roll request stands for.
pub struct RequestView {
    pub count: u64,
    pub dimension: u64,
    pub fixes: Seq<Fix>,
    pub comment: Seq<char>,
}

impl View for RollRequest {
    type V = RequestView;

    open spec fn view(&self) -> RequestView {
        RequestView {
            count: self.count,
            dimension: self.dimension,
            fixes: self.fixes@,
            comment: self.comment@,
        }
    }
}

impl RollRequest {
    /// Not too many dice, and either no fix, one fix for all dice, or one fix per die.
    pub open spec fn wf(&self) -> bool {
        &&& self.count <= MAX_DICE
        &&& fixes_fit(self.fixes@.len(), self.count as nat)
    }
}

/// A number of fixes that a roll of `count` dice accepts.
pub open spec fn fixes_fit(len: nat, count: nat) -> bool {
    len == 0 || len == 1 || len == count
}

/// Why text was not turned into a roll request.
#[derive(Clone, Copy, Debug, PartialEq, Eq, Structural)]
pub enum ParseError {
    /// The text is not dice notation at all.
    NotDiceNotation,
    /// More dice than `MAX_DICE`.
    TooManyDice,
    /// The number of fixes is neither one nor the number of dice.
    FixCountMismatch,
    /// A fix's magnitude does not fit in 64 bits.
    InvalidFix,
}

impl ParseError {
    /// Whether the text was notation that broke a rule, which the user is told of.
    pub fn is_validation_error(&self) -> (r: bool)
        ensures
            r == !(*self is NotDiceNotation),
    {
        !matches!(self, ParseError::NotDiceNotation)
    }
}

/// The classes of characters that the notation's runs are made of.
#[derive(Clone, Copy, Debug, PartialEq, Eq, Structural)]
pub enum CharClass {
    Digit,
    SignOrDigit,
    Space,
}

/// An ASCII decimal digit.
pub open spec fn is_digit(c: char) -> bool {
    '0' <= c && c <= '9'
}

/// The sign that starts a fix.
pub open spec fn is_sign(c: char) -> bool {
    c == '+' || c == '-'
}

/// The letter between the count and the dimension.
pub open spec fn is_die_marker(c: char) -> bool {
    c == 'd' || c == 'D'
}

/// Whether `c` belongs to class `k`.
pub open spec fn in_class(c: char, k: CharClass) -> bool {
    match k {
        CharClass::Digit => is_digit(c),
        CharClass::SignOrDigit => is_sign(c) || is_digit(c),
        CharClass::Space => c == ' ',
    }
}

/// The length of the run of characters of class `k` that `s` starts with.
pub open spec fn run_of(s: Seq<char>, k: CharClass) -> nat
    decreases s.len(),
{
    if s.len() > 0 && in_class(s[0], k) {
        1 + run_of(s.drop_first(), k)
    } else {
        0
    }
}

/// The value of a decimal digit.
pub open spec fn digit_value(c: char) -> nat {
    (c as int - '0' as int) as nat
}

/// The number that a string of decimal digits denotes.
pub open spec fn decimal_value(d: Seq<char>) -> nat
    decreases d.len(),
{
    if d.len() == 0 {
        0
    } else {
        decimal_value(d.drop_last()) * 10 + digit_value(d.last())
    }
}

/// The number that nonempty digits denote, or `default` where they are empty or
/// the number does not fit in 64 bits.
pub open spec fn number_or(d: Seq<char>, default: u64) -> u64 {
    if d.len() > 0 && decimal_value(d) <= u64::MAX {
        decimal_value(d) as u64
    } else {
        default
    }
}

/// Signed terms `[+-]digits` written back to back, or nothing.
pub open spec fn is_fix_suffix(f: Seq<char>) -> bool {
    f.len() == 0 || {
        &&& is_sign(f[0])
        &&& is_digit(f.last())
        &&& forall|i: int| 0 <= i < f.len() ==> in_class(#[trigger] f[i], CharClass::SignOrDigit)
        &&& forall|i: int| 0 <= i < f.len() - 1 && is_sign(#[trigger] f[i]) ==> is_digit(f[i + 1])
    }
}

/// The terms of a fix suffix, each its sign and its digits.
pub open spec fn fix_terms(f: Seq<char>) -> Seq<(char, Seq<char>)>
    decreases f.len(),
{
    if f.len() == 0 {
        seq![]
    } else {
        let prev = fix_terms(f.drop_last());
        let c = f.last();
        if is_sign(c) {
            prev.push((c, seq![]))
        } else if prev.len() == 0 {
            prev
        } else {
            prev.update(prev.len() - 1, (prev.last().0, prev.last().1.push(c)))
        }
    }
}

/// The fix that a term stands for, where its magnitude fits in 64 bits.
pub open spec fn term_fix(t: (char, Seq<char>)) -> Option<Fix> {
    if decimal_value(t.1) <= u64::MAX {
        if t.0 == '+' {
            Some(Fix::Add(decimal_value(t.1) as u64))
        } else {
            Some(Fix::Sub(decimal_value(t.1) as u64))
        }
    } else {
        None
    }
}

/// What follows the fixes: nothing, or spaces and then a comment on one line.
pub open spec fn is_tail(t: Seq<char>) -> bool {
    t.len() == 0 || (t[0] == ' ' && forall|i: int| 0 <= i < t.len() ==> #[trigger] t[i] != '\n')
}

/// Where the count's digits end and the die marker stands.
pub open spec fn marker_at(s: Seq<char>) -> int {
    run_of(s, CharClass::Digit) as int
}

/// Where the dimension's digits start.
pub open spec fn dimension_at(s: Seq<char>) -> int {
    marker_at(s) + 1
}

/// Where the fixes start.
pub open spec fn fixes_at(s: Seq<char>) -> int {
    dimension_at(s) + run_of(s.skip(dimension_at(s)), CharClass::Digit)
}

/// Where the fixes end.
pub open spec fn tail_at(s: Seq<char>) -> int {
    fixes_at(s) + run_of(s.skip(fixes_at(s)), CharClass::SignOrDigit)
}

/// The digits of the count, possibly none.
pub open spec fn count_digits(s: Seq<char>) -> Seq<char> {
    s.take(marker_at(s))
}

/// The digits of the dimension.
pub open spec fn dimension_digits(s: Seq<char>) -> Seq<char> {
    s.subrange(dimension_at(s), fixes_at(s))
}

/// The fix terms, as written.
pub open spec fn fix_suffix(s: Seq<char>) -> Seq<char> {
    s.subrange(fixes_at(s), tail_at(s))
}

/// What follows the fixes.
pub open spec fn tail(s: Seq<char>) -> Seq<char> {
    s.skip(tail_at(s))
}

/// What follows the spaces after the fixes.
pub open spec fn comment_text(s: Seq<char>) -> Seq<char> {
    tail(s).skip(run_of(tail(s), CharClass::Space) as int)
}

/// The comment: what follows the spaces after the fixes, or nothing where
/// that is only whitespace.
pub open spec fn comment_of(s: Seq<char>) -> Seq<char> {
    if all_whitespace(comment_text(s)) {
        seq![]
    } else {
        comment_text(s)
    }
}

/// Whether `s` is dice notation: optional count digits, `d` or `D`, dimension
/// digits, signed fix terms back to back, and optionally spaces and a comment
/// without a line break.
pub open spec fn is_notation(s: Seq<char>) -> bool {
    &&& marker_at(s) < s.len()
    &&& is_die_marker(s[marker_at(s)])
    &&& fixes_at(s) > dimension_at(s)
    &&& is_fix_suffix(fix_suffix(s))
    &&& is_tail(tail(s))
}

/// The number of dice: 1 when no count is written or it cannot be read.
pub open spec fn count_of(s: Seq<char>) -> u64 {
    number_or(count_digits(s), DEFAULT_COUNT)
}

/// The number of faces: 10 when the digits cannot be read.
pub open spec fn dimension_of(s: Seq<char>) -> u64 {
    number_or(dimension_digits(s), DEFAULT_DIMENSION)
}

/// The fix terms of the notation.
pub open spec fn terms_of(s: Seq<char>) -> Seq<(char, Seq<char>)> {
    fix_terms(fix_suffix(s))
}

/// What parsing `s` gives.
pub open spec fn parse_spec(s: Seq<char>) -> Result<RequestView, ParseError> {
    let terms = terms_of(s);
    if !is_notation(s) {
        Err(ParseError::NotDiceNotation)
    } else if count_of(s) > MAX_DICE {
        Err(ParseError::TooManyDice)
    } else if !fixes_fit(terms.len(), count_of(s) as nat) {
        Err(ParseError::FixCountMismatch)
    } else if exists|i: int| 0 <= i < terms.len() && term_fix(#[trigger] terms[i]) is None {
        Err(ParseError::InvalidFix)
    } else {
        Ok(
            RequestView {
                count: count_of(s),
                dimension: dimension_of(s),
                fixes: terms.map_values(|t: (char, Seq<char>)| term_fix(t)->Some_0),
                comment: comment_of(s),
            },
        )
    }
}

/// What a parse result stands for.
pub open spec fn result_view(r: Result<RollRequest, ParseError>) -> Result<RequestView, ParseError> {
    match r {
        Ok(q) => Ok(q@),
        Err(e) => Err(e),
    }
}

proof fn lemma_run(s: Seq<char>, k: CharClass, start: int, end: int)
    requires
        0 <= start <= end <= s.len(),
        forall|i: int| start <= i < end ==> in_class(#[trigger] s[i], k),
        end == s.len() || !in_class(s[end], k),
    ensures
        run_of(s.skip(start), k) == end - start,
    decreases end - start,
{
    if start < end {
        assert(s.skip(start).drop_first() =~= s.skip(start + 1));
        lemma_run(s, k, start + 1, end);
    }
}

/// The length of the run of class `k` that starts at `start`.
fn run_len(cs: &Vec<char>, start: usize, k: CharClass) -> (n: usize)
    requires
        start <= cs@.len(),
    ensures
        start + n <= cs@.len(),
        n == run_of(cs@.skip(start as int), k),
        forall|i: int| start <= i < start + n ==> in_class(#[trigger] cs@[i], k),
{
    let mut j: usize = start;
    while j < cs.len() && char_in_class(cs[j], k)
        invariant
            start <= j <= cs@.len(),
            forall|i: int| start <= i < j ==> in_class(#[trigger] cs@[i], k),
        decreases cs@.len() - j,
    {
        j += 1;
    }
    proof {
        lemma_run(cs@, k, start as int, j as int);
    }
    j - start
}

fn char_in_class(c: char, k: CharClass) -> (r: bool)
    ensures
        r == in_class(c, k),
{
    match k {
        CharClass::Digit => '0' <= c && c <= '9',
        CharClass::SignOrDigit => c == '+' || c == '-' || ('0' <= c && c <= '9'),
        CharClass::Space => c == ' ',
    }
}

proof fn lemma_decimal_grows(d: Seq<char>, c: char)
    requires
        is_digit(c),
    ensures
        decimal_value(d.push(c)) == decimal_value(d) * 10 + digit_value(c),
        decimal_value(d.push(c)) >= decimal_value(d),
{
    assert(d.push(c).drop_last() =~= d);
}

/// The number that the digits `cs[from..to]` denote, where it fits in 64 bits.
pub(crate) fn read_number(cs: &Vec<char>, from: usize, to: usize) -> (r: Option<u64>)
    requires
        from <= to <= cs@.len(),
        forall|i: int| from <= i < to ==> is_digit(#[trigger] cs@[i]),
    ensures
        r == (if decimal_value(cs@.subrange(from as int, to as int)) <= u64::MAX {
            Some(decimal_value(cs@.subrange(from as int, to as int)) as u64)
        } else {
            None::<u64>
        }),
{
    let mut acc: Option<u64> = Some(0);
    let mut j: usize = from;
    assert(cs@.subrange(from as int, from as int).len() == 0);
    while j < to
        invariant
            from <= j <= to <= cs@.len(),
            forall|i: int| from <= i < to ==> is_digit(#[trigger] cs@[i]),
            acc == (if decimal_value(cs@.subrange(from as int, j as int)) <= u64::MAX {
                Some(decimal_value(cs@.subrange(from as int, j as int)) as u64)
            } else {
                None::<u64>
            }),
        decreases to - j,
    {
        let c = cs[j];
        let d = (c as u32 - '0' as u32) as u64;
        proof {
            assert(is_digit(cs@[j as int]));
            assert(cs@.subrange(from as int, j + 1) =~= cs@.subrange(from as int, j as int).push(c));
            lemma_decimal_grows(cs@.subrange(from as int, j as int), c);
        }
        acc = match acc {
            Some(v) => match v.checked_mul(10) {
                Some(w) => w.checked_add(d),
                None => None,
            },
            None => None,
        };
        j += 1;
    }
    acc
}

/// The number that digits denote, where it fits in 64 bits.
pub open spec fn value_opt(d: Seq<char>) -> Option<u64> {
    if decimal_value(d) <= u64::MAX {
        Some(decimal_value(d) as u64)
    } else {
        None
    }
}

/// Whether `cs[from..to]`, made of signs and digits, is a fix suffix.
fn check_fix_suffix(cs: &Vec<char>, from: usize, to: usize) -> (r: bool)
    requires
        from <= to <= cs@.len(),
        forall|i: int| from <= i < to ==> in_class(#[trigger] cs@[i], CharClass::SignOrDigit),
    ensures
        r == is_fix_suffix(cs@.subrange(from as int, to as int)),
{
    let ghost f = cs@.subrange(from as int, to as int);
    if from == to {
        return true;
    }
    if !(cs[from] == '+' || cs[from] == '-') || !('0' <= cs[to - 1] && cs[to - 1] <= '9') {
        return false;
    }
    let mut j: usize = from;
    while j + 1 < to
        invariant
            from <= j < to <= cs@.len(),
            f == cs@.subrange(from as int, to as int),
            forall|i: int| 0 <= i < j - from && is_sign(#[trigger] f[i]) ==> is_digit(f[i + 1]),
        decreases to - j,
    {
        if (cs[j] == '+' || cs[j] == '-') && !('0' <= cs[j + 1] && cs[j + 1] <= '9') {
            assert(is_sign(f[j - from]) && !is_digit(f[j - from + 1]));
            return false;
        }
        j += 1;
    }
    assert forall|i: int| 0 <= i < f.len() implies in_class(#[trigger] f[i], CharClass::SignOrDigit) by {
        assert(f[i] == cs@[from + i]);
    }
    true
}

proof fn lemma_terms_nonempty(f: Seq<char>)
    requires
        f.len() > 0,
        is_sign(f[0]),
    ensures
        fix_terms(f).len() > 0,
    decreases f.len(),
{
    if f.len() > 1 {
        lemma_terms_nonempty(f.drop_last());
    }
}

/// The terms of the fix suffix `cs[from..to]`: each its sign, and its magnitude
/// where that fits in 64 bits.
fn read_terms(cs: &Vec<char>, from: usize, to: usize) -> (r: Vec<(char, Option<u64>)>)
    requires
        from <= to <= cs@.len(),
        is_fix_suffix(cs@.subrange(from as int, to as int)),
    ensures
        r@.len() == fix_terms(cs@.subrange(from as int, to as int)).len(),
        forall|k: int|
            0 <= k < r@.len() ==> {
                let t = #[trigger] fix_terms(cs@.subrange(from as int, to as int))[k];
                r@[k].0 == t.0 && r@[k].1 == value_opt(t.1)
            },
{
    let ghost f = cs@.subrange(from as int, to as int);
    let mut r: Vec<(char, Option<u64>)> = Vec::new();
    let mut j: usize = from;
    while j < to
        invariant
            from <= j <= to <= cs@.len(),
            f == cs@.subrange(from as int, to as int),
            is_fix_suffix(f),
            r@.len() == fix_terms(f.take(j - from)).len(),
            forall|k: int|
                0 <= k < r@.len() ==> {
                    let t = #[trigger] fix_terms(f.take(j - from))[k];
                    r@[k].0 == t.0 && r@[k].1 == value_opt(t.1)
                },
        decreases to - j,
    {
        let c = cs[j];
        let ghost p = f.take(j - from);
        proof {
            assert(f.take(j - from + 1).drop_last() =~= p);
            assert(f[j - from] == c);
            assert(in_class(f[j - from], CharClass::SignOrDigit));
        }
        if c == '+' || c == '-' {
            proof {
                assert(decimal_value(Seq::<char>::empty()) == 0);
            }
            r.push((c, Some(0)));
        } else {
            proof {
                assert(j > from) by {
                    if j == from {
                        assert(is_sign(f[0]));
                    }
                }
                assert(p.len() > 0 && p[0] == f[0]);
                lemma_terms_nonempty(p);
                lemma_decimal_grows(fix_terms(p).last().1, c);
            }
            let last = r.len() - 1;
            let (sign, v) = r[last];
            let d = (c as u32 - '0' as u32) as u64;
            let w = match v {
                Some(v) => match v.checked_mul(10) {
                    Some(x) => x.checked_add(d),
                    None => None,
                },
                None => None,
            };
            r.set(last, (sign, w));
        }
        j += 1;
    }
    assert(f.take(to - from) =~= f);
    r
}

/// Whether `cs[from..]` may follow the fixes.
fn tail_ok(cs: &Vec<char>, from: usize) -> (r: bool)
    requires
        from <= cs@.len(),
    ensures
        r == is_tail(cs@.skip(from as int)),
{
    let ghost t = cs@.skip(from as int);
    if from == cs.len() {
        return true;
    }
    if cs[from] != ' ' {
        return false;
    }
    let mut j: usize = from;
    while j < cs.len()
        invariant
            from <= j <= cs@.len(),
            t == cs@.skip(from as int),
            forall|i: int| 0 <= i < j - from ==> #[trigger] t[i] != '\n',
        decreases cs@.len() - j,
    {
        if cs[j] == '\n' {
            assert(t[j - from] == '\n');
            return false;
        }
        j += 1;
    }
    true
}

/// Where the dimension, the fixes and the tail start, when `cs` is dice notation.
fn layout(cs: &Vec<char>) -> (r: Option<(usize, usize, usize)>)
    ensures
        r is None <==> !is_notation(cs@),
        r matches Some((b0, c0, t0)) ==> {
            &&& b0 == dimension_at(cs@)
            &&& c0 == fixes_at(cs@)
            &&& t0 == tail_at(cs@)
            &&& marker_at(cs@) < b0 < c0 <= t0 <= cs@.len()
            &&& forall|i: int| 0 <= i < marker_at(cs@) ==> is_digit(#[trigger] cs@[i])
            &&& forall|i: int| b0 <= i < c0 ==> is_digit(#[trigger] cs@[i])
        },
{
    let ghost s = cs@;
    let n = cs.len();
    proof {
        assert(s.skip(0) =~= s);
    }
    let a = run_len(cs, 0, CharClass::Digit);
    if a >= n || !(cs[a] == 'd' || cs[a] == 'D') {
        return None;
    }
    let b0 = a + 1;
    let b = run_len(cs, b0, CharClass::Digit);
    if b == 0 {
        return None;
    }
    let c0 = b0 + b;
    let c = run_len(cs, c0, CharClass::SignOrDigit);
    let t0 = c0 + c;
    if !check_fix_suffix(cs, c0, t0) || !tail_ok(cs, t0) {
        return None;
    }
    Some((b0, c0, t0))
}

/// The fixes that terms stand for, or `None` where a magnitude does not fit.
fn fixes_of_terms(terms: &Vec<(char, Option<u64>)>, Ghost(ts): Ghost<Seq<(char, Seq<char>)>>) -> (r: Option<Vec<Fix>>)
    requires
        terms@.len() == ts.len(),
        forall|i: int|
            0 <= i < ts.len() ==> {
                let t = #[trigger] ts[i];
                terms@[i].0 == t.0 && terms@[i].1 == value_opt(t.1)
            },
    ensures
        r is None <==> exists|i: int| 0 <= i < ts.len() && term_fix(#[trigger] ts[i]) is None,
        r matches Some(v) ==> v@ == ts.map_values(|t: (char, Seq<char>)| term_fix(t)->Some_0),
{
    let len = terms.len();
    let mut fixes: Vec<Fix> = Vec::new();
    let mut k: usize = 0;
    while k < len
        invariant
            k <= len == terms@.len() == ts.len(),
            forall|i: int|
                0 <= i < len ==> {
                    let t = #[trigger] ts[i];
                    terms@[i].0 == t.0 && terms@[i].1 == value_opt(t.1)
                },
            forall|i: int| 0 <= i < k ==> term_fix(#[trigger] ts[i]) is Some,
            fixes@ == ts.take(k as int).map_values(|t: (char, Seq<char>)| term_fix(t)->Some_0),
        decreases len - k,
    {
        let (sign, v) = terms[k];
        assert(ts[k as int].0 == sign && terms@[k as int].1 == value_opt(ts[k as int].1));
        match v {
            None => {
                assert(term_fix(ts[k as int]) is None);
                return None;
            },
            Some(m) => {
                let fix = if sign == '+' {
                    Fix::Add(m)
                } else {
                    Fix::Sub(m)
                };
                fixes.push(fix);
            },
        }
        proof {
            assert(ts.take(k + 1) =~= ts.take(k as int).push(ts[k as int]));
        }
        k += 1;
    }
    proof {
        assert(ts.take(len as int) =~= ts);
    }
    Some(fixes)
}

/// Reads dice notation.
pub fn parse(text: &str) -> (r: Result<RollRequest, ParseError>)
    ensures
        result_view(r) == parse_spec(text@),
{
    let cs = chars_of(text);
    let ghost s = cs@;
    let n = cs.len();
    let (b0, c0, t0) = match layout(&cs) {
        None => {
            return Err(ParseError::NotDiceNotation);
        },
        Some(p) => p,
    };
    let a = b0 - 1;
    let count: u64 = if a == 0 {
        DEFAULT_COUNT
    } else {
        match read_number(&cs, 0, a) {
            Some(v) => v,
            None => DEFAULT_COUNT,
        }
    };
    assert(count_digits(s) =~= s.subrange(0, a as int));
    assert(count == count_of(s));
    let dimension: u64 = match read_number(&cs, b0, c0) {
        Some(v) => v,
        None => DEFAULT_DIMENSION,
    };
    assert(dimension == dimension_of(s));
    if count > MAX_DICE {
        return Err(ParseError::TooManyDice);
    }
    let terms = read_terms(&cs, c0, t0);
    let len = terms.len();
    if !(len == 0 || len == 1 || len as u64 == count) {
        return Err(ParseError::FixCountMismatch);
    }
    let fixes = match fixes_of_terms(&terms, Ghost(terms_of(s))) {
        None => {
            return Err(ParseError::InvalidFix);
        },
        Some(v) => v,
    };
    let sp = run_len(&cs, t0, CharClass::Space);
    let mut comment = String::new();
    assert(comment_text(s) =~= s.subrange(t0 + sp, n as int));
    if !all_whitespace_in(&cs, t0 + sp, n) {
        push_chars(&mut comment, &cs, t0 + sp, n);
    }
    proof {
        assert(comment@ =~= comment_of(s));
    }
    Ok(RollRequest { count, dimension, fixes, comment })
}

} // verus!
