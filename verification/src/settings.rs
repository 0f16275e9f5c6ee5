//! The settings a fuzzing run takes from its environment: counts, the seed
//! and name filters, each computed from the text of a variable.

use vstd::prelude::*;

use crate::filter::{regex_accepts, NameFilter};

verus! {

/// How many edits each fuzzing iteration makes when nothing else is set.
pub const DEFAULT_EDIT_COUNT: usize = 3;

/// How many fuzzing iterations run when nothing else is set.
pub const DEFAULT_ITERATION_COUNT: usize = 10;

pub open spec fn is_decimal_digit(c: char) -> bool {
    '0' as int <= c as int <= '9' as int
}

pub open spec fn digit_value(c: char) -> int {
    c as int - '0' as int
}

pub open spec fn all_decimal_digits(s: Seq<char>) -> bool {
    forall|i: int| 0 <= i < s.len() ==> is_decimal_digit(#[trigger] s[i])
}

/// The number that a string of decimal digits denotes.
pub open spec fn decimal_value(s: Seq<char>) -> int
    decreases s.len(),
{
    if s.len() == 0 {
        0
    } else {
        10 * decimal_value(s.drop_last()) + digit_value(s.last())
    }
}

/// The digits of an unsigned number: the text after one leading `+`, if
/// there is one.
pub open spec fn unsigned_digits(s: Seq<char>) -> Seq<char> {
    if s.len() > 0 && s[0] == '+' {
        s.drop_first()
    } else {
        s
    }
}

/// What `str::parse::<usize>` gives for `s`: the number, when `s` is an
/// optional `+` followed by at least one decimal digit and nothing else, and
/// the number fits in a `usize`; otherwise nothing.
pub open spec fn parsed_usize(s: Seq<char>) -> Option<usize> {
    let d = unsigned_digits(s);
    if d.len() > 0 && all_decimal_digits(d) && decimal_value(d) <= usize::MAX {
        Some(decimal_value(d) as usize)
    } else {
        None
    }
}

proof fn lemma_decimal_value_nonnegative(s: Seq<char>)
    requires
        all_decimal_digits(s),
    ensures
        decimal_value(s) >= 0,
    decreases s.len(),
{
    if s.len() > 0 {
        assert(is_decimal_digit(s[s.len() - 1]));
        lemma_decimal_value_nonnegative(s.drop_last());
    }
}

/// A prefix of a string of digits denotes no more than the whole string.
proof fn lemma_decimal_value_prefix(s: Seq<char>, k: int)
    requires
        all_decimal_digits(s),
        0 <= k <= s.len(),
    ensures
        decimal_value(s.take(k)) <= decimal_value(s),
    decreases s.len(),
{
    if k < s.len() {
        assert(is_decimal_digit(s[s.len() - 1]));
        lemma_decimal_value_nonnegative(s.drop_last());
        assert(s.drop_last().take(k) =~= s.take(k));
        lemma_decimal_value_prefix(s.drop_last(), k);
    } else {
        assert(s.take(k) =~= s);
    }
}

/// Reads a `usize` written in decimal, as `str::parse::<usize>` does.
pub fn parse_usize(s: &str) -> (r: Option<usize>)
    ensures
        r == parsed_usize(s@),
{
    broadcast use vstd::string::group_string_axioms;

    let ghost cs = s@;
    let mut value: usize = 0;
    let mut first = true;
    let mut signed = false;
    let mut any_digit = false;
    for c in it: s.chars()
        invariant
            it.seq() == cs,
            cs == s@,
            first == (it.index() == 0),
            signed == (it.index() >= 1 && cs[0] == '+'),
            any_digit == (it.index() > (if signed { 1int } else { 0int })),
            all_decimal_digits(cs.subrange(if signed { 1int } else { 0int }, it.index() as int)),
            value == decimal_value(cs.subrange(if signed { 1int } else { 0int }, it.index() as int)),
    {
        let ghost pos = it.index() as int;
        let ghost start = if signed { 1int } else { 0int };
        let ghost digits = cs.subrange(start, pos);
        assert(c == cs[pos]);
        if first && c == '+' {
            signed = true;
            assert(cs.subrange(1, 1) =~= Seq::<char>::empty());
        } else if '0' <= c && c <= '9' {
            let d = (c as u32 - '0' as u32) as usize;
            let ghost next = cs.subrange(start, pos + 1);
            assert(next.drop_last() =~= digits);
            assert(all_decimal_digits(next));
            assert(decimal_value(next) == 10 * value + d);
            let tens = value.checked_mul(10);
            let grown = match tens {
                Some(t) => t.checked_add(d),
                None => None,
            };
            match grown {
                Some(v) => {
                    value = v;
                    any_digit = true;
                },
                None => {
                    proof {
                        let whole = unsigned_digits(cs);
                        assert(whole =~= cs.subrange(start, cs.len() as int));
                        if all_decimal_digits(whole) {
                            assert(whole.take(pos + 1 - start) =~= next);
                            lemma_decimal_value_prefix(whole, pos + 1 - start);
                        }
                    }
                    return None;
                },
            }
        } else {
            proof {
                let whole = unsigned_digits(cs);
                assert(whole =~= cs.subrange(start, cs.len() as int));
                assert(!is_decimal_digit(whole[pos - start]));
            }
            return None;
        }
        first = false;
    }
    proof {
        let start = if signed { 1int } else { 0int };
        assert(unsigned_digits(cs) =~= cs.subrange(start, cs.len() as int));
    }
    if !any_digit {
        return None;
    }
    Some(value)
}

/// The number that the text of an environment variable holds, if it holds
/// one; `None` when the variable is not set.
pub fn int_env_var(value: Option<&str>) -> (r: Option<usize>)
    ensures
        r == int_env_var_spec(value),
        value matches Some(text) ==> r == parsed_usize(text@),
        value is None ==> r is None,
{
    match value {
        Some(s) => parse_usize(s),
        None => None,
    }
}

/// The filter that the text of an environment variable compiles to; `None`
/// when the variable is not set or its text is not a pattern that the
/// regular-expression engine accepts.
pub fn regex_env_var(value: Option<&str>) -> (r: Option<NameFilter>)
    ensures
        r is Some <==> (value is Some && regex_accepts(value->0@)),
        r matches Some(f) ==> f@ == value->0@,
{
    match value {
        Some(s) => NameFilter::compile(s),
        None => None,
    }
}

/// The number of edits per iteration: the variable's number, or the default.
pub fn edit_count(value: Option<&str>) -> (r: usize)
    ensures
        r == (match int_env_var_spec(value) {
            Some(n) => n,
            None => DEFAULT_EDIT_COUNT,
        }),
        value matches Some(text) ==> (parsed_usize(text@) matches Some(n) ==> r == n),
        (value is None || parsed_usize(value->0@) is None) ==> r == DEFAULT_EDIT_COUNT,
{
    match int_env_var(value) {
        Some(n) => n,
        None => DEFAULT_EDIT_COUNT,
    }
}

/// The number of iterations: the variable's number, or the default.
pub fn iteration_count(value: Option<&str>) -> (r: usize)
    ensures
        r == (match int_env_var_spec(value) {
            Some(n) => n,
            None => DEFAULT_ITERATION_COUNT,
        }),
        value matches Some(text) ==> (parsed_usize(text@) matches Some(n) ==> r == n),
        (value is None || parsed_usize(value->0@) is None) ==> r == DEFAULT_ITERATION_COUNT,
{
    match int_env_var(value) {
        Some(n) => n,
        None => DEFAULT_ITERATION_COUNT,
    }
}

/// The number an optional variable's text holds.
pub open spec fn int_env_var_spec(value: Option<&str>) -> Option<usize> {
    match value {
        Some(s) => parsed_usize(s@),
        None => None,
    }
}

/// A number drawn by `rand::random_range` from `low..=high`, which must not
/// be empty (the call panics on an empty range). The value lies in the
/// range; which one it is comes from the thread's random generator and is
/// not claimed. The call does not return when the operating system's random
/// source fails while the generator is seeded or reseeded (rand documents a
/// panic there); that failure of the environment is not excluded here.
#[verifier::external_body]
fn random_in(low: usize, high: usize) -> (r: usize)
    requires
        low <= high,
    ensures
        low <= r <= high,
{
    rand::random_range(low..=high)
}

/// The seed of a fuzzing run: the number that the seed variable's text
/// holds, or else a random one.
pub fn new_seed(seed_var: Option<&str>) -> (r: usize)
    ensures
        int_env_var_spec(seed_var) matches Some(n) ==> r == n,
        seed_var matches Some(text) ==> (parsed_usize(text@) matches Some(n) ==> r == n),
{
    match int_env_var(seed_var) {
        Some(seed) => seed,
        None => random_in(0, usize::MAX),
    }
}

/// Any string of decimal digits whose value fits in a `usize` reads as that
/// value, with or without one leading `+`; every number is read, however
/// large, up to `usize::MAX`.
pub proof fn lemma_digits_read_as_their_value(digits: Seq<char>)
    requires
        digits.len() > 0,
        all_decimal_digits(digits),
        decimal_value(digits) <= usize::MAX,
    ensures
        parsed_usize(digits) == Some(decimal_value(digits) as usize),
        parsed_usize(seq!['+'] + digits) == Some(decimal_value(digits) as usize),
{
    assert(is_decimal_digit(digits[0]));
    assert((seq!['+'] + digits)[0] == '+');
    assert((seq!['+'] + digits).drop_first() =~= digits);
}

/// The value of digits written one after the other: the first part's value
/// shifted by the second part's length, plus the second part's value.
pub proof fn lemma_decimal_value_concat(a: Seq<char>, b: Seq<char>)
    ensures
        decimal_value(a + b) == decimal_value(a) * vstd::arithmetic::power::pow(10, b.len())
            + decimal_value(b),
    decreases b.len(),
{
    if b.len() == 0 {
        assert(a + b =~= a);
        vstd::arithmetic::power::lemma_pow0(10);
    } else {
        assert((a + b).drop_last() =~= a + b.drop_last());
        assert((a + b).last() == b.last());
        lemma_decimal_value_concat(a, b.drop_last());
        vstd::arithmetic::power::lemma_pow_adds(10, 1, (b.len() - 1) as nat);
        vstd::arithmetic::power::lemma_pow1(10);
        let p = vstd::arithmetic::power::pow(10, (b.len() - 1) as nat);
        assert(decimal_value(a) * (10 * p) == 10 * (decimal_value(a) * p)) by (nonlinear_arith);
    }
}

/// Leading zeros change nothing: `0` followed by digits reads as the digits.
pub proof fn lemma_leading_zero_is_ignored(digits: Seq<char>)
    requires
        digits.len() > 0,
        all_decimal_digits(digits),
    ensures
        parsed_usize(seq!['0'] + digits) == parsed_usize(digits),
{
    lemma_decimal_value_concat(seq!['0'], digits);
    assert(seq!['0'].drop_last() =~= Seq::<char>::empty());
    assert(seq!['0'].last() == '0');
    assert(decimal_value(Seq::<char>::empty()) == 0);
    assert(decimal_value(seq!['0']) == 0);
    assert(0 * vstd::arithmetic::power::pow(10, digits.len()) == 0);
    assert(all_decimal_digits(seq!['0'] + digits)) by {
        assert forall|i: int| 0 <= i < (seq!['0'] + digits).len() implies is_decimal_digit(
            #[trigger] (seq!['0'] + digits)[i],
        ) by {
            if i > 0 {
                assert((seq!['0'] + digits)[i] == digits[i - 1]);
            }
        }
    }
    assert(is_decimal_digit(digits[0]));
}

} // verus!
