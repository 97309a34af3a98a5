//! Decimal numerals: what a numeric pattern of a dictionary stands for.

use std::num::ParseIntError;
use vstd::prelude::*;

verus! {

/// `std::num::ParseIntError`: why a text is no integer. Its inside is not
/// looked at.
#[verifier::external_type_specification]
#[verifier::external_body]
pub struct ExParseIntError(ParseIntError);

/// Whether `c` is one of the ten ASCII digits.
pub open spec fn is_digit(c: char) -> bool {
    '0' <= c <= '9'
}

/// The number that a sequence of digits denotes in base ten, the last digit
/// being the least significant. The empty sequence denotes zero.
pub open spec fn digits_value(digits: Seq<char>) -> nat
    decreases digits.len(),
{
    if digits.len() == 0 {
        0
    } else {
        (digits_value(digits.drop_last()) * 10 + (digits.last() as nat - '0' as nat)) as nat
    }
}

/// The part of a numeral that follows its optional leading `+`.
pub open spec fn unsigned_part(text: Seq<char>) -> Seq<char> {
    if text.len() > 0 && text[0] == '+' {
        text.subrange(1, text.len() as int)
    } else {
        text
    }
}

/// The value of a decimal numeral: an optional `+`, then one or more ASCII
/// digits and nothing else. Any other text is no numeral.
pub open spec fn decimal_value(text: Seq<char>) -> Option<nat> {
    let digits = unsigned_part(text);
    if digits.len() > 0 && (forall|i: int| 0 <= i < digits.len() ==> is_digit(#[trigger] digits[i])) {
        Some(digits_value(digits))
    } else {
        None
    }
}

/// The machine integer that `text` denotes, if it is a decimal numeral whose
/// value fits in a `usize`.
pub open spec fn usize_value(text: Seq<char>) -> Option<usize> {
    match decimal_value(text) {
        Some(n) if n <= usize::MAX => Some(n as usize),
        _ => None,
    }
}

/// A single digit denotes its distance from `'0'`.
pub proof fn lemma_one_digit(c: char)
    requires
        is_digit(c),
    ensures
        usize_value(seq![c]) == Some((c as nat - '0' as nat) as usize),
{
    let text = seq![c];
    assert(unsigned_part(text) == text);
    assert(text.drop_last() =~= Seq::<char>::empty());
    assert(digits_value(text) == digits_value(text.drop_last()) * 10 + (c as nat - '0' as nat));
}

/// Two digits denote ten times the first plus the second.
pub proof fn lemma_two_digits(a: char, b: char)
    requires
        is_digit(a),
        is_digit(b),
    ensures
        usize_value(seq![a, b]) == Some(
            ((a as nat - '0' as nat) * 10 + (b as nat - '0' as nat)) as usize,
        ),
{
    let text = seq![a, b];
    assert(unsigned_part(text) == text);
    assert(text.drop_last() =~= seq![a]);
    lemma_one_digit(a);
    assert(digits_value(text) == digits_value(text.drop_last()) * 10 + (b as nat - '0' as nat));
}

/// Calls `str::parse::<usize>`. Its documentation: the text must be an optional
/// `+` followed by decimal digits only; an empty text, any other character
/// (white space and underscores too) and a value that does not fit the type are
/// errors. Trusted: that the call returns `Ok` exactly on such numerals, with
/// their value.
#[verifier::external_body]
pub(crate) fn parse_usize(text: &str) -> (r: Result<usize, ParseIntError>)
    ensures
        r is Ok <==> usize_value(text@) is Some,
        r is Ok ==> Some(r->Ok_0) == usize_value(text@),
{
    text.parse::<usize>()
}

} // verus!
