//! Building strings.
use crate::utils::decimal::{decimal_digits, format_u64, lemma_decimal_digits};
use vstd::prelude::*;

verus! {

/// The decimal text of `n` as characters.
pub open spec fn decimal_chars(n: nat) -> Seq<char> {
    decimal_digits(n).map_values(|b: u8| b as char)
}

/// The decimal text of a signed number: a minus sign before the digits of
/// a negative one, no sign otherwise.
pub open spec fn decimal_text(n: int) -> Seq<char> {
    if n < 0 {
        seq!['-'] + decimal_chars((-n) as nat)
    } else {
        decimal_chars(n as nat)
    }
}

/// Appends one character with `String::push`, which puts the character at
/// the end of the string and leaves the rest as it was.
#[verifier::external_body]
pub(crate) fn push_char(text: &mut String, c: char)
    ensures
        final(text)@ == old(text)@.push(c),
{
    text.push(c);
}

/// Appends the decimal text of `n`.
pub fn push_decimal_text(text: &mut String, n: i64)
    ensures
        final(text)@ == old(text)@ + decimal_text(n as int),
{
    let magnitude: u64 = if n < 0 {
        push_char(text, '-');
        if n == i64::MIN {
            9223372036854775808u64
        } else {
            (-n) as u64
        }
    } else {
        n as u64
    };
    let digits = format_u64(magnitude);
    let ghost start = text@;
    let mut i: usize = 0;
    proof {
        lemma_decimal_digits(magnitude as nat);
    }
    while i < digits.len()
        invariant
            i <= digits@.len(),
            digits@ == decimal_digits(magnitude as nat),
            text@ == start + decimal_chars(magnitude as nat).take(i as int),
        decreases digits@.len() - i,
    {
        let b: u8 = digits[i];
        push_char(text, b as char);
        assert(text@ =~= start + decimal_chars(magnitude as nat).take(i + 1));
        i = i + 1;
    }
    assert(decimal_chars(magnitude as nat).take(i as int) =~= decimal_chars(magnitude as nat));
    assert(text@ =~= old(text)@ + decimal_text(n as int));
}

} // verus!
