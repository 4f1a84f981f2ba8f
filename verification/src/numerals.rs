//! Whole numbers as decimal text, in both directions.
//!
//! The two operations at the end of this file are not verified: one states
//! what the `itoa` crate prints for a number, the other what the standard
//! library reads from a numeral.

use vstd::prelude::*;

verus! {

/// The character for the digit `d`, which lies between 0 and 9.
pub open spec fn digit(d: nat) -> char {
    seq!['0', '1', '2', '3', '4', '5', '6', '7', '8', '9'][d as int]
}

/// `c` is one of the ten decimal digits.
pub open spec fn is_digit(c: char) -> bool {
    '0' <= c <= '9'
}

/// The number that the digit `c` stands for.
pub open spec fn digit_value(c: char) -> nat {
    (c as int - '0' as int) as nat
}

/// Every character of `text` is a decimal digit.
pub open spec fn all_digits(text: Seq<char>) -> bool {
    forall|i: int| 0 <= i < text.len() ==> is_digit(#[trigger] text[i])
}

/// The decimal numeral of `n`: its digits from the most significant to the
/// least, without leading zeros, and `0` for zero.
pub open spec fn decimal(n: nat) -> Seq<char>
    decreases n,
{
    if n < 10 {
        seq![digit(n)]
    } else {
        decimal(n / 10).push(digit(n % 10))
    }
}

/// The number that a run of decimal digits stands for; leading zeros count
/// for nothing.
pub open spec fn number_of(digits: Seq<char>) -> nat
    decreases digits.len(),
{
    if digits.len() == 0 {
        0
    } else {
        10 * number_of(digits.drop_last()) + digit_value(digits.last())
    }
}

/// `text` without a plus sign in front, if it has one.
pub open spec fn unsigned_part(text: Seq<char>) -> Seq<char> {
    if text.len() > 0 && text[0] == '+' {
        text.skip(1)
    } else {
        text
    }
}

/// What `text` reads as: a plus sign or none, then one decimal digit or more
/// and nothing else, for a number that fits in `u32`. Any other text reads as
/// no number.
pub open spec fn parsed_u32(text: Seq<char>) -> Option<u32> {
    let digits = unsigned_part(text);
    if digits.len() > 0 && all_digits(digits) && number_of(digits) <= u32::MAX {
        Some(number_of(digits) as u32)
    } else {
        None
    }
}

/// A numeral is made of digits and stands for the number it was made from.
pub proof fn lemma_decimal_reads_back(n: nat)
    ensures
        decimal(n).len() > 0,
        all_digits(decimal(n)),
        number_of(decimal(n)) == n,
        decimal(n)[0] != '+',
    decreases n,
{
    if n < 10 {
        assert(number_of(decimal(n).drop_last()) == 0);
    } else {
        lemma_decimal_reads_back(n / 10);
        assert(decimal(n).drop_last() =~= decimal(n / 10));
    }
}

/// What is printed for a number that fits in `u32` is read as that number.
pub proof fn lemma_print_then_parse(n: u32)
    ensures
        parsed_u32(decimal(n as nat)) == Some(n),
{
    lemma_decimal_reads_back(n as nat);
}

/// Calls `itoa::Buffer::new` and `itoa::Buffer::format`, and copies the text
/// out of the buffer.
///
/// Trusted: the text is the decimal numeral of `value`.
#[verifier::external_body]
pub(crate) fn format_decimal(value: u64) -> (numeral: String)
    ensures
        numeral@ == decimal(value as nat),
{
    let mut buffer = itoa::Buffer::new();
    buffer.format(value).to_owned()
}

/// Calls `str::parse` for `u32`, and keeps the number where there is one.
///
/// Trusted: the standard library reads an optional plus sign followed by
/// decimal digits only, and refuses empty text, any other character, and a
/// number beyond `u32::MAX`.
#[verifier::external_body]
pub(crate) fn parse_u32(text: &str) -> (number: Option<u32>)
    ensures
        number == parsed_u32(text@),
{
    text.parse::<u32>().ok()
}

} // verus!
