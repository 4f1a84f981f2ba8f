//! A guessing game: a secret number, and the answer to each guess.
//!
//! The secret is drawn by the `rand` crate. Reading the guesses and showing
//! the answers is left to the caller, who hands each line in as it was typed.

use vstd::prelude::*;
use rand::Rng;
use crate::numerals::{parse_u32, parsed_u32};
use crate::text::{trim, trimmed};

verus! {

/// The answer to a guess.
#[derive(Clone, Copy, Debug, PartialEq, Eq)]
pub enum Answer {
    /// What was typed is no number; the game asks again.
    Invalid,
    /// The guess is below the secret.
    TooSmall,
    /// The guess is above the secret.
    TooBig,
    /// The guess is the secret, and the game is over.
    Win,
}

/// The answer to `entry`, a guess as text, against `secret`.
pub open spec fn answer_to(secret: u32, entry: Seq<char>) -> Answer {
    match parsed_u32(entry) {
        None => Answer::Invalid,
        Some(guess) => if guess < secret {
            Answer::TooSmall
        } else if guess > secret {
            Answer::TooBig
        } else {
            Answer::Win
        },
    }
}

/// Draws the secret of a game: a number from 1 to 9.
pub fn secret_number() -> (secret: u32)
    ensures
        1 <= secret < 10,
{
    secret_between(1, 10)
}

/// Draws a secret from `low` up to, but not including, `high`. There must be
/// a number to draw: `low` lies below `high`.
pub fn secret_between(low: u32, high: u32) -> (secret: u32)
    requires
        low < high,
    ensures
        low <= secret < high,
{
    draw(low, high)
}

/// Answers `entry`, a guess as text. White space is not set aside: an entry
/// with white space in it is no number.
pub fn judge(secret: u32, entry: &str) -> (answer: Answer)
    ensures
        answer == answer_to(secret, entry@),
{
    match parse_u32(entry) {
        None => Answer::Invalid,
        Some(guess) => {
            if guess < secret {
                Answer::TooSmall
            } else if guess > secret {
                Answer::TooBig
            } else {
                Answer::Win
            }
        },
    }
}

/// Answers `line`, a guess as it was typed: white space at its two ends,
/// such as the line break that ends it, is set aside first.
pub fn respond(secret: u32, line: &str) -> (answer: Answer)
    ensures
        answer == answer_to(secret, trimmed(line@)),
{
    judge(secret, trim(line))
}

/// Calls `rand::thread_rng` and `Rng::gen_range` on the range from `low` up
/// to, but not including, `high`.
///
/// Trusted: the number drawn lies in that range, which must not be empty.
/// Which number it is differs from call to call. The generator is seeded by
/// the operating system and stops the program if that fails.
#[verifier::external_body]
fn draw(low: u32, high: u32) -> (number: u32)
    requires
        low < high,
    ensures
        low <= number < high,
{
    rand::thread_rng().gen_range(low..high)
}

} // verus!
