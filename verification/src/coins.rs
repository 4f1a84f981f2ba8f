//! Coins and their worth, and a step up for a number that may be missing.

use vstd::prelude::*;

verus! {

/// A state that mints quarters of its own.
#[derive(Clone, Copy, Debug, PartialEq, Eq)]
pub enum UsState {
    Alabama,
    Alaska,
}

/// A coin. A quarter carries the state that minted it.
#[derive(Clone, Copy, Debug, PartialEq, Eq)]
pub enum Coin {
    Penny,
    Nickel,
    Dime,
    Quarter(UsState),
}

impl Coin {
    /// What the coin is worth in cents.
    pub open spec fn cents(self) -> nat {
        match self {
            Coin::Penny => 1,
            Coin::Nickel => 5,
            Coin::Dime => 10,
            Coin::Quarter(_) => 25,
        }
    }

    /// What the coin is worth in cents.
    pub fn value_in_cents(&self) -> (value: u8)
        ensures
            value == self.cents(),
    {
        match self {
            Coin::Penny => 1,
            Coin::Nickel => 5,
            Coin::Dime => 10,
            Coin::Quarter(_) => 25,
        }
    }
}

/// One more than the number in `x`, if there is one. The number must be below
/// 255, so that its successor fits.
pub fn plus_one(x: Option<u8>) -> (next: Option<u8>)
    requires
        x != Some(255u8),
    ensures
        next == match x {
            None => None::<u8>,
            Some(i) => Some((i + 1) as u8),
        },
{
    match x {
        None => None,
        Some(i) => Some(i + 1),
    }
}

} // verus!
