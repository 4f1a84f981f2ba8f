//! First steps: constants, a loop that yields a value, and numbers as text.

use vstd::prelude::*;
use vstd::string::StringExecFns;
use crate::numerals::{decimal, format_decimal};

verus! {

/// One.
pub fn one() -> (value: u64)
    ensures
        value == 1,
{
    return 1;
}

/// Counts up to ten and returns twice that.
pub fn value_from_loop() -> (value: u64)
    ensures
        value == 20,
{
    let mut counter: u64 = 0;
    loop
        invariant_except_break
            counter < 10,
        ensures
            counter == 10,
        decreases 10 - counter,
    {
        counter += 1;
        if counter == 10 {
            break;
        }
    }
    counter * 2
}

/// Returns `label` followed by the decimal numeral of `value`.
pub fn labelled(label: &str, value: u64) -> (line: String)
    ensures
        line@ == label@ + decimal(value as nat),
{
    let mut line = label.to_owned();
    let numeral = format_decimal(value);
    line.append(numeral.as_str());
    line
}

} // verus!
