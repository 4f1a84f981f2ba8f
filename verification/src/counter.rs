//! A counter that counts from one to five and then stops.

use vstd::prelude::*;

verus! {

/// Counts the numbers handed out so far.
pub struct Counter {
    count: u32,
}

impl View for Counter {
    type V = nat;

    /// How many numbers the counter has handed out.
    closed spec fn view(&self) -> nat {
        self.count as nat
    }
}

impl Counter {
    /// A counter that has handed out nothing yet.
    pub fn new() -> (counter: Counter)
        ensures
            counter@ == 0,
    {
        Counter { count: 0 }
    }

    /// Hands out the next number, up to five; after that, nothing more.
    pub fn next(&mut self) -> (item: Option<u32>)
        ensures
            old(self)@ < 5 ==> final(self)@ == old(self)@ + 1 && item == Some(final(self)@ as u32),
            old(self)@ >= 5 ==> final(self)@ == old(self)@ && item is None,
    {
        if self.count < 5 {
            self.count += 1;
            Some(self.count)
        } else {
            None
        }
    }
}

} // verus!
