//! Collections: a table of numbers by key, the count of each word of a text,
//! and a pass over a list.

use vstd::prelude::*;
use crate::text::{split_whitespace, views, words_of};

verus! {

/// A table that holds one number for each of its keys. Keys are texts; a key
/// is in the table at most once.
pub struct Tally {
    keys: Vec<String>,
    counts: Vec<u64>,
}

/// `key` stands at position `at` of `keys`.
pub open spec fn key_at(keys: Seq<String>, key: Seq<char>, at: int) -> bool {
    0 <= at < keys.len() && keys[at]@ == key
}

/// How often `word` occurs among `words`.
pub open spec fn occurrences(words: Seq<Seq<char>>, word: Seq<char>) -> nat
    decreases words.len(),
{
    if words.len() == 0 {
        0
    } else {
        occurrences(words.drop_last(), word) + if words.last() == word {
            1nat
        } else {
            0nat
        }
    }
}

/// The words among `words`, each once, in the order in which they first occur.
pub open spec fn first_occurrences(words: Seq<Seq<char>>) -> Seq<Seq<char>>
    decreases words.len(),
{
    if words.len() == 0 {
        Seq::empty()
    } else if words.drop_last().contains(words.last()) {
        first_occurrences(words.drop_last())
    } else {
        first_occurrences(words.drop_last()).push(words.last())
    }
}

/// The table that holds, for each word among `words`, how often it occurs.
pub open spec fn tally_of(words: Seq<Seq<char>>) -> Map<Seq<char>, u64> {
    Map::new(
        |word: Seq<char>| words.contains(word),
        |word: Seq<char>| occurrences(words, word) as u64,
    )
}

impl View for Tally {
    type V = Map<Seq<char>, u64>;

    /// The number that the table holds for each of its keys.
    closed spec fn view(&self) -> Map<Seq<char>, u64> {
        Map::new(
            |key: Seq<char>| exists|at: int| key_at(self.keys@, key, at),
            |key: Seq<char>| self.counts@[choose|at: int| key_at(self.keys@, key, at)],
        )
    }
}

impl Tally {
    /// Each key has its number, and no key stands twice. Every table that
    /// this module hands out is well formed, and its operations keep it so.
    pub closed spec fn well_formed(self) -> bool {
        &&& self.keys@.len() == self.counts@.len()
        &&& forall|i: int, j: int|
            0 <= i < j < self.keys@.len() ==> (#[trigger] self.keys@[i])@ != (
            #[trigger] self.keys@[j])@
    }

    /// The keys of the table, in the order in which they came in.
    pub closed spec fn order(self) -> Seq<Seq<char>> {
        self.keys@.map_values(|key: String| key@)
    }

    /// An empty table.
    pub fn new() -> (tally: Tally)
        ensures
            tally.well_formed(),
            tally@ == Map::<Seq<char>, u64>::empty(),
            tally.order() == Seq::<Seq<char>>::empty(),
    {
        let tally = Tally { keys: Vec::new(), counts: Vec::new() };
        tally
    }

    /// Where `key` stands, if it is in the table.
    fn position(&self, key: &String) -> (found: Option<usize>)
        ensures
            match found {
                Some(at) => key_at(self.keys@, key@, at as int),
                None => forall|at: int| !key_at(self.keys@, key@, at),
            },
    {
        let mut i: usize = 0;
        while i < self.keys.len()
            invariant
                i <= self.keys@.len(),
                forall|at: int| 0 <= at < i ==> !key_at(self.keys@, key@, at),
            decreases self.keys@.len() - i,
        {
            if self.keys[i] == *key {
                return Some(i);
            }
            i += 1;
        }
        None
    }

    /// The number held for `key`, if `key` is in the table.
    pub fn get(&self, key: &String) -> (count: Option<u64>)
        requires
            self.well_formed(),
        ensures
            count == if self@.dom().contains(key@) {
                Some(self@[key@])
            } else {
                None
            },
    {
        match self.position(key) {
            Some(at) => {
                proof {
                    self.lemma_entry(at as int);
                }
                Some(self.counts[at])
            },
            None => None,
        }
    }

    /// Puts `count` in the table for `key`, in place of the number held for
    /// `key` before, which is returned if there was one.
    pub fn insert(&mut self, key: String, count: u64) -> (before: Option<u64>)
        requires
            old(self).well_formed(),
        ensures
            final(self).well_formed(),
            final(self)@ == old(self)@.insert(key@, count),
            before == if old(self)@.dom().contains(key@) {
                Some(old(self)@[key@])
            } else {
                None
            },
            final(self).order() == if old(self)@.dom().contains(key@) {
                old(self).order()
            } else {
                old(self).order().push(key@)
            },
    {
        match self.position(&key) {
            Some(at) => {
                let before = self.counts[at];
                proof {
                    self.lemma_entry(at as int);
                }
                let ghost prior = *self;
                self.counts.set(at, count);
                proof {
                    prior.lemma_replace(*self, at as int, count);
                }
                Some(before)
            },
            None => {
                let ghost prior = *self;
                self.keys.push(key);
                self.counts.push(count);
                proof {
                    prior.lemma_append(*self, key@, count);
                }
                None
            },
        }
    }

    /// Returns the number held for `key`; if `key` is not in the table yet,
    /// `count` is put in for it first.
    pub fn or_insert(&mut self, key: String, count: u64) -> (held: u64)
        requires
            old(self).well_formed(),
        ensures
            final(self).well_formed(),
            final(self)@ == if old(self)@.dom().contains(key@) {
                old(self)@
            } else {
                old(self)@.insert(key@, count)
            },
            final(self)@.dom().contains(key@),
            held == final(self)@[key@],
            final(self).order() == if old(self)@.dom().contains(key@) {
                old(self).order()
            } else {
                old(self).order().push(key@)
            },
    {
        match self.position(&key) {
            Some(at) => {
                proof {
                    self.lemma_entry(at as int);
                }
                self.counts[at]
            },
            None => {
                let ghost prior = *self;
                self.keys.push(key);
                self.counts.push(count);
                proof {
                    prior.lemma_append(*self, key@, count);
                }
                count
            },
        }
    }

    /// Counts `key` once more: a key that is not in the table comes in with
    /// the number 1. The number held for `key` must leave room for one more.
    pub fn count(&mut self, key: String)
        requires
            old(self).well_formed(),
            old(self)@.dom().contains(key@) ==> old(self)@[key@] < u64::MAX,
        ensures
            final(self).well_formed(),
            final(self)@ == old(self)@.insert(
                key@,
                if old(self)@.dom().contains(key@) {
                    (old(self)@[key@] + 1) as u64
                } else {
                    1u64
                },
            ),
            final(self).order() == if old(self)@.dom().contains(key@) {
                old(self).order()
            } else {
                old(self).order().push(key@)
            },
    {
        match self.position(&key) {
            Some(at) => {
                proof {
                    self.lemma_entry(at as int);
                }
                let ghost prior = *self;
                let more = self.counts[at] + 1;
                self.counts.set(at, more);
                proof {
                    prior.lemma_replace(*self, at as int, more);
                }
            },
            None => {
                let ghost prior = *self;
                self.keys.push(key);
                self.counts.push(1);
                proof {
                    prior.lemma_append(*self, key@, 1);
                }
            },
        }
    }

    /// The keys with their numbers, in the order in which the keys came in.
    pub fn entries(&self) -> (entries: Vec<(String, u64)>)
        requires
            self.well_formed(),
        ensures
            entries@.len() == self.order().len(),
            forall|i: int|
                0 <= i < entries@.len() ==> {
                    &&& (#[trigger] entries@[i]).0@ == self.order()[i]
                    &&& self@.dom().contains(self.order()[i])
                    &&& entries@[i].1 == self@[self.order()[i]]
                },
    {
        let mut entries: Vec<(String, u64)> = Vec::new();
        let mut i: usize = 0;
        while i < self.keys.len()
            invariant
                i <= self.keys@.len(),
                self.keys@.len() == self.counts@.len(),
                self.well_formed(),
                entries@.len() == i,
                forall|k: int|
                    0 <= k < i ==> {
                        &&& (#[trigger] entries@[k]).0@ == self.order()[k]
                        &&& self@.dom().contains(self.order()[k])
                        &&& entries@[k].1 == self@[self.order()[k]]
                    },
            decreases self.keys@.len() - i,
        {
            proof {
                self.lemma_entry(i as int);
            }
            entries.push((self.keys[i].clone(), self.counts[i]));
            i += 1;
        }
        entries
    }

    /// The key at position `at` is in the table, with the number at `at`.
    proof fn lemma_entry(self, at: int)
        requires
            self.well_formed(),
            0 <= at < self.keys@.len(),
        ensures
            self@.dom().contains(self.keys@[at]@),
            self@[self.keys@[at]@] == self.counts@[at],
            self.order()[at] == self.keys@[at]@,
    {
        let key = self.keys@[at]@;
        assert(key_at(self.keys@, key, at));
        let chosen = choose|i: int| key_at(self.keys@, key, i);
        assert(chosen == at);
    }

    /// A key is in the table just if it is one of the keys in `order`.
    pub proof fn lemma_order_lists_the_keys(self, key: Seq<char>)
        ensures
            self@.dom().contains(key) <==> self.order().contains(key),
    {
        if self@.dom().contains(key) {
            let at = choose|at: int| key_at(self.keys@, key, at);
            assert(self.order()[at] == key);
        }
        if self.order().contains(key) {
            let at = choose|at: int| 0 <= at < self.order().len() && self.order()[at] == key;
            assert(key_at(self.keys@, key, at));
        }
    }

    /// Replacing the number at one position changes the table at that key only.
    proof fn lemma_replace(self, next: Tally, at: int, count: u64)
        requires
            self.well_formed(),
            0 <= at < self.keys@.len(),
            next.keys@ == self.keys@,
            next.counts@ == self.counts@.update(at, count),
        ensures
            next.well_formed(),
            next@ == self@.insert(self.keys@[at]@, count),
            next.order() == self.order(),
    {
        let key = self.keys@[at]@;
        assert forall|other: Seq<char>| next@.dom().contains(other) implies #[trigger] next@[other]
            == self@.insert(key, count)[other] by {
            let chosen = choose|i: int| key_at(self.keys@, other, i);
            self.lemma_entry(chosen);
            next.lemma_entry(chosen);
            next.lemma_entry(at);
        }
        assert(key_at(self.keys@, key, at));
    }

    /// A new key with its number at the end adds that key to the table.
    proof fn lemma_append(self, next: Tally, key: Seq<char>, count: u64)
        requires
            self.well_formed(),
            forall|at: int| !key_at(self.keys@, key, at),
            next.keys@.len() == self.keys@.len() + 1,
            next.keys@.drop_last() =~= self.keys@,
            next.keys@.last()@ == key,
            next.counts@ == self.counts@.push(count),
        ensures
            next.well_formed(),
            !self@.dom().contains(key),
            next@ == self@.insert(key, count),
            next.order() == self.order().push(key),
    {
        let n = self.keys@.len() as int;
        assert forall|i: int, j: int| 0 <= i < j < next.keys@.len() implies (
        #[trigger] next.keys@[i])@ != (#[trigger] next.keys@[j])@ by {
            assert(next.keys@[i] == self.keys@[i]);
            if j < n {
                assert(next.keys@[j] == self.keys@[j]);
            } else {
                assert(!key_at(self.keys@, key, i));
            }
        }
        assert forall|other: Seq<char>| next@.dom().contains(other) implies #[trigger] next@[other]
            == self@.insert(key, count)[other] by {
            let chosen = choose|i: int| key_at(next.keys@, other, i);
            next.lemma_entry(chosen);
            if chosen < n {
                self.lemma_entry(chosen);
            }
        }
        assert forall|other: Seq<char>| self@.insert(key, count).dom().contains(
            other,
        ) implies next@.dom().contains(other) by {
            if other == key {
                assert(key_at(next.keys@, other, n));
            } else {
                let chosen = choose|i: int| key_at(self.keys@, other, i);
                assert(key_at(next.keys@, other, chosen));
            }
        }
        assert forall|other: Seq<char>| next@.dom().contains(other) implies self@.insert(
            key,
            count,
        ).dom().contains(other) by {
            let chosen = choose|i: int| key_at(next.keys@, other, i);
            if chosen < n {
                assert(key_at(self.keys@, other, chosen));
            }
        }
        assert(next.order() =~= self.order().push(key));
    }
}

/// A word occurs among `words` no more often than there are words, and at
/// least once if it is among them.
pub proof fn lemma_occurrences_bounds(words: Seq<Seq<char>>, word: Seq<char>)
    ensures
        occurrences(words, word) <= words.len(),
        words.contains(word) <==> occurrences(words, word) > 0,
    decreases words.len(),
{
    if words.len() > 0 {
        let front = words.drop_last();
        lemma_occurrences_bounds(front, word);
        if words.contains(word) {
            let at = choose|at: int| 0 <= at < words.len() && words[at] == word;
            if at < front.len() {
                assert(front[at] == word);
            }
        }
    }
}

/// Counts each of `words`: the table holds every word with the number of
/// times it occurs, and lists the words in the order of their first
/// occurrence.
pub fn count_words(words: &Vec<&str>) -> (tally: Tally)
    ensures
        tally.well_formed(),
        tally@ == tally_of(views(words@)),
        tally.order() == first_occurrences(views(words@)),
{
    let mut tally = Tally::new();
    let mut i: usize = 0;
    let ghost all = views(words@);
    while i < words.len()
        invariant
            i <= words.len(),
            all == views(words@),
            tally.well_formed(),
            tally@ == tally_of(all.take(i as int)),
            tally.order() == first_occurrences(all.take(i as int)),
        decreases words.len() - i,
    {
        let word = words[i];
        let ghost seen = all.take(i as int);
        let ghost more = all.take(i + 1);
        proof {
            assert(more.drop_last() =~= seen);
            lemma_occurrences_bounds(seen, word@);
            assert forall|other: Seq<char>| more.contains(other) <==> seen.contains(other)
                || other == word@ by {
                lemma_occurrences_bounds(seen, other);
                lemma_occurrences_bounds(more, other);
            }
            assert forall|other: Seq<char>| #[trigger] occurrences(more, other) <= usize::MAX by {
                lemma_occurrences_bounds(more, other);
            }
        }
        tally.count(word.to_owned());
        i += 1;
    }
    assert(all.take(i as int) =~= all);
    tally
}

/// Counts the words of `text`, which are the runs of characters between
/// white space.
pub fn word_counts(text: &str) -> (tally: Tally)
    ensures
        tally.well_formed(),
        tally@ == tally_of(words_of(text@)),
        tally.order() == first_occurrences(words_of(text@)),
{
    let words = split_whitespace(text);
    count_words(&words)
}

/// Adds `amount` to each of `values`. Every sum must fit in `i32`.
pub fn add_to_each(values: &mut Vec<i32>, amount: i32)
    requires
        forall|i: int|
            0 <= i < old(values)@.len() ==> i32::MIN <= #[trigger] old(values)@[i] + amount
                <= i32::MAX,
    ensures
        final(values)@.len() == old(values)@.len(),
        forall|i: int|
            0 <= i < old(values)@.len() ==> #[trigger] final(values)@[i] == old(values)@[i]
                + amount,
{
    let mut i: usize = 0;
    while i < values.len()
        invariant
            i <= values@.len(),
            values@.len() == old(values)@.len(),
            forall|k: int| 0 <= k < i ==> #[trigger] values@[k] == old(values)@[k] + amount,
            forall|k: int| i <= k < values@.len() ==> #[trigger] values@[k] == old(values)@[k],
            forall|k: int|
                0 <= k < old(values)@.len() ==> i32::MIN <= #[trigger] old(values)@[k] + amount
                    <= i32::MAX,
        decreases values@.len() - i,
    {
        let sum = values[i] + amount;
        values.set(i, sum);
        i += 1;
    }
}

} // verus!
