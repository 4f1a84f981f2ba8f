//! A cache with a single slot in front of a computation.

use vstd::prelude::*;

verus! {

/// Holds a computation and, once the computation has run, its result.
///
/// The computation runs at most once: on the first call of `value`. Every
/// later call hands back the stored result, whatever its argument.
#[verifier::reject_recursive_types(V)]
pub struct Cacher<T, V> where T: Fn(V) -> V, V: Copy {
    calculation: T,
    value: Option<V>,
}

impl<T, V> Cacher<T, V> where T: Fn(V) -> V, V: Copy {
    /// The computation accepts every argument.
    #[verifier::type_invariant]
    spec fn total(self) -> bool {
        forall|arg: V| call_requires(self.calculation, (arg,))
    }

    /// The computation that this cache stands in front of.
    pub closed spec fn calculation(self) -> T {
        self.calculation
    }

    /// The stored result, if the computation has run.
    pub closed spec fn cached(self) -> Option<V> {
        self.value
    }

    /// One call of `value` with `arg` takes the cache from `self` to `next`
    /// and returns `v`: a stored result is handed back and stays; with an
    /// empty slot, `v` is a result of the computation on `arg` and is stored.
    pub open spec fn value_step(self, arg: V, next: Self, v: V) -> bool {
        &&& next.calculation() == self.calculation()
        &&& next.cached() == Some(v)
        &&& match self.cached() {
            Some(stored) => v == stored,
            None => call_ensures(self.calculation(), (arg,), v),
        }
    }

    /// A cache for `calculation` with an empty slot.
    pub fn new(calculation: T) -> (cacher: Cacher<T, V>)
        requires
            forall|arg: V| call_requires(calculation, (arg,)),
        ensures
            cacher.calculation() == calculation,
            cacher.cached() is None,
    {
        Cacher { calculation, value: None }
    }

    /// The stored result; if there is none yet, the result of the computation
    /// on `arg`, which is then stored.
    pub fn value(&mut self, arg: V) -> (v: V)
        ensures
            old(self).value_step(arg, *final(self), v),
    {
        proof {
            use_type_invariant(&*self);
        }
        match self.value {
            Some(v) => v,
            None => {
                let v = (self.calculation)(arg);
                self.value = Some(v);
                v
            },
        }
    }

    /// Once a result is stored, no call replaces it: the call returns the
    /// stored result and leaves the cache as it was.
    pub proof fn lemma_stored_result_stays(self, arg: V, next: Self, v: V)
        requires
            self.cached() is Some,
            self.value_step(arg, next, v),
        ensures
            next == self,
            self.cached() == Some(v),
    {
    }

    /// Of two calls in a row on one cache, the second returns what the first
    /// returned, whatever the two arguments are. With a slot that was empty
    /// before the first call, that is a result of the computation on the
    /// first argument; a result on the second argument is returned only if it
    /// is the same value.
    pub proof fn lemma_second_call_repeats_first(
        self,
        first: V,
        between: Self,
        v1: V,
        second: V,
        after: Self,
        v2: V,
    )
        requires
            self.value_step(first, between, v1),
            between.value_step(second, after, v2),
        ensures
            v2 == v1,
            after == between,
            self.cached() is None ==> call_ensures(self.calculation(), (first,), v2),
            forall|other: V|
                call_ensures(self.calculation(), (second,), other) && other != v1 ==> v2 != other,
    {
    }
}

} // verus!
