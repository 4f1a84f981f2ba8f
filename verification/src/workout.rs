//! A workout plan from an intensity and a number drawn at random.

use vstd::prelude::*;
use crate::cacher::Cacher;

verus! {

/// What to do today.
#[derive(Clone, Copy, Debug, PartialEq, Eq)]
pub enum Workout {
    /// Push-ups first, then sit-ups.
    Strength { pushups: u32, situps: u32 },
    /// Take a break and stay hydrated.
    Rest,
    /// Run for so many minutes.
    Run { minutes: u32 },
}

/// Plans a workout. `expensive` turns an intensity into an amount and is
/// costly, so it is asked at most once: below an intensity of 25 the plan is
/// push-ups and sit-ups in the same amount; from 25 on it is a run of that
/// amount of minutes, unless `random_number` is 3, which gives a day of rest.
pub fn generate_workout<T>(expensive: T, intensity: u32, random_number: u32) -> (plan: Workout)
    where T: Fn(u32) -> u32
    requires
        forall|n: u32| call_requires(expensive, (n,)),
    ensures
        match plan {
            Workout::Strength { pushups, situps } => {
                &&& intensity < 25
                &&& call_ensures(expensive, (intensity,), pushups)
                &&& situps == pushups
            },
            Workout::Rest => intensity >= 25 && random_number == 3,
            Workout::Run { minutes } => {
                &&& intensity >= 25
                &&& random_number != 3
                &&& call_ensures(expensive, (intensity,), minutes)
            },
        },
{
    let mut expensive_result = Cacher::new(expensive);
    if intensity < 25 {
        let pushups = expensive_result.value(intensity);
        let situps = expensive_result.value(intensity);
        Workout::Strength { pushups, situps }
    } else {
        if random_number == 3 {
            Workout::Rest
        } else {
            Workout::Run { minutes: expensive_result.value(intensity) }
        }
    }
}

} // verus!
