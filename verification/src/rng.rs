//! Randomness for the particle simulation.

use vstd::prelude::*;

verus! {

/// Relies on rand::random: a fresh draw from the thread-local generator.
/// Nothing can be promised of a random value.
pub assume_specification<T>[ rand::random::<T> ]() -> (r: T)
    where
        rand::distributions::Standard: rand::distributions::Distribution<T>,
;

/// A draw in `[0, 1000)`: milli-unit resolution of the unit interval.
pub fn rand_milli() -> (r: i64)
    ensures
        0 <= r < 1000,
{
    let v: u32 = rand::random::<u32>();
    (v % 1000) as i64
}

} // verus!
