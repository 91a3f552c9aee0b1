//! Trusted declaration of the outside random source.

use vstd::prelude::*;

verus! {

/// Relies on rand::random: one draw from the thread-local generator's
/// uniform distribution. Nothing can be promised of a random value, so
/// this carries no contract; every consumer in this crate is verified
/// for all values the draw may produce.
pub assume_specification<T>[ rand::random::<T> ]() -> (r: T)
    where
        rand::distributions::Standard: rand::distributions::Distribution<T>,
;

} // verus!
