use vstd::prelude::*;

verus! {

/// A clock that reports how many milliseconds have passed since it started.
pub trait Elapsed {
    fn elapsed_ms(&self) -> u128;
}

} // verus!
