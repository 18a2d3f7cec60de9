//! Effects with an I/O part.
use super::effect::Effect;
use vstd::prelude::*;

verus! {

/// The effect of a pure value together with the I/O that realizes it.
pub fn with_io<T, E, F>(pure: T, io: F) -> (r: Effect<T, E, F>)
    ensures
        r.projected() == Ok::<T, E>(pure),
        r.realization() == Some(io),
{
    Effect::of(pure).with_io(io)
}

} // verus!
