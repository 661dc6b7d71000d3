//! The generator behind a handle, for callers that cannot hold a Rust value:
//! they are given a handle, pass it to every call, and give it back at the
//! end.
//!
//! A handle either owns one generator or is null. It owns the generator
//! alone, so a generator has one sequence and one user at a time; nothing
//! here synchronises two users of one handle.

use vstd::prelude::*;

verus! {

use crate::lehmer::{advance, lehmer_step, sanitized, MODULUS};
use crate::PRNG;

/// A handle: the owner of one generator on the heap, or null (`None`).
pub type Handle = Option<Box<PRNG>>;

/// Makes a generator from a raw seed and returns the handle that owns it.
/// The handle is never null.
pub fn prng_new(seed: u64) -> (handle: Handle)
    ensures
        handle is Some,
        handle.unwrap()@ == sanitized(seed as nat),
        handle.unwrap().is_valid() <==> seed < MODULUS,
{
    Some(Box::new(PRNG::new(seed)))
}

/// Releases the generator that the handle owns and leaves the handle null.
/// On a null handle it does nothing, so a handle may be destroyed again.
pub fn prng_destroy(handle: &mut Handle)
    ensures
        *final(handle) is None,
{
    if handle.is_none() {
        return ;
    }
    *handle = None;
}

/// Moves the generator of a handle that is not null to its next state and
/// returns that state.
pub fn next_unsigned_integer(handle: &mut Handle) -> (value: u64)
    requires
        *old(handle) is Some,
    ensures
        *final(handle) is Some,
        value == advance(old(handle).unwrap()@),
        value != 0,
        final(handle).unwrap()@ == value,
        old(handle).unwrap().is_valid() ==> value == lehmer_step(old(handle).unwrap()@)
            && final(handle).unwrap().is_valid(),
{
    let prng = handle.as_mut().unwrap();
    prng.next_unsigned_integer()
}

} // verus!
