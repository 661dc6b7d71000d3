//! A Park-Miller-Carta pseudo-random number generator: the Lehmer recurrence
//! with multiplier 16807 over the Mersenne prime 2^31 - 1.
//!
//! Not suitable for cryptography: a few outputs give away all later ones.
//!
//! - [`PRNG`] is the generator.
//! - [`c_api`] puts a generator behind a handle that may be null.
//! - [`lehmer`] says what a step of the generator is and proves that, on the
//!   nonzero residues, it is the recurrence and a bijection.
//! - [`period`] proves that the generator runs through all the nonzero
//!   residues before it repeats; [`power`], [`power_table`] and [`order`] hold
//!   what that proof stands on.

use vstd::prelude::*;

pub mod c_api;
pub mod lehmer;
pub mod order;
pub mod period;
pub mod power;
pub mod power_table;

verus! {

use crate::lehmer::{
    advance, carta_fold, is_residue, lehmer_step, lemma_advance_is_lehmer,
    lemma_advance_is_nonzero, sanitized, MODULUS, MULTIPLIER,
};

/// A generator. Its whole state is one word, the value it last returned
/// (or the seed it was made with).
pub struct PRNG {
    seed: u64,
}

impl View for PRNG {
    type V = nat;

    /// The state of the generator, as a number.
    closed spec fn view(&self) -> nat {
        self.seed as nat
    }
}

impl PRNG {
    /// The state is never zero: from zero the recurrence would not leave.
    #[verifier::type_invariant]
    spec fn nonzero(self) -> bool {
        self.seed != 0
    }

    /// Makes a generator from a raw seed. Zero, from which the recurrence
    /// never leaves, is replaced by one; every other value is kept as it is.
    pub fn new(seed: u64) -> (prng: PRNG)
        ensures
            prng@ == sanitized(seed as nat),
            prng.is_valid() <==> seed < MODULUS,
    {
        let sanitized_seed: u64 = if seed == 0 {
            1
        } else {
            seed
        };
        PRNG { seed: sanitized_seed }
    }

    /// Whether the state is a nonzero residue of the modulus. The recurrence
    /// runs on these; a generator made from a seed below the modulus is in
    /// this state and stays in it.
    pub open spec fn is_valid(&self) -> bool {
        is_residue(self@)
    }

    /// Moves to the next state and returns it.
    ///
    /// The product of state and multiplier is never formed whole. The
    /// multiplier is applied to the low 16 bits and to the rest; what the
    /// second product has above bit 15 would stand above bit 31 of the whole,
    /// and is added in at the bottom instead.
    pub fn next_unsigned_integer(&mut self) -> (value: u64)
        ensures
            value == advance(old(self)@),
            value != 0,
            final(self)@ == value,
            old(self).is_valid() ==> value == lehmer_step(old(self)@) && final(self).is_valid(),
    {
        proof {
            use_type_invariant(&*self);
        }
        let seed: u64 = self.seed;
        assert(seed & 0xFFFF == seed % 0x1_0000 && seed >> 16 == seed / 0x1_0000) by (bit_vector);
        let mut lo: u64 = MULTIPLIER * (seed & 0xFFFF);
        let hi: u64 = MULTIPLIER * (seed >> 16);
        assert(hi >> 15 == hi / 0x8000 && (hi & 0x7FFF) << 16 == (hi % 0x8000) * 0x1_0000)
            by (bit_vector);
        lo += (hi & 0x7FFF) << 16;
        lo += hi >> 15;
        if lo > 0x7FFFFFFF {
            lo -= 0x7FFFFFFF;
        }
        proof {
            reveal(carta_fold);
            lemma_advance_is_nonzero(seed as nat);
            if is_residue(seed as nat) {
                lemma_advance_is_lehmer(seed as nat);
            }
        }
        self.seed = lo;
        lo
    }

    /// The state, unchanged.
    pub fn current_seed(&self) -> (seed: u64)
        ensures
            seed == self@,
            seed != 0,
    {
        proof {
            use_type_invariant(self);
        }
        self.seed
    }
}

} // verus!
