//! A seeded random number generator that counts how often it was used.

use crate::chacha::{
    chacha8_clone, chacha8_next_u32, chacha8_seed_from_u64, chacha8_seeded, chacha8_upcoming, endless,
    skip_words,
};
use rand_chacha::ChaCha8Rng;
use std::collections::hash_map::DefaultHasher;
use crate::hashing::{u64_write, u8_write, write_u64, write_u8};
use vstd::prelude::*;

verus! {

/// A ChaCha8 generator together with its seed and the number of rolls made so far.
pub struct DeterministicRng {
    rng: ChaCha8Rng,
    seed: u64,
    calls: u8,
}

impl View for DeterministicRng {
    type V = (u64, u8);

    /// The seed and the number of rolls made so far: all that decides what comes next.
    closed spec fn view(&self) -> (u64, u8) {
        (self.seed, self.calls)
    }
}

impl DeterministicRng {
    /// The generator stands at the word of its seed's stream that the count of rolls says.
    pub closed spec fn well_formed(self) -> bool {
        &&& endless(chacha8_seeded(self.seed))
        &&& chacha8_upcoming(self.rng) == skip_words(chacha8_seeded(self.seed), self.calls as int)
    }

    /// A generator seeded with `seed` that has not rolled yet.
    pub fn new(seed: u64) -> (r: Self)
        ensures
            r@ == (seed, 0u8),
            r.well_formed(),
    {
        let rng = chacha8_seed_from_u64(seed);
        assert(chacha8_upcoming(rng) =~= skip_words(chacha8_seeded(seed), 0));
        Self { rng, seed, calls: 0 }
    }

    /// The next number of the stream: the `calls`-th word of the ChaCha8 stream of the seed.
    /// The count of rolls is a `u8`, so at most 255 rolls can be made.
    pub fn roll(&mut self) -> (w: u32)
        requires
            old(self).well_formed(),
            old(self)@.1 < u8::MAX,
        ensures
            final(self).well_formed(),
            final(self)@ == (old(self)@.0, (old(self)@.1 + 1) as u8),
            w == chacha8_seeded(old(self)@.0)[old(self)@.1 as int],
    {
        self.calls = self.calls + 1;
        let w = chacha8_next_u32(&mut self.rng);
        proof {
            assert(chacha8_upcoming(self.rng) =~= skip_words(chacha8_seeded(self.seed), self.calls as int));
        }
        w
    }

    /// Feeds the seed and the count of rolls to `hasher`, the generator's own state aside.
    /// The seed is written in little-endian bytes, so the digest equals that of
    /// `u64::hash` (native-endian) only on little-endian targets.
    pub fn hash(&self, hasher: &mut DefaultHasher)
        ensures
            final(hasher)@ == old(hasher)@.push(u64_write(self@.0)).push(u8_write(self@.1)),
    {
        write_u64(hasher, self.seed);
        write_u8(hasher, self.calls);
    }
}

/// Determinism: generators with the same seed that have rolled equally often roll the same
/// numbers from then on; the `i`-th roll of a generator is the `i`-th word of its seed's
/// stream.
pub proof fn law_same_seed_same_rolls(a: DeterministicRng, b: DeterministicRng, n: int)
    requires
        a@ == b@,
        0 <= n,
    ensures
        chacha8_seeded(a@.0)[a@.1 + n] == chacha8_seeded(b@.0)[b@.1 + n],
{
}

impl Clone for DeterministicRng {
    /// A generator at the same place of the same stream.
    fn clone(&self) -> (r: Self)
        ensures
            r@ == self@,
            self.well_formed() ==> r.well_formed(),
    {
        DeterministicRng { rng: chacha8_clone(&self.rng), seed: self.seed, calls: self.calls }
    }
}

} // verus!
