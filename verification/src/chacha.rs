//! The ChaCha8 generator of `rand_chacha`, as the library sees it: a source of `u32` words
//! in a fixed order, fixed by the seed it was made from.

use rand_chacha::rand_core::{Rng, SeedableRng};
use rand_chacha::ChaCha8Rng;
use vstd::prelude::*;

verus! {

#[verifier::external_type_specification]
#[verifier::external_body]
pub struct ExChaCha8Rng(ChaCha8Rng);

/// The words that `rng` hands out from its current position on: entry `i` is what the
/// `i`-th call of `next_u32` from now returns.
pub uninterp spec fn chacha8_upcoming(rng: ChaCha8Rng) -> Map<int, u32>;

/// The words that `ChaCha8Rng::seed_from_u64(seed)` hands out, in order.
pub uninterp spec fn chacha8_seeded(seed: u64) -> Map<int, u32>;

/// A stream of words that never runs out: there is a word for each count of draws ahead.
pub open spec fn endless(words: Map<int, u32>) -> bool {
    forall|i: int| #[trigger] words.dom().contains(i) <==> 0 <= i
}

/// The stream `words` after its first `n` words have been handed out.
pub open spec fn skip_words(words: Map<int, u32>, n: int) -> Map<int, u32> {
    Map::new(|i: int| 0 <= i, |i: int| words[i + n])
}

/// `ChaCha8Rng::seed_from_u64`: a generator whose words are those named
/// `chacha8_seeded(seed)`, an endless stream (rand_core expands the seed with PCG32 and
/// the generator then runs from word position 0 of stream 0).
#[verifier::external_body]
pub(crate) fn chacha8_seed_from_u64(seed: u64) -> (rng: ChaCha8Rng)
    ensures
        chacha8_upcoming(rng) == chacha8_seeded(seed),
        endless(chacha8_upcoming(rng)),
{
    ChaCha8Rng::seed_from_u64(seed)
}

/// `Rng::next_u32` on a ChaCha8Rng: returns the next word of the stream and moves on by
/// one word (the generator cycles at the end of its period, so the stream never ends).
#[verifier::external_body]
pub(crate) fn chacha8_next_u32(rng: &mut ChaCha8Rng) -> (w: u32)
    requires
        endless(chacha8_upcoming(*old(rng))),
    ensures
        w == chacha8_upcoming(*old(rng))[0],
        chacha8_upcoming(*final(rng)) == skip_words(chacha8_upcoming(*old(rng)), 1),
{
    rng.next_u32()
}

/// `Clone::clone` on a ChaCha8Rng: the derived clone copies the whole state, so the copy
/// hands out the same words.
#[verifier::external_body]
pub(crate) fn chacha8_clone(rng: &ChaCha8Rng) -> (c: ChaCha8Rng)
    ensures
        chacha8_upcoming(c) == chacha8_upcoming(*rng),
{
    rng.clone()
}

} // verus!
