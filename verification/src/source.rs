//! The pseudo-random byte source: a seedable, reseedable deterministic
//! generator that hands out 32-byte blocks. True entropy is drawn from the
//! host only at construction or reseed time; between those, blocks come
//! from the fixed stream that the seed determines.

use vstd::prelude::*;
use rand_chacha::ChaCha8Rng;
use rand_core::{RngCore, SeedableRng};

verus! {

#[verifier::external_type_specification]
#[verifier::external_body]
pub struct ExChaCha8Rng(ChaCha8Rng);

#[verifier::external_type_specification]
#[verifier::external_body]
pub struct ExGetrandomError(getrandom::Error);

/// The seed a generator's stream was built from.
pub uninterp spec fn stream_seed(r: ChaCha8Rng) -> Seq<u8>;

/// How many 32-byte blocks a generator has handed out so far.
pub uninterp spec fn blocks_drawn(r: ChaCha8Rng) -> nat;

/// The `i`-th 32-byte block of the ChaCha8 stream for a seed.
pub uninterp spec fn chacha8_block(seed: Seq<u8>, i: nat) -> Seq<u8>;

/// Relies on `rand_core::SeedableRng::from_seed` for `ChaCha8Rng`: the
/// generator is a deterministic function of the 32-byte seed alone and
/// starts at the head of its stream.
#[verifier::external_body]
fn chacha8_from_seed(seed: [u8; 32]) -> (r: ChaCha8Rng)
    ensures
        stream_seed(r) == seed@,
        blocks_drawn(r) == 0,
{
    ChaCha8Rng::from_seed(seed)
}

/// Relies on `rand_core::RngCore::fill_bytes` for `ChaCha8Rng`: filling a
/// 32-byte buffer hands out the next 32-byte segment of the seed's fixed
/// stream and advances the generator past it.
#[verifier::external_body]
fn chacha8_next32(r: &mut ChaCha8Rng) -> (out: [u8; 32])
    ensures
        stream_seed(*final(r)) == stream_seed(*old(r)),
        blocks_drawn(*final(r)) == blocks_drawn(*old(r)) + 1,
        out@ == chacha8_block(stream_seed(*old(r)), blocks_drawn(*old(r))),
        out@.len() == 32,
{
    let mut out = [0u8; 32];
    r.fill_bytes(&mut out);
    out
}

/// Relies on `getrandom::getrandom`: on success the buffer holds host
/// entropy. Nothing is promised of the bytes themselves.
#[verifier::external_body]
fn os_entropy32() -> (r: Result<[u8; 32], getrandom::Error>) {
    let mut buf = [0u8; 32];
    match getrandom::getrandom(&mut buf) {
        Ok(()) => Ok(buf),
        Err(e) => Err(e),
    }
}

/// The host could not supply entropy; construction or reseed must abort,
/// since weak randomness would silently yield guessable private keys.
#[derive(Debug, Clone, Copy, PartialEq, Eq, Structural)]
pub struct EntropyError;

/// Draw 32 bytes of true entropy from the host. The bytes are random:
/// nothing is stated of their values.
pub fn fresh_entropy() -> (r: Result<[u8; 32], EntropyError>) {
    match os_entropy32() {
        Ok(b) => Ok(b),
        Err(_) => Err(EntropyError),
    }
}

/// A deterministic stream of 32-byte blocks, seeded once.
pub struct BlockSource {
    rng: ChaCha8Rng,
}

impl BlockSource {
    /// The seed the current stream was built from.
    pub closed spec fn seed(self) -> Seq<u8> {
        stream_seed(self.rng)
    }

    /// How many blocks have been drawn from the current stream.
    pub closed spec fn drawn(self) -> nat {
        blocks_drawn(self.rng)
    }

    pub fn new(seed: [u8; 32]) -> (r: BlockSource)
        ensures
            r.seed() == seed@,
            r.drawn() == 0,
    {
        BlockSource { rng: chacha8_from_seed(seed) }
    }

    /// Build a source from fresh host entropy; fails outright if the host
    /// cannot supply it.
    pub fn from_entropy() -> (r: Result<BlockSource, EntropyError>)
        ensures
            r matches Ok(s) ==> s.drawn() == 0,
    {
        match fresh_entropy() {
            Ok(seed) => Ok(BlockSource::new(seed)),
            Err(e) => Err(e),
        }
    }

    /// Restart the stream from a new seed.
    pub fn reseed(&mut self, seed: [u8; 32])
        ensures
            final(self).seed() == seed@,
            final(self).drawn() == 0,
    {
        self.rng = chacha8_from_seed(seed);
    }

    /// The next 32-byte block: a pure function of the seed and of how many
    /// blocks have been drawn; no external entropy is requested.
    pub fn next_block(&mut self) -> (out: [u8; 32])
        ensures
            final(self).seed() == old(self).seed(),
            final(self).drawn() == old(self).drawn() + 1,
            out@ == chacha8_block(old(self).seed(), old(self).drawn()),
    {
        chacha8_next32(&mut self.rng)
    }
}

} // verus!
