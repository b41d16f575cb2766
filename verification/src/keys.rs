//! Key candidates: a 32-byte block from the random source is clamped into
//! a valid ed25519 private scalar, and the matching public key is derived
//! through the curve's base-point multiplication, treated as a trusted
//! external operation from 32 scalar bytes to a 32-byte compressed point.

use vstd::prelude::*;
use curve25519_dalek::edwards::EdwardsPoint;
use curve25519_dalek::scalar::Scalar;

verus! {

/// The clamped form of a 32-byte block: the lowest 3 bits of byte 0
/// cleared, the top bit of byte 31 cleared, the second-highest bit of
/// byte 31 set.
pub open spec fn clamp_spec(s: Seq<u8>) -> Seq<u8>
    recommends
        s.len() == 32,
{
    s.update(0, s[0] & 248).update(31, (s[31] & 127) | 64)
}

/// The 32-byte compressed Edwards point for the given 32 scalar bytes
/// times the curve's canonical base point: a deterministic, total function
/// of the bytes alone.
pub uninterp spec fn ed25519_pubkey(scalar: Seq<u8>) -> Seq<u8>;

/// Relies on `curve25519_dalek`: `Scalar::from_bytes_mod_order`, then
/// `EdwardsPoint::mul_base`, then `compress().to_bytes()` together are a
/// deterministic function from the 32 scalar bytes to the 32-byte
/// compressed point, with no other input.
#[verifier::external_body]
fn scalar_mul_base(scalar: &[u8; 32]) -> (r: [u8; 32])
    ensures
        r@ == ed25519_pubkey(scalar@),
        r@.len() == 32,
{
    let s = Scalar::from_bytes_mod_order(*scalar);
    EdwardsPoint::mul_base(&s).compress().to_bytes()
}

/// Clamp a raw 32-byte block into a valid private scalar.
pub fn clamp(block: &[u8; 32]) -> (r: [u8; 32])
    ensures
        r@ == clamp_spec(block@),
{
    let mut r: [u8; 32] = *block;
    let b0: u8 = r[0];
    r[0] = b0 & 248;
    let b31: u8 = r[31];
    r[31] = (b31 & 127) | 64;
    proof {
        assert(r@ =~= clamp_spec(block@));
    }
    r
}

/// Byte 0 of a clamped block has its lowest 3 bits zero; byte 31 has its
/// top bit zero and its second-highest bit set — for every input block.
pub proof fn lemma_clamp_invariant(s: Seq<u8>)
    requires
        s.len() == 32,
    ensures
        clamp_spec(s).len() == 32,
        clamp_spec(s)[0] & 7 == 0,
        clamp_spec(s)[31] & 128 == 0,
        clamp_spec(s)[31] & 64 == 64,
{
    let b0: u8 = s[0];
    let b31: u8 = s[31];
    assert((b0 & 248) & 7 == 0) by (bit_vector);
    assert(((b31 & 127) | 64) & 128 == 0) by (bit_vector);
    assert(((b31 & 127) | 64) & 64 == 64) by (bit_vector);
    assert(clamp_spec(s)[0] == b0 & 248);
    assert(clamp_spec(s)[31] == (b31 & 127) | 64);
}

/// One candidate keypair, fresh each iteration.
pub struct KeyCandidate {
    /// The 32-byte block exactly as drawn from the random source.
    pub raw_seed: [u8; 32],
    /// The block clamped into a valid private scalar.
    pub clamped_scalar: [u8; 32],
    /// The compressed curve point derived from the clamped scalar.
    pub public_key_bytes: [u8; 32],
}

impl KeyCandidate {
    /// The fields stand in the relation the generator establishes.
    pub open spec fn wf(self) -> bool {
        &&& self.clamped_scalar@ == clamp_spec(self.raw_seed@)
        &&& self.public_key_bytes@ == ed25519_pubkey(self.clamped_scalar@)
    }

    /// Build the candidate for one raw block: clamp it and derive the
    /// public key.
    pub fn generate(block: [u8; 32]) -> (r: KeyCandidate)
        ensures
            r.wf(),
            r.raw_seed@ == block@,
    {
        let clamped = clamp(&block);
        let pk = scalar_mul_base(&clamped);
        KeyCandidate { raw_seed: block, clamped_scalar: clamped, public_key_bytes: pk }
    }
}

} // verus!
