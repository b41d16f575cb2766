//! The batch search controller. It owns the search configuration (pattern
//! and mode) and the random source, and runs generate-and-match iterations
//! up to a batch size, stopping at the first match.

use vstd::prelude::*;
use vstd::string::StrSliceExecFns;
use crate::base58::{encode58, to_base58};
use crate::keys::{clamp_spec, ed25519_pubkey, KeyCandidate};
use crate::source::{chacha8_block, BlockSource, EntropyError};

verus! {

/// `pat` stands at the start (prefix mode) or at the end (suffix mode) of
/// `addr`; the empty pattern always matches.
pub open spec fn pattern_matches(addr: Seq<char>, pat: Seq<char>, suffix: bool) -> bool {
    &&& pat.len() <= addr.len()
    &&& if suffix {
        addr.subrange(addr.len() - pat.len(), addr.len() as int) == pat
    } else {
        addr.subrange(0, pat.len() as int) == pat
    }
}

/// Case-sensitive comparison of an address against a pattern, by
/// characters, with no normalization.
pub fn matches_pattern(address: &str, pattern: &str, suffix: bool) -> (r: bool)
    ensures
        r == pattern_matches(address@, pattern@, suffix),
{
    let alen: usize = address.unicode_len();
    let plen: usize = pattern.unicode_len();
    if plen > alen {
        return false;
    }
    let off: usize = if suffix {
        alen - plen
    } else {
        0
    };
    let ghost sub = address@.subrange(off as int, off + plen);
    let mut i: usize = 0;
    while i < plen
        invariant
            plen <= alen,
            alen == address@.len(),
            plen == pattern@.len(),
            off == if suffix { alen - plen } else { 0 },
            sub == address@.subrange(off as int, off + plen),
            i <= plen,
            forall|j: int| 0 <= j < i ==> address@[off + j] == pattern@[j],
        decreases plen - i,
    {
        let a: char = address.get_char(off + i);
        let p: char = pattern.get_char(i);
        if a != p {
            proof {
                assert(sub[i as int] == address@[off + i]);
            }
            return false;
        }
        i = i + 1;
    }
    proof {
        assert(sub =~= pattern@);
    }
    true
}

/// The block the controller draws at its `k`-th iteration, for a stream
/// seed and the number of blocks already drawn.
pub open spec fn nth_block(seed: Seq<u8>, start: nat, k: nat) -> Seq<u8> {
    chacha8_block(seed, start + k)
}

/// The public key a raw block leads to, after clamping.
pub open spec fn candidate_public(block: Seq<u8>) -> Seq<u8> {
    ed25519_pubkey(clamp_spec(block))
}

/// The Base58 address text a raw block leads to.
pub open spec fn candidate_address(block: Seq<u8>) -> Seq<char> {
    encode58(candidate_public(block))
}

/// The private-key text for a matching block: the Base58 encoding of the
/// 64-byte buffer holding the raw seed, then the public key bytes.
pub open spec fn keypair_encoding(block: Seq<u8>) -> Seq<char> {
    encode58(block + candidate_public(block))
}

/// The 64-byte keypair buffer keeps both halves recoverable: its first 32
/// bytes are the raw seed and its last 32 the public key bytes.
pub proof fn lemma_keypair_buffer_layout(seed: Seq<u8>, pk: Seq<u8>)
    requires
        seed.len() == 32,
        pk.len() == 32,
    ensures
        (seed + pk).len() == 64,
        (seed + pk).subrange(0, 32) == seed,
        (seed + pk).subrange(32, 64) == pk,
{
    assert((seed + pk).subrange(0, 32) =~= seed);
    assert((seed + pk).subrange(32, 64) =~= pk);
}

/// The outcome of one batch invocation, owned by the caller.
pub enum MatchResult {
    Found { pubkey: String, privkey: String, secret_key: [u8; 32] },
    NotFound { attempts: u32 },
}

/// One self-contained search worker: an immutable pattern and mode, and a
/// deterministic random source seeded from host entropy.
pub struct VanityWorker {
    pattern: String,
    is_suffix: bool,
    source: BlockSource,
}

impl VanityWorker {
    /// The configured pattern.
    pub closed spec fn pat(self) -> Seq<char> {
        self.pattern@
    }

    /// Whether the pattern is matched at the end rather than the start.
    pub closed spec fn suffix_mode(self) -> bool {
        self.is_suffix
    }

    /// The seed of the current random stream.
    pub closed spec fn seed(self) -> Seq<u8> {
        self.source.seed()
    }

    /// How many blocks have been drawn from the current stream.
    pub closed spec fn drawn(self) -> nat {
        self.source.drawn()
    }

    /// The `k`-th iteration from the worker's current state would match.
    pub open spec fn hit(self, k: nat) -> bool {
        pattern_matches(
            candidate_address(nth_block(self.seed(), self.drawn(), k)),
            self.pat(),
            self.suffix_mode(),
        )
    }

    /// A worker over a caller-chosen seed: the deterministic substitute
    /// for the entropy-seeded constructors.
    pub fn with_seed(pattern: String, is_suffix: bool, seed: [u8; 32]) -> (r: VanityWorker)
        ensures
            r.pat() == pattern@,
            r.suffix_mode() == is_suffix,
            r.seed() == seed@,
            r.drawn() == 0,
    {
        VanityWorker { pattern, is_suffix, source: BlockSource::new(seed) }
    }

    /// A prefix-mode worker seeded from host entropy; fails outright if
    /// the host cannot supply entropy.
    pub fn new(pattern: String) -> (r: Result<VanityWorker, EntropyError>)
        ensures
            r matches Ok(w) ==> w.pat() == pattern@ && !w.suffix_mode() && w.drawn() == 0,
    {
        match crate::source::fresh_entropy() {
            Ok(seed) => Ok(VanityWorker::with_seed(pattern, false, seed)),
            Err(e) => Err(e),
        }
    }

    /// A suffix-mode worker seeded from host entropy; fails outright if
    /// the host cannot supply entropy.
    pub fn new_suffix(pattern: String) -> (r: Result<VanityWorker, EntropyError>)
        ensures
            r matches Ok(w) ==> w.pat() == pattern@ && w.suffix_mode() && w.drawn() == 0,
    {
        match crate::source::fresh_entropy() {
            Ok(seed) => Ok(VanityWorker::with_seed(pattern, true, seed)),
            Err(e) => Err(e),
        }
    }

    /// Restart the random stream from fresh host entropy. On failure the
    /// worker is left exactly as it was; the configuration never changes.
    pub fn reseed(&mut self) -> (r: Result<(), EntropyError>)
        ensures
            final(self).pat() == old(self).pat(),
            final(self).suffix_mode() == old(self).suffix_mode(),
            r matches Ok(u) ==> final(self).drawn() == 0,
            r matches Err(e) ==> *final(self) == *old(self),
    {
        match crate::source::fresh_entropy() {
            Ok(seed) => {
                self.source.reseed(seed);
                Ok(())
            },
            Err(e) => Err(e),
        }
    }

    /// Restart the random stream from a caller-chosen seed: the
    /// deterministic substitute for `reseed`.
    pub fn reseed_with(&mut self, seed: [u8; 32])
        ensures
            final(self).pat() == old(self).pat(),
            final(self).suffix_mode() == old(self).suffix_mode(),
            final(self).seed() == seed@,
            final(self).drawn() == 0,
    {
        self.source.reseed(seed);
    }

    /// Run up to `batch_size` generate-and-match iterations. The first
    /// matching candidate is returned at once, as its address text, its
    /// private-key text (the encoded 64-byte seed-then-public-key buffer)
    /// and its raw seed bytes; if none of the batch matches, the attempt
    /// count comes back and is exactly `batch_size`.
    pub fn search_batch(&mut self, batch_size: u32) -> (r: MatchResult)
        ensures
            final(self).pat() == old(self).pat(),
            final(self).suffix_mode() == old(self).suffix_mode(),
            final(self).seed() == old(self).seed(),
            match r {
                MatchResult::NotFound { attempts } => {
                    &&& attempts == batch_size
                    &&& final(self).drawn() == old(self).drawn() + batch_size
                    &&& forall|k: nat| k < batch_size ==> !(#[trigger] old(self).hit(k))
                },
                MatchResult::Found { pubkey, privkey, secret_key } => {
                    &&& pattern_matches(pubkey@, old(self).pat(), old(self).suffix_mode())
                    &&& exists|k: nat|
                        {
                            let block = nth_block(old(self).seed(), old(self).drawn(), k);
                            &&& k < batch_size
                            &&& #[trigger] old(self).hit(k)
                            &&& forall|j: nat| j < k ==> !(#[trigger] old(self).hit(j))
                            &&& secret_key@ == block
                            &&& pubkey@ == candidate_address(block)
                            &&& privkey@ == keypair_encoding(block)
                            &&& final(self).drawn() == old(self).drawn() + k + 1
                        }
                },
            },
    {
        let mut i: u32 = 0;
        while i < batch_size
            invariant
                i <= batch_size,
                self.pat() == old(self).pat(),
                self.suffix_mode() == old(self).suffix_mode(),
                self.seed() == old(self).seed(),
                self.drawn() == old(self).drawn() + i,
                forall|j: nat| j < i ==> !(#[trigger] old(self).hit(j)),
            decreases batch_size - i,
        {
            let block = self.source.next_block();
            proof {
                assert(block@ == nth_block(old(self).seed(), old(self).drawn(), i as nat));
            }
            let cand = KeyCandidate::generate(block);
            let address = to_base58(cand.public_key_bytes.as_slice());
            let found = matches_pattern(address.as_str(), self.pattern.as_str(), self.is_suffix);
            if found {
                let mut buf: Vec<u8> = Vec::new();
                buf.extend_from_slice(cand.raw_seed.as_slice());
                buf.extend_from_slice(cand.public_key_bytes.as_slice());
                proof {
                    assert(buf@ =~= block@ + candidate_public(block@));
                }
                let privkey = to_base58(buf.as_slice());
                proof {
                    assert(old(self).hit(i as nat));
                }
                return MatchResult::Found {
                    pubkey: address,
                    privkey,
                    secret_key: cand.raw_seed,
                };
            }
            proof {
                assert(!old(self).hit(i as nat));
            }
            i = i + 1;
        }
        MatchResult::NotFound { attempts: batch_size }
    }

    /// Single-invocation search: the degenerate form of the batch search.
    /// It reuses the worker's seeded stream like any batch does; fresh
    /// entropy is mixed in only by an explicit `reseed`.
    pub fn search(&mut self, max_attempts: u32) -> (r: MatchResult)
        ensures
            final(self).pat() == old(self).pat(),
            final(self).suffix_mode() == old(self).suffix_mode(),
            final(self).seed() == old(self).seed(),
            match r {
                MatchResult::NotFound { attempts } => {
                    &&& attempts == max_attempts
                    &&& final(self).drawn() == old(self).drawn() + max_attempts
                    &&& forall|k: nat| k < max_attempts ==> !(#[trigger] old(self).hit(k))
                },
                MatchResult::Found { pubkey, privkey, secret_key } => {
                    &&& pattern_matches(pubkey@, old(self).pat(), old(self).suffix_mode())
                    &&& exists|k: nat|
                        {
                            let block = nth_block(old(self).seed(), old(self).drawn(), k);
                            &&& k < max_attempts
                            &&& #[trigger] old(self).hit(k)
                            &&& forall|j: nat| j < k ==> !(#[trigger] old(self).hit(j))
                            &&& secret_key@ == block
                            &&& pubkey@ == candidate_address(block)
                            &&& privkey@ == keypair_encoding(block)
                            &&& final(self).drawn() == old(self).drawn() + k + 1
                        }
                },
            },
    {
        self.search_batch(max_attempts)
    }
}

} // verus!
