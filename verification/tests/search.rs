use vanity_search::base58::to_base58;
use vanity_search::keys::KeyCandidate;
use vanity_search::source::BlockSource;
use vanity_search::worker::{matches_pattern, MatchResult, VanityWorker};

use rand_core::{RngCore, SeedableRng};

fn seed_of(fill: u8) -> [u8; 32] {
    [fill; 32]
}

#[test]
fn matcher_prefix_and_suffix() {
    assert!(matches_pattern("ABCdef", "ABC", false));
    assert!(!matches_pattern("ABCdef", "BCd", false));
    assert!(matches_pattern("ABCdef", "def", true));
    assert!(!matches_pattern("ABCdef", "ABC", true));
    assert!(matches_pattern("ABCdef", "", false));
    assert!(matches_pattern("ABCdef", "", true));
    assert!(matches_pattern("ABCdef", "ABCdef", false));
    assert!(!matches_pattern("AB", "ABCdef", false));
    // out-of-alphabet and non-ASCII patterns are legal and never match
    assert!(!matches_pattern("ABCdef", "0", false));
    assert!(!matches_pattern("ABCdef", "é", true));
}

#[test]
fn block_source_matches_raw_chacha() {
    // the source must hand out exactly the ChaCha8 stream for its seed
    let mut src = BlockSource::new(seed_of(3));
    let mut raw = rand_chacha::ChaCha8Rng::from_seed(seed_of(3));
    for _ in 0..4 {
        let mut expected = [0u8; 32];
        raw.fill_bytes(&mut expected);
        assert_eq!(src.next_block(), expected);
    }
}

#[test]
fn block_source_is_deterministic_and_seed_sensitive() {
    let mut a = BlockSource::new(seed_of(7));
    let mut b = BlockSource::new(seed_of(7));
    let mut c = BlockSource::new(seed_of(8));
    let first_a = a.next_block();
    assert_eq!(first_a, b.next_block());
    assert_ne!(first_a, c.next_block());
    // a block is not the seed handed back unchanged
    assert_ne!(first_a, seed_of(7));
    // consecutive blocks differ
    assert_ne!(a.next_block(), first_a);
}

#[test]
fn reseed_changes_output() {
    let mut src = BlockSource::new(seed_of(0));
    src.reseed(seed_of(1));
    let after_first: [u8; 32] = src.next_block();
    src.reseed(seed_of(2));
    let after_second: [u8; 32] = src.next_block();
    assert_ne!(after_first, after_second);
    // the same holds over several draws of the two streams
    src.reseed(seed_of(1));
    let mut one: Vec<[u8; 32]> = Vec::new();
    for _ in 0..8 {
        one.push(src.next_block());
    }
    src.reseed(seed_of(2));
    for i in 0..8 {
        assert_ne!(one[i], src.next_block());
    }
}

#[test]
fn clamping_invariant_holds_for_every_candidate() {
    let mut src = BlockSource::new(seed_of(42));
    for _ in 0..100 {
        let cand = KeyCandidate::generate(src.next_block());
        assert_eq!(cand.clamped_scalar[0] & 7, 0);
        assert_eq!(cand.clamped_scalar[31] & 128, 0);
        assert_eq!(cand.clamped_scalar[31] & 64, 64);
    }
}

#[test]
fn candidate_public_key_differs_from_scalar() {
    let cand = KeyCandidate::generate(seed_of(5));
    assert_ne!(cand.public_key_bytes, cand.clamped_scalar);
    assert_ne!(cand.public_key_bytes, cand.raw_seed);
}

fn address_for_seed(seed: [u8; 32]) -> (String, String, [u8; 32]) {
    let mut w = VanityWorker::with_seed(String::new(), false, seed);
    match w.search_batch(1) {
        MatchResult::Found { pubkey, privkey, secret_key } => (pubkey, privkey, secret_key),
        MatchResult::NotFound { .. } => panic!("empty pattern must match at once"),
    }
}

#[test]
fn match_on_known_prefix_and_miss_on_foreign_one() {
    let seed = seed_of(11);
    let (addr, _, _) = address_for_seed(seed);
    let prefix: String = addr.chars().take(3).collect();

    let mut w = VanityWorker::with_seed(prefix.clone(), false, seed);
    match w.search_batch(1) {
        MatchResult::Found { pubkey, .. } => {
            assert!(pubkey.starts_with(&prefix));
            assert_eq!(pubkey, addr);
        }
        MatchResult::NotFound { .. } => panic!("known prefix must match"),
    }

    // '0' is outside the alphabet, so the same single-candidate batch misses
    let mut w = VanityWorker::with_seed("000".to_string(), false, seed);
    match w.search_batch(1) {
        MatchResult::Found { .. } => panic!("foreign pattern can never match"),
        MatchResult::NotFound { attempts } => assert_eq!(attempts, 1),
    }
}

#[test]
fn match_on_known_suffix() {
    let seed = seed_of(12);
    let (addr, _, _) = address_for_seed(seed);
    let suffix: String = {
        let n = addr.chars().count();
        addr.chars().skip(n - 3).collect()
    };
    let mut w = VanityWorker::with_seed(suffix.clone(), true, seed);
    match w.search_batch(1) {
        MatchResult::Found { pubkey, .. } => assert!(pubkey.ends_with(&suffix)),
        MatchResult::NotFound { .. } => panic!("known suffix must match"),
    }
}

#[test]
fn exhaustion_reports_exact_attempt_count() {
    let mut w = VanityWorker::with_seed("0".to_string(), false, seed_of(9));
    match w.search_batch(17) {
        MatchResult::Found { .. } => panic!("out-of-alphabet pattern can never match"),
        MatchResult::NotFound { attempts } => assert_eq!(attempts, 17),
    }
    match w.search(5) {
        MatchResult::Found { .. } => panic!("out-of-alphabet pattern can never match"),
        MatchResult::NotFound { attempts } => assert_eq!(attempts, 5),
    }
}

#[test]
fn found_keypair_encodes_seed_then_public_key() {
    let seed = seed_of(21);
    let (addr, privkey, secret_key) = address_for_seed(seed);

    // the secret is the raw block itself, and the candidate is reproducible
    let mut src = BlockSource::new(seed);
    let block = src.next_block();
    assert_eq!(secret_key, block);
    let cand = KeyCandidate::generate(block);
    assert_eq!(cand.raw_seed, secret_key);
    assert_eq!(addr, to_base58(&cand.public_key_bytes));

    // the private-key text encodes raw seed then public key, 64 bytes
    let mut buf = Vec::new();
    buf.extend_from_slice(&cand.raw_seed);
    buf.extend_from_slice(&cand.public_key_bytes);
    assert_eq!(buf.len(), 64);
    assert_eq!(&buf[..32], &secret_key);
    assert_eq!(&buf[32..], &cand.public_key_bytes);
    assert_eq!(privkey, to_base58(&buf));
}

#[test]
fn search_is_stateful_across_batches() {
    // consecutive batches scan consecutive blocks of one stream
    let seed = seed_of(33);
    let mut w = VanityWorker::with_seed(String::new(), false, seed);
    let mut src = BlockSource::new(seed);
    for _ in 0..3 {
        let expected = to_base58(&KeyCandidate::generate(src.next_block()).public_key_bytes);
        match w.search_batch(1) {
            MatchResult::Found { pubkey, .. } => assert_eq!(pubkey, expected),
            MatchResult::NotFound { .. } => panic!("empty pattern must match at once"),
        }
    }
}

#[test]
fn entropy_seeded_constructors_work() {
    let mut w = VanityWorker::new(String::new()).expect("host entropy");
    match w.search_batch(1) {
        MatchResult::Found { pubkey, privkey, .. } => {
            assert!(!pubkey.is_empty());
            assert!(!privkey.is_empty());
        }
        MatchResult::NotFound { .. } => panic!("empty pattern must match at once"),
    }
    w.reseed().expect("host entropy");
    let mut ws = VanityWorker::new_suffix("0".to_string()).expect("host entropy");
    match ws.search_batch(2) {
        MatchResult::Found { .. } => panic!("out-of-alphabet pattern can never match"),
        MatchResult::NotFound { attempts } => assert_eq!(attempts, 2),
    }
}

#[test]
fn reseeded_workers_diverge() {
    // two workers over different seeds almost surely see different addresses
    let (a, _, _) = address_for_seed(seed_of(1));
    let (b, _, _) = address_for_seed(seed_of(2));
    assert_ne!(a, b);
    // reseeding a worker restarts its stream
    let seed = seed_of(14);
    let mut w = VanityWorker::with_seed(String::new(), false, seed);
    let first = match w.search_batch(1) {
        MatchResult::Found { pubkey, .. } => pubkey,
        MatchResult::NotFound { .. } => panic!("empty pattern must match at once"),
    };
    w.reseed_with(seed);
    match w.search_batch(1) {
        MatchResult::Found { pubkey, .. } => assert_eq!(pubkey, first),
        MatchResult::NotFound { .. } => panic!("empty pattern must match at once"),
    }
}
