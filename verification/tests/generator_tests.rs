use onion_gen::generator::{generate_keypair, worker, AttemptTally, Matcher};
use onion_gen::onion::encode_public_key;
use std::sync::atomic::{AtomicBool, AtomicU64, Ordering};
use std::sync::Arc;

#[test]
fn test_prefix_matcher_case_folds_and_matches() {
    let m = Matcher::prefixes(&vec!["ABC".to_string(), "zz".to_string()]);
    assert!(m.is_match("abcdefghijklmnopqrstuvwxyz234567abcdefghijklmnopqrstuvwx"));
    assert!(m.is_match("zzzz"));
    assert!(!m.is_match("xabc"));
    assert!(!m.is_match("azz"));
}

#[test]
fn test_prefix_matcher_empty_prefix_matches_everything() {
    let m = Matcher::prefixes(&vec![String::new()]);
    assert!(m.is_match("anything"));
    assert!(m.is_match(""));
}

#[test]
fn test_regex_matcher_matches_anywhere() {
    let m = match Matcher::regexes(&vec!["^abc".to_string(), "zzz".to_string()]) {
        Ok(m) => m,
        Err(_) => panic!("patterns should compile"),
    };
    assert!(m.is_match("abcq"));
    assert!(m.is_match("qzzzq"));
    assert!(!m.is_match("qabc"));
}

#[test]
fn test_regex_matcher_rejects_invalid_pattern() {
    let err = match Matcher::regexes(&vec!["abc".to_string(), "(".to_string()]) {
        Ok(_) => panic!("'(' should not compile"),
        Err(e) => e,
    };
    assert_eq!(err.pattern, "(");
    assert!(!err.message.is_empty());
}

#[test]
fn test_matcher_duplicate_accepts_the_same_addresses() {
    let m = Matcher::prefixes(&vec!["abc".to_string()]);
    let d = m.duplicate();
    assert!(d.is_match("abcx"));
    assert!(!d.is_match("xabc"));

    let r = match Matcher::regexes(&vec!["a+b".to_string()]) {
        Ok(m) => m,
        Err(_) => panic!("pattern should compile"),
    };
    let rd = r.duplicate();
    assert!(rd.is_match("qqaab"));
    assert!(!rd.is_match("b"));
}

/// Attempt accounting across the 8192-candidate batch boundary: the sum of
/// everything handed out for the shared counter equals exactly the number of
/// candidates recorded.
#[test]
fn test_tally_flushes_sum_to_generated() {
    let mut tally = AttemptTally::new();
    let k: u64 = 10000;
    let mut total_flushed: u64 = 0;
    for _ in 0..k {
        total_flushed += tally.record();
    }
    assert_eq!(total_flushed, 8192);
    total_flushed += tally.flush_remainder();
    assert_eq!(total_flushed, k);
}

/// The same accounting when a flush lands exactly on the batch boundary.
#[test]
fn test_tally_exact_batch_boundary() {
    let mut tally = AttemptTally::new();
    let mut total_flushed: u64 = 0;
    for _ in 0..8192u64 {
        total_flushed += tally.record();
    }
    total_flushed += tally.flush_remainder();
    assert_eq!(total_flushed, 8192);
}

#[test]
fn test_tally_stop_check_cadence() {
    let mut tally = AttemptTally::new();
    assert!(tally.at_stop_check());
    for _ in 0..4096u64 {
        tally.record();
    }
    assert!(tally.at_stop_check());
    tally.record();
    assert!(!tally.at_stop_check());
}

/// A worker that observes the stop flag on its first cadence check exits
/// without generating anything.
#[test]
fn test_worker_observes_stop_flag() {
    let (tx, rx) = crossbeam_channel::unbounded();
    let stop = Arc::new(AtomicBool::new(true));
    let attempts = Arc::new(AtomicU64::new(0));
    let matcher = Matcher::prefixes(&vec!["a".to_string()]);
    worker(tx, Arc::clone(&stop), Arc::clone(&attempts), &matcher);
    assert_eq!(attempts.load(Ordering::Relaxed), 0);
    assert!(rx.try_recv().is_err());
}

/// With a prefix that matches every address and a closed channel, the worker
/// generates exactly one candidate, flushes exactly one attempt, and exits.
#[test]
fn test_worker_exits_on_closed_channel_and_accounts_one_attempt() {
    let (tx, rx) = crossbeam_channel::unbounded();
    drop(rx);
    let stop = Arc::new(AtomicBool::new(false));
    let attempts = Arc::new(AtomicU64::new(0));
    let matcher = Matcher::prefixes(&vec![String::new()]);
    worker(tx, Arc::clone(&stop), Arc::clone(&attempts), &matcher);
    assert_eq!(attempts.load(Ordering::Relaxed), 1);
}

/// A generated keypair's public half is exactly what the signature scheme
/// derives from its seed.
#[test]
fn test_generated_keypair_is_consistent() {
    let mut rng = rand::thread_rng();
    let kp = generate_keypair(&mut rng);
    let expected = ed25519_dalek::SigningKey::from_bytes(&kp.seed)
        .verifying_key()
        .to_bytes();
    assert_eq!(kp.public_key, expected);
}

/// A single-threaded stand-in for the threaded search with one target match:
/// generating candidates until one matches a one-character prefix
/// terminates quickly, and the hostname text for the match starts with that
/// prefix.
#[test]
fn test_search_finds_prefix_match() {
    let matcher = Matcher::prefixes(&vec!["a".to_string()]);
    let mut rng = rand::thread_rng();
    loop {
        let kp = generate_keypair(&mut rng);
        let addr = encode_public_key(&kp.public_key);
        if matcher.is_match(&addr) {
            let host = onion_gen::torkeys::hostname_contents(&addr);
            assert!(host.starts_with('a'));
            assert!(host.ends_with(".onion\n"));
            break;
        }
    }
}

/// The all-zero seed determines one public key, and encoding it twice gives
/// the same 56-character address.
#[test]
fn test_zero_seed_deterministic_address() {
    let seed = [0u8; 32];
    let pk1 = ed25519_dalek::SigningKey::from_bytes(&seed).verifying_key().to_bytes();
    let pk2 = ed25519_dalek::SigningKey::from_bytes(&seed).verifying_key().to_bytes();
    assert_eq!(pk1, pk2);
    let a = encode_public_key(&pk1);
    let b = encode_public_key(&pk1);
    assert_eq!(a, b);
    assert_eq!(a.len(), 56);
}
