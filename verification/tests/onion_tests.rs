use onion_gen::onion::{encode_public_key, find_invalid_char};
use sha3::Digest;

#[test]
fn test_encode_produces_56_chars() {
    let pubkey = [0u8; 32];
    let addr = encode_public_key(&pubkey);
    assert_eq!(addr.len(), 56);
}

#[test]
fn test_encode_is_lowercase_base32() {
    let pubkey = [0xAB; 32];
    let addr = encode_public_key(&pubkey);
    assert!(addr.chars().all(|c| matches!(c, 'a'..='z' | '2'..='7')));
}

#[test]
fn test_encode_deterministic() {
    let pubkey = [42u8; 32];
    let a = encode_public_key(&pubkey);
    let b = encode_public_key(&pubkey);
    assert_eq!(a, b);
}

/// The encoding equals checksum-then-base32 built directly from the hash and
/// encoding crates, so neither wrapper can have handed its input through
/// unchanged.
#[test]
fn test_encode_matches_direct_construction() {
    let pubkey = [7u8; 32];
    let mut hasher = sha3::Sha3_256::new();
    hasher.update(b".onion checksum");
    hasher.update(pubkey);
    hasher.update([0x03]);
    let checksum = hasher.finalize();

    let mut payload = Vec::with_capacity(35);
    payload.extend_from_slice(&pubkey);
    payload.push(checksum[0]);
    payload.push(checksum[1]);
    payload.push(0x03);
    let expected = data_encoding::BASE32.encode(&payload).to_lowercase();

    assert_eq!(encode_public_key(&pubkey), expected);
}

/// Two different keys give two different addresses (the key bytes are the
/// first 51 characters' worth of payload, so they cannot collide).
#[test]
fn test_encode_differs_on_different_keys() {
    let a = encode_public_key(&[1u8; 32]);
    let b = encode_public_key(&[2u8; 32]);
    assert_ne!(a, b);
}

#[test]
fn test_find_invalid_char_accepts_alphabet() {
    assert_eq!(find_invalid_char("abcxyz234567"), None);
    assert_eq!(find_invalid_char(""), None);
}

#[test]
fn test_find_invalid_char_reports_first_offender() {
    assert_eq!(find_invalid_char("ab1"), Some('1'));
    assert_eq!(find_invalid_char("abZ9"), Some('Z'));
    assert_eq!(find_invalid_char("018"), Some('0'));
}
