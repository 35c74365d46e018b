use onion_gen::torkeys::{
    expanded_secret_key, hostname_contents, private_key_bytes, public_key_file, secret_key_file,
};
use sha2::Digest;

/// The expanded key equals SHA-512 of the seed with the clamping rule
/// applied, built directly from the hash crate, so the wrapper cannot have
/// handed its input through unchanged.
#[test]
fn test_expanded_secret_key_matches_direct_construction() {
    let seed = [5u8; 32];
    let mut expected: [u8; 64] = sha2::Sha512::digest(seed).into();
    expected[0] &= 248;
    expected[31] &= 63;
    expected[31] |= 64;
    assert_eq!(expanded_secret_key(&seed), expected.to_vec());
}

#[test]
fn test_secret_key_file_layout() {
    let seed = [9u8; 32];
    let file = secret_key_file(&seed);
    assert_eq!(file.len(), 96);
    assert_eq!(&file[..29], b"== ed25519v1-secret: type0 ==");
    assert_eq!(&file[29..32], &[0u8, 0u8, 0u8]);
    assert_eq!(&file[32..], expanded_secret_key(&seed).as_slice());
}

#[test]
fn test_public_key_file_layout() {
    let pk = [0xCDu8; 32];
    let file = public_key_file(&pk);
    assert_eq!(file.len(), 64);
    assert_eq!(&file[..29], b"== ed25519v1-public: type0 ==");
    assert_eq!(&file[29..32], &[0u8, 0u8, 0u8]);
    assert_eq!(&file[32..], &pk);
}

#[test]
fn test_private_key_bytes_is_seed_then_public() {
    let seed = [1u8; 32];
    let pk = [2u8; 32];
    let raw = private_key_bytes(&seed, &pk);
    assert_eq!(raw.len(), 64);
    assert_eq!(&raw[..32], &seed);
    assert_eq!(&raw[32..], &pk);
}

#[test]
fn test_hostname_contents_appends_suffix() {
    let text = hostname_contents("abcdefghijklmnopqrstuvwxyz234567abcdefghijklmnopqrstuvwx");
    assert_eq!(
        text,
        "abcdefghijklmnopqrstuvwxyz234567abcdefghijklmnopqrstuvwx.onion\n"
    );
    assert!(text.starts_with("abc"));
}

/// Exporter round trip: the exported expanded secret, fed to the signature
/// scheme's own expanded-key type, derives the same public key that the seed
/// determines, so the exported material signs under the original key.
#[test]
fn test_expanded_secret_round_trips_to_same_public_key() {
    let seed = [3u8; 32];
    let expanded = expanded_secret_key(&seed);
    let mut exp64 = [0u8; 64];
    exp64.copy_from_slice(&expanded);
    let esk = ed25519_dalek::hazmat::ExpandedSecretKey::from_bytes(&exp64);
    let derived = ed25519_dalek::VerifyingKey::from(&esk).to_bytes();
    let expected = ed25519_dalek::SigningKey::from_bytes(&seed)
        .verifying_key()
        .to_bytes();
    assert_eq!(derived, expected);
}
