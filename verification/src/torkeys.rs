//! The secret-material exporter: pure transforms from a matched keypair to
//! the byte-exact contents of the key files written on disk.

use sha2::Digest;
use vstd::prelude::*;
use vstd::string::StringExecFns;

verus! {

/// What SHA-512 returns on a byte sequence; fixed by the hash function alone.
pub uninterp spec fn sha512_of(data: Seq<u8>) -> Seq<u8>;

/// Relies on sha2::Sha512: a SHA-512 digest is 64 bytes and depends on the
/// input bytes alone.
#[verifier::external_body]
fn sha512(data: &[u8]) -> (r: Vec<u8>)
    ensures
        r@ == sha512_of(data@),
        r@.len() == 64,
{
    let mut out = Vec::with_capacity(64);
    out.extend_from_slice(&sha2::Sha512::digest(data));
    out
}

/// The ed25519 clamping rule on a 64-byte expanded key: clear the low 3 bits
/// of byte 0, clear the high bit and set bit 6 of byte 31.
pub open spec fn clamped(h: Seq<u8>) -> Seq<u8> {
    h.update(0, h[0] & 248).update(31, (h[31] & 63) | 64)
}

/// The network-native expanded secret key: SHA-512 of the seed, clamped.
pub open spec fn expanded_secret_of(seed: Seq<u8>) -> Seq<u8> {
    clamped(sha512_of(seed))
}

/// Derive the 64-byte expanded, clamped secret key from a 32-byte seed.
pub fn expanded_secret_key(seed: &[u8; 32]) -> (r: Vec<u8>)
    ensures
        r@ == expanded_secret_of(seed@),
        r@.len() == 64,
{
    let mut h = sha512(seed.as_slice());
    let b0 = h[0];
    h.set(0, b0 & 248);
    let b31 = h[31];
    h.set(31, (b31 & 63) | 64);
    assert(h@ =~= expanded_secret_of(seed@));
    h
}

/// The 29 ASCII bytes "== ed25519v1-secret: type0 ==" that open the native
/// secret-key file.
pub open spec fn secret_header() -> Seq<u8> {
    seq![
        61u8, 61u8, 32u8, 101u8, 100u8, 50u8, 53u8, 53u8, 49u8, 57u8, 118u8, 49u8, 45u8, 115u8,
        101u8, 99u8, 114u8, 101u8, 116u8, 58u8, 32u8, 116u8, 121u8, 112u8, 101u8, 48u8, 32u8,
        61u8, 61u8,
    ]
}

/// The 29 ASCII bytes "== ed25519v1-public: type0 ==" that open the native
/// public-key file.
pub open spec fn public_header() -> Seq<u8> {
    seq![
        61u8, 61u8, 32u8, 101u8, 100u8, 50u8, 53u8, 53u8, 49u8, 57u8, 118u8, 49u8, 45u8, 112u8,
        117u8, 98u8, 108u8, 105u8, 99u8, 58u8, 32u8, 116u8, 121u8, 112u8, 101u8, 48u8, 32u8,
        61u8, 61u8,
    ]
}

/// Append the secret-file header, padded to 32 bytes with zero bytes.
fn push_secret_header(out: &mut Vec<u8>)
    ensures
        final(out)@ == old(out)@ + secret_header() + seq![0u8, 0u8, 0u8],
{
    out.push(61);
    out.push(61);
    out.push(32);
    out.push(101);
    out.push(100);
    out.push(50);
    out.push(53);
    out.push(53);
    out.push(49);
    out.push(57);
    out.push(118);
    out.push(49);
    out.push(45);
    out.push(115);
    out.push(101);
    out.push(99);
    out.push(114);
    out.push(101);
    out.push(116);
    out.push(58);
    out.push(32);
    out.push(116);
    out.push(121);
    out.push(112);
    out.push(101);
    out.push(48);
    out.push(32);
    out.push(61);
    out.push(61);
    out.push(0);
    out.push(0);
    out.push(0);
    assert(out@ =~= old(out)@ + secret_header() + seq![0u8, 0u8, 0u8]);
}

/// Append the public-file header, padded to 32 bytes with zero bytes.
fn push_public_header(out: &mut Vec<u8>)
    ensures
        final(out)@ == old(out)@ + public_header() + seq![0u8, 0u8, 0u8],
{
    out.push(61);
    out.push(61);
    out.push(32);
    out.push(101);
    out.push(100);
    out.push(50);
    out.push(53);
    out.push(53);
    out.push(49);
    out.push(57);
    out.push(118);
    out.push(49);
    out.push(45);
    out.push(112);
    out.push(117);
    out.push(98);
    out.push(108);
    out.push(105);
    out.push(99);
    out.push(58);
    out.push(32);
    out.push(116);
    out.push(121);
    out.push(112);
    out.push(101);
    out.push(48);
    out.push(32);
    out.push(61);
    out.push(61);
    out.push(0);
    out.push(0);
    out.push(0);
    assert(out@ =~= old(out)@ + public_header() + seq![0u8, 0u8, 0u8]);
}

/// Append all 32 bytes of an array to a byte buffer.
fn push_array32(out: &mut Vec<u8>, src: &[u8; 32])
    ensures
        final(out)@ == old(out)@ + src@,
{
    let mut i: usize = 0;
    while i < 32
        invariant
            i <= 32,
            out@ == old(out)@ + src@.take(i as int),
        decreases 32 - i,
    {
        out.push(src[i]);
        assert(out@ =~= old(out)@ + src@.take(i + 1));
        i = i + 1;
    }
    assert(out@ =~= old(out)@ + src@);
}

/// The contents of the native secret-key file: the padded secret header
/// followed by the 64-byte expanded, clamped secret key — 96 bytes in all.
pub open spec fn secret_key_file_of(seed: Seq<u8>) -> Seq<u8> {
    secret_header() + seq![0u8, 0u8, 0u8] + expanded_secret_of(seed)
}

/// Build the native secret-key file for a seed: its first 29 bytes are the
/// secret header, bytes 29 to 31 are zero, and the remaining 64 bytes are
/// the expanded, clamped secret key.
pub fn secret_key_file(seed: &[u8; 32]) -> (r: Vec<u8>)
    ensures
        r@ == secret_key_file_of(seed@),
        r@.len() == 96,
        r@.take(29) == secret_header(),
        r@[29] == 0 && r@[30] == 0 && r@[31] == 0,
{
    let mut out: Vec<u8> = Vec::new();
    push_secret_header(&mut out);
    let expanded = expanded_secret_key(seed);
    let mut i: usize = 0;
    while i < expanded.len()
        invariant
            i <= expanded@.len(),
            expanded@ == expanded_secret_of(seed@),
            expanded@.len() == 64,
            out@ == secret_header() + seq![0u8, 0u8, 0u8] + expanded@.take(i as int),
        decreases expanded@.len() - i,
    {
        out.push(expanded[i]);
        assert(out@ =~= secret_header() + seq![0u8, 0u8, 0u8] + expanded@.take(i + 1));
        i = i + 1;
    }
    assert(out@ =~= secret_key_file_of(seed@));
    assert(out@.take(29) =~= secret_header());
    out
}

/// The contents of the native public-key file: the padded public header
/// followed by the 32-byte public key — 64 bytes in all.
pub open spec fn public_key_file_of(pk: Seq<u8>) -> Seq<u8> {
    public_header() + seq![0u8, 0u8, 0u8] + pk
}

/// Build the native public-key file for a public key: its first 29 bytes are
/// the public header, bytes 29 to 31 are zero, and the remaining 32 bytes
/// are the public key itself.
pub fn public_key_file(public_key: &[u8; 32]) -> (r: Vec<u8>)
    ensures
        r@ == public_key_file_of(public_key@),
        r@.len() == 64,
        r@.take(29) == public_header(),
        r@[29] == 0 && r@[30] == 0 && r@[31] == 0,
{
    let mut out: Vec<u8> = Vec::new();
    push_public_header(&mut out);
    push_array32(&mut out, public_key);
    assert(out@ =~= public_key_file_of(public_key@));
    assert(out@.take(29) =~= public_header());
    out
}

/// The raw private-key file: the 64 bytes seed followed by public key.
pub fn private_key_bytes(seed: &[u8; 32], public_key: &[u8; 32]) -> (r: Vec<u8>)
    ensures
        r@ == seed@ + public_key@,
        r@.len() == 64,
{
    let mut out: Vec<u8> = Vec::new();
    push_array32(&mut out, seed);
    push_array32(&mut out, public_key);
    assert(out@ =~= seed@ + public_key@);
    out
}

/// The text of the hostname file: the address, the ".onion" suffix, and a
/// trailing newline.
pub open spec fn hostname_text(addr: Seq<char>) -> Seq<char> {
    addr + seq!['.', 'o', 'n', 'i', 'o', 'n', '\n']
}

/// Build the hostname file's text for an address.
pub fn hostname_contents(addr: &str) -> (r: String)
    ensures
        r@ == hostname_text(addr@),
{
    let mut r = addr.to_owned();
    r.append(".onion\n");
    proof {
        reveal_strlit(".onion\n");
    }
    assert(r@ =~= hostname_text(addr@));
    r
}

} // verus!
