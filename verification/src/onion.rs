//! The identifier encoder: a 32-byte public key becomes a 56-character
//! lowercase base32 address with an embedded checksum and version byte.

use sha3::Digest;
use vstd::arithmetic::power2::pow2;
use vstd::prelude::*;

verus! {

/// What SHA3-256 returns on a byte sequence; fixed by the hash function alone.
pub uninterp spec fn sha3_256_of(data: Seq<u8>) -> Seq<u8>;

/// Relies on sha3::Sha3_256: a SHA3-256 digest is 32 bytes and depends on the
/// input bytes alone.
#[verifier::external_body]
fn sha3_256(data: &[u8]) -> (r: Vec<u8>)
    ensures
        r@ == sha3_256_of(data@),
        r@.len() == 32,
{
    let mut out = Vec::with_capacity(32);
    out.extend_from_slice(&sha3::Sha3_256::digest(data));
    out
}

/// The lowercase RFC 4648 base32 alphabet, as a map from a 5-bit value to an
/// ASCII byte: 0..=25 are 'a'..='z' and 26..=31 are '2'..='7'.
pub open spec fn base32_byte(v: nat) -> u8 {
    if v < 26 {
        ((97 + v) as u8)
    } else {
        ((24 + v) as u8)
    }
}

/// The lowercase alphabet entry for a 5-bit value, as a character.
pub open spec fn base32_char(v: nat) -> char {
    base32_byte(v) as char
}

/// The uppercase RFC 4648 base32 alphabet, as a map from a 5-bit value to an
/// ASCII byte: 0..=25 are 'A'..='Z' and 26..=31 are '2'..='7'.
pub open spec fn base32_byte_upper(v: nat) -> u8 {
    if v < 26 {
        ((65 + v) as u8)
    } else {
        ((24 + v) as u8)
    }
}

/// The uppercase alphabet entry for a 5-bit value, as a character.
pub open spec fn base32_char_upper(v: nat) -> char {
    base32_byte_upper(v) as char
}

/// Bit `j` of the big-endian bit stream formed by a byte sequence (most
/// significant bit of byte 0 first); bits past the end read as zero.
pub open spec fn stream_bit(b: Seq<u8>, j: nat) -> nat {
    if j < b.len() * 8 {
        ((b[(j / 8) as int] as nat) / pow2((7 - j % 8) as nat)) % 2
    } else {
        0
    }
}

/// The value of the `i`th 5-bit group of the bit stream of a byte sequence.
pub open spec fn group5(b: Seq<u8>, i: nat) -> nat {
    16 * stream_bit(b, 5 * i) + 8 * stream_bit(b, 5 * i + 1) + 4 * stream_bit(b, 5 * i + 2) + 2
        * stream_bit(b, 5 * i + 3) + stream_bit(b, 5 * i + 4)
}

/// Unpadded lowercase base32 of a byte sequence: one character for each
/// 5-bit group of its bit stream.
pub open spec fn base32_lower(b: Seq<u8>) -> Seq<char> {
    Seq::new((b.len() * 8 + 4) / 5, |i: int| base32_char(group5(b, i as nat)))
}

/// Unpadded uppercase base32 of a byte sequence, as the encoding crate
/// produces it.
pub open spec fn base32_upper(b: Seq<u8>) -> Seq<char> {
    Seq::new((b.len() * 8 + 4) / 5, |i: int| base32_char_upper(group5(b, i as nat)))
}

/// Relies on data_encoding::BASE32 (the RFC 4648 base32 encoding with
/// padding): on input whose length is a multiple of 5 bytes no padding is
/// emitted, and each output character is the uppercase alphabet entry of one
/// 5-bit group of the input bit stream.
#[verifier::external_body]
fn base32_encode(b: &[u8]) -> (r: String)
    requires
        b@.len() % 5 == 0,
    ensures
        r@ == base32_upper(b@),
{
    data_encoding::BASE32.encode(b)
}

/// Relies on String::from_utf8: bytes below 128 are valid UTF-8 and decode
/// to exactly one character each, with the same code.
#[verifier::external_body]
fn string_from_ascii(v: Vec<u8>) -> (r: String)
    requires
        forall|i: int| 0 <= i < v@.len() ==> v@[i] < 128,
    ensures
        r@.len() == v@.len(),
        forall|i: int| 0 <= i < v@.len() ==> r@[i] == (v@[i] as char),
{
    match String::from_utf8(v) {
        Ok(s) => s,
        Err(_) => String::new(),
    }
}

/// Folding one uppercase alphabet byte to lowercase lands on the lowercase
/// alphabet entry for the same 5-bit value, and stays in ASCII.
proof fn lemma_lower_fold(v: nat)
    requires
        v < 32,
    ensures
        ({
            let x = base32_char_upper(v) as u32;
            let y = if 65 <= x && x <= 90 {
                ((x + 32) as u8)
            } else {
                (x as u8)
            };
            y as char == base32_char(v) && y < 128
        }),
{
    if v < 26 {
        assert(base32_byte_upper(v) == 65 + v);
        assert(base32_byte(v) == 97 + v);
    } else {
        assert(base32_byte_upper(v) == 24 + v);
        assert(base32_byte(v) == 24 + v);
    }
}

/// Fold the uppercase base32 encoding of `b` to lowercase, character for
/// character.
fn base32_to_lower(upper: &String, Ghost(b): Ghost<Seq<u8>>) -> (r: String)
    requires
        upper@ == base32_upper(b),
    ensures
        r@ == base32_lower(b),
{
    let n = upper.as_str().unicode_len();
    let mut low: Vec<u8> = Vec::new();
    let mut j: usize = 0;
    while j < n
        invariant
            j <= n,
            n == upper@.len(),
            upper@ == base32_upper(b),
            low@.len() == j,
            forall|k: int| 0 <= k < j ==> (#[trigger] low@[k]) as char == base32_lower(b)[k],
            forall|k: int| 0 <= k < j ==> (#[trigger] low@[k]) < 128,
        decreases n - j,
    {
        let c = upper.as_str().get_char(j);
        proof {
            lemma_group5_bound(b, j as nat);
            lemma_lower_fold(group5(b, j as nat));
        }
        let x = c as u32;
        if 65 <= x && x <= 90 {
            low.push((x + 32) as u8);
        } else {
            low.push(x as u8);
        }
        j = j + 1;
    }
    let r = string_from_ascii(low);
    assert(r@ =~= base32_lower(b));
    r
}

/// The domain-separation string ".onion checksum" that is hashed ahead of
/// the public key and the version byte.
pub open spec fn checksum_tag() -> Seq<u8> {
    seq![46u8, 111u8, 110u8, 105u8, 111u8, 110u8, 32u8, 99u8, 104u8, 101u8, 99u8, 107u8, 115u8, 117u8, 109u8]
}

/// The address format's fixed version byte.
pub open spec fn version_byte() -> u8 {
    3u8
}

/// The message whose SHA3-256 digest yields the address checksum.
pub open spec fn onion_checksum_msg(pk: Seq<u8>) -> Seq<u8> {
    checksum_tag() + pk + seq![version_byte()]
}

/// The 35 bytes that the address encodes: the public key, the first two
/// checksum bytes, and the version byte.
pub open spec fn onion_payload(pk: Seq<u8>) -> Seq<u8> {
    let cks = sha3_256_of(onion_checksum_msg(pk));
    pk + seq![cks[0], cks[1], version_byte()]
}

/// The v3 onion address of a public key.
pub open spec fn spec_onion_address(pk: Seq<u8>) -> Seq<char> {
    base32_lower(onion_payload(pk))
}

/// A character the address alphabet can produce: 'a'..='z' or '2'..='7'.
pub open spec fn is_onion_char(c: char) -> bool {
    (97 <= c as int && c as int <= 122) || (50 <= c as int && c as int <= 55)
}

/// Every 5-bit group value is below 32.
proof fn lemma_group5_bound(b: Seq<u8>, i: nat)
    ensures
        group5(b, i) < 32,
{
    assert(stream_bit(b, 5 * i) < 2);
    assert(stream_bit(b, 5 * i + 1) < 2);
    assert(stream_bit(b, 5 * i + 2) < 2);
    assert(stream_bit(b, 5 * i + 3) < 2);
    assert(stream_bit(b, 5 * i + 4) < 2);
}

/// The alphabet maps every 5-bit value to an address character.
proof fn lemma_base32_char_onion(v: nat)
    requires
        v < 32,
    ensures
        is_onion_char(base32_char(v)),
{
    if v < 26 {
        assert(base32_byte(v) == 97 + v);
        assert((((97 + v) as u8) as char) as int == 97 + v);
    } else {
        assert(base32_byte(v) == 24 + v);
        assert((((24 + v) as u8) as char) as int == 24 + v);
    }
}

/// The address of any 32-byte public key is exactly 56 characters long and
/// uses only the characters 'a'..='z' and '2'..='7'.
pub proof fn lemma_onion_address_shape(pk: Seq<u8>)
    requires
        pk.len() == 32,
    ensures
        spec_onion_address(pk).len() == 56,
        forall|i: int|
            0 <= i < spec_onion_address(pk).len() ==> is_onion_char(
                #[trigger] spec_onion_address(pk)[i],
            ),
{
    let payload = onion_payload(pk);
    assert(payload.len() == 35);
    assert forall|i: int| 0 <= i < spec_onion_address(pk).len() implies is_onion_char(
        spec_onion_address(pk)[i],
    ) by {
        lemma_group5_bound(payload, i as nat);
        lemma_base32_char_onion(group5(payload, i as nat));
    }
}

/// The encoder is pure and deterministic: the address is a function of the
/// public key alone, so two encodings of the same key are equal.
pub proof fn lemma_encode_deterministic(pk: Seq<u8>, a: Seq<char>, b: Seq<char>)
    requires
        a == spec_onion_address(pk),
        b == spec_onion_address(pk),
    ensures
        a == b,
{
}

/// The first character of `s` that the address alphabet cannot produce, if
/// any. A prefix holding one can never match and is rejected before a search
/// starts.
pub fn find_invalid_char(s: &str) -> (r: Option<char>)
    ensures
        r is None <==> (forall|i: int| 0 <= i < s@.len() ==> is_onion_char(#[trigger] s@[i])),
        r matches Some(c) ==> exists|i: int|
            0 <= i < s@.len() && s@[i] == c && !is_onion_char(c) && (forall|j: int|
                0 <= j < i ==> is_onion_char(#[trigger] s@[j])),
{
    let n = s.unicode_len();
    let mut i: usize = 0;
    while i < n
        invariant
            i <= n,
            n == s@.len(),
            forall|j: int| 0 <= j < i ==> is_onion_char(#[trigger] s@[j]),
        decreases n - i,
    {
        let c = s.get_char(i);
        let v = c as u32;
        if !((97 <= v && v <= 122) || (50 <= v && v <= 55)) {
            return Some(c);
        }
        i = i + 1;
    }
    None
}

/// Append the domain-separation string to a byte buffer.
fn push_checksum_tag(out: &mut Vec<u8>)
    ensures
        final(out)@ == old(out)@ + checksum_tag(),
{
    out.push(46);
    out.push(111);
    out.push(110);
    out.push(105);
    out.push(111);
    out.push(110);
    out.push(32);
    out.push(99);
    out.push(104);
    out.push(101);
    out.push(99);
    out.push(107);
    out.push(115);
    out.push(117);
    out.push(109);
    assert(out@ =~= old(out)@ + checksum_tag());
}

/// Encode an ed25519 public key into a v3 onion address: 56 lowercase base32
/// characters over the public key, two checksum bytes, and the version byte.
pub fn encode_public_key(pubkey: &[u8; 32]) -> (r: String)
    ensures
        r@ == spec_onion_address(pubkey@),
        r@.len() == 56,
        forall|i: int| 0 <= i < r@.len() ==> is_onion_char(#[trigger] r@[i]),
{
    let mut msg: Vec<u8> = Vec::new();
    push_checksum_tag(&mut msg);
    assert(msg@ =~= checksum_tag() + pubkey@.take(0));
    let mut i: usize = 0;
    while i < 32
        invariant
            i <= 32,
            msg@ == checksum_tag() + pubkey@.take(i as int),
        decreases 32 - i,
    {
        msg.push(pubkey[i]);
        assert(msg@ =~= checksum_tag() + pubkey@.take(i + 1));
        i = i + 1;
    }
    msg.push(3);
    assert(msg@ =~= onion_checksum_msg(pubkey@));
    let checksum = sha3_256(msg.as_slice());

    let mut payload: Vec<u8> = Vec::new();
    assert(payload@ =~= pubkey@.take(0));
    let mut j: usize = 0;
    while j < 32
        invariant
            j <= 32,
            payload@ == pubkey@.take(j as int),
        decreases 32 - j,
    {
        payload.push(pubkey[j]);
        assert(payload@ =~= pubkey@.take(j + 1));
        j = j + 1;
    }
    payload.push(checksum[0]);
    payload.push(checksum[1]);
    payload.push(3);
    assert(payload@ =~= onion_payload(pubkey@));

    let upper = base32_encode(payload.as_slice());
    let r = base32_to_lower(&upper, Ghost(onion_payload(pubkey@)));
    proof {
        lemma_onion_address_shape(pubkey@);
    }
    r
}

} // verus!
