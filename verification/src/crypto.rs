//! Hashes, signatures, keys and identifiers: what other crates compute for the proxy.
use vstd::arithmetic::power::pow;
use vstd::prelude::*;
use vstd::string::*;
use vstd::utf8::*;

use crate::codec::{be, be_value};

verus! {

broadcast use vstd::seq::group_seq_axioms;

// ---------------------------------------------------------------------------
// Hexadecimal text
// ---------------------------------------------------------------------------

/// The lower-case hexadecimal digit of a number below sixteen.
pub open spec fn hex_digit(n: nat) -> char {
    if n < 10 {
        ((48 + n) as u32) as char
    } else {
        ((87 + n) as u32) as char
    }
}

/// Two digits for each byte.
pub open spec fn hex_text(b: Seq<u8>) -> Seq<char> {
    Seq::new(
        2 * b.len(),
        |i: int|
            if i % 2 == 0 {
                hex_digit((b[i / 2] / 16) as nat)
            } else {
                hex_digit((b[i / 2] % 16) as nat)
            },
    )
}

/// The value of a hexadecimal digit in either case.
pub open spec fn hex_value(c: char) -> Option<nat> {
    let u = c as nat;
    if '0' <= c && c <= '9' {
        Some((u - 48) as nat)
    } else if 'a' <= c && c <= 'f' {
        Some((u - 87) as nat)
    } else if 'A' <= c && c <= 'F' {
        Some((u - 55) as nat)
    } else {
        None
    }
}

pub open spec fn all_hex(s: Seq<char>) -> bool {
    forall|i: int| 0 <= i < s.len() ==> hex_value(#[trigger] s[i]) is Some
}

/// The bytes that hexadecimal text stands for: digits only, and an even number of them.
pub open spec fn hex_bytes(s: Seq<char>) -> Option<Seq<u8>> {
    if s.len() % 2 == 0 && all_hex(s) {
        Some(
            Seq::new(
                s.len() / 2,
                |i: int|
                    (hex_value(s[2 * i])->Some_0 * 16 + hex_value(s[2 * i + 1])->Some_0) as u8,
            ),
        )
    } else {
        None
    }
}

/// Hexadecimal text of bytes reads back as those bytes.
pub proof fn law_hex_round_trip(b: Seq<u8>)
    ensures
        hex_bytes(hex_text(b)) == Some(b),
{
    let t = hex_text(b);
    assert forall|i: int| 0 <= i < t.len() implies hex_value(#[trigger] t[i]) is Some by {
        if i % 2 == 0 {
            lemma_digit_value((b[i / 2] / 16) as nat);
        } else {
            lemma_digit_value((b[i / 2] % 16) as nat);
        }
    }
    let r = hex_bytes(t)->Some_0;
    assert forall|i: int| 0 <= i < b.len() implies r[i] == b[i] by {
        lemma_digit_value((b[i] / 16) as nat);
        lemma_digit_value((b[i] % 16) as nat);
        assert(2 * i / 2 == i);
        assert((2 * i + 1) / 2 == i);
        assert(t[2 * i] == hex_digit((b[i] / 16) as nat));
        assert(t[2 * i + 1] == hex_digit((b[i] % 16) as nat));
    }
    assert(r == b);
}

proof fn lemma_digit_value(n: nat)
    requires
        n < 16,
    ensures
        hex_value(hex_digit(n)) == Some(n),
{
}

/// Hexadecimal text is ASCII: as many bytes as characters.
pub proof fn lemma_hex_is_ascii(s: Seq<char>)
    requires
        all_hex(s),
    ensures
        encode_utf8(s).len() == s.len(),
{
    assert(is_ascii_chars(s)) by {
        assert forall|i: int| 0 <= i < s.len() implies '\0' <= #[trigger] s[i] <= '\u{7f}' by {
            assert(hex_value(s[i]) is Some);
        }
    }
    is_ascii_chars_encode_utf8(s);
}

/// `hex::encode`: two lower-case digits for each byte, the high half first.
#[verifier::external_body]
pub(crate) fn hex_encode(data: &[u8]) -> (r: String)
    requires
        data@.len() <= usize::MAX / 2,
    ensures
        r@ == hex_text(data@),
{
    hex::encode(data)
}

/// `hex::decode`: fails on an odd number of digits and on anything that is no digit; digits
/// count in either case.
#[verifier::external_body]
pub(crate) fn hex_decode(s: &str) -> (r: Option<Vec<u8>>)
    ensures
        r is Some <==> hex_bytes(s@) is Some,
        r matches Some(v) ==> hex_bytes(s@) == Some(v@),
{
    hex::decode(s).ok()
}

// ---------------------------------------------------------------------------
// Hashes
// ---------------------------------------------------------------------------

/// SHA-256 of some bytes.
pub uninterp spec fn sha256_of(data: Seq<u8>) -> Seq<u8>;

/// `sha2::Sha256::digest`: thirty-two bytes that depend on the data alone.
#[verifier::external_body]
pub(crate) fn sha256(data: &[u8]) -> (r: Vec<u8>)
    ensures
        r@ == sha256_of(data@),
        r@.len() == 32,
{
    sha2::Digest::finalize(<sha2::Sha256 as sha2::Digest>::new_with_prefix(data)).to_vec()
}

/// SHA-1 of some bytes.
pub uninterp spec fn sha1_of(data: Seq<u8>) -> Seq<u8>;

/// `sha1::Sha1`: twenty bytes that depend on the data alone.
#[verifier::external_body]
pub(crate) fn sha1_digest(data: &[u8]) -> (r: Vec<u8>)
    ensures
        r@ == sha1_of(data@),
        r@.len() == 20,
{
    sha1::Digest::finalize(<sha1::Sha1 as sha1::Digest>::new_with_prefix(data)).to_vec()
}

/// HMAC-SHA256 of some bytes under a key.
pub uninterp spec fn hmac_sha256_of(key: Seq<u8>, data: Seq<u8>) -> Seq<u8>;

/// `hmac::Hmac<Sha256>`: thirty-two bytes that depend on key and data alone. A key of any
/// length is taken, so there is always a result.
#[verifier::external_body]
pub(crate) fn hmac_sha256(key: &[u8], data: &[u8]) -> (r: Result<Vec<u8>, String>)
    ensures
        r is Ok,
        r matches Ok(mac) ==> mac@ == hmac_sha256_of(key@, data@) && mac@.len() == 32,
{
    match <hmac::Hmac<sha2::Sha256> as hmac::KeyInit>::new_from_slice(key) {
        Ok(mac) => Ok(
            hmac::Mac::finalize(hmac::Mac::chain_update(mac, data)).into_bytes().to_vec(),
        ),
        Err(e) => Err(e.to_string()),
    }
}

/// The number that bytes stand for in two's complement, the highest byte first.
pub open spec fn twos_complement(b: Seq<u8>) -> int {
    if b.len() > 0 && b[0] >= 128 {
        be_value(b) - pow(256, b.len())
    } else {
        be_value(b) as int
    }
}

/// Lower-case hexadecimal notation without leading zeros.
pub open spec fn hex_number(n: nat) -> Seq<char>
    decreases n,
{
    if n < 16 {
        seq![hex_digit(n)]
    } else {
        hex_number(n / 16).push(hex_digit(n % 16))
    }
}

/// Hexadecimal notation with a minus sign below zero.
pub open spec fn signed_hex_text(n: int) -> Seq<char> {
    if n < 0 {
        seq!['-'] + hex_number((-n) as nat)
    } else {
        hex_number(n as nat)
    }
}

/// `num_bigint::BigInt::from_signed_bytes_be`, written by `to_str_radix(16)`: two's complement,
/// lower-case digits, a minus sign before a negative number and no leading zeros.
#[verifier::external_body]
pub(crate) fn signed_hex(data: &[u8]) -> (r: String)
    ensures
        r@ == signed_hex_text(twos_complement(data@)),
{
    num_bigint::BigInt::from_signed_bytes_be(data).to_str_radix(16)
}

// ---------------------------------------------------------------------------
// Ed25519
// ---------------------------------------------------------------------------

/// The Ed25519 public key of a seed.
pub uninterp spec fn ed25519_public_of(seed: Seq<u8>) -> Seq<u8>;

/// `ed25519_dalek::SigningKey::verifying_key`: thirty-two bytes that depend on the seed alone.
#[verifier::external_body]
pub(crate) fn ed25519_public(seed: &Vec<u8>) -> (r: Vec<u8>)
    requires
        seed@.len() == 32,
    ensures
        r@ == ed25519_public_of(seed@),
        r@.len() == 32,
{
    let mut key = [0u8; 32];
    key.copy_from_slice(seed);
    ed25519_dalek::SigningKey::from_bytes(&key).verifying_key().to_bytes().to_vec()
}

/// The Ed25519 signature of a message under a seed.
pub uninterp spec fn ed25519_signature_of(seed: Seq<u8>, message: Seq<u8>) -> Seq<u8>;

/// Whether a signature of a message is accepted under a public key.
pub uninterp spec fn ed25519_accepted(public: Seq<u8>, message: Seq<u8>, signature: Seq<u8>) -> bool;

/// `ed25519_dalek::VerifyingKey::verify`: depends on key, message and signature alone. Bytes that
/// are no point of the curve are no key, and accept nothing.
#[verifier::external_body]
pub(crate) fn ed25519_verify(public: &Vec<u8>, message: &Vec<u8>, signature: &Vec<u8>) -> (r: bool)
    requires
        public@.len() == 32,
        signature@.len() == 64,
    ensures
        r == ed25519_accepted(public@, message@, signature@),
{
    let mut key = [0u8; 32];
    key.copy_from_slice(public);
    let mut bytes = [0u8; 64];
    bytes.copy_from_slice(signature);
    match ed25519_dalek::VerifyingKey::from_bytes(&key) {
        Ok(k) => ed25519_dalek::Verifier::verify(
            &k,
            message,
            &ed25519_dalek::Signature::from_bytes(&bytes),
        ).is_ok(),
        Err(_) => false,
    }
}

/// `ed25519_dalek::SigningKey::sign`: sixty-four bytes that depend on seed and message alone.
/// `ed25519_dalek::VerifyingKey::verify` accepts them for that message under the seed's public
/// key.
#[verifier::external_body]
pub(crate) fn ed25519_sign(seed: &Vec<u8>, message: &[u8]) -> (r: Vec<u8>)
    requires
        seed@.len() == 32,
    ensures
        r@ == ed25519_signature_of(seed@, message@),
        r@.len() == 64,
        ed25519_accepted(ed25519_public_of(seed@), message@, r@),
{
    let mut key = [0u8; 32];
    key.copy_from_slice(seed);
    let signing = ed25519_dalek::SigningKey::from_bytes(&key);
    ed25519_dalek::Signer::sign(&signing, message).to_bytes().to_vec()
}

// ---------------------------------------------------------------------------
// UUID
// ---------------------------------------------------------------------------

/// Thirty-two digits.
pub open spec fn uuid_simple_text(id: u128) -> Seq<char> {
    hex_text(be(id as nat, 16))
}

/// Groups of eight, four, four, four and twelve digits with hyphens between them.
pub open spec fn uuid_text(id: u128) -> Seq<char> {
    let h = uuid_simple_text(id);
    h.subrange(0, 8) + seq!['-'] + h.subrange(8, 12) + seq!['-'] + h.subrange(12, 16) + seq!['-']
        + h.subrange(16, 20) + seq!['-'] + h.subrange(20, 32)
}

/// `uuid::Uuid::simple`: thirty-two lower-case digits.
#[verifier::external_body]
pub(crate) fn uuid_simple(id: u128) -> (r: String)
    ensures
        r@ == uuid_simple_text(id),
{
    uuid::Uuid::from_u128(id).simple().to_string()
}

/// `uuid::Uuid` as text: the hyphenated form, in lower case, which `uuid::Uuid::parse_str` reads
/// back.
#[verifier::external_body]
pub(crate) fn uuid_hyphenated(id: u128) -> (r: String)
    ensures
        r@ == uuid_text(id),
        (match uuid_parsed(r@) {
            Ok(back) => back == id,
            Err(_) => false,
        }),
{
    uuid::Uuid::from_u128(id).to_string()
}

/// The identifier that a text stands for, or what is wrong with the text.
pub uninterp spec fn uuid_parsed(s: Seq<char>) -> Result<u128, Seq<char>>;

/// `uuid::Uuid::parse_str`: depends on the text alone.
#[verifier::external_body]
pub(crate) fn uuid_parse(s: &str) -> (r: Result<u128, String>)
    ensures
        match r {
            Ok(id) => uuid_parsed(s@) == Ok::<u128, Seq<char>>(id),
            Err(e) => uuid_parsed(s@) == Err::<u128, Seq<char>>(e@),
        },
{
    match uuid::Uuid::parse_str(s) {
        Ok(id) => Ok(id.as_u128()),
        Err(e) => Err(e.to_string()),
    }
}

/// The name-based (MD5) identifier of a name in a namespace.
pub uninterp spec fn uuid_v3_of(namespace: u128, name: Seq<u8>) -> u128;

/// `uuid::Uuid::new_v3`: depends on namespace and name alone.
#[verifier::external_body]
pub(crate) fn uuid_v3(namespace: u128, name: &[u8]) -> (r: u128)
    ensures
        r == uuid_v3_of(namespace, name@),
{
    uuid::Uuid::new_v3(&uuid::Uuid::from_u128(namespace), name).as_u128()
}

// ---------------------------------------------------------------------------
// RSA
// ---------------------------------------------------------------------------

/// `rsa::RsaPrivateKey::new`: a fresh private key, as PKCS#8 DER. Which key it is rests on
/// chance, so nothing is said of it.
#[verifier::external_body]
pub(crate) fn rsa_generate(bits: usize) -> (r: Result<Vec<u8>, String>)
    requires
        bits == 1024,
{
    match rsa::RsaPrivateKey::new(&mut rsa::rand_core::OsRng, bits) {
        Ok(key) => match rsa::pkcs8::EncodePrivateKey::to_pkcs8_der(&key) {
            Ok(der) => Ok(der.as_bytes().to_vec()),
            Err(e) => Err(e.to_string()),
        },
        Err(e) => Err(e.to_string()),
    }
}

/// The DER encoding of the public half of a private key, or what is wrong with the key.
pub uninterp spec fn rsa_public_of(private_der: Seq<u8>) -> Result<Seq<u8>, Seq<char>>;

/// `rsa::RsaPublicKey::to_public_key_der` of the public half of a private key: depends on the
/// private key alone.
#[verifier::external_body]
pub(crate) fn rsa_public_der(private_der: &[u8]) -> (r: Result<Vec<u8>, String>)
    ensures
        match r {
            Ok(v) => rsa_public_of(private_der@) == Ok::<Seq<u8>, Seq<char>>(v@),
            Err(e) => rsa_public_of(private_der@) == Err::<Seq<u8>, Seq<char>>(e@),
        },
{
    let key: rsa::RsaPrivateKey = match rsa::pkcs8::DecodePrivateKey::from_pkcs8_der(private_der) {
        Ok(key) => key,
        Err(e) => return Err(e.to_string()),
    };
    match rsa::pkcs8::EncodePublicKey::to_public_key_der(&key.to_public_key()) {
        Ok(der) => Ok(der.into_vec()),
        Err(e) => Err(e.to_string()),
    }
}

/// What a ciphertext decrypts to under a private key with PKCS#1 v1.5 padding, or why it does
/// not.
pub uninterp spec fn rsa_decrypted(private_der: Seq<u8>, data: Seq<u8>) -> Result<
    Seq<u8>,
    Seq<char>,
>;

/// `rsa::RsaPrivateKey::decrypt` with `Pkcs1v15Encrypt`: depends on key and ciphertext alone. The
/// key's precomputed values are cleared before, so that it raises the ciphertext to the private
/// exponent as it stands and returns whatever the key's primes are.
#[verifier::external_body]
pub(crate) fn rsa_decrypt(private_der: &[u8], data: &[u8]) -> (r: Result<Vec<u8>, String>)
    ensures
        match r {
            Ok(v) => rsa_decrypted(private_der@, data@) == Ok::<Seq<u8>, Seq<char>>(v@),
            Err(e) => rsa_decrypted(private_der@, data@) == Err::<Seq<u8>, Seq<char>>(e@),
        },
{
    let mut key: rsa::RsaPrivateKey =
        match rsa::pkcs8::DecodePrivateKey::from_pkcs8_der(private_der) {
        Ok(key) => key,
        Err(e) => return Err(e.to_string()),
    };
    key.clear_precomputed();
    key.decrypt(rsa::Pkcs1v15Encrypt, data).map_err(|e| e.to_string())
}

} // verus!
