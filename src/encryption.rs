//! Hashing, token generation and simple byte ciphers.

use crate::error::AppError;
use crate::locator::{hex_of, hex_string};
use base64::Engine;
use rand::Rng;
use sha2::Digest;
use vstd::prelude::*;
use vstd::string::StringSliceAdditionalSpecFns;

verus! {

/// Number of characters in a generated token.
pub const TOKEN_LENGTH: usize = 32;

/// Number of characters that generated strings draw from.
pub const TOKEN_ALPHABET_SIZE: usize = 62;

/// The SHA-256 digest of a byte sequence.
pub uninterp spec fn sha256_of(data: Seq<u8>) -> Seq<u8>;

/// Relies on `sha2::Sha256::digest`: the 32-byte SHA-256 digest of the input.
#[verifier::external_body]
fn sha256(data: &[u8]) -> (r: Vec<u8>)
    ensures
        r@ == sha256_of(data@),
        r@.len() == 32,
{
    sha2::Sha256::digest(data).to_vec()
}

/// Relies on `rand::Rng::gen_range` over `rand::thread_rng()`: a value in
/// `0..bound`.
#[verifier::external_body]
fn random_below(bound: usize) -> (r: usize)
    requires
        bound > 0,
    ensures
        r < bound,
{
    rand::thread_rng().gen_range(0..bound)
}

/// The standard, padded base64 text of a byte sequence.
pub uninterp spec fn base64_of(data: Seq<u8>) -> Seq<char>;

/// Relies on `base64::engine::general_purpose::STANDARD.encode`: the
/// padded base64 text of the input.
#[verifier::external_body]
pub fn encode_base64(data: &[u8]) -> (r: String)
    ensures
        r@ == base64_of(data@),
{
    base64::engine::general_purpose::STANDARD.encode(data)
}

/// Relies on `base64::engine::general_purpose::STANDARD.decode`: the bytes
/// that a padded base64 text stands for; that engine accepts only the
/// canonical text of those bytes.
#[verifier::external_body]
pub fn decode_base64(encoded: &str) -> (r: Result<Vec<u8>, AppError>)
    ensures
        match r {
            Ok(v) => base64_of(v@) == encoded@,
            Err(e) => e is BadRequest,
        },
{
    match base64::engine::general_purpose::STANDARD.decode(encoded) {
        Ok(v) => Ok(v),
        Err(e) => Err(AppError::BadRequest(format!("Base64 decode error: {}", e))),
    }
}

/// The lower-case hexadecimal SHA-256 digest of some bytes.
pub open spec fn digest_hex(data: Seq<u8>) -> Seq<char> {
    hex_of(sha256_of(data))
}

/// The stored form of a password: its SHA-256 digest in lower-case hex.
pub fn hash_password(password: &str) -> (r: String)
    ensures
        r@ == digest_hex(password.spec_bytes()),
{
    let digest = sha256(password.as_bytes());
    hex_string(digest.as_slice())
}

/// Whether `hash` is the stored form of `password`.
pub fn verify_password(password: &str, hash: &str) -> (r: bool)
    ensures
        r == (digest_hex(password.spec_bytes()) == hash@),
{
    hash_password(password) == hash.to_owned()
}

/// The SHA-256 checksum of some bytes, in lower-case hex.
pub fn generate_checksum(data: &[u8]) -> (r: String)
    ensures
        r@ == digest_hex(data@),
{
    let digest = sha256(data);
    hex_string(digest.as_slice())
}

/// Whether `expected_checksum` is the checksum of `data`.
pub fn verify_checksum(data: &[u8], expected_checksum: &str) -> (r: bool)
    ensures
        r == (digest_hex(data@) == expected_checksum@),
{
    generate_checksum(data) == expected_checksum.to_owned()
}

/// The character with index `i` among `A`-`Z`, `a`-`z`, `0`-`9`.
pub open spec fn token_char(i: int) -> char {
    if i < 26 {
        (65 + i) as char
    } else if i < 52 {
        (97 + i - 26) as char
    } else {
        (48 + i - 52) as char
    }
}

/// An ASCII letter or digit.
pub open spec fn is_token_char(c: char) -> bool {
    ('A' <= c && c <= 'Z') || ('a' <= c && c <= 'z') || ('0' <= c && c <= '9')
}

fn token_char_at(i: usize) -> (c: char)
    requires
        i < TOKEN_ALPHABET_SIZE,
    ensures
        c == token_char(i as int),
        is_token_char(c),
{
    if i < 26 {
        ((65 + i) as u8) as char
    } else if i < 52 {
        ((97 + i - 26) as u8) as char
    } else {
        ((48 + i - 52) as u8) as char
    }
}

/// A random string of `length` ASCII letters and digits.
pub fn generate_random_string(length: usize) -> (r: String)
    ensures
        r@.len() == length,
        forall|i: int| 0 <= i < length ==> is_token_char(#[trigger] r@[i]),
{
    let mut out = String::new();
    let mut k: usize = 0;
    while k < length
        invariant
            0 <= k <= length,
            out@.len() == k,
            forall|i: int| 0 <= i < k ==> is_token_char(#[trigger] out@[i]),
        decreases length - k,
    {
        let idx = random_below(TOKEN_ALPHABET_SIZE);
        let c = token_char_at(idx);
        out.push(c);
        k = k + 1;
    }
    out
}

/// A random token of 32 ASCII letters and digits.
pub fn generate_token() -> (r: String)
    ensures
        r@.len() == TOKEN_LENGTH,
        forall|i: int| 0 <= i < TOKEN_LENGTH ==> is_token_char(#[trigger] r@[i]),
{
    generate_random_string(TOKEN_LENGTH)
}

/// Each byte of `data` combined by exclusive or with the key repeated;
/// empty when the key is.
pub open spec fn xor_spec(data: Seq<u8>, key: Seq<u8>) -> Seq<u8> {
    if key.len() == 0 {
        Seq::empty()
    } else {
        Seq::new(data.len(), |i: int| data[i] ^ key[i % (key.len() as int)])
    }
}

/// Combines each byte of `data` with the repeated key by exclusive or.
pub fn xor_encrypt(data: &[u8], key: &[u8]) -> (r: Vec<u8>)
    ensures
        r@ == xor_spec(data@, key@),
{
    let mut out: Vec<u8> = Vec::new();
    let m = key.len();
    if m == 0 {
        assert(out@ =~= xor_spec(data@, key@));
        return out;
    }
    let n = data.len();
    let mut i: usize = 0;
    while i < n
        invariant
            n == data@.len(),
            m == key@.len(),
            m > 0,
            0 <= i <= n,
            out@ =~= Seq::new(i as nat, |j: int| data@[j] ^ key@[j % m as int]),
        decreases n - i,
    {
        out.push(data[i] ^ key[i % m]);
        i = i + 1;
    }
    out
}

/// Undoes `xor_encrypt` with the same key.
pub fn xor_decrypt(encrypted: &[u8], key: &[u8]) -> (r: Vec<u8>)
    ensures
        r@ == xor_spec(encrypted@, key@),
{
    xor_encrypt(encrypted, key)
}

/// Decrypting with the key used to encrypt gives back the data, for any
/// non-empty key.
pub proof fn lemma_xor_round_trip(data: Seq<u8>, key: Seq<u8>)
    requires
        key.len() > 0,
    ensures
        xor_spec(xor_spec(data, key), key) == data,
{
    let e = xor_spec(data, key);
    let d = xor_spec(e, key);
    assert forall|i: int| 0 <= i < data.len() implies d[i] == data[i] by {
        let a = data[i];
        let b = key[i % (key.len() as int)];
        assert((a ^ b) ^ b == a) by (bit_vector);
    }
    assert(d =~= data);
}

} // verus!
