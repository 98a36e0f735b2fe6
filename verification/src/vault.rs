//! Sealing the sensitive fields of a profile for storage.
//!
//! A field is encrypted with AES-256-GCM under a fresh 12-byte nonce; the
//! nonce followed by the ciphertext is stored as base64. The ciphers
//! themselves are those of the `aes-gcm` and `base64` crates.

use aes_gcm::aead::{Aead, AeadCore, KeyInit, OsRng};
use aes_gcm::{Aes256Gcm, Nonce};
use base64::engine::general_purpose::STANDARD;
use base64::Engine;
use vstd::prelude::*;
use vstd::string::StrSliceExecFns;
use vstd::utf8::{decode_utf8, encode_utf8, valid_utf8};

verus! {

/// The length of a key, in bytes.
pub const KEY_LENGTH: usize = 32;

/// The length of a nonce, in bytes.
pub const NONCE_LENGTH: usize = 12;

/// Why a field could not be sealed or opened.
#[derive(Clone, Copy, PartialEq, Eq, Structural, Debug)]
pub enum VaultError {
    /// The key is not 32 bytes long.
    InvalidKey,
    /// The stored text is not base64.
    NotBase64,
    /// The stored bytes are too few to hold a nonce.
    TooShort,
    /// The cipher refused: on opening, the key is wrong or the stored bytes
    /// were changed.
    Refused,
    /// The opened bytes are not UTF-8 text.
    NotText,
    /// The field is so long that the text to store for it would not fit in
    /// memory.
    TooLong,
}

/// What AES-256-GCM encryption, as `Aes256Gcm::encrypt` does it without
/// associated data, makes of a plaintext under a key and a nonce: the
/// ciphertext with its tag, or nothing where the cipher refuses.
pub uninterp spec fn aes_gcm_seal(key: Seq<u8>, nonce: Seq<u8>, plaintext: Seq<u8>) -> Option<Seq<u8>>;

/// What `Aes256Gcm::decrypt` makes of a ciphertext under a key and a nonce:
/// the plaintext, or nothing where the tag does not match.
pub uninterp spec fn aes_gcm_open(key: Seq<u8>, nonce: Seq<u8>, ciphertext: Seq<u8>) -> Option<Seq<u8>>;

/// The standard base64 text, with padding, of some bytes.
pub uninterp spec fn base64_text(bytes: Seq<u8>) -> Seq<char>;

/// The bytes that a standard base64 text stands for, where it is one.
pub uninterp spec fn base64_bytes(text: Seq<char>) -> Option<Seq<u8>>;

/// Draws a nonce with `Aes256Gcm::generate_nonce` from the generator of the
/// operating system. Of the outcome only the length is known.
#[verifier::external_body]
fn fresh_nonce() -> (nonce: Vec<u8>)
    ensures
        nonce@.len() == NONCE_LENGTH,
{
    Aes256Gcm::generate_nonce(&mut OsRng).to_vec()
}

/// Draws a key with `Aes256Gcm::generate_key` from the generator of the
/// operating system. Of the outcome only the length is known.
#[verifier::external_body]
fn fresh_key() -> (key: Vec<u8>)
    ensures
        key@.len() == KEY_LENGTH,
{
    Aes256Gcm::generate_key(&mut OsRng).to_vec()
}

/// Encrypts with `Aes256Gcm::new_from_slice` and `Aead::encrypt`. A key of
/// another length than 32 is refused by the first. What was sealed is opened
/// again by the same key and nonce. A nonce of another length than 12, on
/// which `Nonce::from_slice` panics, is ruled out.
#[verifier::external_body]
fn seal(key: &Vec<u8>, nonce: &Vec<u8>, plaintext: &Vec<u8>) -> (r: Option<Vec<u8>>)
    requires
        nonce@.len() == NONCE_LENGTH,
    ensures
        match r {
            Some(c) => aes_gcm_seal(key@, nonce@, plaintext@) == Some(c@),
            None => aes_gcm_seal(key@, nonce@, plaintext@) is None,
        },
        key@.len() != KEY_LENGTH ==> r is None,
        r matches Some(c) ==> aes_gcm_open(key@, nonce@, c@) == Some(plaintext@),
{
    let cipher = match Aes256Gcm::new_from_slice(key.as_slice()) {
        Ok(cipher) => cipher,
        Err(_) => return None,
    };
    match cipher.encrypt(Nonce::from_slice(nonce.as_slice()), plaintext.as_slice()) {
        Ok(ciphertext) => Some(ciphertext),
        Err(_) => None,
    }
}

/// Decrypts with `Aes256Gcm::new_from_slice` and `Aead::decrypt`. A key of
/// another length than 32 is refused by the first. A nonce of another length
/// than 12 is ruled out.
#[verifier::external_body]
fn open(key: &Vec<u8>, nonce: &Vec<u8>, ciphertext: &Vec<u8>) -> (r: Option<Vec<u8>>)
    requires
        nonce@.len() == NONCE_LENGTH,
    ensures
        match r {
            Some(p) => aes_gcm_open(key@, nonce@, ciphertext@) == Some(p@),
            None => aes_gcm_open(key@, nonce@, ciphertext@) is None,
        },
        key@.len() != KEY_LENGTH ==> r is None,
{
    let cipher = match Aes256Gcm::new_from_slice(key.as_slice()) {
        Ok(cipher) => cipher,
        Err(_) => return None,
    };
    match cipher.decrypt(Nonce::from_slice(nonce.as_slice()), ciphertext.as_slice()) {
        Ok(plaintext) => Some(plaintext),
        Err(_) => None,
    }
}

/// Encodes with `Engine::encode` of the standard engine. What it writes,
/// the standard engine decodes to the same bytes. It panics where the length
/// of the text overflows or is more than a vector can hold; such inputs are
/// ruled out.
#[verifier::external_body]
fn to_base64(bytes: &Vec<u8>) -> (text: String)
    requires
        encodable(bytes@.len()),
    ensures
        text@ == base64_text(bytes@),
        base64_bytes(text@) == Some(bytes@),
{
    STANDARD.encode(bytes.as_slice())
}

/// Decodes with `Engine::decode` of the standard engine.
#[verifier::external_body]
fn from_base64(text: &str) -> (r: Option<Vec<u8>>)
    ensures
        match r {
            Some(b) => base64_bytes(text@) == Some(b@),
            None => base64_bytes(text@) is None,
        },
{
    match STANDARD.decode(text) {
        Ok(bytes) => Some(bytes),
        Err(_) => None,
    }
}

/// `String::from_utf8`: the text that the bytes encode, where they are
/// UTF-8.
#[verifier::external_body]
fn text_from_utf8(bytes: Vec<u8>) -> (r: Option<String>)
    ensures
        r is Some <==> valid_utf8(bytes@),
        r matches Some(s) ==> s@ == decode_utf8(bytes@),
{
    match String::from_utf8(bytes) {
        Ok(text) => Some(text),
        Err(_) => None,
    }
}

/// The bytes of `v` from `from` up to `to`.
fn part(v: &Vec<u8>, from: usize, to: usize) -> (r: Vec<u8>)
    requires
        from <= to <= v@.len(),
    ensures
        r@ == v@.subrange(from as int, to as int),
{
    let mut r: Vec<u8> = Vec::new();
    let mut i: usize = from;
    while i < to
        invariant
            from <= i <= to,
            to <= v@.len(),
            r@ == v@.subrange(from as int, i as int),
        decreases to - i,
    {
        r.push(v[i]);
        i += 1;
        assert(r@ =~= v@.subrange(from as int, i as int));
    }
    r
}

/// The length of the base64 text, with padding, of `n` bytes: four
/// characters for every three bytes or part of them.
pub open spec fn base64_length(n: nat) -> nat {
    (n + 2) / 3 * 4
}

/// The base64 text of `n` bytes fits in memory: it is no longer than the
/// longest vector.
pub open spec fn encodable(n: nat) -> bool {
    base64_length(n) <= isize::MAX
}

/// Whether the base64 text of `n` bytes fits in memory.
pub fn can_encode(n: u128) -> (b: bool)
    requires
        n <= 2 * usize::MAX,
    ensures
        b == encodable(n as nat),
{
    (n + 2) / 3 * 4 <= isize::MAX as u128
}

/// The bytes to store for a sealed field: the nonce followed by the
/// ciphertext. There are none where their base64 text would not fit in
/// memory.
pub fn join_sealed(nonce: &Vec<u8>, ciphertext: &Vec<u8>) -> (r: Option<Vec<u8>>)
    ensures
        r is Some == encodable(nonce@.len() + ciphertext@.len()),
        r matches Some(bytes) ==> bytes@ == nonce@ + ciphertext@,
{
    if !can_encode(nonce.len() as u128 + ciphertext.len() as u128) {
        return None;
    }
    let mut combined = part(nonce, 0, nonce.len());
    assert(combined@ =~= nonce@);
    let mut i: usize = 0;
    while i < ciphertext.len()
        invariant
            i <= ciphertext@.len(),
            combined@ == nonce@ + ciphertext@.take(i as int),
        decreases ciphertext@.len() - i,
    {
        combined.push(ciphertext[i]);
        i += 1;
        assert(combined@ =~= nonce@ + ciphertext@.take(i as int));
    }
    assert(combined@ =~= nonce@ + ciphertext@);
    Some(combined)
}

/// The nonce and the ciphertext of what was stored: the first twelve bytes
/// and the rest. There are none where fewer than twelve bytes were stored.
pub fn split_stored(stored: &Vec<u8>) -> (r: Option<(Vec<u8>, Vec<u8>)>)
    ensures
        r is Some == (stored@.len() >= NONCE_LENGTH),
        r matches Some(parts) ==> parts.0@ == stored@.subrange(0, NONCE_LENGTH as int) && parts.1@
            == stored@.subrange(NONCE_LENGTH as int, stored@.len() as int),
{
    if stored.len() < NONCE_LENGTH {
        return None;
    }
    Some((part(stored, 0, NONCE_LENGTH), part(stored, NONCE_LENGTH, stored.len())))
}

/// What sealing `data` under `key` with `nonce` gives: the base64 text of
/// the nonce followed by the ciphertext.
pub open spec fn sealed(data: Seq<char>, key: Seq<u8>, nonce: Seq<u8>) -> Result<Seq<char>, VaultError> {
    if key.len() != KEY_LENGTH {
        Err(VaultError::InvalidKey)
    } else {
        match aes_gcm_seal(key, nonce, encode_utf8(data)) {
            None => Err(VaultError::Refused),
            Some(c) => if !encodable(nonce.len() + c.len()) {
                Err(VaultError::TooLong)
            } else {
                Ok(base64_text(nonce + c))
            },
        }
    }
}

/// Sealing fails in three ways only: on a key of the wrong length, and on
/// no other; where the cipher refuses; and where the text to store would not
/// fit in memory.
pub proof fn law_errors_of_sealing(data: Seq<char>, key: Seq<u8>, nonce: Seq<u8>)
    ensures
        sealed(data, key, nonce) == Err::<Seq<char>, VaultError>(VaultError::InvalidKey)
            <==> key.len() != KEY_LENGTH,
        sealed(data, key, nonce) matches Err(e) ==> e == VaultError::InvalidKey || e
            == VaultError::Refused || e == VaultError::TooLong,
{
}

/// What opening the stored text `stored` under `key` gives. The checks are
/// made in this order: the key, the base64, the length, the cipher, the
/// text.
pub open spec fn opened(stored: Seq<char>, key: Seq<u8>) -> Result<Seq<char>, VaultError> {
    if key.len() != KEY_LENGTH {
        Err(VaultError::InvalidKey)
    } else {
        match base64_bytes(stored) {
            None => Err(VaultError::NotBase64),
            Some(bytes) => if bytes.len() < NONCE_LENGTH {
                Err(VaultError::TooShort)
            } else {
                match aes_gcm_open(
                    key,
                    bytes.subrange(0, NONCE_LENGTH as int),
                    bytes.subrange(NONCE_LENGTH as int, bytes.len() as int),
                ) {
                    None => Err(VaultError::Refused),
                    Some(plain) => if valid_utf8(plain) {
                        Ok(decode_utf8(plain))
                    } else {
                        Err(VaultError::NotText)
                    },
                }
            },
        }
    }
}

/// A new key, drawn at random: 32 bytes.
pub fn generate_encryption_key() -> (key: Vec<u8>)
    ensures
        key@.len() == KEY_LENGTH,
{
    fresh_key()
}

/// Whether `key` can be used: it is 32 bytes long.
pub fn is_usable_key(key: &Vec<u8>) -> (r: bool)
    ensures
        r == (key@.len() == KEY_LENGTH),
{
    key.len() == KEY_LENGTH
}

/// Seals `data` under `key` with the given nonce; see [`sealed`]. What it
/// hands back, [`decrypt_data`] opens to `data` again.
pub fn encrypt_with_nonce(data: &str, key: &Vec<u8>, nonce: &Vec<u8>) -> (r: Result<String, VaultError>)
    requires
        nonce@.len() == NONCE_LENGTH,
    ensures
        match sealed(data@, key@, nonce@) {
            Ok(text) => r matches Ok(s) && s@ == text && opened(text, key@) == Ok::<
                Seq<char>,
                VaultError,
            >(data@),
            Err(e) => r == Err::<String, VaultError>(e),
        },
{
    if key.len() != KEY_LENGTH {
        return Err(VaultError::InvalidKey);
    }
    let plain = data.as_bytes_vec();
    let ciphertext = match seal(key, nonce, &plain) {
        None => {
            return Err(VaultError::Refused);
        },
        Some(c) => c,
    };
    let combined = match join_sealed(nonce, &ciphertext) {
        None => {
            return Err(VaultError::TooLong);
        },
        Some(bytes) => bytes,
    };
    proof {
        assert(combined@.subrange(0, NONCE_LENGTH as int) =~= nonce@);
        assert(combined@.subrange(NONCE_LENGTH as int, combined@.len() as int) =~= ciphertext@);
        vstd::utf8::encode_utf8_valid_utf8(data@);
        vstd::utf8::encode_utf8_decode_utf8(data@);
    }
    Ok(to_base64(&combined))
}

/// Seals `data` under `key` with a fresh nonce. Which nonce is left to
/// chance; for each the result is as [`encrypt_with_nonce`] gives it, and
/// [`decrypt_data`] opens it to `data` again.
pub fn encrypt_data(data: &str, key: &Vec<u8>) -> (r: Result<String, VaultError>)
    ensures
        key@.len() != KEY_LENGTH ==> r == Err::<String, VaultError>(VaultError::InvalidKey),
        r matches Ok(s) ==> opened(s@, key@) == Ok::<Seq<char>, VaultError>(data@) && exists|
            nonce: Seq<u8>,
        |
            nonce.len() == NONCE_LENGTH && #[trigger] sealed(data@, key@, nonce) == Ok::<
                Seq<char>,
                VaultError,
            >(s@),
        r matches Err(e) ==> exists|nonce: Seq<u8>|
            nonce.len() == NONCE_LENGTH && #[trigger] sealed(data@, key@, nonce) == Err::<
                Seq<char>,
                VaultError,
            >(e),
{
    let nonce = fresh_nonce();
    let r = encrypt_with_nonce(data, key, &nonce);
    proof {
        let outcome = sealed(data@, key@, nonce@);
        assert(outcome is Ok ==> r is Ok);
    }
    r
}

/// Opens what [`encrypt_data`] stored; see [`opened`].
pub fn decrypt_data(encrypted: &str, key: &Vec<u8>) -> (r: Result<String, VaultError>)
    ensures
        match opened(encrypted@, key@) {
            Ok(text) => r matches Ok(s) && s@ == text,
            Err(e) => r == Err::<String, VaultError>(e),
        },
{
    if key.len() != KEY_LENGTH {
        return Err(VaultError::InvalidKey);
    }
    let combined = match from_base64(encrypted) {
        None => {
            return Err(VaultError::NotBase64);
        },
        Some(bytes) => bytes,
    };
    let (nonce, ciphertext) = match split_stored(&combined) {
        None => {
            return Err(VaultError::TooShort);
        },
        Some(parts) => parts,
    };
    let plain = match open(key, &nonce, &ciphertext) {
        None => {
            return Err(VaultError::Refused);
        },
        Some(p) => p,
    };
    match text_from_utf8(plain) {
        Some(text) => Ok(text),
        None => Err(VaultError::NotText),
    }
}

} // verus!
