//! Digests, base64, key derivation, authenticated encryption and random bytes.

use vstd::prelude::*;

use aes_gcm::aead::{Aead, KeyInit, Payload};
use aes_gcm::{Aes256Gcm, Key, Nonce};
use base64::Engine;
use rand::{Rng, RngCore};
use sha2::Digest;

use crate::text::chars;

verus! {

/// How long a text, or what is authenticated with it, may be.
pub const AEAD_MAX: u64 = 0x10_0000_0000;

/// The SHA-256 digest of a sequence of bytes.
pub uninterp spec fn sha256_digest(data: Seq<u8>) -> Seq<u8>;

/// Wraps `sha2::Sha256::digest`, a function of the bytes that it is given. The
/// digest has 32 bytes; what they are is left to its name.
#[verifier::external_body]
pub(crate) fn sha256(data: &[u8]) -> (r: Vec<u8>)
    ensures
        r@ == sha256_digest(data@),
        r@.len() == 32,
{
    sha2::Sha256::digest(data).to_vec()
}

/// The standard base64 form of a sequence of bytes, with padding.
pub uninterp spec fn base64_encoded(data: Seq<u8>) -> Seq<char>;

/// What a standard base64 text with padding stands for, or why it is none.
pub uninterp spec fn base64_decoded(text: Seq<char>) -> Result<Seq<u8>, Seq<char>>;

/// The characters of the standard base64 alphabet, and the padding.
pub open spec fn is_base64_char(c: char) -> bool {
    chars::is_alnum(c) || c == '+' || c == '/' || c == '='
}

/// Wraps `base64`'s `Engine::encode` of the engine `STANDARD`, a function of the
/// bytes that it is given. The text consists of characters of the alphabet and
/// padding, and decoding it gives the bytes back. It panics where the length of
/// the text is more than a `usize` holds.
#[verifier::external_body]
pub(crate) fn base64_encode(data: &[u8]) -> (r: String)
    requires
        data@.len() <= AEAD_MAX + 64,
    ensures
        r@ == base64_encoded(data@),
        base64_decoded(r@) is Ok,
        base64_decoded(r@)->Ok_0 == data@,
        forall|i: int| 0 <= i < r@.len() ==> is_base64_char(#[trigger] r@[i]),
{
    base64::engine::general_purpose::STANDARD.encode(data)
}

/// Wraps `base64`'s `Engine::decode` of the engine `STANDARD`, which maps each
/// text to the bytes that it stands for, or to an error, here its message.
#[verifier::external_body]
pub(crate) fn base64_decode(text: &str) -> (r: Result<Vec<u8>, String>)
    ensures
        match r {
            Ok(data) => base64_decoded(text@) == Ok::<Seq<u8>, Seq<char>>(data@),
            Err(e) => base64_decoded(text@) == Err::<Seq<u8>, Seq<char>>(e@),
        },
{
    base64::engine::general_purpose::STANDARD.decode(text).map_err(|e| e.to_string())
}

/// The 32 bytes that HKDF with SHA-256 and an empty salt derives.
pub uninterp spec fn hkdf_derived(ikm: Seq<u8>, info: Seq<u8>) -> Seq<u8>;

/// Wraps `hkdf::Hkdf::<Sha256>::new` with an empty salt and `Hkdf::expand` to 32
/// bytes. Expanding fails only for more than 255 times 32 bytes, so it succeeds,
/// and the bytes depend on the key material and the context alone.
#[verifier::external_body]
pub(crate) fn hkdf_sha256(ikm: &[u8], info: &[u8]) -> (r: Option<Vec<u8>>)
    ensures
        r is Some,
        r->0@ == hkdf_derived(ikm@, info@),
        r->0@.len() == 32,
{
    let mut out = [0u8; 32];
    match hkdf::Hkdf::<sha2::Sha256>::new(Some(&[]), ikm).expand(info, &mut out) {
        Ok(()) => Some(out.to_vec()),
        Err(_) => None,
    }
}

/// What AES-256-GCM makes of a text and what is authenticated with it.
pub uninterp spec fn aead_sealed(
    key: Seq<u8>,
    nonce: Seq<u8>,
    msg: Seq<u8>,
    aad: Seq<u8>,
) -> Option<Seq<u8>>;

/// What AES-256-GCM gives back of a sealed text, if it is authentic.
pub uninterp spec fn aead_opened(
    key: Seq<u8>,
    nonce: Seq<u8>,
    sealed: Seq<u8>,
    aad: Seq<u8>,
) -> Option<Seq<u8>>;

/// Wraps `aes_gcm`'s `Aead::encrypt` for `Aes256Gcm`, a function of its arguments.
/// It fails exactly where the text or what is authenticated with it has more than
/// `AEAD_MAX` bytes. The result has a tag of 16 bytes at its end, and opening it
/// with the same key, nonce and authenticated bytes gives the text back.
#[verifier::external_body]
pub(crate) fn aead_seal(key: &[u8], nonce: &[u8], msg: &[u8], aad: &[u8]) -> (r: Option<Vec<u8>>)
    requires
        key@.len() == 32,
        nonce@.len() == 12,
    ensures
        match r {
            Some(sealed) => {
                &&& aead_sealed(key@, nonce@, msg@, aad@) == Some(sealed@)
                &&& sealed@.len() == msg@.len() + 16
                &&& aead_opened(key@, nonce@, sealed@, aad@) == Some(msg@)
            },
            None => aead_sealed(key@, nonce@, msg@, aad@) is None,
        },
        r is Some == (msg@.len() <= AEAD_MAX && aad@.len() <= AEAD_MAX),
{
    let cipher = Aes256Gcm::new(Key::<Aes256Gcm>::from_slice(key));
    cipher.encrypt(Nonce::from_slice(nonce), Payload { msg, aad }).ok()
}

/// Wraps `aes_gcm`'s `Aead::decrypt` for `Aes256Gcm`, a function of its arguments.
#[verifier::external_body]
pub(crate) fn aead_open(key: &[u8], nonce: &[u8], sealed: &[u8], aad: &[u8]) -> (r: Option<
    Vec<u8>,
>)
    requires
        key@.len() == 32,
        nonce@.len() == 12,
    ensures
        match r {
            Some(msg) => aead_opened(key@, nonce@, sealed@, aad@) == Some(msg@),
            None => aead_opened(key@, nonce@, sealed@, aad@) is None,
        },
{
    let cipher = Aes256Gcm::new(Key::<Aes256Gcm>::from_slice(key));
    cipher.decrypt(Nonce::from_slice(nonce), Payload { msg: sealed, aad }).ok()
}

/// Wraps `rand`'s `RngCore::fill_bytes` of `OsRng`: `n` bytes that nobody can
/// foresee. It panics where the system has no source of randomness.
#[verifier::external_body]
pub(crate) fn random_bytes(n: usize) -> (r: Vec<u8>)
    ensures
        r@.len() == n,
{
    let mut out = vec![0u8; n];
    rand::rngs::OsRng.fill_bytes(&mut out);
    out
}

/// Wraps `rand`'s `Rng::sample_iter` over `Alphanumeric`: `n` ASCII letters and
/// digits that nobody can foresee.
#[verifier::external_body]
pub(crate) fn random_alphanumeric(n: usize) -> (r: String)
    ensures
        r@.len() == n,
        forall|i: int| 0 <= i < r@.len() ==> chars::is_alnum(#[trigger] r@[i]),
{
    rand::thread_rng().sample_iter(&rand::distributions::Alphanumeric).take(n).map(
        char::from,
    ).collect()
}

} // verus!
