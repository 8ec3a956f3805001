//! Encryption of stored API keys: AES-256-GCM with a fresh random nonce,
//! stored as base64 of `nonce (12 bytes) || ciphertext`.
//!
//! The 32-byte key itself lives in a file that the caller reads (or creates)
//! and passes in.
use aes_gcm::aead::{Aead, KeyInit};
use base64::Engine;
use rand::RngCore;
use vstd::prelude::*;
use vstd::utf8::{decode_utf8, encode_utf8, encode_utf8_decode_utf8};

use crate::text::byte_len;

verus! {

/// Largest plaintext AES-GCM accepts (2^36 bytes).
pub open spec fn aes_gcm_max_plaintext() -> nat {
    0x10_0000_0000
}

/// AES-256-GCM encryption (no associated data) of `plaintext` under `key`
/// and `nonce`: the ciphertext followed by the 16-byte tag.
pub uninterp spec fn aes_gcm_seal(key: Seq<u8>, nonce: Seq<u8>, plaintext: Seq<u8>) -> Seq<u8>;

/// AES-256-GCM decryption: the plaintext when the tag checks out.
pub uninterp spec fn aes_gcm_open(key: Seq<u8>, nonce: Seq<u8>, ciphertext: Seq<u8>) -> Option<Seq<u8>>;

/// Standard base64 (with padding) of `bytes`.
pub uninterp spec fn base64_text(bytes: Seq<u8>) -> Seq<char>;

/// The bytes a standard base64 text decodes to, if it is valid.
pub uninterp spec fn base64_bytes(text: Seq<char>) -> Option<Seq<u8>>;

/// The length of the padded base64 text of `n` bytes.
pub open spec fn base64_len(n: nat) -> nat {
    (n / 3) * 4 + if n % 3 > 0 {
        4nat
    } else {
        0nat
    }
}

/// Seals `plaintext`.
///
/// Trusted: calls `aes_gcm::Aes256Gcm::encrypt` (via `aead::Aead`), which
/// copies the message, encrypts it in place and appends the 16-byte tag; it
/// fails only for messages over 2^36 bytes.
#[verifier::external_body]
fn aes_seal(key: &[u8; 32], nonce: &[u8; 12], plaintext: &[u8]) -> (r: Option<Vec<u8>>)
    ensures
        plaintext@.len() <= aes_gcm_max_plaintext() ==> r is Some,
        r is Some ==> r.unwrap()@ == aes_gcm_seal(key@, nonce@, plaintext@),
        r is Some ==> r.unwrap()@.len() == plaintext@.len() + 16,
        plaintext@.len() > aes_gcm_max_plaintext() ==> r is None,
{
    let cipher = aes_gcm::Aes256Gcm::new(key.into());
    cipher.encrypt(aes_gcm::Nonce::from_slice(nonce), plaintext).ok()
}

/// Opens `ciphertext`.
///
/// Trusted: calls `aes_gcm::Aes256Gcm::decrypt`, which checks the trailing
/// tag and undoes the keystream; for the output of a sealing under the same
/// key and nonce it gives the message back.
#[verifier::external_body]
fn aes_open(key: &[u8; 32], nonce: &[u8; 12], ciphertext: &[u8]) -> (r: Option<Vec<u8>>)
    ensures
        match r {
            Some(p) => aes_gcm_open(key@, nonce@, ciphertext@) == Some(p@),
            None => aes_gcm_open(key@, nonce@, ciphertext@) is None,
        },
        forall|p: Seq<u8>|
            p.len() <= aes_gcm_max_plaintext() && #[trigger] aes_gcm_seal(key@, nonce@, p) == ciphertext@
                ==> r is Some && r.unwrap()@ == p,
{
    let cipher = aes_gcm::Aes256Gcm::new(key.into());
    cipher.decrypt(aes_gcm::Nonce::from_slice(nonce), ciphertext).ok()
}

/// Standard base64 of `bytes`.
///
/// Trusted: calls `base64::Engine::encode` on `general_purpose::STANDARD`,
/// which panics only when the output length overflows `usize`.
#[verifier::external_body]
pub(crate) fn b64_encode(bytes: &[u8]) -> (r: String)
    requires
        base64_len(bytes@.len()) <= usize::MAX,
    ensures
        r@ == base64_text(bytes@),
{
    base64::engine::general_purpose::STANDARD.encode(bytes)
}

/// Decodes standard base64.
///
/// Trusted: calls `base64::Engine::decode` on `general_purpose::STANDARD`;
/// the encoding of some bytes decodes back to them.  On failure the error's
/// text (`DecodeError`'s display) is returned; what it says is not stated.
#[verifier::external_body]
pub(crate) fn b64_decode(text: &str) -> (r: Result<Vec<u8>, String>)
    ensures
        match r {
            Ok(b) => base64_bytes(text@) == Some(b@),
            Err(_) => base64_bytes(text@) is None,
        },
        forall|b: Seq<u8>| #[trigger] base64_text(b) == text@ ==> r is Ok && r.unwrap()@ == b,
{
    base64::engine::general_purpose::STANDARD.decode(text).map_err(|e| e.to_string())
}

/// The text of UTF-8 bytes.
///
/// Trusted: calls `String::from_utf8`, which std documents as succeeding
/// exactly on valid UTF-8.
#[verifier::external_body]
fn utf8_text(bytes: Vec<u8>) -> (r: Option<String>)
    ensures
        match r {
            Some(s) => encode_utf8(s@) == bytes@,
            None => forall|t: Seq<char>| #[trigger] encode_utf8(t) != bytes@,
        },
{
    String::from_utf8(bytes).ok()
}

/// A fresh random nonce.
///
/// Trusted: fills 12 bytes from `rand::thread_rng()`; nothing is claimed of
/// the bytes drawn.
#[verifier::external_body]
fn random_nonce() -> (r: [u8; 12]) {
    let mut buf = [0u8; 12];
    rand::thread_rng().fill_bytes(&mut buf);
    buf
}

/// Why a key could not be encrypted or decrypted.
#[derive(Debug, Clone, Copy, PartialEq, Eq, Structural)]
pub enum CryptoError {
    /// The cipher refused the plaintext (too long).
    EncryptFailed,
    /// The stored text is not base64.
    BadEncoding,
    /// The stored data is shorter than a nonce and one byte.
    TooShort,
    /// The tag did not check out (wrong key, or a key stored in clear).
    DecryptFailed,
    /// The decrypted bytes are not UTF-8.
    InvalidText,
}

impl CryptoError {
    /// The message shown for the error.
    pub fn message(&self) -> (m: &'static str)
        ensures
            m@ == match self {
                CryptoError::EncryptFailed => "加密失败"@,
                CryptoError::BadEncoding => "密钥格式错误"@,
                CryptoError::TooShort => "密钥数据过短"@,
                CryptoError::DecryptFailed => "密钥解密失败（可能为非加密存储的旧数据）"@,
                CryptoError::InvalidText => "密钥内容非法"@,
            },
    {
        match self {
            CryptoError::EncryptFailed => "加密失败",
            CryptoError::BadEncoding => "密钥格式错误",
            CryptoError::TooShort => "密钥数据过短",
            CryptoError::DecryptFailed => "密钥解密失败（可能为非加密存储的旧数据）",
            CryptoError::InvalidText => "密钥内容非法",
        }
    }
}

/// The stored form of `plaintext` sealed with `nonce`: base64 of the nonce
/// followed by the ciphertext.
pub open spec fn sealed_text(key: Seq<u8>, nonce: Seq<u8>, plaintext: Seq<char>) -> Seq<char> {
    base64_text(nonce + aes_gcm_seal(key, nonce, encode_utf8(plaintext)))
}

/// `n` is a nonce and `p` a text that the cipher sealed under `key`,
/// giving a ciphertext one tag longer than the UTF-8 of `p`.
pub open spec fn sealing_fits(key: Seq<u8>, n: Seq<u8>, p: Seq<char>) -> bool {
    &&& n.len() == 12
    &&& byte_len(p) <= aes_gcm_max_plaintext()
    &&& aes_gcm_seal(key, n, encode_utf8(p)).len() == byte_len(p) + 16
}

/// What decrypting a stored text gives.
pub open spec fn opened_text(key: Seq<u8>, stored: Seq<char>) -> Result<Seq<char>, CryptoError> {
    match base64_bytes(stored) {
        None => Err(CryptoError::BadEncoding),
        Some(data) => if data.len() < 13 {
            Err(CryptoError::TooShort)
        } else {
            match aes_gcm_open(key, data.take(12), data.skip(12)) {
                None => Err(CryptoError::DecryptFailed),
                Some(p) => if exists|t: Seq<char>| encode_utf8(t) == p {
                    Ok(decode_utf8(p))
                } else {
                    Err(CryptoError::InvalidText)
                },
            }
        },
    }
}

/// Encrypts an API key under `key` with a fresh nonce.  Fails only when the
/// key text is longer than AES-GCM accepts.
pub fn encrypt_key(key: &[u8; 32], plaintext: &str) -> (r: Result<String, CryptoError>)
    requires
        base64_len(byte_len(plaintext@) + 28) <= usize::MAX,
    ensures
        r is Ok <==> byte_len(plaintext@) <= aes_gcm_max_plaintext(),
        match r {
            Ok(s) => exists|n: Seq<u8>| sealing_fits(key@, n, plaintext@) && s@ == sealed_text(key@, n, plaintext@),
            Err(e) => e == CryptoError::EncryptFailed,
        },
{
    let nonce = random_nonce();
    encrypt_key_with_nonce(key, &nonce, plaintext)
}

/// Encrypts an API key under `key` with the given nonce: base64 of the
/// nonce followed by the sealed UTF-8 text.  Fails only when the key text is
/// longer than AES-GCM accepts.
pub fn encrypt_key_with_nonce(key: &[u8; 32], nonce: &[u8; 12], plaintext: &str) -> (r: Result<String, CryptoError>)
    requires
        base64_len(byte_len(plaintext@) + 28) <= usize::MAX,
    ensures
        r is Ok <==> byte_len(plaintext@) <= aes_gcm_max_plaintext(),
        match r {
            Ok(s) => sealing_fits(key@, nonce@, plaintext@) && s@ == sealed_text(key@, nonce@, plaintext@),
            Err(e) => e == CryptoError::EncryptFailed,
        },
{
    let bytes = plaintext.as_bytes();
    proof {
        crate::text::lemma_encode_utf8_len(plaintext@);
    }
    match aes_seal(key, nonce, bytes) {
        None => Err(CryptoError::EncryptFailed),
        Some(ct) => {
            let mut combined: Vec<u8> = Vec::new();
            let mut i: usize = 0;
            while i < 12
                invariant
                    i <= 12,
                    combined@ == nonce@.take(i as int),
                decreases 12 - i,
            {
                combined.push(nonce[i]);
                assert(nonce@.take(i + 1) =~= nonce@.take(i as int).push(nonce@[i as int]));
                i += 1;
            }
            let mut j: usize = 0;
            while j < ct.len()
                invariant
                    j <= ct@.len(),
                    combined@ == nonce@ + ct@.take(j as int),
                decreases ct@.len() - j,
            {
                combined.push(ct[j]);
                assert(ct@.take(j + 1) =~= ct@.take(j as int).push(ct@[j as int]));
                j += 1;
            }
            assert(nonce@.take(12) =~= nonce@);
            assert(ct@.take(ct@.len() as int) =~= ct@);
            let s = b64_encode(&combined);
            assert(s@ == sealed_text(key@, nonce@, plaintext@));
            Ok(s)
        },
    }
}

/// Decrypts a stored API key: base64-decodes it, splits off the nonce,
/// opens the rest and reads it as UTF-8.  A key stored by
/// [`encrypt_key`] under the same key comes back unchanged.
pub fn decrypt_key(key: &[u8; 32], encoded: &str) -> (r: Result<String, CryptoError>)
    ensures
        match r {
            Ok(s) => opened_text(key@, encoded@) == Ok::<Seq<char>, CryptoError>(s@),
            Err(e) => opened_text(key@, encoded@) == Err::<Seq<char>, CryptoError>(e),
        },
        forall|n: Seq<u8>, p: Seq<char>|
            sealing_fits(key@, n, p) && encoded@ == #[trigger] sealed_text(key@, n, p)
                ==> (r matches Ok(s) && s@ == p),
{
    let data = match b64_decode(encoded) {
        Err(_) => {
            return Err(CryptoError::BadEncoding);
        },
        Ok(d) => d,
    };
    if data.len() < 13 {
        proof {
            assert forall|n: Seq<u8>, p: Seq<char>|
                sealing_fits(key@, n, p) && encoded@ == #[trigger] sealed_text(key@, n, p)
                implies false by {
                crate::text::lemma_encode_utf8_len(p);
                assert(data@ == n + aes_gcm_seal(key@, n, encode_utf8(p)));
            }
        }
        return Err(CryptoError::TooShort);
    }
    let mut nonce: [u8; 12] = [0u8; 12];
    let mut i: usize = 0;
    while i < 12
        invariant
            i <= 12,
            data@.len() >= 13,
            forall|k: int| 0 <= k < i ==> nonce@[k] == data@[k],
        decreases 12 - i,
    {
        nonce.set(i, data[i]);
        i += 1;
    }
    assert(nonce@ =~= data@.take(12));
    let mut rest: Vec<u8> = Vec::new();
    let mut j: usize = 12;
    while j < data.len()
        invariant
            12 <= j <= data@.len(),
            rest@ == data@.subrange(12, j as int),
        decreases data@.len() - j,
    {
        rest.push(data[j]);
        assert(data@.subrange(12, j + 1) =~= data@.subrange(12, j as int).push(data@[j as int]));
        j += 1;
    }
    assert(rest@ =~= data@.skip(12));
    proof {
        assert forall|n: Seq<u8>, p: Seq<char>|
            sealing_fits(key@, n, p) && encoded@ == #[trigger] sealed_text(key@, n, p)
            implies nonce@ == n && aes_gcm_seal(key@, n, encode_utf8(p)) == rest@ by {
            let c = aes_gcm_seal(key@, n, encode_utf8(p));
            assert(data@ == n + c);
            assert(data@.take(12) =~= n);
            assert(data@.skip(12) =~= c);
        }
    }
    let plain = match aes_open(key, &nonce, &rest) {
        None => {
            proof {
                assert forall|n: Seq<u8>, p: Seq<char>|
                    sealing_fits(key@, n, p) && encoded@ == #[trigger] sealed_text(key@, n, p)
                    implies false by {
                    crate::text::lemma_encode_utf8_len(p);
                    assert(aes_gcm_seal(key@, nonce@, encode_utf8(p)) == rest@);
                }
            }
            return Err(CryptoError::DecryptFailed);
        },
        Some(p) => p,
    };
    let ghost pbytes = plain@;
    match utf8_text(plain) {
        None => {
            proof {
                assert(!(exists|t: Seq<char>| encode_utf8(t) == pbytes));
                assert forall|n: Seq<u8>, p: Seq<char>|
                    sealing_fits(key@, n, p) && encoded@ == #[trigger] sealed_text(key@, n, p)
                    implies false by {
                    crate::text::lemma_encode_utf8_len(p);
                    assert(aes_gcm_seal(key@, nonce@, encode_utf8(p)) == rest@);
                    assert(pbytes == encode_utf8(p));
                }
            }
            Err(CryptoError::InvalidText)
        },
        Some(s) => {
            proof {
                encode_utf8_decode_utf8(s@);
                assert(exists|t: Seq<char>| encode_utf8(t) == pbytes);
                assert forall|n: Seq<u8>, p: Seq<char>|
                    sealing_fits(key@, n, p) && encoded@ == #[trigger] sealed_text(key@, n, p)
                    implies s@ == p by {
                    crate::text::lemma_encode_utf8_len(p);
                    assert(aes_gcm_seal(key@, nonce@, encode_utf8(p)) == rest@);
                    assert(pbytes == encode_utf8(p));
                    encode_utf8_decode_utf8(p);
                }
            }
            Ok(s)
        },
    }
}

} // verus!
