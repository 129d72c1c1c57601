//! Content encryption for records at rest in untrusted backends.
//!
//! Encryptors apply to record text before providers persist; decryption
//! happens after hydration. Keys never leave the encryptor.
use crate::error::{self, MemoryError, MemoryResult};
use aes_gcm::aead::rand_core::RngCore;
use aes_gcm::aead::{Aead, KeyInit};
use vstd::prelude::*;
use vstd::string::*;
use vstd::utf8::{decode_utf8, encode_utf8, valid_utf8};

verus! {

/// The message `String::from_utf8` reports for invalid input bytes.
pub uninterp spec fn utf8_error_text(bytes: Seq<u8>) -> Seq<char>;

/// AES-256-GCM encryption of `plaintext` under `key` and `nonce`, with
/// no associated data: ciphertext followed by the 16-byte tag.
pub uninterp spec fn gcm_sealed(key: Seq<u8>, nonce: Seq<u8>, plaintext: Seq<u8>) -> Seq<u8>;

/// AES-256-GCM authenticated decryption of `ciphertext` under `key` and
/// `nonce`; `None` when authentication fails.
pub uninterp spec fn gcm_opened(key: Seq<u8>, nonce: Seq<u8>, ciphertext: Seq<u8>) -> Option<Seq<u8>>;

/// `String::from_utf8`: succeeds exactly on valid UTF-8, keeping the
/// bytes; the error's message is named by `utf8_error_text`.
#[verifier::external_body]
fn string_from_utf8(bytes: Vec<u8>) -> (r: Result<String, String>)
    ensures
        r is Ok <==> valid_utf8(bytes@),
        r matches Ok(s) ==> encode_utf8(s@) == bytes@,
        r matches Err(m) ==> m@ == utf8_error_text(bytes@),
{
    String::from_utf8(bytes).map_err(|e| e.to_string())
}

/// `Aead::encrypt` of `Aes256Gcm` keyed with `key` (the cipher is
/// built from the key bytes for the call). The result is named by
/// `gcm_sealed`, and is the plaintext's length plus the 16-byte tag;
/// opening it with the same key and nonce gives the plaintext back; the
/// crate refuses only plaintexts over 2^36 bytes, with the error text
/// "aead::Error".
#[verifier::external_body]
fn gcm_seal(key: &[u8], nonce: &[u8], plaintext: &[u8]) -> (r: Result<Vec<u8>, String>)
    requires
        key@.len() == 32,
        nonce@.len() == 12,
    ensures
        r matches Ok(ct) ==> ct@ == gcm_sealed(key@, nonce@, plaintext@) && gcm_opened(key@, nonce@, ct@)
            == Some(plaintext@) && ct@.len() == plaintext@.len() + 16,
        r matches Err(m) ==> m@ == "aead::Error"@,
        plaintext@.len() <= 0x10_0000_0000 ==> r is Ok,
{
    let cipher = aes_gcm::Aes256Gcm::new(aes_gcm::Key::<aes_gcm::Aes256Gcm>::from_slice(key));
    cipher.encrypt(aes_gcm::Nonce::from_slice(nonce), plaintext).map_err(|e| e.to_string())
}

/// `Aead::decrypt` of `Aes256Gcm` keyed with `key`; its outcome is
/// named by `gcm_opened`.
#[verifier::external_body]
fn gcm_open(key: &[u8], nonce: &[u8], ciphertext: &[u8]) -> (r: Option<Vec<u8>>)
    requires
        key@.len() == 32,
        nonce@.len() == 12,
    ensures
        match r {
            Some(pt) => gcm_opened(key@, nonce@, ciphertext@) == Some(pt@),
            None => gcm_opened(key@, nonce@, ciphertext@) is None,
        },
{
    let cipher = aes_gcm::Aes256Gcm::new(aes_gcm::Key::<aes_gcm::Aes256Gcm>::from_slice(key));
    cipher.decrypt(aes_gcm::Nonce::from_slice(nonce), ciphertext).ok()
}

/// 12 bytes from the operating system's random source (`OsRng`); what
/// they are is left open.
#[verifier::external_body]
fn random_nonce() -> (n: Vec<u8>)
    ensures
        n@.len() == 12,
{
    let mut bytes = [0u8; 12];
    aes_gcm::aead::OsRng.fill_bytes(&mut bytes);
    bytes.to_vec()
}

/// Passthrough used by embedded and test deployments: the "ciphertext"
/// is the UTF-8 encoding of the text.
#[derive(Debug)]
pub struct NoopEncryptor;

impl NoopEncryptor {
    /// Name for logs.
    pub fn name(&self) -> (n: &'static str)
        ensures
            n@ == "noop"@,
    {
        "noop"
    }

    /// Returns the UTF-8 bytes of the text.
    pub fn encrypt(&self, plaintext: &str) -> (r: MemoryResult<Vec<u8>>)
        ensures
            r matches Ok(v) && v@ == encode_utf8(plaintext@),
    {
        Ok(vstd::slice::slice_to_vec(plaintext.as_bytes()))
    }

    /// Reads the bytes back as UTF-8 text; invalid UTF-8 is a storage
    /// error carrying the decoder's message.
    pub fn decrypt(&self, ciphertext: &[u8]) -> (r: MemoryResult<String>)
        ensures
            valid_utf8(ciphertext@) ==> (r matches Ok(s) && s@ == decode_utf8(ciphertext@)),
            !valid_utf8(ciphertext@) ==> (r matches Err(e) && (e matches MemoryError::Storage {
                provider,
                message,
            } && provider@ == "noop"@ && message@ == utf8_error_text(ciphertext@))),
    {
        match string_from_utf8(vstd::slice::slice_to_vec(ciphertext)) {
            Ok(s) => {
                proof {
                    vstd::utf8::encode_utf8_decode_utf8(s@);
                }
                Ok(s)
            },
            Err(m) => Err(MemoryError::storage("noop", m.as_str())),
        }
    }
}

/// Decrypting what the passthrough encryptor produced gives the text
/// back.
pub proof fn lemma_noop_roundtrip(t: Seq<char>)
    ensures
        valid_utf8(encode_utf8(t)),
        decode_utf8(encode_utf8(t)) == t,
{
    vstd::utf8::encode_utf8_valid_utf8(t);
    vstd::utf8::encode_utf8_decode_utf8(t);
}

/// The plaintext bytes that AES-GCM authenticates for a framed
/// ciphertext (12-byte nonce, then sealed body), if any.
pub open spec fn open_outcome(key: Seq<u8>, framed: Seq<u8>) -> Option<Seq<u8>> {
    if framed.len() < 12 {
        None
    } else {
        gcm_opened(key, framed.take(12), framed.skip(12))
    }
}

/// `framed` is a valid encryption of the text `t` under `key`: a nonce
/// followed by the sealed UTF-8 bytes of `t`.
pub open spec fn sealed_for(key: Seq<u8>, t: Seq<char>, framed: Seq<u8>) -> bool {
    &&& framed.len() >= 12
    &&& framed.skip(12) == gcm_sealed(key, framed.take(12), encode_utf8(t))
    &&& gcm_opened(key, framed.take(12), framed.skip(12)) == Some(encode_utf8(t))
}

/// AES-256-GCM with random 96-bit nonces, keyed at construction with
/// 32 bytes. Nonce uniqueness per key rests on the OS random source;
/// nonces are never derived deterministically.
#[derive(Debug)]
pub struct AesGcmEncryptor {
    key: Vec<u8>,
}

impl AesGcmEncryptor {
    #[verifier::type_invariant]
    spec fn key_is_32_bytes(&self) -> bool {
        self.key@.len() == 32
    }

    /// The key bytes.
    pub closed spec fn key_bytes(&self) -> Seq<u8> {
        self.key@
    }

    /// Creates an encryptor from a key, which must be exactly 32 bytes.
    pub fn new(key: &[u8]) -> (r: MemoryResult<Self>)
        ensures
            key@.len() != 32 ==> (r matches Err(e) && error::is_validation(e, "key"@, "must be exactly 32 bytes"@)),
            key@.len() == 32 ==> (r matches Ok(enc) && enc.key_bytes() == key@),
    {
        if key.len() != 32 {
            return Err(MemoryError::validation("key", "must be exactly 32 bytes"));
        }
        Ok(AesGcmEncryptor { key: vstd::slice::slice_to_vec(key) })
    }

    /// Generates a fresh 32-byte key from the operating system's random
    /// source (a development convenience); what the bytes are is left
    /// open.
    #[verifier::external_body]
    pub fn generate_key() -> (k: [u8; 32]) {
        let mut key = [0u8; 32];
        aes_gcm::aead::OsRng.fill_bytes(&mut key);
        key
    }

    /// Name for logs.
    pub fn name(&self) -> (n: &'static str)
        ensures
            n@ == "aes-256-gcm"@,
    {
        "aes-256-gcm"
    }

    /// Encrypts the text under a fresh random nonce, which is prepended
    /// to the sealed bytes.
    pub fn encrypt(&self, plaintext: &str) -> (r: MemoryResult<Vec<u8>>)
        ensures
            r matches Ok(ct) ==> sealed_for(self.key_bytes(), plaintext@, ct@) && ct@.len() == 12 + encode_utf8(
                plaintext@,
            ).len() + 16,
            r matches Err(e) ==> (e matches MemoryError::Storage { provider, message } && provider@
                == "aes-gcm"@ && message@ == "aead::Error"@),
            encode_utf8(plaintext@).len() <= 0x10_0000_0000 ==> r is Ok,
    {
        proof {
            use_type_invariant(self);
        }
        let nonce = random_nonce();
        match gcm_seal(self.key.as_slice(), nonce.as_slice(), plaintext.as_bytes()) {
            Ok(body) => {
                let mut out = nonce;
                let ghost n0 = out@;
                let mut i: usize = 0;
                while i < body.len()
                    invariant
                        i <= body@.len(),
                        n0.len() == 12,
                        out@ == n0 + body@.take(i as int),
                    decreases body@.len() - i,
                {
                    out.push(body[i]);
                    assert(n0 + body@.take(i + 1) =~= (n0 + body@.take(i as int)).push(body@[i as int]));
                    i = i + 1;
                }
                assert(body@.take(body@.len() as int) =~= body@);
                assert(out@.take(12) =~= n0);
                assert(out@.skip(12) =~= body@);
                Ok(out)
            },
            Err(m) => Err(MemoryError::storage("aes-gcm", m.as_str())),
        }
    }

    /// Splits off the nonce, authenticates and decrypts the rest, and
    /// reads the result as UTF-8 text.
    pub fn decrypt(&self, ciphertext: &[u8]) -> (r: MemoryResult<String>)
        ensures
            ciphertext@.len() < 12 ==> (r matches Err(e) && error::is_validation(
                e,
                "ciphertext"@,
                "shorter than the nonce prefix"@,
            )),
            match open_outcome(self.key_bytes(), ciphertext@) {
                None => ciphertext@.len() >= 12 ==> (r matches Err(e) && error::is_validation(
                    e,
                    "ciphertext"@,
                    "authentication failed"@,
                )),
                Some(pt) => if valid_utf8(pt) {
                    r matches Ok(s) && s@ == decode_utf8(pt)
                } else {
                    r matches Err(e) && (e matches MemoryError::Storage { provider, message } && provider@
                        == "aes-gcm"@ && message@ == utf8_error_text(pt))
                },
            },
    {
        proof {
            use_type_invariant(self);
        }
        if ciphertext.len() < 12 {
            return Err(MemoryError::validation("ciphertext", "shorter than the nonce prefix"));
        }
        let (nonce, body) = ciphertext.split_at(12);
        assert(nonce@ =~= ciphertext@.take(12));
        assert(body@ =~= ciphertext@.skip(12));
        match gcm_open(self.key.as_slice(), nonce, body) {
            None => Err(MemoryError::validation("ciphertext", "authentication failed")),
            Some(pt) => match string_from_utf8(pt) {
                Ok(s) => {
                    proof {
                        vstd::utf8::encode_utf8_decode_utf8(s@);
                    }
                    Ok(s)
                },
                Err(m) => Err(MemoryError::storage("aes-gcm", m.as_str())),
            },
        }
    }
}

/// Decrypting what the encryptor produced, with the same key, gives the
/// text back: the framed bytes authenticate, and the recovered bytes are
/// valid UTF-8 that decodes to the original text.
pub proof fn lemma_aes_roundtrip(key: Seq<u8>, t: Seq<char>, framed: Seq<u8>)
    requires
        sealed_for(key, t, framed),
    ensures
        open_outcome(key, framed) == Some(encode_utf8(t)),
        valid_utf8(encode_utf8(t)),
        decode_utf8(encode_utf8(t)) == t,
{
    vstd::utf8::encode_utf8_valid_utf8(t);
    vstd::utf8::encode_utf8_decode_utf8(t);
}

} // verus!
