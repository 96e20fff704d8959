//! Envelope cryptography: AES-256-GCM under the group key, Ed25519 device
//! signatures over the header, nonce and ciphertext, SHA-256 ciphertext
//! digests, and X25519 key exchange for wrapping keys. Every primitive is the
//! outside crate's, behind one trusted wrapper each; what is proved is how
//! this library puts them together.
//!
//! The header's canonical JSON bytes are produced by the caller (they are a
//! serialization of the header) and handed in alongside it.
use vstd::prelude::*;

use aes_gcm::aead::{Aead, KeyInit};
use base64::Engine;
use ed25519_dalek::{Signer, Verifier};
use hmac::Mac;
use rand::RngCore;
use sha2::Digest;

use super::SyncError;
use crate::text::{chars_of, hex_lower, owned, push_str, spec_hex, string_from_range};

verus! {

pub const PROTOCOL_VERSION: u32 = 1;

#[derive(Debug)]
pub struct EnvelopeHeader {
    pub protocol_version: u32,
    pub group_id: String,
    pub device_id: String,
    pub sequence: u64,
    pub key_epoch: u32,
    pub payload_kind: String,
    pub created_at: String,
}

#[derive(Debug)]
pub struct EncryptedEnvelope {
    pub header: EnvelopeHeader,
    pub nonce_b64: String,
    pub ciphertext_b64: String,
    pub ciphertext_sha256: String,
    pub signature_b64: String,
}

#[derive(Debug)]
pub struct DeviceKeyMaterial {
    pub signing_secret: Vec<u8>,
    pub signing_public_b64: String,
    pub exchange_secret: Vec<u8>,
    pub exchange_public_b64: String,
    pub fingerprint: String,
}

// ---------------------------------------------------------------------------
// The primitives
// ---------------------------------------------------------------------------

/// The SHA-256 digest of `bytes`.
pub uninterp spec fn sha256_digest(bytes: Seq<u8>) -> Seq<u8>;

/// `sha2::Sha256::digest`; claims that the result is the crate's function of
/// the input and, as SHA-256 always is, 32 bytes long.
#[verifier::external_body]
pub(crate) fn sha256(bytes: &[u8]) -> (r: Vec<u8>)
    ensures
        r@ == sha256_digest(bytes@),
        r@.len() == 32,
{
    sha2::Sha256::digest(bytes).to_vec()
}

/// The standard padded Base64 text of `bytes`.
pub uninterp spec fn base64_text(bytes: Seq<u8>) -> Seq<char>;

/// What standard Base64 decoding gives for `text`, `None` when it refuses.
pub uninterp spec fn base64_bytes(text: Seq<char>) -> Option<Seq<u8>>;

/// `base64::engine::general_purpose::STANDARD.encode`; claims the result is
/// the crate's function of the bytes, and that decoding it gives the bytes
/// back.
#[verifier::external_body]
pub(crate) fn b64_encode(bytes: &[u8]) -> (r: String)
    ensures
        r@ == base64_text(bytes@),
        base64_bytes(r@) == Some(bytes@),
{
    base64::engine::general_purpose::STANDARD.encode(bytes)
}

/// `STANDARD.decode`; claims only that the result is the crate's function of
/// the text.
#[verifier::external_body]
pub(crate) fn b64_decode(text: &str) -> (r: Option<Vec<u8>>)
    ensures
        match r {
            Some(b) => base64_bytes(text@) == Some(b@),
            None => base64_bytes(text@) is None,
        },
{
    match base64::engine::general_purpose::STANDARD.decode(text) {
        Ok(b) => Some(b),
        Err(_) => None,
    }
}

/// The Ed25519 public key of a 32-byte secret key.
pub uninterp spec fn ed25519_public_key(secret: Seq<u8>) -> Seq<u8>;

/// Whether `VerifyingKey::from_bytes` accepts a 32-byte public key.
pub uninterp spec fn ed25519_key_accepted(public: Seq<u8>) -> bool;

/// The (deterministic) Ed25519 signature of `message` under `secret`.
pub uninterp spec fn ed25519_signature(secret: Seq<u8>, message: Seq<u8>) -> Seq<u8>;

/// Whether `VerifyingKey::verify` accepts `signature` on `message`.
pub uninterp spec fn ed25519_verifies(public: Seq<u8>, message: Seq<u8>, signature: Seq<u8>) -> bool;

/// `SigningKey::from_bytes(secret).verifying_key().to_bytes()`; claims the
/// key is the crate's function of the secret, 32 bytes, and a valid key.
#[verifier::external_body]
pub(crate) fn ed25519_public(secret: &[u8]) -> (r: Vec<u8>)
    requires
        secret@.len() == 32,
    ensures
        r@ == ed25519_public_key(secret@),
        r@.len() == 32,
        ed25519_key_accepted(r@),
{
    let bytes: [u8; 32] = secret.try_into().unwrap();
    ed25519_dalek::SigningKey::from_bytes(&bytes).verifying_key().to_bytes().to_vec()
}

/// `SigningKey::from_bytes(secret).sign(message)`; claims the signature is
/// the crate's function of the secret and message, 64 bytes, and accepted
/// by the matching public key (Ed25519 correctness).
#[verifier::external_body]
pub(crate) fn ed25519_sign(secret: &[u8], message: &[u8]) -> (r: Vec<u8>)
    requires
        secret@.len() == 32,
    ensures
        r@ == ed25519_signature(secret@, message@),
        r@.len() == 64,
        ed25519_verifies(ed25519_public_key(secret@), message@, r@),
{
    let bytes: [u8; 32] = secret.try_into().unwrap();
    ed25519_dalek::SigningKey::from_bytes(&bytes).sign(message).to_bytes().to_vec()
}

/// Whether `VerifyingKey::from_bytes` accepts `public`; claims only that the
/// answer is the crate's function of the bytes.
#[verifier::external_body]
pub(crate) fn ed25519_key_valid(public: &[u8]) -> (r: bool)
    requires
        public@.len() == 32,
    ensures
        r == ed25519_key_accepted(public@),
{
    let key: [u8; 32] = public.try_into().unwrap();
    ed25519_dalek::VerifyingKey::from_bytes(&key).is_ok()
}

/// `VerifyingKey::verify(message, signature)` under an accepted key; claims
/// only that the answer is the crate's function of the three inputs.
#[verifier::external_body]
pub(crate) fn ed25519_check(public: &[u8], message: &[u8], signature: &[u8]) -> (r: bool)
    requires
        public@.len() == 32,
        signature@.len() == 64,
        ed25519_key_accepted(public@),
    ensures
        r == ed25519_verifies(public@, message@, signature@),
{
    let key: [u8; 32] = public.try_into().unwrap();
    let sig: [u8; 64] = signature.try_into().unwrap();
    match ed25519_dalek::VerifyingKey::from_bytes(&key) {
        Ok(verifying) => verifying.verify(message, &ed25519_dalek::Signature::from_bytes(&sig)).is_ok(),
        Err(_) => false,
    }
}

/// AES-256-GCM encryption of `plaintext` under `key` and `nonce`.
pub uninterp spec fn aes_gcm_ciphertext(key: Seq<u8>, nonce: Seq<u8>, plaintext: Seq<u8>) -> Option<Seq<u8>>;

/// AES-256-GCM authenticated decryption, `None` when authentication fails.
pub uninterp spec fn aes_gcm_plaintext(key: Seq<u8>, nonce: Seq<u8>, ciphertext: Seq<u8>) -> Option<Seq<u8>>;

/// `Aes256Gcm::new_from_slice(key)` and `encrypt(nonce, plaintext)`; claims
/// the result is the crate's function of the three inputs and that
/// decrypting it gives the plaintext back.
#[verifier::external_body]
pub(crate) fn aes_gcm_encrypt(key: &[u8], nonce: &[u8], plaintext: &[u8]) -> (r: Option<Vec<u8>>)
    requires
        key@.len() == 32,
        nonce@.len() == 12,
    ensures
        match r {
            Some(c) => aes_gcm_ciphertext(key@, nonce@, plaintext@) == Some(c@) && aes_gcm_plaintext(
                key@,
                nonce@,
                c@,
            ) == Some(plaintext@),
            None => aes_gcm_ciphertext(key@, nonce@, plaintext@) is None,
        },
{
    match aes_gcm::Aes256Gcm::new_from_slice(key) {
        Ok(cipher) => match cipher.encrypt(aes_gcm::Nonce::from_slice(nonce), plaintext) {
            Ok(c) => Some(c),
            Err(_) => None,
        },
        Err(_) => None,
    }
}

/// `Aes256Gcm::new_from_slice(key)` and `decrypt(nonce, ciphertext)`; claims
/// only that the result is the crate's function of the three inputs.
#[verifier::external_body]
pub(crate) fn aes_gcm_decrypt(key: &[u8], nonce: &[u8], ciphertext: &[u8]) -> (r: Option<Vec<u8>>)
    requires
        key@.len() == 32,
        nonce@.len() == 12,
    ensures
        match r {
            Some(p) => aes_gcm_plaintext(key@, nonce@, ciphertext@) == Some(p@),
            None => aes_gcm_plaintext(key@, nonce@, ciphertext@) is None,
        },
{
    match aes_gcm::Aes256Gcm::new_from_slice(key) {
        Ok(cipher) => match cipher.decrypt(aes_gcm::Nonce::from_slice(nonce), ciphertext) {
            Ok(p) => Some(p),
            Err(_) => None,
        },
        Err(_) => None,
    }
}

/// The X25519 public key of a 32-byte secret.
pub uninterp spec fn x25519_public_key(secret: Seq<u8>) -> Seq<u8>;

/// The X25519 shared secret of a secret and a peer's public key.
pub uninterp spec fn x25519_shared_secret(secret: Seq<u8>, peer_public: Seq<u8>) -> Seq<u8>;

/// `PublicKey::from(&StaticSecret::from(secret))`; claims the key is the
/// crate's function of the secret and 32 bytes.
#[verifier::external_body]
pub(crate) fn x25519_public(secret: &[u8]) -> (r: Vec<u8>)
    requires
        secret@.len() == 32,
    ensures
        r@ == x25519_public_key(secret@),
        r@.len() == 32,
{
    let bytes: [u8; 32] = secret.try_into().unwrap();
    let secret = x25519_dalek::StaticSecret::from(bytes);
    x25519_dalek::PublicKey::from(&secret).as_bytes().to_vec()
}

/// `StaticSecret::from(secret).diffie_hellman(&PublicKey::from(peer))`;
/// claims the shared secret is the crate's function of the two keys and, as
/// Diffie-Hellman gives, the same from either side of a pair of key pairs.
#[verifier::external_body]
pub(crate) fn x25519_diffie_hellman(secret: &[u8], peer_public: &[u8]) -> (r: Vec<u8>)
    requires
        secret@.len() == 32,
        peer_public@.len() == 32,
    ensures
        r@ == x25519_shared_secret(secret@, peer_public@),
        forall|other: Seq<u8>|
            other.len() == 32 && peer_public@ == #[trigger] x25519_public_key(other) ==> r@ == x25519_shared_secret(
                other,
                x25519_public_key(secret@),
            ),
{
    let bytes: [u8; 32] = secret.try_into().unwrap();
    let peer: [u8; 32] = peer_public.try_into().unwrap();
    let secret = x25519_dalek::StaticSecret::from(bytes);
    secret.diffie_hellman(&x25519_dalek::PublicKey::from(peer)).as_bytes().to_vec()
}

/// `OsRng.try_fill_bytes` into `n` fresh bytes; `None` when the operating
/// system refuses. Nothing is claimed of the bytes but their number.
#[verifier::external_body]
pub(crate) fn random_bytes(n: usize) -> (r: Option<Vec<u8>>)
    ensures
        r matches Some(b) ==> b@.len() == n,
{
    let mut bytes = vec![0u8; n];
    match rand::rngs::OsRng.try_fill_bytes(&mut bytes) {
        Ok(()) => Some(bytes),
        Err(_) => None,
    }
}

// ---------------------------------------------------------------------------
// Keys
// ---------------------------------------------------------------------------

/// The lower-case hexadecimal SHA-256 of `input`.
pub fn sha256_hex(input: &[u8]) -> (r: String)
    ensures
        r@ == spec_hex(sha256_digest(input@)),
{
    let d = sha256(input);
    hex_lower(d.as_slice())
}

/// The first `n` groups of four characters of `s`, joined by dashes.
pub open spec fn dashed_groups(s: Seq<char>, n: nat) -> Seq<char>
    decreases n,
{
    if n == 0 {
        Seq::empty()
    } else if n == 1 {
        s.subrange(0, 4)
    } else {
        dashed_groups(s, (n - 1) as nat) + seq!['-'] + s.subrange(4 * (n - 1), (4 * n) as int)
    }
}

/// A device's fingerprint: the first 32 hex digits of the SHA-256 of its
/// signing and exchange public keys, in dash-separated groups of four.
pub open spec fn spec_fingerprint(signing_public: Seq<u8>, exchange_public: Seq<u8>) -> Seq<char> {
    dashed_groups(spec_hex(sha256_digest(signing_public + exchange_public)), 8)
}

pub fn fingerprint(signing_public: &[u8], exchange_public: &[u8]) -> (r: String)
    ensures
        r@ == spec_fingerprint(signing_public@, exchange_public@),
{
    let mut input: Vec<u8> = Vec::new();
    let mut i: usize = 0;
    while i < signing_public.len()
        invariant
            i <= signing_public@.len(),
            input@ == signing_public@.subrange(0, i as int),
        decreases signing_public@.len() - i,
    {
        input.push(signing_public[i]);
        i = i + 1;
    }
    let mut j: usize = 0;
    while j < exchange_public.len()
        invariant
            i == signing_public@.len(),
            j <= exchange_public@.len(),
            input@ == signing_public@.subrange(0, i as int) + exchange_public@.subrange(0, j as int),
        decreases exchange_public@.len() - j,
    {
        input.push(exchange_public[j]);
        j = j + 1;
    }
    assert(signing_public@.subrange(0, i as int) == signing_public@);
    assert(exchange_public@.subrange(0, j as int) == exchange_public@);
    let digest = sha256(input.as_slice());
    let hex = hex_lower(digest.as_slice());
    let chars = chars_of(hex.as_str());
    proof {
        crate::text::lemma_hex_len(digest@);
    }
    let mut out = string_from_range(&chars, 0, 4);
    let mut g: usize = 1;
    while g < 8
        invariant
            chars@ == spec_hex(sha256_digest(signing_public@ + exchange_public@)),
            chars@.len() == 64,
            1 <= g <= 8,
            out@ == dashed_groups(chars@, g as nat),
        decreases 8 - g,
    {
        crate::text::push_char(&mut out, '-');
        let part = string_from_range(&chars, 4 * g, 4 * g + 4);
        push_str(&mut out, part.as_str());
        g = g + 1;
    }
    out
}

/// Fresh device keys: an Ed25519 signing key and an X25519 exchange key,
/// their public halves in Base64, and the fingerprint of the public halves.
/// `None` when the operating system gives no random bytes.
pub fn generate_device_keys() -> (r: Option<DeviceKeyMaterial>)
    ensures
        r matches Some(k) ==> {
            &&& k.signing_secret@.len() == 32
            &&& k.exchange_secret@.len() == 32
            &&& k.signing_public_b64@ == base64_text(ed25519_public_key(k.signing_secret@))
            &&& base64_bytes(k.signing_public_b64@) == Some(ed25519_public_key(k.signing_secret@))
            &&& ed25519_key_accepted(ed25519_public_key(k.signing_secret@))
            &&& base64_bytes(k.exchange_public_b64@) == Some(x25519_public_key(k.exchange_secret@))
            &&& k.exchange_public_b64@ == base64_text(x25519_public_key(k.exchange_secret@))
            &&& k.fingerprint@ == spec_fingerprint(
                ed25519_public_key(k.signing_secret@),
                x25519_public_key(k.exchange_secret@),
            )
        },
{
    let signing_secret = match random_bytes(32) {
        Some(b) => b,
        None => return None,
    };
    let exchange_secret = match random_bytes(32) {
        Some(b) => b,
        None => return None,
    };
    let signing_public = ed25519_public(signing_secret.as_slice());
    let exchange_public = x25519_public(exchange_secret.as_slice());
    let fingerprint = fingerprint(signing_public.as_slice(), exchange_public.as_slice());
    Some(DeviceKeyMaterial {
        signing_secret,
        signing_public_b64: b64_encode(signing_public.as_slice()),
        exchange_secret,
        exchange_public_b64: b64_encode(exchange_public.as_slice()),
        fingerprint,
    })
}

/// A fresh 32-byte group data key; `None` when the operating system gives
/// no random bytes.
pub fn generate_group_key() -> (r: Option<Vec<u8>>)
    ensures
        r matches Some(k) ==> k@.len() == 32,
{
    random_bytes(32)
}

// ---------------------------------------------------------------------------
// Checks and decoding
// ---------------------------------------------------------------------------

/// The group data key is 32 bytes.
pub fn validate_symmetric_key(key: &[u8]) -> (r: Result<(), SyncError>)
    ensures
        r is Ok <==> key@.len() == 32,
        r matches Err(e) ==> e matches SyncError::Crypto(m) && m@ == "同步组数据密钥必须为 32 字节"@,
{
    if key.len() != 32 {
        return Err(SyncError::Crypto(owned("同步组数据密钥必须为 32 字节")));
    }
    Ok(())
}

/// Base64 text that must decode to exactly `n` bytes; `label` names it in
/// the refusal.
pub fn decode_fixed(value: &str, n: usize, label: &str) -> (r: Result<Vec<u8>, SyncError>)
    ensures
        match base64_bytes(value@) {
            None => r matches Err(SyncError::Crypto(m)) && m@ == label@ + " 不是有效 Base64"@,
            Some(b) => if b.len() == n {
                r matches Ok(v) && v@ == b
            } else {
                r matches Err(SyncError::Crypto(m)) && m@ == label@ + " 长度错误"@
            },
        },
{
    let decoded = match b64_decode(value) {
        Some(d) => d,
        None => {
            let mut m = owned(label);
            push_str(&mut m, " 不是有效 Base64");
            return Err(SyncError::Crypto(m));
        },
    };
    decode_slice_fixed(decoded, n, label)
}

/// Bytes that must be exactly `n` long.
pub fn decode_slice_fixed(value: Vec<u8>, n: usize, label: &str) -> (r: Result<Vec<u8>, SyncError>)
    ensures
        if value@.len() == n {
            r matches Ok(v) && v@ == value@
        } else {
            r matches Err(SyncError::Crypto(m)) && m@ == label@ + " 长度错误"@
        },
{
    if value.len() != n {
        let mut m = owned(label);
        push_str(&mut m, " 长度错误");
        return Err(SyncError::Crypto(m));
    }
    Ok(value)
}

// ---------------------------------------------------------------------------
// Signatures
// ---------------------------------------------------------------------------

/// A detached signature over `message`, in Base64.
pub fn sign_detached(signing_secret: &[u8], message: &[u8]) -> (r: Result<String, SyncError>)
    ensures
        signing_secret@.len() == 32 <==> r is Ok,
        r matches Ok(s) ==> s@ == base64_text(ed25519_signature(signing_secret@, message@)) && base64_bytes(s@)
            == Some(ed25519_signature(signing_secret@, message@)) && ed25519_signature(signing_secret@, message@).len()
            == 64 && ed25519_verifies(
            ed25519_public_key(signing_secret@),
            message@,
            ed25519_signature(signing_secret@, message@),
        ),
        r matches Err(e) ==> e matches SyncError::Crypto(m) && m@ == "设备签名私钥长度错误"@,
{
    if signing_secret.len() != 32 {
        return Err(SyncError::Crypto(owned("设备签名私钥长度错误")));
    }
    let sig = ed25519_sign(signing_secret, message);
    Ok(b64_encode(sig.as_slice()))
}

/// What checking a detached signature concludes.
pub open spec fn spec_verify_detached(public_b64: Seq<char>, message: Seq<u8>, signature_b64: Seq<char>) -> bool {
    &&& decodes_to_len(public_b64, 32)
    &&& decodes_to_len(signature_b64, 64)
    &&& ed25519_key_accepted(base64_bytes(public_b64)->Some_0)
    &&& ed25519_verifies(base64_bytes(public_b64)->Some_0, message, base64_bytes(signature_b64)->Some_0)
}

/// The error a refused detached signature gives: a malformed key or
/// signature is a crypto error, one that does not verify an integrity failure.
pub open spec fn signature_refusal(public_b64: Seq<char>, message: Seq<u8>, signature_b64: Seq<char>, e: SyncError) -> bool {
    match base64_bytes(public_b64) {
        None => e matches SyncError::Crypto(m) && m@ == "签名公钥"@ + " 不是有效 Base64"@,
        Some(p) => if p.len() != 32 {
            e matches SyncError::Crypto(m) && m@ == "签名公钥"@ + " 长度错误"@
        } else {
            match base64_bytes(signature_b64) {
                None => e matches SyncError::Crypto(m) && m@ == "签名"@ + " 不是有效 Base64"@,
                Some(sig) => if sig.len() != 64 {
                    e matches SyncError::Crypto(m) && m@ == "签名"@ + " 长度错误"@
                } else if !ed25519_key_accepted(p) {
                    e matches SyncError::Crypto(m) && m@ == "设备签名公钥无效"@
                } else {
                    e matches SyncError::Integrity(m) && m@ == "签名验证失败"@
                },
            }
        },
    }
}

/// Checks a detached signature; a signature that does not verify is an
/// integrity failure, a malformed key or signature a crypto error.
pub fn verify_detached(signing_public_b64: &str, message: &[u8], signature_b64: &str) -> (r: Result<(), SyncError>)
    ensures
        r is Ok <==> spec_verify_detached(signing_public_b64@, message@, signature_b64@),
        r matches Err(e) ==> signature_refusal(signing_public_b64@, message@, signature_b64@, e),
{
    let public = match decode_fixed(signing_public_b64, 32, "签名公钥") {
        Ok(p) => p,
        Err(e) => return Err(e),
    };
    let signature = match decode_fixed(signature_b64, 64, "签名") {
        Ok(s) => s,
        Err(e) => return Err(e),
    };
    if !ed25519_key_valid(public.as_slice()) {
        return Err(SyncError::Crypto(owned("设备签名公钥无效")));
    }
    if ed25519_check(public.as_slice(), message, signature.as_slice()) {
        Ok(())
    } else {
        Err(SyncError::Integrity(owned("签名验证失败")))
    }
}

// ---------------------------------------------------------------------------
// Key exchange
// ---------------------------------------------------------------------------

pub open spec fn exchange_label() -> Seq<u8> {
    "fanglv-caseboard-device-sync-x25519-v1"@.map_values(|c: char| c as u8)
}

/// The wrapping key two devices agree on: SHA-256 of a fixed label, the
/// context and the X25519 shared secret.
pub open spec fn spec_exchange_key(secret: Seq<u8>, peer_public: Seq<u8>, context: Seq<u8>) -> Seq<u8> {
    sha256_digest(exchange_label() + context + x25519_shared_secret(secret, peer_public))
}

fn label_bytes() -> (r: Vec<u8>)
    ensures
        r@ == exchange_label(),
{
    let r: Vec<u8> = vec![
        0x66, 0x61, 0x6e, 0x67, 0x6c, 0x76, 0x2d, 0x63, 0x61, 0x73, 0x65, 0x62, 0x6f, 0x61, 0x72, 0x64,
        0x2d, 0x64, 0x65, 0x76, 0x69, 0x63, 0x65, 0x2d, 0x73, 0x79, 0x6e, 0x63, 0x2d, 0x78, 0x32, 0x35,
        0x35, 0x31, 0x39, 0x2d, 0x76, 0x31,
    ];
    proof {
        reveal_strlit("fanglv-caseboard-device-sync-x25519-v1");
    }
    assert(r@ =~= exchange_label());
    r
}

fn append_bytes(out: &mut Vec<u8>, more: &[u8])
    ensures
        final(out)@ == old(out)@ + more@,
{
    let mut i: usize = 0;
    let ghost start = out@;
    while i < more.len()
        invariant
            i <= more@.len(),
            out@ == start + more@.subrange(0, i as int),
        decreases more@.len() - i,
    {
        out.push(more[i]);
        i = i + 1;
    }
    assert(more@.subrange(0, i as int) == more@);
}

/// Base64 text that decodes to exactly `n` bytes.
pub open spec fn decodes_to_len(text: Seq<char>, n: nat) -> bool {
    base64_bytes(text) matches Some(b) && b.len() == n
}

/// Derives the key that wraps group keys between two devices.
pub fn derive_exchange_key(exchange_secret: &[u8], peer_public_b64: &str, context: &[u8]) -> (r: Result<Vec<u8>, SyncError>)
    ensures
        (exchange_secret@.len() == 32 && decodes_to_len(peer_public_b64@, 32)) <==> r is Ok,
        r matches Ok(k) ==> k@ == spec_exchange_key(exchange_secret@, base64_bytes(peer_public_b64@)->Some_0, context@),
{
    if exchange_secret.len() != 32 {
        return Err(SyncError::Crypto(owned("交换私钥 长度错误")));
    }
    let peer = match decode_fixed(peer_public_b64, 32, "交换公钥") {
        Ok(p) => p,
        Err(e) => return Err(e),
    };
    let shared = x25519_diffie_hellman(exchange_secret, peer.as_slice());
    let mut input = label_bytes();
    append_bytes(&mut input, context);
    append_bytes(&mut input, shared.as_slice());
    Ok(sha256(input.as_slice()))
}

// ---------------------------------------------------------------------------
// Envelopes
// ---------------------------------------------------------------------------

/// What a refusal says: its code and its detail.
pub open spec fn failure(e: SyncError) -> (Seq<char>, Seq<char>) {
    (super::spec_sync_code(e), match e {
        SyncError::Crypto(m) => m@,
        SyncError::Integrity(m) => m@,
        SyncError::Protocol(m) => m@,
        _ => Seq::empty(),
    })
}

/// The bytes a device signs: the header's canonical JSON, the nonce and the
/// ciphertext.
pub open spec fn signed_bytes(header_json: Seq<u8>, nonce: Seq<u8>, ciphertext: Seq<u8>) -> Seq<u8> {
    header_json + nonce + ciphertext
}

/// `env` seals `plaintext` under `key`, signed with `secret` over the header
/// bytes `header_json`: for some fresh 12-byte nonce, its fields hold the
/// nonce, the AES-GCM ciphertext, the ciphertext's SHA-256 and the signature,
/// each in the form stored.
pub open spec fn sealed_with(
    env: EncryptedEnvelope,
    header_json: Seq<u8>,
    plaintext: Seq<u8>,
    key: Seq<u8>,
    secret: Seq<u8>,
) -> bool {
    exists|nonce: Seq<u8>, ct: Seq<u8>| #[trigger] sealed_by(env, header_json, plaintext, key, secret, nonce, ct)
}

/// `env` holds `nonce` and the ciphertext `ct` of `plaintext` as `seal`
/// writes them.
pub open spec fn sealed_by(
    env: EncryptedEnvelope,
    header_json: Seq<u8>,
    plaintext: Seq<u8>,
    key: Seq<u8>,
    secret: Seq<u8>,
    nonce: Seq<u8>,
    ct: Seq<u8>,
) -> bool {
    &&& nonce.len() == 12
    &&& aes_gcm_ciphertext(key, nonce, plaintext) == Some(ct)
    &&& aes_gcm_plaintext(key, nonce, ct) == Some(plaintext)
    &&& env.nonce_b64@ == base64_text(nonce)
    &&& base64_bytes(env.nonce_b64@) == Some(nonce)
    &&& env.ciphertext_b64@ == base64_text(ct)
    &&& base64_bytes(env.ciphertext_b64@) == Some(ct)
    &&& env.ciphertext_sha256@ == spec_hex(sha256_digest(ct))
    &&& env.signature_b64@ == base64_text(ed25519_signature(secret, signed_bytes(header_json, nonce, ct)))
    &&& base64_bytes(env.signature_b64@) == Some(ed25519_signature(secret, signed_bytes(header_json, nonce, ct)))
    &&& ed25519_signature(secret, signed_bytes(header_json, nonce, ct)).len() == 64
    &&& ed25519_verifies(ed25519_public_key(secret), signed_bytes(header_json, nonce, ct), ed25519_signature(secret, signed_bytes(header_json, nonce, ct)))
}

/// Encrypts and signs a payload. `header_json` is the header's canonical
/// JSON; the nonce is fresh from the operating system.
pub fn seal(
    header: EnvelopeHeader,
    header_json: &[u8],
    plaintext: &[u8],
    group_key: &[u8],
    signing_secret: &[u8],
) -> (r: Result<EncryptedEnvelope, SyncError>)
    ensures
        group_key@.len() != 32 ==> (r matches Err(e) && failure(e) == ("SYNC_CRYPTO"@, "同步组数据密钥必须为 32 字节"@)),
        group_key@.len() == 32 && signing_secret@.len() != 32 ==> (r matches Err(e) && failure(e) == (
            "SYNC_CRYPTO"@,
            "设备签名私钥长度错误"@,
        )),
        r matches Ok(env) ==> env.header == header && sealed_with(env, header_json@, plaintext@, group_key@, signing_secret@),
{
    match validate_symmetric_key(group_key) {
        Ok(()) => {},
        Err(e) => return Err(e),
    }
    if signing_secret.len() != 32 {
        return Err(SyncError::Crypto(owned("设备签名私钥长度错误")));
    }
    let nonce = match random_bytes(12) {
        Some(n) => n,
        None => return Err(SyncError::Crypto(owned("无法生成随机 nonce"))),
    };
    let ciphertext = match aes_gcm_encrypt(group_key, nonce.as_slice(), plaintext) {
        Some(c) => c,
        None => return Err(SyncError::Crypto(owned("信封加密失败"))),
    };
    let ciphertext_sha256 = sha256_hex(ciphertext.as_slice());
    let mut signed: Vec<u8> = Vec::new();
    append_bytes(&mut signed, header_json);
    append_bytes(&mut signed, nonce.as_slice());
    append_bytes(&mut signed, ciphertext.as_slice());
    let signature = ed25519_sign(signing_secret, signed.as_slice());
    let env = EncryptedEnvelope {
        header,
        nonce_b64: b64_encode(nonce.as_slice()),
        ciphertext_b64: b64_encode(ciphertext.as_slice()),
        ciphertext_sha256,
        signature_b64: b64_encode(signature.as_slice()),
    };
    assert(sealed_by(env, header_json@, plaintext@, group_key@, signing_secret@, nonce@, ciphertext@));
    Ok(env)
}

/// What opening an envelope concludes: the plaintext, or the first refusal
/// in the order the checks run (protocol version, key length, nonce,
/// ciphertext encoding, ciphertext digest, signing key, signature,
/// authenticated decryption).
pub open spec fn spec_open(
    env: EncryptedEnvelope,
    header_json: Seq<u8>,
    key: Seq<u8>,
    public_b64: Seq<char>,
) -> Result<Seq<u8>, (Seq<char>, Seq<char>)> {
    if env.header.protocol_version != PROTOCOL_VERSION {
        Err(("SYNC_PROTOCOL"@, "不支持协议版本 "@ + crate::text::spec_decimal(env.header.protocol_version as nat)))
    } else if key.len() != 32 {
        Err(("SYNC_CRYPTO"@, "同步组数据密钥必须为 32 字节"@))
    } else {
        match base64_bytes(env.nonce_b64@) {
            None => Err(("SYNC_CRYPTO"@, "nonce"@ + " 不是有效 Base64"@)),
            Some(nonce) => if nonce.len() != 12 {
                Err(("SYNC_CRYPTO"@, "nonce"@ + " 长度错误"@))
            } else {
                match base64_bytes(env.ciphertext_b64@) {
                    None => Err(("SYNC_CRYPTO"@, "信封密文不是有效 Base64"@)),
                    Some(ct) => if spec_hex(sha256_digest(ct)) != env.ciphertext_sha256@ {
                        Err(("SYNC_INTEGRITY"@, "密文哈希不匹配"@))
                    } else {
                        match base64_bytes(public_b64) {
                            None => Err(("SYNC_CRYPTO"@, "签名公钥"@ + " 不是有效 Base64"@)),
                            Some(pk) => if pk.len() != 32 {
                                Err(("SYNC_CRYPTO"@, "签名公钥"@ + " 长度错误"@))
                            } else if !ed25519_key_accepted(pk) {
                                Err(("SYNC_CRYPTO"@, "设备签名公钥无效"@))
                            } else {
                                match base64_bytes(env.signature_b64@) {
                                    None => Err(("SYNC_CRYPTO"@, "签名"@ + " 不是有效 Base64"@)),
                                    Some(sig) => if sig.len() != 64 {
                                        Err(("SYNC_CRYPTO"@, "签名"@ + " 长度错误"@))
                                    } else if !ed25519_verifies(pk, signed_bytes(header_json, nonce, ct), sig) {
                                        Err(("SYNC_INTEGRITY"@, "信封签名验证失败"@))
                                    } else {
                                        match aes_gcm_plaintext(key, nonce, ct) {
                                            Some(p) => Ok(p),
                                            None => Err(("SYNC_INTEGRITY"@, "信封认证或解密失败"@)),
                                        }
                                    }
                                }
                            }
                        }
                    }
                }
            }
        }
    }
}

fn integrity(m: &str) -> (e: SyncError)
    ensures
        failure(e) == ("SYNC_INTEGRITY"@, m@),
{
    SyncError::Integrity(owned(m))
}

fn crypto(m: String) -> (e: SyncError)
    ensures
        failure(e) == ("SYNC_CRYPTO"@, m@),
{
    SyncError::Crypto(m)
}

/// Checks and decrypts an envelope from the device whose signing key is
/// `expected_signing_public_b64`; `header_json` is the canonical JSON of
/// the envelope's header.
pub fn open(
    envelope: &EncryptedEnvelope,
    header_json: &[u8],
    group_key: &[u8],
    expected_signing_public_b64: &str,
) -> (r: Result<Vec<u8>, SyncError>)
    ensures
        match spec_open(*envelope, header_json@, group_key@, expected_signing_public_b64@) {
            Ok(p) => r matches Ok(v) && v@ == p,
            Err(f) => r matches Err(e) && failure(e) == f,
        },
{
    if envelope.header.protocol_version != PROTOCOL_VERSION {
        let mut m = owned("不支持协议版本 ");
        push_str(&mut m, crate::text::decimal_u64(envelope.header.protocol_version as u64).as_str());
        return Err(SyncError::Protocol(m));
    }
    if group_key.len() != 32 {
        return Err(crypto(owned("同步组数据密钥必须为 32 字节")));
    }
    let nonce = match decode_fixed(envelope.nonce_b64.as_str(), 12, "nonce") {
        Ok(n) => n,
        Err(e) => return Err(e),
    };
    let ciphertext = match b64_decode(envelope.ciphertext_b64.as_str()) {
        Some(c) => c,
        None => return Err(crypto(owned("信封密文不是有效 Base64"))),
    };
    let digest = sha256_hex(ciphertext.as_slice());
    if !crate::text::str_eq(digest.as_str(), envelope.ciphertext_sha256.as_str()) {
        return Err(integrity("密文哈希不匹配"));
    }
    let public = match decode_fixed(expected_signing_public_b64, 32, "签名公钥") {
        Ok(p) => p,
        Err(e) => return Err(e),
    };
    if !ed25519_key_valid(public.as_slice()) {
        return Err(crypto(owned("设备签名公钥无效")));
    }
    let signature = match decode_fixed(envelope.signature_b64.as_str(), 64, "签名") {
        Ok(s) => s,
        Err(e) => return Err(e),
    };
    let mut signed: Vec<u8> = Vec::new();
    append_bytes(&mut signed, header_json);
    append_bytes(&mut signed, nonce.as_slice());
    append_bytes(&mut signed, ciphertext.as_slice());
    if !ed25519_check(public.as_slice(), signed.as_slice(), signature.as_slice()) {
        return Err(integrity("信封签名验证失败"));
    }
    match aes_gcm_decrypt(group_key, nonce.as_slice(), ciphertext.as_slice()) {
        Some(p) => Ok(p),
        None => Err(integrity("信封认证或解密失败")),
    }
}

/// What is sealed opens: an envelope sealed under a group key and a device's
/// signing key opens, under the same key and that device's public key, to
/// the sealed plaintext.
pub proof fn lemma_seal_then_open(
    env: EncryptedEnvelope,
    header_json: Seq<u8>,
    plaintext: Seq<u8>,
    key: Seq<u8>,
    secret: Seq<u8>,
    public_b64: Seq<char>,
)
    requires
        env.header.protocol_version == PROTOCOL_VERSION,
        key.len() == 32,
        sealed_with(env, header_json, plaintext, key, secret),
        base64_bytes(public_b64) == Some(ed25519_public_key(secret)),
        ed25519_public_key(secret).len() == 32,
        ed25519_key_accepted(ed25519_public_key(secret)),
    ensures
        spec_open(env, header_json, key, public_b64) == Ok::<Seq<u8>, (Seq<char>, Seq<char>)>(plaintext),
{
    let (nonce, ct) = choose|nonce: Seq<u8>, ct: Seq<u8>| #[trigger] sealed_by(env, header_json, plaintext, key, secret, nonce, ct);
}

/// A changed ciphertext digest is refused as an integrity failure before any
/// key or signature is looked at.
pub proof fn lemma_tampered_digest_is_refused(
    env: EncryptedEnvelope,
    header_json: Seq<u8>,
    key: Seq<u8>,
    public_b64: Seq<char>,
    nonce: Seq<u8>,
    ct: Seq<u8>,
)
    requires
        env.header.protocol_version == PROTOCOL_VERSION,
        key.len() == 32,
        base64_bytes(env.nonce_b64@) == Some(nonce),
        nonce.len() == 12,
        base64_bytes(env.ciphertext_b64@) == Some(ct),
        env.ciphertext_sha256@ != spec_hex(sha256_digest(ct)),
    ensures
        spec_open(env, header_json, key, public_b64) == Err::<Seq<u8>, (Seq<char>, Seq<char>)>(
            ("SYNC_INTEGRITY"@, "密文哈希不匹配"@),
        ),
{
}

/// PBKDF2-HMAC-SHA256 of a password and a salt over `rounds` iterations,
/// 32 bytes long.
pub uninterp spec fn pbkdf2_sha256_key(password: Seq<u8>, salt: Seq<u8>, rounds: u32) -> Seq<u8>;

/// `pbkdf2::pbkdf2_hmac::<Sha256>` into a 32-byte buffer. The crate notes
/// that HMAC takes keys of any length, so the call does not fail; the buffer
/// keeps its length and holds the crate's function of the arguments.
#[verifier::external_body]
pub(crate) fn pbkdf2_sha256(password: &[u8], salt: &[u8], rounds: u32) -> (r: Vec<u8>)
    ensures
        r@ == pbkdf2_sha256_key(password@, salt@, rounds),
        r@.len() == 32,
{
    let mut key = vec![0u8; 32];
    pbkdf2::pbkdf2_hmac::<sha2::Sha256>(password, salt, rounds, &mut key);
    key
}

/// The HMAC-SHA256 tag of `message` under `key`.
pub uninterp spec fn hmac_sha256_tag(key: Seq<u8>, message: Seq<u8>) -> Seq<u8>;

/// `Hmac::<Sha256>::new_from_slice(key)`, `update(message)` and
/// `finalize`; claims that it succeeds (the crate's `new_from_slice` for
/// HMAC accepts a key of any length and always returns `Ok`) and that the
/// tag is the crate's function of the key and message.
#[verifier::external_body]
pub(crate) fn hmac_sha256(key: &[u8], message: &[u8]) -> (r: Option<Vec<u8>>)
    ensures
        r is Some,
        r matches Some(t) ==> t@ == hmac_sha256_tag(key@, message@),
{
    match <hmac::Hmac<sha2::Sha256> as hmac::Mac>::new_from_slice(key) {
        Ok(mut mac) => {
            mac.update(message);
            Some(mac.finalize().into_bytes().to_vec())
        },
        Err(_) => None,
    }
}

} // verus!
