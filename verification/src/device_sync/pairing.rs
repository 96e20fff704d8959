//! Pairing a new device into a sync group: the inviter's signed invite, the
//! joiner's request proved with the one-time pairing code, and the checks the
//! inviter runs before it hands over the group keys. Reading and writing the
//! NAS files, the database rows and the credential store is the caller's.
use vstd::prelude::*;

use super::crypto::{
    b64_encode, base64_bytes, base64_text, ed25519_key_accepted, ed25519_public_key, ed25519_signature, ed25519_verifies, hmac_sha256, hmac_sha256_tag, sha256_digest, sha256_hex,
    random_bytes, sign_detached, signature_refusal, spec_verify_detached, verify_detached,
};
use super::SyncError;
use crate::outside::{
    instant_of_rfc3339, invite_tuple_json_bytes, json_invite_bytes, json_strings_bytes, now_instant, rfc3339_instant,
    strings_json_bytes,
};
use crate::text::{chars_of, owned, spec_hex, spec_trim, str_eq, trim};
use vstd::utf8::encode_utf8;

verus! {

#[derive(Debug)]
pub struct PairingInvite {
    pub invite_id: String,
    pub group_id: String,
    pub inviter_device_id: String,
    pub inviter_signing_public_key: String,
    pub inviter_exchange_public_key: String,
    pub key_epoch: u32,
    pub expires_at: String,
    pub signature: String,
}

#[derive(Debug)]
pub struct CreatedInvite {
    pub group_id: String,
    pub invite_id: String,
    pub pairing_code: String,
    pub expires_at: String,
}

#[derive(Debug)]
pub struct JoinRequest {
    pub request_id: String,
    pub invite_id: String,
    pub group_id: String,
    pub device_id: String,
    pub display_name: String,
    pub signing_public_key: String,
    pub exchange_public_key: String,
    pub fingerprint: String,
    pub expires_at: String,
    pub proof_hash: String,
    pub request_signature: String,
}

#[derive(Debug)]
pub struct MemberPublic {
    pub device_id: String,
    pub display_name: String,
    pub signing_public_key: String,
    pub exchange_public_key: String,
    pub fingerprint: String,
    pub key_epoch: u32,
    pub status: String,
}

#[derive(Debug)]
pub struct JoinCompletion {
    pub group_id: String,
    pub device_id: String,
    pub key_epoch: u32,
    pub trusted_member_count: usize,
}

// ---------------------------------------------------------------------------
// Comparisons and codes
// ---------------------------------------------------------------------------

/// Compares two byte strings in time that depends only on their lengths.
pub fn constant_time_eq(left: &[u8], right: &[u8]) -> (r: bool)
    ensures
        r == (left@ == right@),
{
    if left.len() != right.len() {
        return false;
    }
    let mut diff: u8 = 0;
    let mut i: usize = 0;
    while i < left.len()
        invariant
            left@.len() == right@.len(),
            i <= left@.len(),
            (diff == 0) == (forall|k: int| 0 <= k < i ==> left@[k] == right@[k]),
        decreases left@.len() - i,
    {
        let a = left[i];
        let b = right[i];
        let next = diff | (a ^ b);
        assert((next == 0) == (diff == 0 && a == b)) by (bit_vector)
            requires
                next == diff | (a ^ b),
        ;
        diff = next;
        i = i + 1;
    }
    if diff == 0 {
        assert(left@ =~= right@);
    }
    diff == 0
}

/// The registered form of a pairing code: the hex SHA-256 of its UTF-8
/// bytes.
pub fn hash_code(code: &str) -> (r: String)
    ensures
        r@ == spec_hex(sha256_digest(encode_utf8(code@))),
{
    sha256_hex(code.as_bytes())
}

pub open spec fn join_proof_label() -> Seq<u8> {
    "fanglv-caseboard-join-proof-v1"@.map_values(|c: char| c as u8)
}

fn join_proof_label_bytes() -> (r: Vec<u8>)
    ensures
        r@ == join_proof_label(),
{
    let r: Vec<u8> = vec![
        0x66, 0x61, 0x6e, 0x67, 0x6c, 0x76, 0x2d, 0x63, 0x61, 0x73, 0x65, 0x62, 0x6f, 0x61, 0x72, 0x64,
        0x2d, 0x6a, 0x6f, 0x69, 0x6e, 0x2d, 0x70, 0x72, 0x6f, 0x6f, 0x66, 0x2d, 0x76, 0x31,
    ];
    proof {
        reveal_strlit("fanglv-caseboard-join-proof-v1");
    }
    assert(r@ =~= join_proof_label());
    r
}

/// The proof that a join request knows the pairing code: the Base64
/// HMAC-SHA256, keyed by the code, of a fixed label and the request bytes.
pub open spec fn spec_join_proof(code: Seq<u8>, message: Seq<u8>) -> Seq<char> {
    base64_text(hmac_sha256_tag(code, join_proof_label() + message))
}

pub fn join_proof(code: &str, message: &[u8]) -> (r: Result<String, SyncError>)
    ensures
        r matches Ok(p) && p@ == spec_join_proof(encode_utf8(code@), message@),
{
    let mut input = join_proof_label_bytes();
    let mut i: usize = 0;
    let ghost label = input@;
    while i < message.len()
        invariant
            label == join_proof_label(),
            i <= message@.len(),
            input@ == label + message@.subrange(0, i as int),
        decreases message@.len() - i,
    {
        input.push(message[i]);
        i = i + 1;
    }
    assert(message@.subrange(0, i as int) == message@);
    match hmac_sha256(code.as_bytes(), input.as_slice()) {
        Some(tag) => Ok(b64_encode(tag.as_slice())),
        None => Err(SyncError::Crypto(owned("无法初始化配对证明"))),
    }
}

/// The URL-safe, unpadded Base64 text of some bytes.
pub uninterp spec fn base64url_text(bytes: Seq<u8>) -> Seq<char>;

/// `base64::engine::general_purpose::URL_SAFE_NO_PAD.encode`; claims the
/// result is the crate's function of the bytes.
#[verifier::external_body]
fn b64url_encode(bytes: &[u8]) -> (r: String)
    ensures
        r@ == base64url_text(bytes@),
{
    base64::Engine::encode(&base64::engine::general_purpose::URL_SAFE_NO_PAD, bytes)
}

/// Some 20 bytes encode to this pairing code.
pub open spec fn is_pairing_code(code: Seq<char>) -> bool {
    exists|b: Seq<u8>| b.len() == 20 && #[trigger] base64url_text(b) == code
}

/// A fresh one-time pairing code: 20 random bytes as URL-safe unpadded
/// Base64; a crypto error when the operating system gives no random bytes,
/// which alone decides between the two.
pub fn new_pairing_code() -> (r: Result<String, SyncError>)
    ensures
        r matches Ok(c) ==> is_pairing_code(c@),
        r matches Err(e) ==> (e matches SyncError::Crypto(m) && m@ == "无法生成配对码"@),
{
    match random_bytes(20) {
        Some(b) => {
            let code = b64url_encode(b.as_slice());
            assert(b@.len() == 20 && base64url_text(b@) == code@);
            Ok(code)
        },
        None => Err(SyncError::Crypto(owned("无法生成配对码"))),
    }
}

// ---------------------------------------------------------------------------
// Signed bytes
// ---------------------------------------------------------------------------

pub open spec fn invite_head(invite: PairingInvite) -> Seq<Seq<char>> {
    seq![
        invite.invite_id@,
        invite.group_id@,
        invite.inviter_device_id@,
        invite.inviter_signing_public_key@,
        invite.inviter_exchange_public_key@,
    ]
}

/// What the inviter signs: the invite's fields, but the signature, as a JSON
/// array.
pub open spec fn spec_invite_signing_bytes(invite: PairingInvite) -> Seq<u8> {
    json_invite_bytes(invite_head(invite), invite.key_epoch, invite.expires_at@)
}

pub fn invite_signing_bytes(invite: &PairingInvite) -> (r: Result<Vec<u8>, SyncError>)
    ensures
        r matches Ok(b) && b@ == spec_invite_signing_bytes(*invite),
{
    let mut head: Vec<String> = Vec::new();
    head.push(invite.invite_id.clone());
    head.push(invite.group_id.clone());
    head.push(invite.inviter_device_id.clone());
    head.push(invite.inviter_signing_public_key.clone());
    head.push(invite.inviter_exchange_public_key.clone());
    assert(head@.map_values(|t: String| t@) =~= invite_head(*invite));
    match invite_tuple_json_bytes(&head, invite.key_epoch, invite.expires_at.as_str()) {
        Some(b) => Ok(b),
        None => Err(SyncError::Serialization(owned("邀请无法序列化"))),
    }
}

pub open spec fn join_fields(request: JoinRequest) -> Seq<Seq<char>> {
    seq![
        request.request_id@,
        request.invite_id@,
        request.group_id@,
        request.device_id@,
        request.display_name@,
        request.signing_public_key@,
        request.exchange_public_key@,
        request.fingerprint@,
        request.expires_at@,
    ]
}

/// What the pairing code proves: the request's identifying fields as a JSON
/// array.
pub open spec fn spec_join_proof_bytes(request: JoinRequest) -> Seq<u8> {
    json_strings_bytes(join_fields(request))
}

pub fn join_proof_bytes(request: &JoinRequest) -> (r: Result<Vec<u8>, SyncError>)
    ensures
        r matches Ok(b) && b@ == spec_join_proof_bytes(*request),
{
    let mut items: Vec<String> = Vec::new();
    items.push(request.request_id.clone());
    items.push(request.invite_id.clone());
    items.push(request.group_id.clone());
    items.push(request.device_id.clone());
    items.push(request.display_name.clone());
    items.push(request.signing_public_key.clone());
    items.push(request.exchange_public_key.clone());
    items.push(request.fingerprint.clone());
    items.push(request.expires_at.clone());
    assert(items@.map_values(|t: String| t@) =~= join_fields(*request));
    match strings_json_bytes(&items) {
        Some(b) => Ok(b),
        None => Err(SyncError::Serialization(owned("加入请求无法序列化"))),
    }
}

/// What the joining device signs: the proved bytes and the proof itself.
pub open spec fn spec_join_signing_bytes(request: JoinRequest) -> Seq<u8> {
    spec_join_proof_bytes(request) + encode_utf8(request.proof_hash@)
}

pub fn join_signing_bytes(request: &JoinRequest) -> (r: Result<Vec<u8>, SyncError>)
    ensures
        r matches Ok(b) && b@ == spec_join_signing_bytes(*request),
{
    let mut bytes = match join_proof_bytes(request) {
        Ok(b) => b,
        Err(e) => return Err(e),
    };
    let tail = request.proof_hash.as_str().as_bytes();
    let ghost head = bytes@;
    let mut i: usize = 0;
    while i < tail.len()
        invariant
            i <= tail@.len(),
            bytes@ == head + tail@.subrange(0, i as int),
        decreases tail@.len() - i,
    {
        bytes.push(tail[i]);
        i = i + 1;
    }
    assert(tail@.subrange(0, i as int) == tail@);
    Ok(bytes)
}

// ---------------------------------------------------------------------------
// Expiry
// ---------------------------------------------------------------------------

/// `a` is at or before `b`.
pub open spec fn not_after(a: (i64, u32), b: (i64, u32)) -> bool {
    a.0 < b.0 || (a.0 == b.0 && a.1 <= b.1)
}

/// A readable expiry still ahead of `now`.
pub open spec fn unexpired(expires_at: Seq<char>, now: (i64, u32)) -> bool {
    rfc3339_instant(expires_at) matches Some(t) && !not_after(t, now)
}

/// An expiry is still ahead of `now`; an unreadable one is a protocol error.
pub fn require_not_expired_at(value: &str, now: (i64, u32)) -> (r: Result<(), SyncError>)
    ensures
        match rfc3339_instant(value@) {
            None => r matches Err(SyncError::Protocol(m)) && m@ == "配对过期时间无效"@,
            Some(t) => if not_after(t, now) {
                r matches Err(SyncError::Protocol(m)) && m@ == "配对邀请已过期"@
            } else {
                r is Ok
            },
        },
{
    let expires = match instant_of_rfc3339(value) {
        Some(t) => t,
        None => return Err(SyncError::Protocol(owned("配对过期时间无效"))),
    };
    if expires.0 < now.0 || (expires.0 == now.0 && expires.1 <= now.1) {
        return Err(SyncError::Protocol(owned("配对邀请已过期")));
    }
    Ok(())
}

/// Refuses an invite whose expiry is malformed or not after the current
/// time of the clock.
pub fn require_not_expired(value: &str) -> (r: Result<(), SyncError>)
    ensures
        rfc3339_instant(value@) is None ==> (r matches Err(SyncError::Protocol(m)) && m@ == "配对过期时间无效"@),
        rfc3339_instant(value@) is Some ==> (r is Ok || (r matches Err(SyncError::Protocol(m)) && m@ == "配对邀请已过期"@)),
{
    require_not_expired_at(value, now_instant())
}

// ---------------------------------------------------------------------------
// Invites and requests
// ---------------------------------------------------------------------------

/// An invite read from the NAS is the one asked for, unexpired, and signed
/// by the inviter's key.
pub fn validate_invite(invite: &PairingInvite, group_id: &str, invite_id: &str, now: (i64, u32)) -> (r: Result<(), SyncError>)
    ensures
        r is Ok <==> (invite.group_id@ == group_id@ && invite.invite_id@ == invite_id@ && unexpired(
            invite.expires_at@,
            now,
        ) && spec_verify_detached(
            invite.inviter_signing_public_key@,
            spec_invite_signing_bytes(*invite),
            invite.signature@,
        )),
        !(invite.group_id@ == group_id@ && invite.invite_id@ == invite_id@) ==> (r matches Err(
            SyncError::Integrity(m),
        ) && m@ == "邀请标识不匹配"@),
        (invite.group_id@ == group_id@ && invite.invite_id@ == invite_id@) ==> match rfc3339_instant(
            invite.expires_at@,
        ) {
            None => r matches Err(SyncError::Protocol(m)) && m@ == "配对过期时间无效"@,
            Some(t) => not_after(t, now) ==> (r matches Err(SyncError::Protocol(m)) && m@ == "配对邀请已过期"@),
        },
{
    if !str_eq(invite.group_id.as_str(), group_id) || !str_eq(invite.invite_id.as_str(), invite_id) {
        return Err(SyncError::Integrity(owned("邀请标识不匹配")));
    }
    match require_not_expired_at(invite.expires_at.as_str(), now) {
        Ok(()) => {},
        Err(e) => return Err(e),
    }
    let bytes = match invite_signing_bytes(invite) {
        Ok(b) => b,
        Err(e) => return Err(e),
    };
    verify_detached(invite.inviter_signing_public_key.as_str(), bytes.as_slice(), invite.signature.as_str())
}

/// Signs an invite with the inviter's signing key.
pub fn sign_invite(invite: PairingInvite, signing_secret: &[u8]) -> (r: Result<PairingInvite, SyncError>)
    ensures
        signing_secret@.len() == 32 <==> r is Ok,
        r matches Err(e) ==> (e matches SyncError::Crypto(m) && m@ == "设备签名私钥长度错误"@),
        r matches Ok(signed) ==> signed.invite_id == invite.invite_id && signed.group_id == invite.group_id
            && signed.inviter_device_id == invite.inviter_device_id && signed.inviter_signing_public_key
            == invite.inviter_signing_public_key && signed.inviter_exchange_public_key
            == invite.inviter_exchange_public_key && signed.key_epoch == invite.key_epoch && signed.expires_at
            == invite.expires_at && signed.signature@ == base64_text(
            ed25519_signature(signing_secret@, spec_invite_signing_bytes(invite)),
        ),
{
    let bytes = match invite_signing_bytes(&invite) {
        Ok(b) => b,
        Err(e) => return Err(e),
    };
    let signature = match sign_detached(signing_secret, bytes.as_slice()) {
        Ok(s) => s,
        Err(e) => return Err(e),
    };
    let mut signed = invite;
    signed.signature = signature;
    Ok(signed)
}

/// The joining device's name, trimmed: 1 to 80 characters. The pairing code
/// must be at least 20 bytes.
pub fn check_join_inputs(display_name: &str, pairing_code: &str) -> (r: Result<String, SyncError>)
    ensures
        (0 < spec_trim(display_name@).len() <= 80 && (encode_utf8(pairing_code@).len() as usize) >= 20) <==> r is Ok,
        r matches Ok(n) ==> n@ == spec_trim(display_name@),
        !(0 < spec_trim(display_name@).len() <= 80) ==> (r matches Err(SyncError::Protocol(m)) && m@
            == "设备名称不能为空且不能超过 80 个字符"@),
        0 < spec_trim(display_name@).len() <= 80 && (encode_utf8(pairing_code@).len() as usize) < 20 ==> (r matches Err(
            SyncError::Protocol(m),
        ) && m@ == "一次性配对码长度不足"@),
{
    let name = trim(display_name);
    let n = chars_of(name.as_str()).len();
    if n == 0 || n > 80 {
        return Err(SyncError::Protocol(owned("设备名称不能为空且不能超过 80 个字符")));
    }
    if pairing_code.len() < 20 {
        return Err(SyncError::Protocol(owned("一次性配对码长度不足")));
    }
    Ok(name)
}

/// A request proved with the pairing code and signed by the joining device.
pub open spec fn request_signed(request: JoinRequest, code: Seq<u8>, signing_secret: Seq<u8>) -> bool {
    let sig = ed25519_signature(signing_secret, spec_join_signing_bytes(request));
    &&& request.proof_hash@ == spec_join_proof(code, spec_join_proof_bytes(request))
    &&& request.request_signature@ == base64_text(sig)
    &&& base64_bytes(request.request_signature@) == Some(sig)
    &&& sig.len() == 64
    &&& ed25519_verifies(ed25519_public_key(signing_secret), spec_join_signing_bytes(request), sig)
}

/// Proves a join request with the pairing code and signs it with the joining
/// device's key.
pub fn prove_and_sign_join_request(request: JoinRequest, pairing_code: &str, signing_secret: &[u8]) -> (r: Result<
    JoinRequest,
    SyncError,
>)
    ensures
        signing_secret@.len() == 32 <==> r is Ok,
        r matches Err(e) ==> (e matches SyncError::Crypto(m) && m@ == "设备签名私钥长度错误"@),
        r matches Ok(signed) ==> join_fields(signed) == join_fields(request) && request_signed(
            signed,
            encode_utf8(pairing_code@),
            signing_secret@,
        ),
{
    let mut request = request;
    let proof_bytes = match join_proof_bytes(&request) {
        Ok(b) => b,
        Err(e) => return Err(e),
    };
    let proof = match join_proof(pairing_code, proof_bytes.as_slice()) {
        Ok(p) => p,
        Err(e) => return Err(e),
    };
    request.proof_hash = proof;
    let signing = match join_signing_bytes(&request) {
        Ok(b) => b,
        Err(e) => return Err(e),
    };
    let signature = match sign_detached(signing_secret, signing.as_slice()) {
        Ok(s) => s,
        Err(e) => return Err(e),
    };
    request.request_signature = signature;
    Ok(request)
}

/// The inviter's record of an invite allows approval: issued by this device,
/// still active, and unexpired.
pub fn check_invite_record(
    inviter_device_id: &str,
    local_device_id: &str,
    status: &str,
    expires_at: &str,
    now: (i64, u32),
) -> (r: Result<(), SyncError>)
    ensures
        !(inviter_device_id@ == local_device_id@ && status@ == "active"@) ==> (r matches Err(
            SyncError::Protocol(m),
        ) && m@ == "配对邀请已核销或已撤销"@),
        r is Ok <==> (inviter_device_id@ == local_device_id@ && status@ == "active"@ && unexpired(expires_at@, now)),
{
    if !str_eq(inviter_device_id, local_device_id) || !str_eq(status, "active") {
        return Err(SyncError::Protocol(owned("配对邀请已核销或已撤销")));
    }
    require_not_expired_at(expires_at, now)
}

/// What the inviter checks of a join request before it hands over the group
/// keys: it answers this invite, is unexpired, is signed by the joining
/// device, shows the fingerprint the user confirmed, comes with the pairing
/// code whose hash the invite registered, and proves that code.
pub open spec fn join_request_acceptable(
    request: JoinRequest,
    group_id: Seq<char>,
    invite_id: Seq<char>,
    expected_fingerprint: Seq<char>,
    code: Seq<char>,
    stored_code_hash: Seq<char>,
    now: (i64, u32),
) -> bool {
    &&& request.group_id@ == group_id && request.invite_id@ == invite_id
    &&& unexpired(request.expires_at@, now)
    &&& spec_verify_detached(request.signing_public_key@, spec_join_signing_bytes(request), request.request_signature@)
    &&& request.fingerprint@ == expected_fingerprint
    &&& spec_hex(sha256_digest(encode_utf8(code))) == stored_code_hash
    &&& request.proof_hash@ == spec_join_proof(encode_utf8(code), spec_join_proof_bytes(request))
}

fn same_text(a: &str, b: &str) -> (r: bool)
    ensures
        r == (a@ == b@),
{
    let r = constant_time_eq(a.as_bytes(), b.as_bytes());
    proof {
        vstd::utf8::encode_utf8_decode_utf8(a@);
        vstd::utf8::encode_utf8_decode_utf8(b@);
    }
    r
}

/// Runs the inviter's checks on a join request, in order; `code` is the
/// pairing code from this device's credential store. Codes and proofs are
/// compared in constant time.
pub fn check_join_request(
    request: &JoinRequest,
    group_id: &str,
    invite_id: &str,
    expected_fingerprint: &str,
    code: &str,
    stored_code_hash: &str,
    now: (i64, u32),
) -> (r: Result<(), SyncError>)
    ensures
        r is Ok <==> join_request_acceptable(
            *request,
            group_id@,
            invite_id@,
            expected_fingerprint@,
            code@,
            stored_code_hash@,
            now,
        ),
        !(request.group_id@ == group_id@ && request.invite_id@ == invite_id@) ==> (r matches Err(
            SyncError::Integrity(m),
        ) && m@ == "加入请求与邀请不匹配"@),
        (request.group_id@ == group_id@ && request.invite_id@ == invite_id@) ==> match rfc3339_instant(
            request.expires_at@,
        ) {
            None => r matches Err(SyncError::Protocol(m)) && m@ == "配对过期时间无效"@,
            Some(t) => if not_after(t, now) {
                r matches Err(SyncError::Protocol(m)) && m@ == "配对邀请已过期"@
            } else if !spec_verify_detached(
                request.signing_public_key@,
                spec_join_signing_bytes(*request),
                request.request_signature@,
            ) {
                r matches Err(e) && signature_refusal(
                    request.signing_public_key@,
                    spec_join_signing_bytes(*request),
                    request.request_signature@,
                    e,
                )
            } else if request.fingerprint@ != expected_fingerprint@ {
                r matches Err(SyncError::Integrity(m)) && m@ == "设备指纹与人工确认值不一致"@
            } else if spec_hex(sha256_digest(encode_utf8(code@))) != stored_code_hash@ {
                r matches Err(SyncError::Integrity(m)) && m@ == "本地一次性配对码与邀请登记不一致"@
            } else if request.proof_hash@ != spec_join_proof(encode_utf8(code@), spec_join_proof_bytes(*request)) {
                r matches Err(SyncError::Integrity(m)) && m@ == "一次性配对码证明错误"@
            } else {
                r is Ok
            },
        },
{
    if !str_eq(request.group_id.as_str(), group_id) || !str_eq(request.invite_id.as_str(), invite_id) {
        return Err(SyncError::Integrity(owned("加入请求与邀请不匹配")));
    }
    match require_not_expired_at(request.expires_at.as_str(), now) {
        Ok(()) => {},
        Err(e) => return Err(e),
    }
    let signed = match join_signing_bytes(request) {
        Ok(b) => b,
        Err(e) => return Err(e),
    };
    match verify_detached(request.signing_public_key.as_str(), signed.as_slice(), request.request_signature.as_str()) {
        Ok(()) => {},
        Err(e) => return Err(e),
    }
    if !str_eq(request.fingerprint.as_str(), expected_fingerprint) {
        return Err(SyncError::Integrity(owned("设备指纹与人工确认值不一致")));
    }
    let code_hash = hash_code(code);
    if !same_text(code_hash.as_str(), stored_code_hash) {
        return Err(SyncError::Integrity(owned("本地一次性配对码与邀请登记不一致")));
    }
    let proof_bytes = match join_proof_bytes(request) {
        Ok(b) => b,
        Err(e) => return Err(e),
    };
    let expected_proof = match join_proof(code, proof_bytes.as_slice()) {
        Ok(p) => p,
        Err(e) => return Err(e),
    };
    if !same_text(expected_proof.as_str(), request.proof_hash.as_str()) {
        return Err(SyncError::Integrity(owned("一次性配对码证明错误")));
    }
    Ok(())
}

/// A join request that the joining device proved with the invite's pairing
/// code and signed with the key it announces passes every check of the
/// inviter, as long as it answers this invite, is unexpired and shows the
/// fingerprint the user confirmed.
pub proof fn lemma_proved_request_is_accepted(
    request: JoinRequest,
    group_id: Seq<char>,
    invite_id: Seq<char>,
    code: Seq<char>,
    signing_secret: Seq<u8>,
    now: (i64, u32),
)
    requires
        request_signed(request, encode_utf8(code), signing_secret),
        request.group_id@ == group_id,
        request.invite_id@ == invite_id,
        unexpired(request.expires_at@, now),
        base64_bytes(request.signing_public_key@) == Some(ed25519_public_key(signing_secret)),
        ed25519_public_key(signing_secret).len() == 32,
        ed25519_key_accepted(ed25519_public_key(signing_secret)),
    ensures
        join_request_acceptable(
            request,
            group_id,
            invite_id,
            request.fingerprint@,
            code,
            spec_hex(sha256_digest(encode_utf8(code))),
            now,
        ),
{
}

} // verus!
