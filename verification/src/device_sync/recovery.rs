//! Offline recovery packages: the group keys of every epoch and the trusted
//! members, sealed under a key derived from a passphrase, saved outside the
//! NAS folder.
use vstd::prelude::*;

use super::crypto::{
    b64_decode, b64_encode, base64_bytes, ed25519_key_accepted, ed25519_public_key, failure, lemma_seal_then_open,
    open, pbkdf2_sha256, pbkdf2_sha256_key, random_bytes, seal, sealed_with, spec_open, EncryptedEnvelope,
    EnvelopeHeader, PROTOCOL_VERSION,
};
use super::identity::LocalDeviceIdentity;
use super::pairing::MemberPublic;
use super::SyncError;
use crate::text::{owned, str_eq};

verus! {

/// The PBKDF2 iterations a new package is sealed with.
pub const RECOVERY_KDF_ITERATIONS: u32 = 310_000;

/// The fewest iterations a package may declare and still be opened.
pub const MIN_RECOVERY_KDF_ITERATIONS: u32 = 100_000;

/// The file a recovery package is written as.
#[derive(Debug)]
pub struct RecoveryFile {
    pub format: String,
    pub kdf: String,
    pub iterations: u32,
    pub salt_b64: String,
    pub signing_public_key: String,
    pub envelope: EncryptedEnvelope,
}

#[derive(Debug, Clone)]
pub struct RecoveryExport {
    pub path: String,
    pub group_id: String,
    pub key_epochs: Vec<u32>,
}

#[derive(Debug)]
pub struct CreatedGroupWithRecovery {
    pub identity: LocalDeviceIdentity,
    pub recovery: RecoveryExport,
}

#[derive(Debug)]
pub struct RecoveryPreview {
    pub group_id: String,
    pub latest_key_epoch: u32,
    pub historical_key_epochs: Vec<u32>,
    pub trusted_members: Vec<MemberPublic>,
    pub formal_database_unchanged: bool,
}

/// A passphrase protects a package only when it has at least 12 characters.
pub fn validate_passphrase(passphrase: &str) -> (r: Result<(), SyncError>)
    ensures
        passphrase@.len() >= 12 ==> r is Ok,
        passphrase@.len() < 12 ==> (r matches Err(SyncError::Protocol(m)) && m@ == "离线恢复包口令至少需要 12 个字符"@),
{
    if passphrase.unicode_len() < 12 {
        return Err(SyncError::Protocol(owned("离线恢复包口令至少需要 12 个字符")));
    }
    Ok(())
}

/// The key that seals a package: PBKDF2-HMAC-SHA256 of the passphrase's
/// UTF-8 bytes and the salt.
pub fn derive_recovery_key(passphrase: &str, salt: &[u8], iterations: u32) -> (r: Vec<u8>)
    ensures
        r@ == pbkdf2_sha256_key(vstd::utf8::encode_utf8(passphrase@), salt@, iterations),
        r@.len() == 32,
{
    pbkdf2_sha256(passphrase.as_bytes(), salt, iterations)
}


/// A package this version can open: its format, KDF, iteration count and
/// payload kind.
pub open spec fn recovery_format_ok(file: RecoveryFile) -> bool {
    &&& file.format@ == "fanglv-caseboard-recovery-v1"@
    &&& file.kdf@ == "PBKDF2-HMAC-SHA256"@
    &&& file.iterations >= MIN_RECOVERY_KDF_ITERATIONS
    &&& file.envelope.header.payload_kind@ == "offline-recovery"@
}

/// Opens a recovery package with its passphrase; `header_json` is the
/// canonical JSON of the envelope's header. An unknown format is refused,
/// then a salt that is not Base64, then whatever refuses the envelope.
pub fn open_recovery_package(file: &RecoveryFile, header_json: &[u8], passphrase: &str) -> (r: Result<
    Vec<u8>,
    SyncError,
>)
    ensures
        !recovery_format_ok(*file) ==> (r matches Err(SyncError::Protocol(m)) && m@ == "离线恢复包格式不受支持"@),
        recovery_format_ok(*file) ==> match base64_bytes(file.salt_b64@) {
            None => r matches Err(SyncError::Crypto(m)) && m@ == "恢复包 KDF 盐编码损坏"@,
            Some(salt) => match spec_open(
                file.envelope,
                header_json@,
                pbkdf2_sha256_key(vstd::utf8::encode_utf8(passphrase@), salt, file.iterations),
                file.signing_public_key@,
            ) {
                Ok(p) => r matches Ok(v) && v@ == p,
                Err(f) => r matches Err(e) && failure(e) == f,
            },
        },
{
    if !str_eq(file.format.as_str(), "fanglv-caseboard-recovery-v1") || !str_eq(file.kdf.as_str(), "PBKDF2-HMAC-SHA256")
        || file.iterations < MIN_RECOVERY_KDF_ITERATIONS || !str_eq(
        file.envelope.header.payload_kind.as_str(),
        "offline-recovery",
    ) {
        return Err(SyncError::Protocol(owned("离线恢复包格式不受支持")));
    }
    let salt = match b64_decode(file.salt_b64.as_str()) {
        Some(s) => s,
        None => return Err(SyncError::Crypto(owned("恢复包 KDF 盐编码损坏"))),
    };
    let wrapping = derive_recovery_key(passphrase, salt.as_slice(), file.iterations);
    open(&file.envelope, header_json, wrapping.as_slice(), file.signing_public_key.as_str())
}

/// What an opened package shows, once its body is checked against its
/// envelope: the body must be of this protocol and of the envelope's group.
/// Nothing is written.
pub fn recovery_preview(
    payload_protocol_version: u32,
    payload_group_id: String,
    latest_key_epoch: u32,
    historical_key_epochs: Vec<u32>,
    members: Vec<MemberPublic>,
    envelope_group_id: &str,
) -> (r: Result<RecoveryPreview, SyncError>)
    ensures
        payload_protocol_version != PROTOCOL_VERSION || payload_group_id@ != envelope_group_id@ ==> (r matches Err(
            SyncError::Integrity(m),
        ) && m@ == "恢复包正文与信封不一致"@),
        payload_protocol_version == PROTOCOL_VERSION && payload_group_id@ == envelope_group_id@ ==> (r matches Ok(p)
            && p.group_id == payload_group_id && p.latest_key_epoch == latest_key_epoch && p.historical_key_epochs
            == historical_key_epochs && p.trusted_members == members && p.formal_database_unchanged),
{
    if payload_protocol_version != PROTOCOL_VERSION || !str_eq(payload_group_id.as_str(), envelope_group_id) {
        return Err(SyncError::Integrity(owned("恢复包正文与信封不一致")));
    }
    Ok(
        RecoveryPreview {
            group_id: payload_group_id,
            latest_key_epoch,
            historical_key_epochs,
            trusted_members: members,
            formal_database_unchanged: true,
        },
    )
}

/// The epochs whose group keys a package carries: every epoch from the
/// first to the latest.
pub fn recovery_epochs(latest_key_epoch: u32) -> (r: Vec<u32>)
    ensures
        r@.len() == latest_key_epoch,
        forall|i: int| 0 <= i < r@.len() ==> r@[i] == i + 1,
{
    let mut v: Vec<u32> = Vec::new();
    let mut e: u32 = 0;
    while e < latest_key_epoch
        invariant
            e <= latest_key_epoch,
            v@.len() == e,
            forall|i: int| 0 <= i < v@.len() ==> v@[i] == i + 1,
        decreases latest_key_epoch - e,
    {
        e = e + 1;
        v.push(e);
    }
    v
}

/// A package as it is written: this format and KDF at the current iteration
/// count, a 32-byte salt, the signer's public key, and the payload sealed
/// under the key the passphrase and salt derive.
pub open spec fn recovery_sealed(
    file: RecoveryFile,
    header: EnvelopeHeader,
    header_json: Seq<u8>,
    payload: Seq<u8>,
    passphrase: Seq<char>,
    signing_secret: Seq<u8>,
    signing_public_key: Seq<char>,
    salt: Seq<u8>,
) -> bool {
    let key = pbkdf2_sha256_key(vstd::utf8::encode_utf8(passphrase), salt, RECOVERY_KDF_ITERATIONS);
    &&& file.format@ == "fanglv-caseboard-recovery-v1"@
    &&& file.kdf@ == "PBKDF2-HMAC-SHA256"@
    &&& file.iterations == RECOVERY_KDF_ITERATIONS
    &&& salt.len() == 32
    &&& base64_bytes(file.salt_b64@) == Some(salt)
    &&& file.signing_public_key@ == signing_public_key
    &&& file.envelope.header == header
    &&& key.len() == 32
    &&& sealed_with(file.envelope, header_json, payload, key, signing_secret)
}

/// The package was sealed as above with some salt.
pub open spec fn recovery_sealed_some(
    file: RecoveryFile,
    header: EnvelopeHeader,
    header_json: Seq<u8>,
    payload: Seq<u8>,
    passphrase: Seq<char>,
    signing_secret: Seq<u8>,
    signing_public_key: Seq<char>,
) -> bool {
    exists|salt: Seq<u8>|
        #[trigger] recovery_sealed(file, header, header_json, payload, passphrase, signing_secret, signing_public_key, salt)
}

/// Seals a recovery payload under a passphrase with a fresh 32-byte salt;
/// `header_json` is the canonical JSON of `header`.
pub fn seal_recovery_package(
    header: EnvelopeHeader,
    header_json: &[u8],
    payload: &[u8],
    passphrase: &str,
    signing_secret: &[u8],
    signing_public_key: String,
) -> (r: Result<RecoveryFile, SyncError>)
    ensures
        passphrase@.len() < 12 ==> (r matches Err(SyncError::Protocol(m)) && m@ == "离线恢复包口令至少需要 12 个字符"@),
        r matches Ok(f) ==> recovery_sealed_some(
            f,
            header,
            header_json@,
            payload@,
            passphrase@,
            signing_secret@,
            signing_public_key@,
        ),
{
    match validate_passphrase(passphrase) {
        Ok(()) => {},
        Err(e) => return Err(e),
    }
    let salt = match random_bytes(32) {
        Some(s) => s,
        None => return Err(SyncError::Crypto(owned("无法生成随机盐"))),
    };
    let wrapping = derive_recovery_key(passphrase, salt.as_slice(), RECOVERY_KDF_ITERATIONS);
    let ghost h = header;
    let ghost public_text = signing_public_key@;
    let envelope = match seal(header, header_json, payload, wrapping.as_slice(), signing_secret) {
        Ok(e) => e,
        Err(e) => return Err(e),
    };
    let file = RecoveryFile {
        format: owned("fanglv-caseboard-recovery-v1"),
        kdf: owned("PBKDF2-HMAC-SHA256"),
        iterations: RECOVERY_KDF_ITERATIONS,
        salt_b64: b64_encode(salt.as_slice()),
        signing_public_key,
        envelope,
    };
    assert(recovery_sealed(file, h, header_json@, payload@, passphrase@, signing_secret@, public_text, salt@));
    assert(recovery_sealed_some(file, h, header_json@, payload@, passphrase@, signing_secret@, public_text));
    Ok(file)
}

/// A recovery package opens with the passphrase it was sealed with and gives
/// back exactly the payload that was sealed, as long as it names its
/// signer's key.
pub proof fn lemma_recovery_package_opens(
    file: RecoveryFile,
    header: EnvelopeHeader,
    header_json: Seq<u8>,
    payload: Seq<u8>,
    passphrase: Seq<char>,
    signing_secret: Seq<u8>,
    salt: Seq<u8>,
)
    requires
        recovery_sealed(file, header, header_json, payload, passphrase, signing_secret, file.signing_public_key@, salt),
        header.protocol_version == PROTOCOL_VERSION,
        header.payload_kind@ == "offline-recovery"@,
        base64_bytes(file.signing_public_key@) == Some(ed25519_public_key(signing_secret)),
        ed25519_public_key(signing_secret).len() == 32,
        ed25519_key_accepted(ed25519_public_key(signing_secret)),
    ensures
        recovery_format_ok(file),
        base64_bytes(file.salt_b64@) == Some(salt),
        spec_open(
            file.envelope,
            header_json,
            pbkdf2_sha256_key(vstd::utf8::encode_utf8(passphrase), salt, file.iterations),
            file.signing_public_key@,
        ) == Ok::<Seq<u8>, (Seq<char>, Seq<char>)>(payload),
{
    lemma_seal_then_open(
        file.envelope,
        header_json,
        payload,
        pbkdf2_sha256_key(vstd::utf8::encode_utf8(passphrase), salt, RECOVERY_KDF_ITERATIONS),
        signing_secret,
        file.signing_public_key@,
    );
}

} // verus!
