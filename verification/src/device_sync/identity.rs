//! The local device of a sync group, and the names under which its secrets
//! are kept in the operating system's credential store.
use vstd::prelude::*;

use super::crypto::{b64_decode, base64_bytes};
use super::SyncError;
use crate::text::{decimal_u64, owned, push_str, spec_decimal, spec_trim, trim};

verus! {

/// The prefix of every credential target of this application.
pub const CREDENTIAL_PREFIX: &'static str = "FanglvCaseBoard/device-sync";

/// The largest secret the credential store takes, in bytes.
pub const MAX_CREDENTIAL_BLOB_BYTES: usize = 2560;

/// The device's identity within its group.
#[derive(Debug, Clone)]
pub struct LocalDeviceIdentity {
    pub group_id: String,
    pub device_id: String,
    pub display_name: String,
    pub signing_public_key: String,
    pub exchange_public_key: String,
    pub fingerprint: String,
    pub key_epoch: u32,
}

/// A device name, trimmed, must be non-empty and at most 80 characters.
pub fn validate_display_name(display_name: &str) -> (r: Result<String, SyncError>)
    ensures
        ({
            let t = spec_trim(display_name@);
            if t.len() == 0 || t.len() > 80 {
                r matches Err(SyncError::Protocol(m)) && m@ == "设备名称不能为空且不能超过 80 个字符"@
            } else {
                r matches Ok(n) && n@ == t
            }
        }),
{
    let t = trim(display_name);
    let n = t.as_str().unicode_len();
    if n == 0 || n > 80 {
        return Err(SyncError::Protocol(owned("设备名称不能为空且不能超过 80 个字符")));
    }
    Ok(t)
}

/// The account of one secret of a device: group, device and kind.
pub open spec fn spec_credential_account(group_id: Seq<char>, device_id: Seq<char>, kind: Seq<char>) -> Seq<char> {
    group_id + "/"@ + device_id + "/"@ + kind
}

pub fn credential_account(group_id: &str, device_id: &str, kind: &str) -> (r: String)
    ensures
        r@ == spec_credential_account(group_id@, device_id@, kind@),
{
    let mut r = owned(group_id);
    push_str(&mut r, "/");
    push_str(&mut r, device_id);
    push_str(&mut r, "/");
    push_str(&mut r, kind);
    r
}

/// The credential store's target name of an account.
pub fn credential_target(account: &str) -> (r: String)
    ensures
        r@ == CREDENTIAL_PREFIX@ + "/"@ + account@,
{
    let mut r = owned(CREDENTIAL_PREFIX);
    push_str(&mut r, "/");
    push_str(&mut r, account);
    r
}

/// The kind under which the group key of an epoch is kept.
pub fn group_key_kind(epoch: u32) -> (r: String)
    ensures
        r@ == "group-key-"@ + spec_decimal(epoch as nat),
{
    let mut r = owned("group-key-");
    push_str(&mut r, decimal_u64(epoch as u64).as_str());
    r
}

/// The kind under which the code of a pairing invite is kept.
pub fn invite_kind(invite_id: &str) -> (r: String)
    ensures
        r@ == "invite-"@ + invite_id@,
{
    let mut r = owned("invite-");
    push_str(&mut r, invite_id);
    r
}

/// A secret fits the credential store when its text is at most
/// `MAX_CREDENTIAL_BLOB_BYTES` bytes.
pub fn check_credential_blob(value: &str) -> (r: Result<(), SyncError>)
    ensures
        value.len() <= MAX_CREDENTIAL_BLOB_BYTES ==> r is Ok,
        value.len() > MAX_CREDENTIAL_BLOB_BYTES ==> (r matches Err(SyncError::CredentialStore(m)) && m@
            == "同步密钥超过 Windows 凭据容量"@),
{
    if value.len() > MAX_CREDENTIAL_BLOB_BYTES {
        return Err(SyncError::CredentialStore(owned("同步密钥超过 Windows 凭据容量")));
    }
    Ok(())
}

/// A secret read back from the credential store: it must be there and be
/// valid Base64.
pub fn decode_secret(stored: Option<String>) -> (r: Result<Vec<u8>, SyncError>)
    ensures
        match stored {
            None => r matches Err(SyncError::CredentialStore(m)) && m@ == "同步密钥不存在"@,
            Some(text) => match base64_bytes(text@) {
                Some(b) => r matches Ok(v) && v@ == b,
                None => r matches Err(SyncError::CredentialStore(m)) && m@ == "同步密钥编码损坏"@,
            },
        },
{
    match stored {
        None => Err(SyncError::CredentialStore(owned("同步密钥不存在"))),
        Some(text) => match b64_decode(text.as_str()) {
            Some(b) => Ok(b),
            None => Err(SyncError::CredentialStore(owned("同步密钥编码损坏"))),
        },
    }
}

} // verus!
