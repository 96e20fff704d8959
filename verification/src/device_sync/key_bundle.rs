//! Group key bundles: what a joining device accepts from its inviter, what a
//! revocation sends the remaining members, and what a member accepts of a
//! key rotation.
use vstd::prelude::*;

use super::crypto::{b64_decode, b64_encode, base64_bytes, base64_text, EnvelopeHeader};
use super::pairing::MemberPublic;
use super::SyncError;
use crate::text::{owned, str_eq};

verus! {

/// The group keys one member receives, by epoch, with the members it should
/// trust at the bundle's epoch.
#[derive(Debug)]
pub struct KeyBundle {
    pub group_id: String,
    pub recipient_device_id: String,
    pub key_epoch: u32,
    pub group_keys_b64: Vec<(u32, String)>,
    pub members: Vec<MemberPublic>,
}

pub open spec fn integrity<T>(r: Result<T, SyncError>, m: Seq<char>) -> bool {
    r matches Err(SyncError::Integrity(s)) && s@ == m
}

pub open spec fn crypto<T>(r: Result<T, SyncError>, m: Seq<char>) -> bool {
    r matches Err(SyncError::Crypto(s)) && s@ == m
}

pub open spec fn protocol<T>(r: Result<T, SyncError>, m: Seq<char>) -> bool {
    r matches Err(SyncError::Protocol(s)) && s@ == m
}

// ---------------------------------------------------------------------------
// Joining
// ---------------------------------------------------------------------------

/// The member key envelope a joining device reads comes from its inviter and
/// is about the group.
pub fn check_member_envelope(header: &EnvelopeHeader, group_id: &str, inviter_device_id: &str) -> (r: Result<
    (),
    SyncError,
>)
    ensures
        (header.group_id@ == group_id@ && header.device_id@ == inviter_device_id@ && header.payload_kind@
            == "member-key-envelope"@) ==> r is Ok,
        !(header.group_id@ == group_id@ && header.device_id@ == inviter_device_id@ && header.payload_kind@
            == "member-key-envelope"@) ==> integrity(r, "成员密钥信封头不匹配"@),
{
    if !str_eq(header.group_id.as_str(), group_id) || !str_eq(header.device_id.as_str(), inviter_device_id)
        || !str_eq(header.payload_kind.as_str(), "member-key-envelope") {
        return Err(SyncError::Integrity(owned("成员密钥信封头不匹配")));
    }
    Ok(())
}

/// The bundle carries a key for this epoch.
pub open spec fn has_epoch(keys: Seq<(u32, String)>, epoch: u32) -> bool {
    exists|i: int| 0 <= i < keys.len() && (#[trigger] keys[i]).0 == epoch
}

fn has_epoch_exec(keys: &Vec<(u32, String)>, epoch: u32) -> (r: bool)
    ensures
        r == has_epoch(keys@, epoch),
{
    let mut i: usize = 0;
    while i < keys.len()
        invariant
            i <= keys@.len(),
            forall|j: int| 0 <= j < i ==> (#[trigger] keys@[j]).0 != epoch,
        decreases keys@.len() - i,
    {
        if keys[i].0 == epoch {
            return true;
        }
        i = i + 1;
    }
    false
}

/// The bundle is addressed to this device of this group, for the epoch of
/// the envelope that carried it.
pub open spec fn join_bundle_addressed(bundle: KeyBundle, group_id: Seq<char>, device_id: Seq<char>, envelope_epoch: u32) -> bool {
    bundle.group_id@ == group_id && bundle.recipient_device_id@ == device_id && bundle.key_epoch == envelope_epoch
}

/// The bundle a joining device opened is addressed to it and carries the key
/// of its own epoch.
pub fn check_join_bundle(bundle: &KeyBundle, group_id: &str, device_id: &str, envelope_epoch: u32) -> (r: Result<
    (),
    SyncError,
>)
    ensures
        !join_bundle_addressed(*bundle, group_id@, device_id@, envelope_epoch) ==> integrity(r, "成员密钥包正文不匹配"@),
        join_bundle_addressed(*bundle, group_id@, device_id@, envelope_epoch) && !has_epoch(
            bundle.group_keys_b64@,
            bundle.key_epoch,
        ) ==> integrity(r, "成员密钥包缺少当前时代密钥"@),
        join_bundle_addressed(*bundle, group_id@, device_id@, envelope_epoch) && has_epoch(
            bundle.group_keys_b64@,
            bundle.key_epoch,
        ) ==> r is Ok,
{
    if !str_eq(bundle.group_id.as_str(), group_id) || !str_eq(bundle.recipient_device_id.as_str(), device_id)
        || bundle.key_epoch != envelope_epoch {
        return Err(SyncError::Integrity(owned("成员密钥包正文不匹配")));
    }
    if !has_epoch_exec(&bundle.group_keys_b64, bundle.key_epoch) {
        return Err(SyncError::Integrity(owned("成员密钥包缺少当前时代密钥")));
    }
    Ok(())
}

/// One group key of a joining bundle: its epoch lies in `1..=bundle_epoch`
/// and it decodes to 32 bytes.
pub fn decode_bundle_key(epoch: u32, encoded: &str, bundle_epoch: u32) -> (r: Result<Vec<u8>, SyncError>)
    ensures
        epoch == 0 || epoch > bundle_epoch ==> integrity(r, "成员密钥包时代非法"@),
        !(epoch == 0 || epoch > bundle_epoch) ==> match base64_bytes(encoded@) {
            None => crypto(r, "组密钥包编码损坏"@),
            Some(b) => if b.len() != 32 {
                crypto(r, "组密钥长度错误"@)
            } else {
                r matches Ok(k) && k@ == b
            },
        },
{
    if epoch == 0 || epoch > bundle_epoch {
        return Err(SyncError::Integrity(owned("成员密钥包时代非法")));
    }
    let key = match b64_decode(encoded) {
        Some(k) => k,
        None => return Err(SyncError::Crypto(owned("组密钥包编码损坏"))),
    };
    if key.len() != 32 {
        return Err(SyncError::Crypto(owned("组密钥长度错误")));
    }
    Ok(key)
}

// ---------------------------------------------------------------------------
// Revoking
// ---------------------------------------------------------------------------

pub open spec fn ostr(o: Option<String>) -> Option<Seq<char>> {
    match o {
        Some(s) => Some(s@),
        None => None,
    }
}

/// A device may be revoked from another device only, and only when the user
/// confirmed the fingerprint it has as a trusted member.
pub fn check_revocation(
    target_device_id: &str,
    local_device_id: &str,
    trusted_fingerprint: &Option<String>,
    expected_fingerprint: &str,
) -> (r: Result<(), SyncError>)
    ensures
        target_device_id@ == local_device_id@ ==> protocol(r, "不能在本机直接撤销当前设备"@),
        target_device_id@ != local_device_id@ && ostr(*trusted_fingerprint) != Some(expected_fingerprint@) ==> integrity(r, "撤销设备指纹不匹配"@),
        target_device_id@ != local_device_id@ && ostr(*trusted_fingerprint) == Some(expected_fingerprint@) ==> r is Ok,
{
    if str_eq(target_device_id, local_device_id) {
        return Err(SyncError::Protocol(owned("不能在本机直接撤销当前设备")));
    }
    let matches = match trusted_fingerprint {
        Some(f) => str_eq(f.as_str(), expected_fingerprint),
        None => false,
    };
    if !matches {
        return Err(SyncError::Integrity(owned("撤销设备指纹不匹配")));
    }
    Ok(())
}

/// The members a rotation writes an envelope for: the remaining members
/// other than this device, by position.
pub fn rotation_recipients(members: &Vec<MemberPublic>, local_device_id: &str) -> (r: Vec<usize>)
    ensures
        forall|k: int| 0 <= k < r@.len() ==> r@[k] < members@.len(),
        forall|k: int, l: int| 0 <= k < l < r@.len() ==> r@[k] < r@[l],
        forall|i: int|
            0 <= i < members@.len() ==> (r@.contains(i as usize) <==> (#[trigger] members@[i]).device_id@
                != local_device_id@),
{
    let mut out: Vec<usize> = Vec::new();
    let mut i: usize = 0;
    while i < members.len()
        invariant
            i <= members@.len(),
            forall|k: int| 0 <= k < out@.len() ==> out@[k] < i,
            forall|k: int, l: int| 0 <= k < l < out@.len() ==> out@[k] < out@[l],
            forall|j: int|
                0 <= j < i ==> (out@.contains(j as usize) <==> (#[trigger] members@[j]).device_id@ != local_device_id@),
        decreases members@.len() - i,
    {
        let ghost before = out@;
        let ghost pushed = members@[i as int].device_id@ != local_device_id@;
        if !str_eq(members[i].device_id.as_str(), local_device_id) {
            out.push(i);
        }
        proof {
            if pushed {
                assert(out@ == before.push(i));
            } else {
                assert(out@ == before);
            }
            assert forall|j: int| 0 <= j <= i implies (out@.contains(j as usize) <==> (
            #[trigger] members@[j]).device_id@ != local_device_id@) by {
                if out@.contains(j as usize) {
                    let k = choose|k: int| 0 <= k < out@.len() && out@[k] == j as usize;
                    if k < before.len() {
                        assert(before[k] == j as usize);
                        assert(before.contains(j as usize));
                    }
                }
                if before.contains(j as usize) {
                    let k = choose|k: int| 0 <= k < before.len() && before[k] == j as usize;
                    assert(out@[k] == j as usize);
                }
                if j == i as int {
                    if before.contains(i) {
                        let k = choose|k: int| 0 <= k < before.len() && before[k] == i;
                        assert(before[k] < i);
                    }
                    if pushed {
                        assert(out@[out@.len() - 1] == i);
                    }
                }
            }
        }
        i = i + 1;
    }
    out
}

/// A copy of a member at a new epoch.
fn member_at_epoch(m: &MemberPublic, epoch: u32) -> (r: MemberPublic)
    ensures
        r.device_id@ == m.device_id@,
        r.display_name@ == m.display_name@,
        r.signing_public_key@ == m.signing_public_key@,
        r.exchange_public_key@ == m.exchange_public_key@,
        r.fingerprint@ == m.fingerprint@,
        r.key_epoch == epoch,
        r.status@ == m.status@,
{
    MemberPublic {
        device_id: owned(m.device_id.as_str()),
        display_name: owned(m.display_name.as_str()),
        signing_public_key: owned(m.signing_public_key.as_str()),
        exchange_public_key: owned(m.exchange_public_key.as_str()),
        fingerprint: owned(m.fingerprint.as_str()),
        key_epoch: epoch,
        status: owned(m.status.as_str()),
    }
}

/// Member `r` is member `m` moved to `epoch`.
pub open spec fn moved_to(r: MemberPublic, m: MemberPublic, epoch: u32) -> bool {
    &&& r.device_id@ == m.device_id@
    &&& r.display_name@ == m.display_name@
    &&& r.signing_public_key@ == m.signing_public_key@
    &&& r.exchange_public_key@ == m.exchange_public_key@
    &&& r.fingerprint@ == m.fingerprint@
    &&& r.key_epoch == epoch
    &&& r.status@ == m.status@
}

/// What a revocation sends one remaining member: the new epoch's key
/// alone, encoded, and every remaining member at the new epoch.
pub open spec fn is_rotation_bundle(
    r: KeyBundle,
    group_id: Seq<char>,
    recipient_device_id: Seq<char>,
    next_epoch: u32,
    new_key: Seq<u8>,
    members: Seq<MemberPublic>,
) -> bool {
    &&& r.group_id@ == group_id
    &&& r.recipient_device_id@ == recipient_device_id
    &&& r.key_epoch == next_epoch
    &&& r.group_keys_b64@.len() == 1
    &&& r.group_keys_b64@[0].0 == next_epoch
    &&& r.group_keys_b64@[0].1@ == base64_text(new_key)
    &&& base64_bytes(r.group_keys_b64@[0].1@) == Some(new_key)
    &&& r.members@.len() == members.len()
    &&& forall|k: int| 0 <= k < members.len() ==> moved_to(#[trigger] r.members@[k], members[k], next_epoch)
}

/// The bundle a revocation sends one remaining member: the new epoch's key
/// alone, and every remaining member at the new epoch.
pub fn rotation_bundle(
    group_id: &str,
    recipient_device_id: &str,
    next_epoch: u32,
    new_key: &[u8],
    members: &Vec<MemberPublic>,
) -> (r: KeyBundle)
    ensures
        is_rotation_bundle(r, group_id@, recipient_device_id@, next_epoch, new_key@, members@),
{
    let mut moved: Vec<MemberPublic> = Vec::new();
    let mut k: usize = 0;
    while k < members.len()
        invariant
            k <= members@.len(),
            moved@.len() == k,
            forall|j: int| 0 <= j < k ==> moved_to(#[trigger] moved@[j], members@[j], next_epoch),
        decreases members@.len() - k,
    {
        moved.push(member_at_epoch(&members[k], next_epoch));
        k = k + 1;
    }
    let mut keys: Vec<(u32, String)> = Vec::new();
    keys.push((next_epoch, b64_encode(new_key)));
    KeyBundle {
        group_id: owned(group_id),
        recipient_device_id: owned(recipient_device_id),
        key_epoch: next_epoch,
        group_keys_b64: keys,
        members: moved,
    }
}

// ---------------------------------------------------------------------------
// Accepting a rotation
// ---------------------------------------------------------------------------

/// What a member does with a rotation to `new_epoch`: nothing when it has
/// that epoch already, install it when it is the next one.
#[derive(Debug, Clone, Copy, PartialEq, Eq, Structural)]
pub enum RotationStep {
    AlreadyInstalled,
    Install,
}

/// Epochs are installed one at a time.
pub fn rotation_step(current_epoch: u32, new_epoch: u32) -> (r: Result<RotationStep, SyncError>)
    ensures
        new_epoch <= current_epoch ==> r == Ok::<RotationStep, SyncError>(RotationStep::AlreadyInstalled),
        new_epoch > current_epoch && new_epoch == current_epoch + 1 ==> r == Ok::<RotationStep, SyncError>(
            RotationStep::Install,
        ),
        new_epoch > current_epoch + 1 ==> integrity(r, "密钥时代必须逐代安装，拒绝跳跃"@),
{
    if new_epoch <= current_epoch {
        return Ok(RotationStep::AlreadyInstalled);
    }
    if new_epoch - 1 != current_epoch {
        return Err(SyncError::Integrity(owned("密钥时代必须逐代安装，拒绝跳跃")));
    }
    Ok(RotationStep::Install)
}

/// The rotation's author must be a trusted member; its public keys come back.
pub fn require_trusted_author(author: Option<(String, String)>) -> (r: Result<(String, String), SyncError>)
    ensures
        author is None ==> integrity(r, "轮换发起设备不受信"@),
        author matches Some(keys) ==> r matches Ok(k) && k.0@ == keys.0@ && k.1@ == keys.1@,
{
    match author {
        Some(keys) => Ok(keys),
        None => Err(SyncError::Integrity(owned("轮换发起设备不受信"))),
    }
}

/// The rotation envelope comes from its author, for this group and epoch.
pub fn check_rotation_envelope(header: &EnvelopeHeader, author_device_id: &str, group_id: &str, new_epoch: u32) -> (r:
    Result<(), SyncError>)
    ensures
        (header.device_id@ == author_device_id@ && header.group_id@ == group_id@ && header.key_epoch == new_epoch
            && header.payload_kind@ == "member-key-envelope"@) ==> r is Ok,
        !(header.device_id@ == author_device_id@ && header.group_id@ == group_id@ && header.key_epoch == new_epoch
            && header.payload_kind@ == "member-key-envelope"@) ==> integrity(r, "密钥轮换信封头不匹配"@),
{
    if !str_eq(header.device_id.as_str(), author_device_id) || !str_eq(header.group_id.as_str(), group_id)
        || header.key_epoch != new_epoch || !str_eq(header.payload_kind.as_str(), "member-key-envelope") {
        return Err(SyncError::Integrity(owned("密钥轮换信封头不匹配")));
    }
    Ok(())
}

/// This device is a trusted member of the bundle.
pub open spec fn trusts(members: Seq<MemberPublic>, device_id: Seq<char>) -> bool {
    exists|i: int|
        0 <= i < members.len() && (#[trigger] members[i]).device_id@ == device_id && members[i].status@ == "trusted"@
}

/// The bundle authorises this device for the new epoch.
pub open spec fn rotation_addressed(bundle: KeyBundle, group_id: Seq<char>, local_device_id: Seq<char>, new_epoch: u32) -> bool {
    &&& bundle.group_id@ == group_id
    &&& bundle.recipient_device_id@ == local_device_id
    &&& bundle.key_epoch == new_epoch
    &&& trusts(bundle.members@, local_device_id)
}

/// The first key the bundle carries for an epoch.
pub open spec fn key_for(keys: Seq<(u32, String)>, epoch: u32) -> Option<Seq<char>>
    decreases keys.len(),
{
    if keys.len() == 0 {
        None
    } else if keys[0].0 == epoch {
        Some(keys[0].1@)
    } else {
        key_for(keys.subrange(1, keys.len() as int), epoch)
    }
}

fn key_for_exec(keys: &Vec<(u32, String)>, epoch: u32) -> (r: Option<&String>)
    ensures
        match r {
            Some(k) => key_for(keys@, epoch) == Some(k@),
            None => key_for(keys@, epoch) is None,
        },
{
    let mut i: usize = 0;
    assert(keys@.subrange(0, keys@.len() as int) =~= keys@);
    while i < keys.len()
        invariant
            i <= keys@.len(),
            key_for(keys@, epoch) == key_for(keys@.subrange(i as int, keys@.len() as int), epoch),
        decreases keys@.len() - i,
    {
        let ghost rest = keys@.subrange(i as int, keys@.len() as int);
        assert(rest.subrange(1, rest.len() as int) =~= keys@.subrange(i + 1, keys@.len() as int));
        if keys[i].0 == epoch {
            return Some(&keys[i].1);
        }
        i = i + 1;
    }
    None
}

fn trusts_exec(members: &Vec<MemberPublic>, device_id: &str) -> (r: bool)
    ensures
        r == trusts(members@, device_id@),
{
    let mut i: usize = 0;
    while i < members.len()
        invariant
            i <= members@.len(),
            forall|j: int|
                0 <= j < i ==> !((#[trigger] members@[j]).device_id@ == device_id@ && members@[j].status@
                    == "trusted"@),
        decreases members@.len() - i,
    {
        if str_eq(members[i].device_id.as_str(), device_id) && str_eq(members[i].status.as_str(), "trusted") {
            return true;
        }
        i = i + 1;
    }
    false
}

/// The new epoch's group key from a rotation bundle this device opened: the
/// bundle must authorise this device and carry the key, which decodes to 32
/// bytes.
pub fn rotation_key(bundle: &KeyBundle, group_id: &str, local_device_id: &str, new_epoch: u32) -> (r: Result<
    Vec<u8>,
    SyncError,
>)
    ensures
        !rotation_addressed(*bundle, group_id@, local_device_id@, new_epoch) ==> integrity(r, "密钥轮换正文未授权本机"@),
        rotation_addressed(*bundle, group_id@, local_device_id@, new_epoch) ==> match key_for(
            bundle.group_keys_b64@,
            new_epoch,
        ) {
            None => integrity(r, "轮换包缺少目标时代密钥"@),
            Some(text) => match base64_bytes(text) {
                None => crypto(r, "轮换组密钥编码损坏"@),
                Some(b) => if b.len() != 32 {
                    crypto(r, "轮换组密钥长度错误"@)
                } else {
                    r matches Ok(k) && k@ == b
                },
            },
        },
{
    if !str_eq(bundle.group_id.as_str(), group_id) || !str_eq(bundle.recipient_device_id.as_str(), local_device_id)
        || bundle.key_epoch != new_epoch || !trusts_exec(&bundle.members, local_device_id) {
        return Err(SyncError::Integrity(owned("密钥轮换正文未授权本机")));
    }
    let encoded = match key_for_exec(&bundle.group_keys_b64, new_epoch) {
        Some(e) => e,
        None => return Err(SyncError::Integrity(owned("轮换包缺少目标时代密钥"))),
    };
    let key = match b64_decode(encoded.as_str()) {
        Some(k) => k,
        None => return Err(SyncError::Crypto(owned("轮换组密钥编码损坏"))),
    };
    if key.len() != 32 {
        return Err(SyncError::Crypto(owned("轮换组密钥长度错误")));
    }
    Ok(key)
}

/// The bundle lists this device.
pub open spec fn lists(members: Seq<MemberPublic>, device_id: Seq<char>) -> bool {
    exists|i: int| 0 <= i < members.len() && (#[trigger] members[i]).device_id@ == device_id
}

fn lists_exec(members: &Vec<MemberPublic>, device_id: &str) -> (r: bool)
    ensures
        r == lists(members@, device_id@),
{
    let mut i: usize = 0;
    while i < members.len()
        invariant
            i <= members@.len(),
            forall|j: int| 0 <= j < i ==> (#[trigger] members@[j]).device_id@ != device_id@,
        decreases members@.len() - i,
    {
        if str_eq(members[i].device_id.as_str(), device_id) {
            return true;
        }
        i = i + 1;
    }
    false
}

/// The trusted devices a rotation revokes locally: those its bundle no
/// longer lists, in order.
pub fn devices_to_revoke(trusted: &Vec<String>, members: &Vec<MemberPublic>) -> (r: Vec<String>)
    ensures
        r@.map_values(|s: String| s@) == trusted@.map_values(|s: String| s@).filter(
            |d: Seq<char>| !lists(members@, d),
        ),
{
    let ghost ids = trusted@.map_values(|s: String| s@);
    let ghost keep = |d: Seq<char>| !lists(members@, d);
    let mut out: Vec<String> = Vec::new();
    let mut i: usize = 0;
    while i < trusted.len()
        invariant
            i <= trusted@.len(),
            ids == trusted@.map_values(|s: String| s@),
            keep == (|d: Seq<char>| !lists(members@, d)),
            out@.map_values(|s: String| s@) == ids.take(i as int).filter(keep),
        decreases trusted@.len() - i,
    {
        proof {
            assert(ids.take(i + 1).drop_last() =~= ids.take(i as int));
            ids.take(i as int).lemma_filter_push(ids[i as int], keep);
            assert(ids.take(i as int).push(ids[i as int]) =~= ids.take(i + 1));
        }
        if !lists_exec(members, trusted[i].as_str()) {
            let ghost before = out@;
            out.push(owned(trusted[i].as_str()));
            assert(out@.map_values(|s: String| s@) =~= before.map_values(|s: String| s@).push(ids[i as int]));
        }
        i = i + 1;
    }
    assert(ids.take(trusted@.len() as int) =~= ids);
    out
}

/// A member that stays trusted through a revocation accepts the bundle sent
/// to it: the bundle authorises it for the new epoch and carries the new
/// group key, which decodes back to exactly the key that was sent.
pub proof fn lemma_rotation_bundle_is_accepted(
    bundle: KeyBundle,
    group_id: Seq<char>,
    recipient_device_id: Seq<char>,
    next_epoch: u32,
    new_key: Seq<u8>,
    members: Seq<MemberPublic>,
)
    requires
        is_rotation_bundle(bundle, group_id, recipient_device_id, next_epoch, new_key, members),
        trusts(members, recipient_device_id),
    ensures
        rotation_addressed(bundle, group_id, recipient_device_id, next_epoch),
        key_for(bundle.group_keys_b64@, next_epoch) == Some(base64_text(new_key)),
        base64_bytes(base64_text(new_key)) == Some(new_key),
{
    let i = choose|i: int|
        0 <= i < members.len() && (#[trigger] members[i]).device_id@ == recipient_device_id && members[i].status@
            == "trusted"@;
    assert(moved_to(bundle.members@[i], members[i], next_epoch));
    assert(trusts(bundle.members@, recipient_device_id));
    assert(bundle.group_keys_b64@[0].0 == next_epoch);
}

} // verus!
