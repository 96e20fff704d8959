use base64::Engine;
use caseboard::device_sync::crypto::EnvelopeHeader;
use caseboard::device_sync::key_bundle::{
    check_join_bundle, check_member_envelope, check_revocation, check_rotation_envelope, decode_bundle_key,
    devices_to_revoke, require_trusted_author, rotation_bundle, rotation_key, rotation_recipients, rotation_step,
    KeyBundle, RotationStep,
};
use caseboard::device_sync::pairing::MemberPublic;
use caseboard::device_sync::SyncError;

fn member(id: &str, status: &str, epoch: u32) -> MemberPublic {
    MemberPublic {
        device_id: id.into(),
        display_name: format!("{id} 的电脑"),
        signing_public_key: format!("sig-{id}"),
        exchange_public_key: format!("x-{id}"),
        fingerprint: format!("fp-{id}"),
        key_epoch: epoch,
        status: status.into(),
    }
}

fn header(group: &str, device: &str, epoch: u32, kind: &str) -> EnvelopeHeader {
    EnvelopeHeader {
        protocol_version: 1,
        group_id: group.into(),
        device_id: device.into(),
        sequence: 0,
        key_epoch: epoch,
        payload_kind: kind.into(),
        created_at: "2026-04-01T00:00:00Z".into(),
    }
}

fn integrity(message: &str) -> impl Fn(&SyncError) -> bool + '_ {
    move |e| matches!(e, SyncError::Integrity(m) if m == message)
}

#[test]
fn joining_reads_the_inviters_envelope_and_bundle() {
    assert!(check_member_envelope(&header("g", "inviter", 1, "member-key-envelope"), "g", "inviter").is_ok());
    let err = check_member_envelope(&header("g", "other", 1, "member-key-envelope"), "g", "inviter").unwrap_err();
    assert!(integrity("成员密钥信封头不匹配")(&err));
    let key = b64(&[7u8; 32]);
    let bundle = KeyBundle {
        group_id: "g".into(),
        recipient_device_id: "me".into(),
        key_epoch: 2,
        group_keys_b64: vec![(1, key.clone()), (2, key.clone())],
        members: vec![member("inviter", "trusted", 2)],
    };
    assert!(check_join_bundle(&bundle, "g", "me", 2).is_ok());
    assert!(integrity("成员密钥包正文不匹配")(&check_join_bundle(&bundle, "g", "me", 3).unwrap_err()));
    let partial = KeyBundle { group_keys_b64: vec![(1, key.clone())], ..bundle };
    assert!(integrity("成员密钥包缺少当前时代密钥")(&check_join_bundle(&partial, "g", "me", 2).unwrap_err()));
}

#[test]
fn bundle_keys_must_lie_in_range_and_decode_to_32_bytes() {
    let key = b64(&[9u8; 32]);
    assert_eq!(decode_bundle_key(1, &key, 2).unwrap(), vec![9u8; 32]);
    assert!(integrity("成员密钥包时代非法")(&decode_bundle_key(0, &key, 2).unwrap_err()));
    assert!(integrity("成员密钥包时代非法")(&decode_bundle_key(3, &key, 2).unwrap_err()));
    assert!(matches!(decode_bundle_key(1, "%%%", 2), Err(SyncError::Crypto(m)) if m == "组密钥包编码损坏"));
    assert!(matches!(
        decode_bundle_key(1, &b64(&[1u8; 16]), 2),
        Err(SyncError::Crypto(m)) if m == "组密钥长度错误"
    ));
}

#[test]
fn revocation_needs_another_device_and_its_confirmed_fingerprint() {
    assert!(matches!(
        check_revocation("me", "me", &Some("fp".into()), "fp"),
        Err(SyncError::Protocol(m)) if m == "不能在本机直接撤销当前设备"
    ));
    assert!(integrity("撤销设备指纹不匹配")(&check_revocation("b", "me", &Some("fp".into()), "other").unwrap_err()));
    assert!(integrity("撤销设备指纹不匹配")(&check_revocation("b", "me", &None, "fp").unwrap_err()));
    assert!(check_revocation("b", "me", &Some("fp".into()), "fp").is_ok());
}

#[test]
fn a_rotation_reaches_every_remaining_member_who_can_open_it() {
    let members = vec![member("me", "trusted", 1), member("b", "trusted", 1), member("c", "trusted", 1)];
    assert_eq!(rotation_recipients(&members, "me"), vec![1, 2]);
    let new_key = [5u8; 32];
    let bundle = rotation_bundle("g", "b", 2, &new_key, &members);
    assert_eq!(bundle.key_epoch, 2);
    assert_eq!(bundle.group_keys_b64.len(), 1);
    assert!(bundle.members.iter().all(|m| m.key_epoch == 2));
    assert_eq!(rotation_key(&bundle, "g", "b", 2).unwrap(), new_key.to_vec());
    assert!(integrity("密钥轮换正文未授权本机")(&rotation_key(&bundle, "g", "c", 2).unwrap_err()));
    assert!(integrity("密钥轮换正文未授权本机")(&rotation_key(&bundle, "g", "b", 3).unwrap_err()));
}

#[test]
fn rotations_install_one_epoch_at_a_time() {
    assert_eq!(rotation_step(3, 3).unwrap(), RotationStep::AlreadyInstalled);
    assert_eq!(rotation_step(3, 1).unwrap(), RotationStep::AlreadyInstalled);
    assert_eq!(rotation_step(3, 4).unwrap(), RotationStep::Install);
    assert!(integrity("密钥时代必须逐代安装，拒绝跳跃")(&rotation_step(3, 5).unwrap_err()));
    assert!(integrity("轮换发起设备不受信")(&require_trusted_author(None).unwrap_err()));
    assert_eq!(require_trusted_author(Some(("s".into(), "x".into()))).unwrap(), ("s".to_string(), "x".to_string()));
    assert!(check_rotation_envelope(&header("g", "a", 4, "member-key-envelope"), "a", "g", 4).is_ok());
    assert!(integrity("密钥轮换信封头不匹配")(
        &check_rotation_envelope(&header("g", "a", 3, "member-key-envelope"), "a", "g", 4).unwrap_err()
    ));
}

#[test]
fn rotation_bundles_missing_or_bad_keys_are_refused() {
    let mut bundle = KeyBundle {
        group_id: "g".into(),
        recipient_device_id: "me".into(),
        key_epoch: 4,
        group_keys_b64: vec![(3, b64(&[1u8; 32]))],
        members: vec![member("me", "trusted", 4)],
    };
    assert!(integrity("轮换包缺少目标时代密钥")(&rotation_key(&bundle, "g", "me", 4).unwrap_err()));
    bundle.group_keys_b64 = vec![(4, "!!".into())];
    assert!(matches!(rotation_key(&bundle, "g", "me", 4), Err(SyncError::Crypto(m)) if m == "轮换组密钥编码损坏"));
    bundle.group_keys_b64 = vec![(4, b64(&[1u8; 8]))];
    assert!(matches!(rotation_key(&bundle, "g", "me", 4), Err(SyncError::Crypto(m)) if m == "轮换组密钥长度错误"));
}

#[test]
fn devices_left_out_of_a_rotation_are_revoked() {
    let members = vec![member("me", "trusted", 2), member("b", "trusted", 2)];
    let trusted = vec!["me".to_string(), "b".into(), "c".into(), "d".into()];
    assert_eq!(devices_to_revoke(&trusted, &members), vec!["c".to_string(), "d".into()]);
}

fn b64(bytes: &[u8]) -> String {
    base64::engine::general_purpose::STANDARD.encode(bytes)
}
