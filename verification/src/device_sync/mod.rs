//! Encrypted NAS backup and two-way sync between the devices of one group.
//! The NAS holds only authenticated encrypted envelopes and non-sensitive
//! protocol metadata; database files, credentials, source materials,
//! extracted text, chat and memory never enter the registry. Import fails
//! closed on unknown entities or fields and on signature, hash, epoch or
//! sequence errors.
use vstd::prelude::*;

use crate::text::{owned, push_str};

pub mod capture;
pub mod commands;
pub mod crypto;
pub mod engine;
pub mod identity;
pub mod key_bundle;
pub mod manifest;
pub mod nas_folder;
pub mod operations;
pub mod packing;
pub mod pairing;
pub mod queries;
pub mod recovery;
pub mod registry;
pub mod snapshot;

verus! {

#[derive(Debug)]
pub struct SyncStatus {
    pub group_id: String,
    pub connector_root: String,
    pub local_device_id: String,
    pub key_epoch: u32,
    pub paused: bool,
    pub pending_upload: u64,
    pub conflicts: u64,
    pub quarantined: u64,
    pub auto_paused: bool,
    pub pause_reason_code: Option<String>,
    pub last_attempt_at: Option<String>,
    pub last_success_at: Option<String>,
    pub manual_review: u64,
}

#[derive(Debug)]
pub enum SyncError {
    Database(String),
    Serialization(String),
    Crypto(String),
    Integrity(String),
    Protocol(String),
    EntityNotAllowed(String),
    FieldNotAllowed { entity_type: String, field: String },
    InvalidNasPath(String),
    NasUnavailable(String),
    CredentialStore(String),
    UnsupportedPlatform,
    Paused,
    Busy,
    FuseTriggered(String),
    NotFound(String),
    GroupAutoPaused,
    PackageDependencyMissing,
    PackageDependencyConflict,
    PackageTooLarge,
    FeishuLifecycleBusy,
}

pub open spec fn spec_sync_code(e: SyncError) -> Seq<char> {
    match e {
        SyncError::Database(_) => "SYNC_DATABASE"@,
        SyncError::Serialization(_) => "SYNC_SERIALIZATION"@,
        SyncError::Crypto(_) => "SYNC_CRYPTO"@,
        SyncError::Integrity(_) => "SYNC_INTEGRITY"@,
        SyncError::Protocol(_) => "SYNC_PROTOCOL"@,
        SyncError::EntityNotAllowed(_) => "SYNC_ENTITY_NOT_ALLOWED"@,
        SyncError::FieldNotAllowed { .. } => "SYNC_FIELD_NOT_ALLOWED"@,
        SyncError::InvalidNasPath(_) => "SYNC_NAS_PATH"@,
        SyncError::NasUnavailable(_) => "SYNC_NAS_UNAVAILABLE"@,
        SyncError::CredentialStore(_) => "SYNC_CREDENTIAL_STORE"@,
        SyncError::UnsupportedPlatform => "SYNC_UNSUPPORTED_PLATFORM"@,
        SyncError::Paused => "SYNC_PAUSED"@,
        SyncError::Busy => "SYNC_BUSY"@,
        SyncError::FuseTriggered(_) => "SYNC_FUSE_TRIGGERED"@,
        SyncError::NotFound(_) => "SYNC_NOT_FOUND"@,
        SyncError::GroupAutoPaused => "SYNC_GROUP_AUTO_PAUSED"@,
        SyncError::PackageDependencyMissing => "SYNC_PACKAGE_DEPENDENCY_MISSING"@,
        SyncError::PackageDependencyConflict => "SYNC_PACKAGE_DEPENDENCY_CONFLICT"@,
        SyncError::PackageTooLarge => "SYNC_PACKAGE_TOO_LARGE"@,
        SyncError::FeishuLifecycleBusy => "SYNC_FEISHU_LIFECYCLE_BUSY"@,
    }
}

/// The message shown for an error.
pub open spec fn spec_sync_message(e: SyncError) -> Seq<char> {
    match e {
        SyncError::Database(s) => "数据库错误: "@ + s@,
        SyncError::Serialization(s) => "序列化错误: "@ + s@,
        SyncError::Crypto(s) => "加密错误: "@ + s@,
        SyncError::Integrity(s) => "完整性校验失败: "@ + s@,
        SyncError::Protocol(s) => "同步协议错误: "@ + s@,
        SyncError::EntityNotAllowed(s) => "不允许同步实体: "@ + s@,
        SyncError::FieldNotAllowed { entity_type, field } => "实体 "@ + entity_type@ + " 的字段不允许同步: "@ + field@,
        SyncError::InvalidNasPath(s) => "NAS 目录无效: "@ + s@,
        SyncError::NasUnavailable(s) => "NAS 当前不可用: "@ + s@,
        SyncError::CredentialStore(s) => "Windows 凭据存储错误: "@ + s@,
        SyncError::UnsupportedPlatform => "当前平台不支持设备同步密钥存储"@,
        SyncError::Paused => "同步组已暂停"@,
        SyncError::Busy => "同步任务正在运行或状态已变化"@,
        SyncError::FuseTriggered(s) => "异常变更熔断: "@ + s@,
        SyncError::NotFound(s) => "未找到: "@ + s@,
        SyncError::GroupAutoPaused => "同步组已因连续失败自动暂停"@,
        SyncError::PackageDependencyMissing => "同步包依赖的实体不存在"@,
        SyncError::PackageDependencyConflict => "同步包内依赖关系冲突"@,
        SyncError::PackageTooLarge => "同步包超过单次操作上限"@,
        SyncError::FeishuLifecycleBusy => "飞书绑定生命周期操作正在进行"@,
    }
}

fn prefixed(prefix: &str, s: &String) -> (r: String)
    ensures
        r@ == prefix@ + s@,
{
    let mut r = owned(prefix);
    push_str(&mut r, s.as_str());
    r
}

impl SyncError {
    /// The message the user interface shows for this error.
    pub fn message(&self) -> (r: String)
        ensures
            r@ == spec_sync_message(*self),
    {
        match self {
            SyncError::Database(s) => prefixed("数据库错误: ", s),
            SyncError::Serialization(s) => prefixed("序列化错误: ", s),
            SyncError::Crypto(s) => prefixed("加密错误: ", s),
            SyncError::Integrity(s) => prefixed("完整性校验失败: ", s),
            SyncError::Protocol(s) => prefixed("同步协议错误: ", s),
            SyncError::EntityNotAllowed(s) => prefixed("不允许同步实体: ", s),
            SyncError::FieldNotAllowed { entity_type, field } => {
                let mut r = prefixed("实体 ", entity_type);
                push_str(&mut r, " 的字段不允许同步: ");
                push_str(&mut r, field.as_str());
                r
            },
            SyncError::InvalidNasPath(s) => prefixed("NAS 目录无效: ", s),
            SyncError::NasUnavailable(s) => prefixed("NAS 当前不可用: ", s),
            SyncError::CredentialStore(s) => prefixed("Windows 凭据存储错误: ", s),
            SyncError::UnsupportedPlatform => owned("当前平台不支持设备同步密钥存储"),
            SyncError::Paused => owned("同步组已暂停"),
            SyncError::Busy => owned("同步任务正在运行或状态已变化"),
            SyncError::FuseTriggered(s) => prefixed("异常变更熔断: ", s),
            SyncError::NotFound(s) => prefixed("未找到: ", s),
            SyncError::GroupAutoPaused => owned("同步组已因连续失败自动暂停"),
            SyncError::PackageDependencyMissing => owned("同步包依赖的实体不存在"),
            SyncError::PackageDependencyConflict => owned("同步包内依赖关系冲突"),
            SyncError::PackageTooLarge => owned("同步包超过单次操作上限"),
            SyncError::FeishuLifecycleBusy => owned("飞书绑定生命周期操作正在进行"),
        }
    }

    /// The error as it is serialised for the user interface: its code, a
    /// colon and its message.
    pub fn serialized(&self) -> (r: String)
        ensures
            r@ == spec_sync_code(*self) + ": "@ + spec_sync_message(*self),
    {
        let mut r = owned(self.code());
        push_str(&mut r, ": ");
        push_str(&mut r, self.message().as_str());
        r
    }

    /// The stable code the user interface shows for this error.
    pub fn code(&self) -> (r: &'static str)
        ensures
            r@ == spec_sync_code(*self),
    {
        match self {
            SyncError::Database(_) => "SYNC_DATABASE",
            SyncError::Serialization(_) => "SYNC_SERIALIZATION",
            SyncError::Crypto(_) => "SYNC_CRYPTO",
            SyncError::Integrity(_) => "SYNC_INTEGRITY",
            SyncError::Protocol(_) => "SYNC_PROTOCOL",
            SyncError::EntityNotAllowed(_) => "SYNC_ENTITY_NOT_ALLOWED",
            SyncError::FieldNotAllowed { .. } => "SYNC_FIELD_NOT_ALLOWED",
            SyncError::InvalidNasPath(_) => "SYNC_NAS_PATH",
            SyncError::NasUnavailable(_) => "SYNC_NAS_UNAVAILABLE",
            SyncError::CredentialStore(_) => "SYNC_CREDENTIAL_STORE",
            SyncError::UnsupportedPlatform => "SYNC_UNSUPPORTED_PLATFORM",
            SyncError::Paused => "SYNC_PAUSED",
            SyncError::Busy => "SYNC_BUSY",
            SyncError::FuseTriggered(_) => "SYNC_FUSE_TRIGGERED",
            SyncError::NotFound(_) => "SYNC_NOT_FOUND",
            SyncError::GroupAutoPaused => "SYNC_GROUP_AUTO_PAUSED",
            SyncError::PackageDependencyMissing => "SYNC_PACKAGE_DEPENDENCY_MISSING",
            SyncError::PackageDependencyConflict => "SYNC_PACKAGE_DEPENDENCY_CONFLICT",
            SyncError::PackageTooLarge => "SYNC_PACKAGE_TOO_LARGE",
            SyncError::FeishuLifecycleBusy => "SYNC_FEISHU_LIFECYCLE_BUSY",
        }
    }
}

} // verus!
