//! Database-level errors and the pure decisions around the data directory and
//! the migration-lineage preflight.
use vstd::prelude::*;

use crate::text::{push_str, owned};

pub mod migration_safety;
pub mod lineage;
pub mod sentinels;
pub mod material_queue;
pub mod todos;
pub mod todo_feishu_sync;
pub mod todo_feishu_actions;
pub mod usage_dashboard;

verus! {

pub const DB_MIGRATION_CHECKSUM_UNKNOWN: &'static str = "DB_MIGRATION_CHECKSUM_UNKNOWN";
pub const DB_MIGRATION_APPLIED_VERSION_UNKNOWN: &'static str = "DB_MIGRATION_APPLIED_VERSION_UNKNOWN";
pub const DB_MIGRATION_SCHEMA_SENTINEL_MISSING: &'static str = "DB_MIGRATION_SCHEMA_SENTINEL_MISSING";
pub const DB_MIGRATION_LINEAGE_INCOMPATIBLE: &'static str = "DB_MIGRATION_LINEAGE_INCOMPATIBLE";

/// Safe, structured metadata for migration-lineage failures. Values are
/// limited to migration/schema metadata and never contain SQL parameters or
/// business-table contents.
#[derive(Debug)]
pub struct DbMigrationCompatibilityError {
    pub code: &'static str,
    pub version: Option<i64>,
    pub reason: &'static str,
    pub stored_checksum: Option<String>,
    pub current_checksum: Option<String>,
    pub missing_sentinels: Vec<String>,
}

/// What a compatibility error says, with its strings as character sequences.
pub ghost struct CompatibilityErrorView {
    pub code: Seq<char>,
    pub version: Option<i64>,
    pub reason: Seq<char>,
    pub stored_checksum: Option<Seq<char>>,
    pub current_checksum: Option<Seq<char>>,
    pub missing_sentinels: Seq<Seq<char>>,
}

pub open spec fn opt_view(o: Option<String>) -> Option<Seq<char>> {
    match o {
        Some(s) => Some(s@),
        None => None,
    }
}

impl View for DbMigrationCompatibilityError {
    type V = CompatibilityErrorView;

    open spec fn view(&self) -> CompatibilityErrorView {
        CompatibilityErrorView {
            code: self.code@,
            version: self.version,
            reason: self.reason@,
            stored_checksum: opt_view(self.stored_checksum),
            current_checksum: opt_view(self.current_checksum),
            missing_sentinels: self.missing_sentinels@.map_values(|s: String| s@),
        }
    }
}

/// Database errors, mapped to operator-facing text by the application.
#[derive(Debug)]
pub enum DbError {
    HomeDirNotFound,
    DataDirOverrideInvalid(String),
    Io(String),
    Connect(String),
    Migrate(String),
    MigrationCompatibility(DbMigrationCompatibilityError),
}

/// The operator-facing summary line for each compatibility code.
pub open spec fn spec_recovery_summary(code: Seq<char>) -> Seq<char> {
    if code == DB_MIGRATION_CHECKSUM_UNKNOWN@ {
        "检测到无法验证的数据库迁移校验值。"@
    } else if code == DB_MIGRATION_APPLIED_VERSION_UNKNOWN@ {
        "数据库包含当前版本无法识别的已应用迁移。"@
    } else if code == DB_MIGRATION_SCHEMA_SENTINEL_MISSING@ {
        "数据库结构与已记录的迁移历史不一致。"@
    } else if code == DB_MIGRATION_LINEAGE_INCOMPATIBLE@ {
        "数据库迁移谱系不兼容。"@
    } else {
        "数据库迁移兼容性检查未通过。"@
    }
}

/// The full startup recovery text shown before the application exits.
pub open spec fn spec_startup_recovery_message(code: Seq<char>, db_path: Seq<char>) -> Seq<char> {
    spec_recovery_summary(code) + "\n\n错误码："@ + code + "\n数据库位置："@ + db_path
        + "\n\n为保护现有数据，本次已在写入前停止，未继续迁移、重建、覆盖或删除数据库。\n不要删除、重命名、分离或单独处理数据库旁的 WAL/SHM 文件。请先将数据库及 WAL/SHM 原样完整备份，再由支持人员在隔离副本上进行受控 checkpoint、恢复与只读谱系审计。\n\n关闭本提示后，方律案件看板将退出。"@
}

impl DbError {
    /// The structured compatibility error, when this is one.
    pub fn migration_compatibility(&self) -> (r: Option<&DbMigrationCompatibilityError>)
        ensures
            r == (match self {
                DbError::MigrationCompatibility(e) => Some(e),
                _ => None,
            }),
    {
        match self {
            DbError::MigrationCompatibility(error) => Some(error),
            _ => None,
        }
    }

    /// The native recovery message for a compatibility failure, `None` for
    /// every other error.
    pub fn startup_recovery_message(&self, db_path: &str) -> (r: Option<String>)
        ensures
            match self {
                DbError::MigrationCompatibility(e) => r is Some && r->0@
                    == spec_startup_recovery_message(e.code@, db_path@),
                _ => r is None,
            },
    {
        let error = match self.migration_compatibility() {
            Some(error) => error,
            None => return None,
        };
        let code: &str = error.code;
        let summary: &str = if crate::text::str_eq(code, DB_MIGRATION_CHECKSUM_UNKNOWN) {
            "检测到无法验证的数据库迁移校验值。"
        } else if crate::text::str_eq(code, DB_MIGRATION_APPLIED_VERSION_UNKNOWN) {
            "数据库包含当前版本无法识别的已应用迁移。"
        } else if crate::text::str_eq(code, DB_MIGRATION_SCHEMA_SENTINEL_MISSING) {
            "数据库结构与已记录的迁移历史不一致。"
        } else if crate::text::str_eq(code, DB_MIGRATION_LINEAGE_INCOMPATIBLE) {
            "数据库迁移谱系不兼容。"
        } else {
            "数据库迁移兼容性检查未通过。"
        };
        let mut message = owned(summary);
        push_str(&mut message, "\n\n错误码：");
        push_str(&mut message, code);
        push_str(&mut message, "\n数据库位置：");
        push_str(&mut message, db_path);
        push_str(
            &mut message,
            "\n\n为保护现有数据，本次已在写入前停止，未继续迁移、重建、覆盖或删除数据库。\n不要删除、重命名、分离或单独处理数据库旁的 WAL/SHM 文件。请先将数据库及 WAL/SHM 原样完整备份，再由支持人员在隔离副本上进行受控 checkpoint、恢复与只读谱系审计。\n\n关闭本提示后，方律案件看板将退出。",
        );
        Some(message)
    }
}


/// The database file inside the data directory.
pub const DB_FILE_NAME: &'static str = "caseboard.db";

/// The environment variable that overrides the data directory.
pub const CASEBOARD_DATA_DIR_ENV: &'static str = "CASEBOARD_DATA_DIR";

/// Judges a data-directory override, given as text with what the file
/// system says of the path: an empty override, a relative path and a path
/// to something other than a directory are refused; no override means the
/// default directory.
pub fn check_data_dir_override(value: Option<&str>, is_absolute: bool, exists: bool, is_dir: bool) -> (r: Result<
    Option<String>,
    DbError,
>)
    ensures
        match value {
            None => r matches Ok(None),
            Some(v) => if v@.len() == 0 {
                r matches Err(DbError::DataDirOverrideInvalid(m)) && m@ == "不能为空"@
            } else if !is_absolute {
                r matches Err(DbError::DataDirOverrideInvalid(m)) && m@ == "必须是绝对路径: "@ + v@
            } else if exists && !is_dir {
                r matches Err(DbError::DataDirOverrideInvalid(m)) && m@ == "必须指向目录: "@ + v@
            } else {
                r matches Ok(Some(p)) && p@ == v@
            },
        },
{
    let v = match value {
        None => return Ok(None),
        Some(v) => v,
    };
    if v.is_empty() {
        return Err(DbError::DataDirOverrideInvalid(owned("不能为空")));
    }
    if !is_absolute {
        let mut m = owned("必须是绝对路径: ");
        push_str(&mut m, v);
        return Err(DbError::DataDirOverrideInvalid(m));
    }
    if exists && !is_dir {
        let mut m = owned("必须指向目录: ");
        push_str(&mut m, v);
        return Err(DbError::DataDirOverrideInvalid(m));
    }
    Ok(Some(owned(v)))
}

/// The legacy data directory is copied into the current one only when the
/// current one has no database yet, the legacy one has, and they differ.
pub fn needs_legacy_copy(current_db_exists: bool, legacy_db_exists: bool, same_directory: bool) -> (r: bool)
    ensures
        r == (!current_db_exists && legacy_db_exists && !same_directory),
{
    !current_db_exists && legacy_db_exists && !same_directory
}

} // verus!
