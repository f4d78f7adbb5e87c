//! The error type shared by the library.
use vstd::prelude::*;

use crate::text::{concat, owned};

verus! {

/// The kind of a file system error, as far as the library tells kinds apart.
#[derive(Debug, Clone, Copy, PartialEq, Eq, Structural)]
pub enum IoKind {
    PermissionDenied,
    StorageFull,
    Other,
}

/// A file system error: its kind, the operating system's error number when
/// there is one, and its text.
#[derive(Debug, Clone)]
pub struct IoFailure {
    pub kind: IoKind,
    pub os_code: Option<i32>,
    pub text: String,
}

/// The SQLite result codes the library tells apart.
#[derive(Debug, Clone, Copy, PartialEq, Eq, Structural)]
pub enum SqliteCode {
    ReadOnly,
    DiskFull,
    DatabaseCorrupt,
    CannotOpen,
    Other,
}

/// A database error: the SQLite code when SQLite reported one, and its text.
#[derive(Debug, Clone)]
pub struct DatabaseFailure {
    pub code: Option<SqliteCode>,
    pub text: String,
}

/// What can go wrong in the application.  The outside errors (database,
/// file system, settings data) are carried as what the library reads of them.
#[derive(Debug, Clone)]
pub enum AppError {
    Validation(String),
    Database(DatabaseFailure),
    Io(IoFailure),
    SettingsData(String),
    ItemNotFound,
    SystemIntegration(String),
}

pub type AppResult<T> = Result<T, AppError>;

/// `r` is a validation error whose message is `msg`.
pub open spec fn is_validation(r: AppError, msg: Seq<char>) -> bool {
    r matches AppError::Validation(m) && m@ == msg
}

impl AppError {
    /// The text shown to the user for this error.
    pub open spec fn message_spec(&self) -> Seq<char> {
        match self {
            AppError::Validation(m) => m@,
            AppError::Database(_) => "本地数据库操作失败"@,
            AppError::Io(_) => "本地数据文件操作失败"@,
            AppError::SettingsData(_) => "本地设置数据损坏"@,
            AppError::ItemNotFound => "找不到事项"@,
            AppError::SystemIntegration(m) => "系统集成功能不可用："@ + m@,
        }
    }

    /// The text shown to the user for this error.
    pub fn message(&self) -> (r: String)
        ensures
            r@ == self.message_spec(),
    {
        match self {
            AppError::Validation(m) => m.clone(),
            AppError::Database(_) => owned("本地数据库操作失败"),
            AppError::Io(_) => owned("本地数据文件操作失败"),
            AppError::SettingsData(_) => owned("本地设置数据损坏"),
            AppError::ItemNotFound => owned("找不到事项"),
            AppError::SystemIntegration(m) => concat("系统集成功能不可用：", m.as_str()),
        }
    }
}

/// A database error that carries no SQLite code.
pub fn database_error(text: &str) -> (r: AppError)
    ensures
        r matches AppError::Database(f) && f.code is None && f.text@ == text@,
{
    AppError::Database(DatabaseFailure { code: None, text: owned(text) })
}

/// A validation error with the given message.
pub fn validation(msg: &str) -> (r: AppError)
    ensures
        is_validation(r, msg@),
{
    AppError::Validation(owned(msg))
}

} // verus!
