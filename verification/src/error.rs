//! The library's error type.
use vstd::prelude::*;

use crate::model::{spec_label, Status};
use crate::text::{owned, push_str};

verus! {

/// The kind of a failed file or process operation (as `std::io::ErrorKind`
/// names it; the kinds the library tells apart).
#[derive(Debug, Clone, Copy, PartialEq, Eq, Structural)]
pub enum IoErrorKind {
    /// A file, directory or program was not found.
    NotFound,
    /// The operation lacked the necessary privileges.
    PermissionDenied,
    /// A file or directory already exists.
    AlreadyExists,
    /// Data was not valid for the operation.
    InvalidData,
    /// Any other failure.
    Other,
}

/// Errors reported by the library's operations.
#[derive(Debug, Clone)]
pub enum CoreError {
    /// A status change that the state machine does not allow.
    InvalidTransition { from: Status, to: Status },
    /// A file or process could not be used: the kind of failure, and a
    /// message that says why.
    Io(IoErrorKind, String),
    /// The configuration file could not be read.
    ConfigCorrupt(String),
    /// The operation was canceled by the user.
    Cancelled,
    /// An external program exited unsuccessfully.
    ProcessFailed { program: String, code: Option<i32>, stderr: String },
}

/// The text shown for an error.
pub open spec fn spec_error_text(e: CoreError) -> Seq<char> {
    match e {
        CoreError::InvalidTransition { from, to } => "状态不允许："@ + spec_label(from) + " → "@
            + spec_label(to),
        CoreError::Io(_, m) => m@,
        CoreError::ConfigCorrupt(m) => "配置文件损坏："@ + m@,
        CoreError::Cancelled => "已取消"@,
        CoreError::ProcessFailed { program, code, stderr } => program@ + " 执行失败："@ + stderr@,
    }
}

impl CoreError {
    /// The text shown for the error.
    pub fn to_string(&self) -> (r: String)
        ensures
            r@ == spec_error_text(*self),
    {
        match self {
            CoreError::InvalidTransition { from, to } => {
                let mut m = owned("状态不允许：");
                push_str(&mut m, from.label());
                push_str(&mut m, " → ");
                push_str(&mut m, to.label());
                m
            },
            CoreError::Io(_, m) => m.clone(),
            CoreError::ConfigCorrupt(m) => {
                let mut s = owned("配置文件损坏：");
                push_str(&mut s, m.as_str());
                s
            },
            CoreError::Cancelled => owned("已取消"),
            CoreError::ProcessFailed { program, code: _, stderr } => {
                let mut s = owned(program.as_str());
                push_str(&mut s, " 执行失败：");
                push_str(&mut s, stderr.as_str());
                s
            },
        }
    }
}

} // verus!
