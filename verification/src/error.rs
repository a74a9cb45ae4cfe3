//! Structured error type of the synchronisation subsystem and its classification.

use vstd::prelude::*;
use crate::text::{push_decimal, push_str, decimal};

verus! {

/// Category of a validation failure.
#[derive(Debug, Clone, Copy, PartialEq, Eq, Structural)]
pub enum ValidationKind {
    /// A generic input or configuration check failed.
    General,
    /// A path would escape its root or name a device.
    Security,
    /// A symlink, junction or other reparse point was met.
    ReparsePoint,
    /// A structural invariant of a value was violated.
    Invariant,
}

/// Kind of an I/O failure, as far as the logic needs to tell them apart.
#[derive(Debug, Clone, Copy, PartialEq, Eq, Structural)]
pub enum IoErrorKind {
    NotFound,
    PermissionDenied,
    Interrupted,
    UnexpectedEof,
    WriteZero,
    TimedOut,
    Other,
}

/// Errors produced while synchronising files.
#[derive(Debug, Clone)]
pub enum SyncError {
    /// An I/O operation failed; `os_code` is the raw operating system code when known.
    Io { kind: IoErrorKind, os_code: Option<i32> },
    /// A value or path was rejected.
    Validation { kind: ValidationKind, message: String },
    /// Data read back from the destination did not match what was written.
    WriteVerificationFailed { path: String, block: Option<u64> },
    /// The operation was cancelled cooperatively.
    Cancelled,
    /// The signature database failed.
    Db { message: String },
    /// Any other failure.
    Generic { message: String },
}

/// Operating-system codes that mean the network path is gone.
pub open spec fn is_offline_os_code(code: i32) -> bool {
    code == 51 || code == 53 || code == 59 || code == 64 || code == 67 || code == 121
        || code == 1222 || code == 1231 || code == 1232 || code == 2250
}

impl SyncError {
    /// Whether the error means that the destination's network path is unreachable.
    pub open spec fn spec_is_network_offline(&self) -> bool {
        match self {
            SyncError::Io { kind, os_code } => {
                kind == IoErrorKind::TimedOut || (os_code.is_some() && is_offline_os_code(
                    os_code.unwrap(),
                ))
            },
            _ => false,
        }
    }

    /// Whether the error is a validation failure that no retry can cure.
    pub open spec fn spec_is_permanent_validation_failure(&self) -> bool {
        match self {
            SyncError::Validation { kind, .. } => kind == ValidationKind::Security || kind
                == ValidationKind::ReparsePoint,
            _ => false,
        }
    }

    /// Exec form of [`Self::spec_is_network_offline`].
    pub fn is_network_offline(&self) -> (r: bool)
        ensures
            r == self.spec_is_network_offline(),
    {
        match self {
            SyncError::Io { kind, os_code } => {
                if *kind == IoErrorKind::TimedOut {
                    return true;
                }
                match os_code {
                    Some(c) => {
                        let c = *c;
                        c == 51 || c == 53 || c == 59 || c == 64 || c == 67 || c == 121 || c
                            == 1222 || c == 1231 || c == 1232 || c == 2250
                    },
                    None => false,
                }
            },
            _ => false,
        }
    }

    /// Exec form of [`Self::spec_is_permanent_validation_failure`].
    pub fn is_permanent_validation_failure(&self) -> (r: bool)
        ensures
            r == self.spec_is_permanent_validation_failure(),
    {
        match self {
            SyncError::Validation { kind, .. } => {
                *kind == ValidationKind::Security || *kind == ValidationKind::ReparsePoint
            },
            _ => false,
        }
    }

    /// A general validation error carrying `message`.
    pub fn validation(message: &str) -> (e: SyncError)
        ensures
            e == (SyncError::Validation { kind: ValidationKind::General, message: e->Validation_message }),
            e->Validation_message@ == message@,
    {
        SyncError::Validation { kind: ValidationKind::General, message: message.to_owned() }
    }

    /// A security validation error (path traversal and the like).
    pub fn validation_security(message: &str) -> (e: SyncError)
        ensures
            e == (SyncError::Validation { kind: ValidationKind::Security, message: e->Validation_message }),
            e->Validation_message@ == message@,
    {
        SyncError::Validation { kind: ValidationKind::Security, message: message.to_owned() }
    }

    /// A reparse point validation error.
    pub fn validation_reparse(message: &str) -> (e: SyncError)
        ensures
            e == (SyncError::Validation {
                kind: ValidationKind::ReparsePoint,
                message: e->Validation_message,
            }),
            e->Validation_message@ == message@,
    {
        SyncError::Validation { kind: ValidationKind::ReparsePoint, message: message.to_owned() }
    }

    /// An invariant validation error.
    pub fn validation_invariant(message: &str) -> (e: SyncError)
        ensures
            e == (SyncError::Validation { kind: ValidationKind::Invariant, message: e->Validation_message }),
            e->Validation_message@ == message@,
    {
        SyncError::Validation { kind: ValidationKind::Invariant, message: message.to_owned() }
    }

    /// A generic error carrying `message`.
    pub fn generic(message: &str) -> (e: SyncError)
        ensures
            e is Generic,
            e->Generic_message@ == message@,
    {
        SyncError::Generic { message: message.to_owned() }
    }

    /// A copy of the error, field for field.
    pub fn copy(&self) -> (c: SyncError)
        ensures
            c == *self,
    {
        match self {
            SyncError::Io { kind, os_code } => SyncError::Io { kind: *kind, os_code: *os_code },
            SyncError::Validation { kind, message } => SyncError::Validation { kind: *kind, message: message.clone() },
            SyncError::WriteVerificationFailed { path, block } => SyncError::WriteVerificationFailed {
                path: path.clone(),
                block: *block,
            },
            SyncError::Cancelled => SyncError::Cancelled,
            SyncError::Db { message } => SyncError::Db { message: message.clone() },
            SyncError::Generic { message } => SyncError::Generic { message: message.clone() },
        }
    }

    /// A write verification failure on `path`, not tied to one block.
    pub fn write_verification_failed(path: &str) -> (e: SyncError)
        ensures
            e is WriteVerificationFailed,
            e->path@ == path@,
            e->block == None::<u64>,
    {
        SyncError::WriteVerificationFailed { path: path.to_owned(), block: None }
    }

    /// A write verification failure on block `block` of `path`.
    pub fn write_verification_failed_block(path: &str, block: u64) -> (e: SyncError)
        ensures
            e is WriteVerificationFailed,
            e->path@ == path@,
            e->block == Some(block),
    {
        SyncError::WriteVerificationFailed { path: path.to_owned(), block: Some(block) }
    }

    /// An I/O error of the given kind without an operating system code.
    pub fn io(kind: IoErrorKind) -> (e: SyncError)
        ensures
            e == (SyncError::Io { kind, os_code: None }),
    {
        SyncError::Io { kind, os_code: None }
    }

    /// An I/O error from a raw operating system code.
    pub fn from_os_code(code: i32) -> (e: SyncError)
        ensures
            e == (SyncError::Io { kind: IoErrorKind::Other, os_code: Some(code) }),
    {
        SyncError::Io { kind: IoErrorKind::Other, os_code: Some(code) }
    }

    /// The user-facing message of the error.
    pub open spec fn spec_message(&self) -> Seq<char> {
        match self {
            SyncError::Io { os_code, .. } => match os_code {
                Some(c) => if c >= 0 {
                    "I/O error: os error "@ + decimal(c as nat)
                } else {
                    "I/O error"@
                },
                None => "I/O error"@,
            },
            SyncError::Validation { message, .. } => "Validation error: "@ + message@,
            SyncError::WriteVerificationFailed { path, .. } => "Write verification failed: "@
                + path@,
            SyncError::Cancelled => "Operation cancelled"@,
            SyncError::Db { message } => "Database error: "@ + message@,
            SyncError::Generic { message } => message@,
        }
    }

    /// Renders the user-facing message of the error.
    pub fn to_message(&self) -> (s: String)
        ensures
            s@ == self.spec_message(),
    {
        let mut s = String::new();
        match self {
            SyncError::Io { os_code, .. } => match os_code {
                Some(c) => {
                    if *c >= 0 {
                        push_str(&mut s, "I/O error: os error ");
                        push_decimal(&mut s, *c as u64);
                    } else {
                        push_str(&mut s, "I/O error");
                    }
                },
                None => push_str(&mut s, "I/O error"),
            },
            SyncError::Validation { message, .. } => {
                push_str(&mut s, "Validation error: ");
                push_str(&mut s, message.as_str());
            },
            SyncError::WriteVerificationFailed { path, .. } => {
                push_str(&mut s, "Write verification failed: ");
                push_str(&mut s, path.as_str());
            },
            SyncError::Cancelled => push_str(&mut s, "Operation cancelled"),
            SyncError::Db { message } => {
                push_str(&mut s, "Database error: ");
                push_str(&mut s, message.as_str());
            },
            SyncError::Generic { message } => push_str(&mut s, message.as_str()),
        }
        s
    }
}

} // verus!
