//! Error taxonomy of the engine. Per-trace failures never surface here: they
//! are folded into `CleanResult` entries or dropped scan sources; these
//! variants describe whole-operation failures.

use vstd::prelude::*;

verus! {

#[derive(Debug, Clone, PartialEq, Eq)]
pub enum UninstallerError {
    Registry(String),
    FileSystem(String),
    Msi(String),
    StoreApp(String),
    PermissionDenied(String),
    CriticalSystemItem(String),
    NotFound(String),
    Com(String),
    Other(String),
    Timeout(String),
    Serde(String),
}

impl UninstallerError {
    /// The display text of an error: a variant label and its message.
    pub open spec fn spec_describe(self) -> Seq<char> {
        match self {
            UninstallerError::Registry(m) => "registry error: "@ + m@,
            UninstallerError::FileSystem(m) => "file system error: "@ + m@,
            UninstallerError::Msi(m) => "msi error: "@ + m@,
            UninstallerError::StoreApp(m) => "store app error: "@ + m@,
            UninstallerError::PermissionDenied(m) => "permission denied: "@ + m@,
            UninstallerError::CriticalSystemItem(m) => "critical system item: "@ + m@,
            UninstallerError::NotFound(m) => "not found: "@ + m@,
            UninstallerError::Com(m) => "com error: "@ + m@,
            UninstallerError::Other(m) => "error: "@ + m@,
            UninstallerError::Timeout(m) => "timeout: "@ + m@,
            UninstallerError::Serde(m) => "serialization error: "@ + m@,
        }
    }

    /// Render the error for messages and reports.
    pub fn describe(&self) -> (r: String)
        ensures
            r@ == self.spec_describe(),
    {
        let mut r = String::new();
        match self {
            UninstallerError::Registry(m) => {
                r.append("registry error: ");
                r.append(m.as_str());
            },
            UninstallerError::FileSystem(m) => {
                r.append("file system error: ");
                r.append(m.as_str());
            },
            UninstallerError::Msi(m) => {
                r.append("msi error: ");
                r.append(m.as_str());
            },
            UninstallerError::StoreApp(m) => {
                r.append("store app error: ");
                r.append(m.as_str());
            },
            UninstallerError::PermissionDenied(m) => {
                r.append("permission denied: ");
                r.append(m.as_str());
            },
            UninstallerError::CriticalSystemItem(m) => {
                r.append("critical system item: ");
                r.append(m.as_str());
            },
            UninstallerError::NotFound(m) => {
                r.append("not found: ");
                r.append(m.as_str());
            },
            UninstallerError::Com(m) => {
                r.append("com error: ");
                r.append(m.as_str());
            },
            UninstallerError::Other(m) => {
                r.append("error: ");
                r.append(m.as_str());
            },
            UninstallerError::Timeout(m) => {
                r.append("timeout: ");
                r.append(m.as_str());
            },
            UninstallerError::Serde(m) => {
                r.append("serialization error: ");
                r.append(m.as_str());
            },
        }
        r
    }
}

/// The error shape handed to a GUI or RPC layer: one plain message.
#[derive(Debug, Clone, PartialEq, Eq)]
pub struct CommandError {
    pub message: String,
}

impl CommandError {
    pub fn new(message: String) -> (r: CommandError)
        ensures
            r.message == message,
    {
        CommandError { message }
    }

    /// Wrap an engine error, keeping its display text.
    pub fn from_error(error: &UninstallerError) -> (r: CommandError)
        ensures
            r.message@ == error.spec_describe(),
    {
        CommandError { message: error.describe() }
    }
}

} // verus!
