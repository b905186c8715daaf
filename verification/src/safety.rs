//! The Safety Gate: classifies a removal target as critical-system or
//! removable before any deletion. Pure and side-effect free, so a UI can run
//! it standalone for pre-flight warnings. The scan orchestrator keeps its own
//! separate denylists (see `paths`); the two are deliberately not unified.

use vstd::prelude::*;
use crate::error::UninstallerError;
use crate::text::{has_prefix, to_chars, upper_chars, upper_seq};
use crate::trace::{Trace, TraceType};

verus! {

/// The fixed critical-directory denylist, in display form.
pub open spec fn critical_paths() -> Seq<Seq<char>> {
    seq![
        "C:\\Windows"@,
        "C:\\Windows\\System32"@,
        "C:\\Windows\\SysWOW64"@,
        "C:\\Windows\\WinSxS"@,
        "C:\\Windows\\INF"@,
        "C:\\Windows\\DriverStore"@,
        "C:\\Windows\\System32\\DriverStore"@,
    ]
}

/// The fixed critical-registry-path denylist, in display form.
pub open spec fn critical_registry_paths() -> Seq<Seq<char>> {
    seq![
        "HKLM\\SYSTEM"@,
        "HKLM\\SOFTWARE\\Microsoft\\Windows NT\\CurrentVersion"@,
        "HKLM\\SOFTWARE\\Microsoft\\Windows\\CurrentVersion\\Run"@,
        "HKLM\\SOFTWARE\\Microsoft\\Windows\\CurrentVersion\\RunOnce"@,
        "HKLM\\SOFTWARE\\WOW6432Node\\Microsoft\\Windows\\CurrentVersion\\Run"@,
        "HKCR\\*"@,
        "HKLM\\BOOT"@,
        "HKLM\\SAM"@,
        "HKLM\\SECURITY"@,
    ]
}

/// A filesystem path is critical when its upper-cased form starts with the
/// upper-cased form of a denylist entry.
pub open spec fn spec_is_critical_path(path: Seq<char>) -> bool {
    exists|i: int|
        0 <= i < critical_paths().len() && has_prefix(
            upper_seq(path),
            upper_seq(#[trigger] critical_paths()[i]),
        )
}

/// A registry path is critical when its upper-cased form starts with the
/// upper-cased form of a denylist entry: the prefix match is
/// case-insensitive, exactly as for directories.
pub open spec fn spec_is_critical_registry(path: Seq<char>) -> bool {
    exists|i: int|
        0 <= i < critical_registry_paths().len() && has_prefix(
            upper_seq(path),
            upper_seq(#[trigger] critical_registry_paths()[i]),
        )
}

/// The critical-directory denylist, for display.
pub fn get_critical_paths() -> (r: Vec<&'static str>)
    ensures
        r@.len() == critical_paths().len(),
        forall|i: int| 0 <= i < r@.len() ==> #[trigger] r@[i]@ == critical_paths()[i],
{
    let mut r: Vec<&'static str> = Vec::new();
    r.push("C:\\Windows");
    r.push("C:\\Windows\\System32");
    r.push("C:\\Windows\\SysWOW64");
    r.push("C:\\Windows\\WinSxS");
    r.push("C:\\Windows\\INF");
    r.push("C:\\Windows\\DriverStore");
    r.push("C:\\Windows\\System32\\DriverStore");
    r
}

/// The critical-registry-path denylist, for display.
pub fn get_critical_registry_paths() -> (r: Vec<&'static str>)
    ensures
        r@.len() == critical_registry_paths().len(),
        forall|i: int| 0 <= i < r@.len() ==> #[trigger] r@[i]@ == critical_registry_paths()[i],
{
    let mut r: Vec<&'static str> = Vec::new();
    r.push("HKLM\\SYSTEM");
    r.push("HKLM\\SOFTWARE\\Microsoft\\Windows NT\\CurrentVersion");
    r.push("HKLM\\SOFTWARE\\Microsoft\\Windows\\CurrentVersion\\Run");
    r.push("HKLM\\SOFTWARE\\Microsoft\\Windows\\CurrentVersion\\RunOnce");
    r.push("HKLM\\SOFTWARE\\WOW6432Node\\Microsoft\\Windows\\CurrentVersion\\Run");
    r.push("HKCR\\*");
    r.push("HKLM\\BOOT");
    r.push("HKLM\\SAM");
    r.push("HKLM\\SECURITY");
    r
}

pub fn is_critical_path(path: &str) -> (r: bool)
    ensures
        r == spec_is_critical_path(path@),
{
    let path_upper = upper_chars(&to_chars(path));
    let list = get_critical_paths();
    let mut i: usize = 0;
    while i < list.len()
        invariant
            path_upper@ == upper_seq(path@),
            list@.len() == critical_paths().len(),
            forall|k: int| 0 <= k < list@.len() ==> #[trigger] list@[k]@ == critical_paths()[k],
            i <= list@.len(),
            forall|k: int|
                0 <= k < i ==> !has_prefix(
                    upper_seq(path@),
                    upper_seq(#[trigger] critical_paths()[k]),
                ),
        decreases list.len() - i,
    {
        let entry_upper = upper_chars(&to_chars(list[i]));
        if crate::text::starts_with_sub(&path_upper, &entry_upper) {
            return true;
        }
        i = i + 1;
    }
    false
}

pub fn is_critical_registry(path: &str) -> (r: bool)
    ensures
        r == spec_is_critical_registry(path@),
{
    let path_upper = upper_chars(&to_chars(path));
    let list = get_critical_registry_paths();
    let mut i: usize = 0;
    while i < list.len()
        invariant
            path_upper@ == upper_seq(path@),
            list@.len() == critical_registry_paths().len(),
            forall|k: int|
                0 <= k < list@.len() ==> #[trigger] list@[k]@ == critical_registry_paths()[k],
            i <= list@.len(),
            forall|k: int|
                0 <= k < i ==> !has_prefix(
                    upper_seq(path@),
                    upper_seq(#[trigger] critical_registry_paths()[k]),
                ),
        decreases list.len() - i,
    {
        let entry_upper = upper_chars(&to_chars(list[i]));
        if crate::text::starts_with_sub(&path_upper, &entry_upper) {
            return true;
        }
        i = i + 1;
    }
    false
}

/// What the Safety Gate decides for a trace: `None` to allow removal, or the
/// message of the `CriticalSystemItem` rejection.
pub open spec fn spec_pre_delete_check(t: Trace) -> Option<Seq<char>> {
    if t.is_critical {
        Some("flagged as a critical system item: "@ + t.path@)
    } else if (t.trace_type == TraceType::RegistryKey || t.trace_type == TraceType::RegistryValue)
        && spec_is_critical_registry(t.path@) {
        Some("cannot delete a critical system registry key"@)
    } else if (t.trace_type == TraceType::File || t.trace_type == TraceType::AppData
        || t.trace_type == TraceType::Shortcut) && spec_is_critical_path(t.path@) {
        Some("cannot delete a critical system directory"@)
    } else {
        None
    }
}

/// The Safety Gate. Rejects a trace already flagged critical, a registry
/// trace under a critical registry path, and a filesystem or shortcut trace
/// under a critical directory; allows everything else.
pub fn pre_delete_check(trace: &Trace) -> (r: Result<(), UninstallerError>)
    ensures
        r is Ok <==> spec_pre_delete_check(*trace) is None,
        r matches Err(e) ==> e matches UninstallerError::CriticalSystemItem(m) && m@
            == spec_pre_delete_check(*trace)->0,
{
    if trace.is_critical {
        let mut m = String::new();
        m.append("flagged as a critical system item: ");
        m.append(trace.path.as_str());
        return Err(UninstallerError::CriticalSystemItem(m));
    }
    match trace.trace_type {
        TraceType::RegistryKey | TraceType::RegistryValue => {
            if is_critical_registry(trace.path.as_str()) {
                let mut m = String::new();
                m.append("cannot delete a critical system registry key");
                return Err(UninstallerError::CriticalSystemItem(m));
            }
        },
        TraceType::File | TraceType::AppData | TraceType::Shortcut => {
            if is_critical_path(trace.path.as_str()) {
                let mut m = String::new();
                m.append("cannot delete a critical system directory");
                return Err(UninstallerError::CriticalSystemItem(m));
            }
        },
        _ => {},
    }
    Ok(())
}

} // verus!
