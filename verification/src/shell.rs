//! The shapes a GUI or CLI shell exchanges with the engine, and the small
//! pure translations those shells perform: option records, trace-kind
//! selections, and source names.

use vstd::prelude::*;
use crate::lister::models::InstallSource;
use crate::text::{chars_eq, lower_chars, lower_seq, to_chars};
use crate::trace::{Trace, TraceType};

verus! {

#[derive(Debug, Clone)]
pub struct ScanOptions {
    pub program_name: String,
    pub trace_types: Option<Vec<String>>,
}

#[derive(Debug, Clone)]
pub struct SearchOptions {
    pub query: String,
    pub source: Option<String>,
}

#[derive(Debug, Clone)]
pub struct ListOptions {
    pub source: Option<String>,
    pub search: Option<String>,
    pub refresh: Option<bool>,
}

#[derive(Debug, Clone)]
pub struct CleanOptions {
    pub traces: Vec<Trace>,
    pub confirm: bool,
    pub preview: bool,
}

#[derive(Debug, Clone)]
pub struct UninstallOptions {
    pub program_name: String,
    pub scan_only: bool,
}

#[derive(Debug, Clone, PartialEq, Eq)]
pub struct UninstallResult {
    pub success: bool,
    pub message: String,
    pub traces_found: u32,
    pub traces_cleaned: u32,
}

#[derive(Debug, Clone, PartialEq, Eq)]
pub struct ReportInfo {
    pub id: String,
    pub name: String,
    pub created_at: String,
    pub path: String,
}

/// The trace kind a lower-cased name denotes, if any.
pub open spec fn spec_trace_type_of_name(s: Seq<char>) -> Option<TraceType> {
    if lower_seq(s) == "registry_key"@ {
        Some(TraceType::RegistryKey)
    } else if lower_seq(s) == "registry_value"@ {
        Some(TraceType::RegistryValue)
    } else if lower_seq(s) == "file"@ {
        Some(TraceType::File)
    } else if lower_seq(s) == "appdata"@ {
        Some(TraceType::AppData)
    } else if lower_seq(s) == "shortcut"@ {
        Some(TraceType::Shortcut)
    } else {
        None
    }
}

pub open spec fn spec_trace_types_of_names(names: Seq<String>) -> Seq<TraceType>
    decreases names.len(),
{
    if names.len() == 0 {
        Seq::empty()
    } else {
        spec_trace_types_of_names(names.drop_last()) + match spec_trace_type_of_name(
            names.last()@,
        ) {
            Some(t) => seq![t],
            None => Seq::empty(),
        }
    }
}

/// Translate the kind names a shell passes into trace kinds, dropping
/// anything unknown.
pub fn parse_trace_type_names(names: &Vec<String>) -> (r: Vec<TraceType>)
    ensures
        r@ == spec_trace_types_of_names(names@),
{
    let mut out: Vec<TraceType> = Vec::new();
    let mut i: usize = 0;
    proof {
        assert(names@.subrange(0, 0) =~= Seq::<String>::empty());
    }
    while i < names.len()
        invariant
            i <= names@.len(),
            out@ == spec_trace_types_of_names(names@.subrange(0, i as int)),
        decreases names.len() - i,
    {
        proof {
            assert(names@.subrange(0, i + 1).drop_last() =~= names@.subrange(0, i as int));
            assert(names@.subrange(0, i + 1).last() == names@[i as int]);
        }
        let low = lower_chars(&to_chars(names[i].as_str()));
        if chars_eq(&low, &to_chars("registry_key")) {
            out.push(TraceType::RegistryKey);
        } else if chars_eq(&low, &to_chars("registry_value")) {
            out.push(TraceType::RegistryValue);
        } else if chars_eq(&low, &to_chars("file")) {
            out.push(TraceType::File);
        } else if chars_eq(&low, &to_chars("appdata")) {
            out.push(TraceType::AppData);
        } else if chars_eq(&low, &to_chars("shortcut")) {
            out.push(TraceType::Shortcut);
        }
        proof {
            assert(out@ =~= spec_trace_types_of_names(names@.subrange(0, i + 1)));
        }
        i = i + 1;
    }
    proof {
        assert(names@.subrange(0, names@.len() as int) =~= names@);
    }
    out
}

/// The install source a lower-cased name denotes; anything unknown means
/// the registry.
pub open spec fn spec_install_source_of_name(s: Seq<char>) -> InstallSource {
    if lower_seq(s) == "registry"@ {
        InstallSource::Registry
    } else if lower_seq(s) == "msi"@ {
        InstallSource::Msi
    } else if lower_seq(s) == "store"@ {
        InstallSource::Store
    } else {
        InstallSource::Registry
    }
}

/// Translate a source name a shell passes.
pub fn parse_install_source(name: &str) -> (r: InstallSource)
    ensures
        r == spec_install_source_of_name(name@),
{
    let low = lower_chars(&to_chars(name));
    if chars_eq(&low, &to_chars("registry")) {
        InstallSource::Registry
    } else if chars_eq(&low, &to_chars("msi")) {
        InstallSource::Msi
    } else if chars_eq(&low, &to_chars("store")) {
        InstallSource::Store
    } else {
        InstallSource::Registry
    }
}

/// Answer an uninstall request: uninstalling runs through the operating
/// system, so the engine only reports what it would take.
pub fn uninstall_program(program_name: &str, scan_only: bool) -> (r: Result<
    UninstallResult,
    String,
>)
    ensures
        r matches Ok(u) && u.success && u.traces_found == 0 && u.traces_cleaned == 0 && u.message@
            == if scan_only {
            "scanned the leftovers of "@ + program_name@ + "; use the clean command to remove them"@
        } else {
            "program uninstall is delegated to the operating system"@
        },
{
    let mut message = String::new();
    if scan_only {
        message.append("scanned the leftovers of ");
        message.append(program_name);
        message.append("; use the clean command to remove them");
    } else {
        message.append("program uninstall is delegated to the operating system");
    }
    Ok(UninstallResult { success: true, message, traces_found: 0, traces_cleaned: 0 })
}

} // verus!
