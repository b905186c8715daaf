//! The cleaner: takes a confirmed trace list, runs the Safety Gate before
//! every removal, dispatches by kind, and folds what the operating system
//! reported into one `CleanResult` per input trace, in input order, never
//! aborting the batch on a single failure.
//!
//! The deletions themselves are operating-system work and happen outside
//! this crate: `clean_action` says what must be attempted for a trace, the
//! caller attempts it and reports a `RemovalOutcome`, and `clean_traces`
//! turns traces and outcomes into results.

use vstd::prelude::*;
use crate::error::UninstallerError;
use crate::paths::{parse_registry_path, spec_parse_registry_path, RegistryHive};
use crate::safety::{pre_delete_check, spec_pre_delete_check};
use crate::text::{last_index_of, lemma_last_index_of, rfind_char};
use crate::trace::{Trace, TraceType};

verus! {

/// Outcome of one removal attempt against one of the removers.
#[derive(Debug, Clone, PartialEq, Eq)]
pub enum RemovalOutcome {
    /// The target was already gone.
    Missing,
    /// The target was removed; `bytes` is the size measured before deletion
    /// (filesystem targets only, zero elsewhere).
    Removed { bytes: u64 },
    /// The operating system refused; `error` is its error text.
    Failed { error: String },
}

/// Spec-level image of a `RemovalOutcome`.
pub enum OutcomeView {
    Missing,
    Removed { bytes: u64 },
    Failed { error: Seq<char> },
}

impl View for RemovalOutcome {
    type V = OutcomeView;

    open spec fn view(&self) -> OutcomeView {
        match self {
            RemovalOutcome::Missing => OutcomeView::Missing,
            RemovalOutcome::Removed { bytes } => OutcomeView::Removed { bytes: *bytes },
            RemovalOutcome::Failed { error } => OutcomeView::Failed { error: error@ },
        }
    }
}

/// What the cleaner decides to do for one trace.
#[derive(Debug, Clone, PartialEq, Eq)]
pub enum CleanAction {
    /// The Safety Gate rejected the trace; holds the result's error text.
    Reject { message: String },
    /// Remove a file or directory.
    Filesystem { path: String },
    /// Remove a shortcut file.
    Shortcut { path: String },
    /// Delete a registry subtree.
    RegistryKey { hive: RegistryHive, subkey: String },
    /// Delete a single registry value.
    RegistryValue { hive: RegistryHive, key_path: String, value_name: String },
    /// The registry path carries no known hive prefix.
    InvalidRegistryPath,
    /// A registry-value path with no separator to split on.
    InvalidRegistryValuePath,
    /// A registry remover was asked for a non-registry kind.
    InvalidRegistryKind,
    /// A kind no remover supports.
    Unsupported,
}

/// Spec-level image of a `CleanAction`.
pub enum CleanStep {
    Reject { message: Seq<char> },
    Filesystem { path: Seq<char> },
    Shortcut { path: Seq<char> },
    RegistryKey { hive: RegistryHive, subkey: Seq<char> },
    RegistryValue { hive: RegistryHive, key_path: Seq<char>, value_name: Seq<char> },
    InvalidRegistryPath,
    InvalidRegistryValuePath,
    InvalidRegistryKind,
    Unsupported,
}

impl View for CleanAction {
    type V = CleanStep;

    open spec fn view(&self) -> CleanStep {
        match self {
            CleanAction::Reject { message } => CleanStep::Reject { message: message@ },
            CleanAction::Filesystem { path } => CleanStep::Filesystem { path: path@ },
            CleanAction::Shortcut { path } => CleanStep::Shortcut { path: path@ },
            CleanAction::RegistryKey { hive, subkey } => CleanStep::RegistryKey {
                hive: *hive,
                subkey: subkey@,
            },
            CleanAction::RegistryValue { hive, key_path, value_name } => CleanStep::RegistryValue {
                hive: *hive,
                key_path: key_path@,
                value_name: value_name@,
            },
            CleanAction::InvalidRegistryPath => CleanStep::InvalidRegistryPath,
            CleanAction::InvalidRegistryValuePath => CleanStep::InvalidRegistryValuePath,
            CleanAction::InvalidRegistryKind => CleanStep::InvalidRegistryKind,
            CleanAction::Unsupported => CleanStep::Unsupported,
        }
    }
}

/// The registry remover's decision for a path and registry kind: parse the
/// hive prefix, then split a value path on its final separator.
pub open spec fn spec_registry_step(path: Seq<char>, ty: TraceType) -> CleanStep {
    match spec_parse_registry_path(path) {
        None => CleanStep::InvalidRegistryPath,
        Some((hive, sub)) => {
            if ty == TraceType::RegistryKey {
                CleanStep::RegistryKey { hive, subkey: sub }
            } else if ty == TraceType::RegistryValue {
                let l = last_index_of(sub, '\\');
                if l == -1 {
                    CleanStep::InvalidRegistryValuePath
                } else {
                    CleanStep::RegistryValue {
                        hive,
                        key_path: sub.take(l),
                        value_name: sub.skip(l + 1),
                    }
                }
            } else {
                CleanStep::InvalidRegistryKind
            }
        },
    }
}

/// The cleaner's full decision for one trace: the Safety Gate first, then
/// dispatch by kind.
pub open spec fn spec_clean_step(t: Trace) -> CleanStep {
    match spec_pre_delete_check(t) {
        Some(m) => CleanStep::Reject {
            message: "skipped critical system item: "@ + "critical system item: "@ + m,
        },
        None => match t.trace_type {
            TraceType::RegistryKey | TraceType::RegistryValue => spec_registry_step(
                t.path@,
                t.trace_type,
            ),
            TraceType::File | TraceType::AppData => CleanStep::Filesystem { path: t.path@ },
            TraceType::Shortcut => CleanStep::Shortcut { path: t.path@ },
            _ => CleanStep::Unsupported,
        },
    }
}

/// The `(success, error, bytes_freed)` fields of the result recorded for a
/// step and an outcome. An already-missing target counts as success with
/// zero bytes; registry and shortcut removals never report freed bytes.
pub open spec fn spec_outcome_record(step: CleanStep, o: OutcomeView) -> (bool, Option<Seq<char>>, u64) {
    match step {
        CleanStep::Reject { message } => (false, Some(message), 0u64),
        CleanStep::Unsupported => (false, Some("unsupported trace type"@), 0u64),
        CleanStep::InvalidRegistryPath => (false, Some("invalid registry path format"@), 0u64),
        CleanStep::InvalidRegistryValuePath => (
            false,
            Some("registry error: invalid registry value path"@),
            0u64,
        ),
        CleanStep::InvalidRegistryKind => (
            false,
            Some("unsupported registry trace type"@),
            0u64,
        ),
        CleanStep::Filesystem { .. } => match o {
            OutcomeView::Missing => (true, None, 0u64),
            OutcomeView::Removed { bytes } => (true, None, bytes),
            OutcomeView::Failed { error } => (false, Some(error), 0u64),
        },
        CleanStep::Shortcut { .. } => match o {
            OutcomeView::Missing => (true, None, 0u64),
            OutcomeView::Removed { .. } => (true, None, 0u64),
            OutcomeView::Failed { error } => (false, Some(error), 0u64),
        },
        CleanStep::RegistryKey { .. } | CleanStep::RegistryValue { .. } => match o {
            OutcomeView::Missing => (true, None, 0u64),
            OutcomeView::Removed { .. } => (true, None, 0u64),
            OutcomeView::Failed { error } => (false, Some("registry error: "@ + error), 0u64),
        },
    }
}

/// Outcome of one removal attempt, as recorded per trace.
#[derive(Debug, Clone, PartialEq, Eq)]
pub struct CleanResult {
    pub trace_id: String,
    pub path: String,
    pub success: bool,
    pub error: Option<String>,
    pub bytes_freed: u64,
}

/// `r` records `fields` for the trace identified by `id` at `path`.
pub open spec fn result_matches(
    r: CleanResult,
    id: Seq<char>,
    path: Seq<char>,
    fields: (bool, Option<Seq<char>>, u64),
) -> bool {
    &&& r.trace_id@ == id
    &&& r.path@ == path
    &&& r.success == fields.0
    &&& match (r.error, fields.1) {
        (Some(e), Some(m)) => e@ == m,
        (None, None) => true,
        _ => false,
    }
    &&& r.bytes_freed == fields.2
}

fn make_result(trace: &Trace, success: bool, error: Option<String>, bytes_freed: u64) -> (r:
    CleanResult)
    ensures
        r.trace_id@ == trace.id@,
        r.path@ == trace.path@,
        r.success == success,
        r.error == error,
        r.bytes_freed == bytes_freed,
{
    CleanResult {
        trace_id: trace.id.clone(),
        path: trace.path.clone(),
        success,
        error,
        bytes_freed,
    }
}

/// What must be attempted for one trace; pure planning, no side effect.
pub fn clean_action(trace: &Trace) -> (r: CleanAction)
    ensures
        r@ == spec_clean_step(*trace),
{
    match pre_delete_check(trace) {
        Err(e) => {
            let mut message = String::new();
            message.append("skipped critical system item: ");
            message.append(e.describe().as_str());
            proof {
                assert(message@ =~= "skipped critical system item: "@ + "critical system item: "@
                    + spec_pre_delete_check(*trace)->0);
            }
            CleanAction::Reject { message }
        },
        Ok(()) => {
            match trace.trace_type {
                TraceType::RegistryKey | TraceType::RegistryValue => registry_action(
                    &trace.path,
                    trace.trace_type,
                ),
                TraceType::File | TraceType::AppData => CleanAction::Filesystem {
                    path: trace.path.clone(),
                },
                TraceType::Shortcut => CleanAction::Shortcut { path: trace.path.clone() },
                _ => CleanAction::Unsupported,
            }
        },
    }
}

/// The registry remover's planning half: parse and split the path.
fn registry_action(path: &String, ty: TraceType) -> (r: CleanAction)
    ensures
        r@ == spec_registry_step(path@, ty),
{
    match parse_registry_path(path.as_str()) {
        None => CleanAction::InvalidRegistryPath,
        Some((hive, sub)) => {
            if ty == TraceType::RegistryKey {
                CleanAction::RegistryKey { hive, subkey: sub }
            } else if ty == TraceType::RegistryValue {
                let chars = crate::text::to_chars(sub.as_str());
                proof {
                    lemma_last_index_of(sub@, '\\');
                }
                match rfind_char(&chars, '\\') {
                    None => {
                        proof {
                            assert(last_index_of(sub@, '\\') == -1);
                        }
                        CleanAction::InvalidRegistryValuePath
                    },
                    Some(i) => {
                        proof {
                            let l = last_index_of(sub@, '\\');
                            assert(l != -1);
                            assert(!(l < i) && !(i < l));
                            assert(i == l);
                        }
                        let key_path = crate::text::sub_chars(&chars, 0, i);
                        let value_name = crate::text::sub_chars(&chars, i + 1, chars.len());
                        proof {
                            assert(sub@.take(i as int) =~= sub@.subrange(0, i as int));
                            assert(sub@.skip(i + 1) =~= sub@.subrange(i + 1, sub@.len() as int));
                        }
                        CleanAction::RegistryValue {
                            hive,
                            key_path: crate::text::chars_to_string(&key_path),
                            value_name: crate::text::chars_to_string(&value_name),
                        }
                    },
                }
            } else {
                CleanAction::InvalidRegistryKind
            }
        },
    }
}

fn record_for(trace: &Trace, step: &CleanAction, outcome: &RemovalOutcome) -> (r: CleanResult)
    ensures
        result_matches(r, trace.id@, trace.path@, spec_outcome_record(step@, outcome@)),
{
    match step {
        CleanAction::Reject { message } => make_result(
            trace,
            false,
            Some(message.clone()),
            0,
        ),
        CleanAction::Unsupported => {
            let mut m = String::new();
            m.append("unsupported trace type");
            make_result(trace, false, Some(m), 0)
        },
        CleanAction::InvalidRegistryPath => {
            let mut m = String::new();
            m.append("invalid registry path format");
            make_result(trace, false, Some(m), 0)
        },
        CleanAction::InvalidRegistryValuePath => {
            let mut m = String::new();
            m.append("registry error: invalid registry value path");
            make_result(trace, false, Some(m), 0)
        },
        CleanAction::InvalidRegistryKind => {
            let mut m = String::new();
            m.append("unsupported registry trace type");
            make_result(trace, false, Some(m), 0)
        },
        CleanAction::Filesystem { .. } => match outcome {
            RemovalOutcome::Missing => make_result(trace, true, None, 0),
            RemovalOutcome::Removed { bytes } => make_result(trace, true, None, *bytes),
            RemovalOutcome::Failed { error } => make_result(trace, false, Some(error.clone()), 0),
        },
        CleanAction::Shortcut { .. } => match outcome {
            RemovalOutcome::Missing => make_result(trace, true, None, 0),
            RemovalOutcome::Removed { .. } => make_result(trace, true, None, 0),
            RemovalOutcome::Failed { error } => make_result(trace, false, Some(error.clone()), 0),
        },
        CleanAction::RegistryKey { .. } | CleanAction::RegistryValue { .. } => match outcome {
            RemovalOutcome::Missing => make_result(trace, true, None, 0),
            RemovalOutcome::Removed { .. } => make_result(trace, true, None, 0),
            RemovalOutcome::Failed { error } => {
                let mut m = String::new();
                m.append("registry error: ");
                m.append(error.as_str());
                make_result(trace, false, Some(m), 0)
            },
        },
    }
}

/// Record the result of a file or directory removal: an already-missing
/// target is a success that freed nothing.
pub fn delete_file_trace(trace: &Trace, outcome: &RemovalOutcome) -> (r: CleanResult)
    ensures
        result_matches(
            r,
            trace.id@,
            trace.path@,
            spec_outcome_record(CleanStep::Filesystem { path: trace.path@ }, outcome@),
        ),
{
    let step = CleanAction::Filesystem { path: trace.path.clone() };
    record_for(trace, &step, outcome)
}

/// Record the result of a shortcut removal; shortcuts never report bytes.
pub fn delete_shortcut_trace(trace: &Trace, outcome: &RemovalOutcome) -> (r: CleanResult)
    ensures
        result_matches(
            r,
            trace.id@,
            trace.path@,
            spec_outcome_record(CleanStep::Shortcut { path: trace.path@ }, outcome@),
        ),
{
    let step = CleanAction::Shortcut { path: trace.path.clone() };
    record_for(trace, &step, outcome)
}

/// Record the result of a registry removal: the path is parsed and, for a
/// value, split on its final separator; "not found" counts as success, and
/// registry removals never report freed bytes.
pub fn delete_registry_trace(trace: &Trace, outcome: &RemovalOutcome) -> (r: CleanResult)
    ensures
        result_matches(
            r,
            trace.id@,
            trace.path@,
            spec_outcome_record(spec_registry_step(trace.path@, trace.trace_type), outcome@),
        ),
{
    let step = registry_action(&trace.path, trace.trace_type);
    record_for(trace, &step, outcome)
}

/// Clean a confirmed batch. Fails whole when `confirm` is false; otherwise
/// every trace yields exactly one result, in input order: the Safety Gate's
/// rejection, or the record of the outcome reported for its removal.
pub fn clean_traces(traces: &Vec<Trace>, confirm: bool, outcomes: &Vec<RemovalOutcome>) -> (r:
    Result<Vec<CleanResult>, UninstallerError>)
    requires
        outcomes@.len() == traces@.len(),
    ensures
        !confirm ==> (r matches Err(e) && e matches UninstallerError::PermissionDenied(m) && m@
            == "confirmation is required before cleaning"@),
        confirm ==> (r matches Ok(results) && results@.len() == traces@.len() && forall|i: int|
            0 <= i < traces@.len() ==> result_matches(
                #[trigger] results@[i],
                traces@[i].id@,
                traces@[i].path@,
                spec_outcome_record(spec_clean_step(traces@[i]), outcomes@[i]@),
            )),
{
    if !confirm {
        let mut m = String::new();
        m.append("confirmation is required before cleaning");
        return Err(UninstallerError::PermissionDenied(m));
    }
    let mut results: Vec<CleanResult> = Vec::new();
    let mut i: usize = 0;
    while i < traces.len()
        invariant
            outcomes@.len() == traces@.len(),
            i <= traces@.len(),
            results@.len() == i,
            forall|k: int|
                0 <= k < i ==> result_matches(
                    #[trigger] results@[k],
                    traces@[k].id@,
                    traces@[k].path@,
                    spec_outcome_record(spec_clean_step(traces@[k]), outcomes@[k]@),
                ),
        decreases traces.len() - i,
    {
        let trace = &traces[i];
        let action = clean_action(trace);
        let result = record_for(trace, &action, &outcomes[i]);
        results.push(result);
        i = i + 1;
    }
    Ok(results)
}

/// Law: cleaning is idempotent for a target that is already gone. For any
/// trace the cleaner plans a removal for, a `Missing` outcome records
/// success with zero bytes freed and no error.
pub proof fn lemma_clean_missing_target_succeeds(t: Trace)
    requires
        spec_clean_step(t) matches CleanStep::Filesystem { .. } || spec_clean_step(
            t,
        ) matches CleanStep::Shortcut { .. } || spec_clean_step(t) matches CleanStep::RegistryKey {
            ..
        } || spec_clean_step(t) matches CleanStep::RegistryValue { .. },
    ensures
        spec_outcome_record(spec_clean_step(t), OutcomeView::Missing) == (
            true,
            None::<Seq<char>>,
            0u64,
        ),
{
}

/// Law: a trace the denylists catch is rejected by the Safety Gate, and the
/// cleaner plans no removal for it: whatever outcome is supplied, its result
/// is a failure that freed nothing.
pub proof fn lemma_critical_trace_never_removed(t: Trace, o: OutcomeView)
    requires
        t.is_critical || ((t.trace_type == TraceType::RegistryKey || t.trace_type
            == TraceType::RegistryValue) && crate::safety::spec_is_critical_registry(t.path@)) || ((
        t.trace_type == TraceType::File || t.trace_type == TraceType::AppData || t.trace_type
            == TraceType::Shortcut) && crate::safety::spec_is_critical_path(t.path@)),
    ensures
        spec_pre_delete_check(t) is Some,
        spec_clean_step(t) is Reject,
        spec_outcome_record(spec_clean_step(t), o).0 == false,
        spec_outcome_record(spec_clean_step(t), o).2 == 0,
{
}

} // verus!
