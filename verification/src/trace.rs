//! The trace model: one discoverable artifact of an uninstalled program.
//! Scanners create traces with provisional confidence and never set
//! `is_critical`; only the orchestrator's post-pass may do that.

use vstd::prelude::*;
use crate::ids::generate_id;

verus! {

#[derive(Debug, Clone, Copy, PartialEq, Eq, Structural)]
pub enum TraceType {
    RegistryKey,
    RegistryValue,
    File,
    Shortcut,
    AppData,
    ScheduledTask,
    Service,
    Driver,
}

impl Default for TraceType {
    fn default() -> (r: Self)
        ensures
            r == TraceType::File,
    {
        TraceType::File
    }
}

impl TraceType {
    /// The display label of a trace kind.
    pub open spec fn spec_label(self) -> Seq<char> {
        match self {
            TraceType::RegistryKey => "RegistryKey"@,
            TraceType::RegistryValue => "RegistryValue"@,
            TraceType::File => "File"@,
            TraceType::Shortcut => "Shortcut"@,
            TraceType::AppData => "AppData"@,
            TraceType::ScheduledTask => "ScheduledTask"@,
            TraceType::Service => "Service"@,
            TraceType::Driver => "Driver"@,
        }
    }

    pub fn label(&self) -> (r: String)
        ensures
            r@ == self.spec_label(),
    {
        let mut r = String::new();
        match self {
            TraceType::RegistryKey => r.append("RegistryKey"),
            TraceType::RegistryValue => r.append("RegistryValue"),
            TraceType::File => r.append("File"),
            TraceType::Shortcut => r.append("Shortcut"),
            TraceType::AppData => r.append("AppData"),
            TraceType::ScheduledTask => r.append("ScheduledTask"),
            TraceType::Service => r.append("Service"),
            TraceType::Driver => r.append("Driver"),
        }
        r
    }
}

/// How strongly a trace is tied to the searched program: `High` beats
/// `Medium` beats `Low`.
#[derive(Debug, Clone, Copy, PartialEq, Eq, Structural)]
pub enum Confidence {
    High,
    Medium,
    Low,
}

impl Default for Confidence {
    fn default() -> (r: Self)
        ensures
            r == Confidence::Low,
    {
        Confidence::Low
    }
}

impl Confidence {
    /// Numeric rank used to order traces, higher is stronger.
    pub open spec fn spec_rank(self) -> u8 {
        match self {
            Confidence::High => 3,
            Confidence::Medium => 2,
            Confidence::Low => 1,
        }
    }

    pub fn rank(&self) -> (r: u8)
        ensures
            r == self.spec_rank(),
    {
        match self {
            Confidence::High => 3,
            Confidence::Medium => 2,
            Confidence::Low => 1,
        }
    }
}

#[derive(Debug, Clone, PartialEq, Eq)]
pub struct Trace {
    pub id: String,
    pub program_name: String,
    pub trace_type: TraceType,
    pub path: String,
    pub description: String,
    pub size: Option<u64>,
    pub is_critical: bool,
    pub confidence: Confidence,
    pub exists: bool,
}

impl Trace {
    /// A fresh trace: provisional `Low` confidence, not critical, assumed to
    /// exist, with a newly drawn id.
    pub fn new(program_name: String, trace_type: TraceType, path: String) -> (t: Trace)
        ensures
            t.program_name == program_name,
            t.trace_type == trace_type,
            t.path == path,
            t.description@ == Seq::<char>::empty(),
            t.size is None,
            !t.is_critical,
            t.confidence == Confidence::Low,
            t.exists,
            t.id@.len() == 36,
    {
        Trace {
            id: generate_id(),
            program_name,
            trace_type,
            path,
            description: String::new(),
            size: None,
            is_critical: false,
            confidence: Confidence::Low,
            exists: true,
        }
    }

    /// A copy whose value Verus can track, field by field.
    pub fn duplicate(&self) -> (t: Trace)
        ensures
            t == *self,
    {
        Trace {
            id: self.id.clone(),
            program_name: self.program_name.clone(),
            trace_type: self.trace_type,
            path: self.path.clone(),
            description: self.description.clone(),
            size: self.size,
            is_critical: self.is_critical,
            confidence: self.confidence,
            exists: self.exists,
        }
    }

    pub fn with_description(self, description: String) -> (t: Trace)
        ensures
            t == (Trace { description, ..self }),
    {
        Trace { description, ..self }
    }

    pub fn with_size(self, size: u64) -> (t: Trace)
        ensures
            t == (Trace { size: Some(size), ..self }),
    {
        Trace { size: Some(size), ..self }
    }

    pub fn with_confidence(self, confidence: Confidence) -> (t: Trace)
        ensures
            t == (Trace { confidence, ..self }),
    {
        Trace { confidence, ..self }
    }
}

} // verus!
