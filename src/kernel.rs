//! What the kernel returns from `execute`, as plain values.

use vstd::prelude::*;

verus! {

#[derive(Debug, Clone, Copy, PartialEq, Eq, Structural)]
pub enum ExecutionStatus {
    Unspecified,
    Success,
    Rejected,
    Stall,
    AuthDenied,
    RangeExceeded,
}

/// A kernel error: the name of its code and its message.
#[derive(Debug, Clone)]
pub struct ExecutionError {
    pub code: String,
    pub message: String,
}

/// The roots that attest to the verified assertions and to the trace.
#[derive(Debug, Clone)]
pub struct ProofRoots {
    pub semantic_root: String,
    pub trace_root: String,
}

/// The handle that execution waits on, and the name of its availability.
#[derive(Debug, Clone)]
pub struct StallInfo {
    pub handle_ref: String,
    pub availability: String,
}

#[derive(Debug, Clone)]
pub struct ExecuteResponse {
    pub status: ExecutionStatus,
    pub error: Option<ExecutionError>,
    pub proof: Option<ProofRoots>,
    pub stall: Option<StallInfo>,
    /// The rendered output's verified blocks, when the kernel rendered any.
    pub verified_blocks: Option<Vec<String>>,
}

pub open spec fn status_name(s: ExecutionStatus) -> Seq<char> {
    match s {
        ExecutionStatus::Unspecified => "UNSPECIFIED"@,
        ExecutionStatus::Success => "OK"@,
        ExecutionStatus::Rejected => "REJECTED"@,
        ExecutionStatus::Stall => "STALL"@,
        ExecutionStatus::AuthDenied => "AUTH_DENIED"@,
        ExecutionStatus::RangeExceeded => "RANGE_EXCEEDED"@,
    }
}

impl ExecutionStatus {
    /// The status's enum name.
    pub fn as_str_name(&self) -> (r: &'static str)
        ensures
            r@ == status_name(*self),
    {
        match self {
            ExecutionStatus::Unspecified => "UNSPECIFIED",
            ExecutionStatus::Success => "OK",
            ExecutionStatus::Rejected => "REJECTED",
            ExecutionStatus::Stall => "STALL",
            ExecutionStatus::AuthDenied => "AUTH_DENIED",
            ExecutionStatus::RangeExceeded => "RANGE_EXCEEDED",
        }
    }
}

} // verus!
