//! The status surface for a sandbox bridge. A guest that asks to read a
//! path learns only a tri-state status — allowed, denied, or not evaluable —
//! never the reason; full reasons live in the host-side trace. The numeric
//! encoding and the mapping from enforcement results are fixed here, so a
//! host-function layer built on the engine cannot pick them inconsistently.

use vstd::prelude::*;
use crate::host::CapError;

verus! {

/// The tri-state outcome a guest learns from a read request.
#[derive(Debug, Clone, Copy, PartialEq, Eq, Structural)]
pub enum HostStatus {
    Allowed,
    Denied,
    Error,
}

impl HostStatus {
    /// The numeric encoding handed across the sandbox boundary.
    pub open spec fn spec_code(self) -> i32 {
        match self {
            HostStatus::Allowed => 1i32,
            HostStatus::Denied => 0i32,
            HostStatus::Error => -1i32,
        }
    }

    pub fn code(&self) -> (r: i32)
        ensures
            r == self.spec_code(),
    {
        match *self {
            HostStatus::Allowed => 1,
            HostStatus::Denied => 0,
            HostStatus::Error => -1,
        }
    }
}

/// The status for one enforcement result: allowed on success, denied when no
/// pattern matched, error when the check could not even be evaluated.
pub open spec fn spec_status_of(r: Result<bool, CapError>) -> HostStatus {
    match r {
        Ok(b) => if b {
            HostStatus::Allowed
        } else {
            HostStatus::Denied
        },
        Err(CapError::GlobMismatch) => HostStatus::Denied,
        Err(_) => HostStatus::Error,
    }
}

/// Maps one enforcement result to the status a guest is shown.
pub fn status_of(r: &Result<bool, CapError>) -> (s: HostStatus)
    ensures
        s == spec_status_of(*r),
{
    match r {
        Ok(b) => if *b {
            HostStatus::Allowed
        } else {
            HostStatus::Denied
        },
        Err(CapError::GlobMismatch) => HostStatus::Denied,
        Err(_) => HostStatus::Error,
    }
}

/// The constant a guest compares a read status against to test for the
/// allowed case.
pub fn status_allowed() -> (r: i32)
    ensures
        r == HostStatus::Allowed.spec_code(),
{
    1
}

} // verus!
