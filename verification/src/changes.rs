//! The write-ahead change log: one structured event per successful
//! mutation, appended in mutation order and drained by the
//! persistence adapter. It is never replayed internally.

use vstd::prelude::*;

use crate::money::Payment;

verus! {

/// One successful mutation of the state, recorded for persistence.
/// Times are milliseconds since the Unix epoch.
#[derive(Debug, Clone, PartialEq)]
pub enum Change {
    /// A project was created.
    ProjectCreated { name: String, description: String, id: u64 },
    /// A project was deleted.
    ProjectDeleted { id: u64 },
    /// A project's open work slice was completed.
    WorkSliceCompleted { project_id: u64, work_slice_id: u64, end_time: i64 },
    /// An open work slice was started for a project.
    WorkSliceStarted { project_id: u64, work_slice_id: u64, start_time: i64, payment: Payment },
    /// A work slice, open or completed, was deleted from a project.
    WorkSliceDeleted { project_id: u64, work_slice_id: u64 },
}

} // verus!
