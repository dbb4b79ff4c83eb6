//! The error taxonomy: construction-time validation, identity errors,
//! state conflicts, and load-time errors. Every fallible operation
//! returns one of these; nothing is silently swallowed.

use vstd::prelude::*;

verus! {

/// Why completing a project's current work slice failed.
#[derive(Clone, Copy, Debug, PartialEq, Eq, Structural)]
pub enum CompleteWorkError {
    /// The project has no open work slice.
    NoWorkToComplete,
    /// The end time was not strictly after the start time.
    EndTimeTooEarly,
}

/// Why starting work right now on a project failed.
#[derive(Clone, Copy, Debug, PartialEq, Eq, Structural)]
pub enum WorkStartNowError {
    /// The project already has an open work slice.
    AlreadyStarted,
    /// No project has the given id.
    InvalidProjectId,
}

/// Why ending work right now on a project failed.
#[derive(Clone, Copy, Debug, PartialEq, Eq, Structural)]
pub enum WorkEndNowError {
    /// The project has no open work slice.
    NoCurrentWork,
    /// No project has the given id.
    InvalidProjectId,
}

/// Why a work-slice lookup across projects failed: the two cases are
/// kept apart because adapters word their messages differently.
#[derive(Clone, Copy, Debug, PartialEq, Eq, Structural)]
pub enum NotFoundError {
    /// No project has the given id.
    ProjectNotFound,
    /// The project exists but owns no work slice with the given id.
    WorkSliceNotFound,
}

/// No work slice with the given id exists in the project.
#[derive(Clone, Copy, Debug, PartialEq, Eq, Structural)]
pub struct WorkSliceNotFoundError;

/// Why starting work at a given time on a project failed.
#[derive(Clone, Copy, Debug, PartialEq, Eq, Structural)]
pub enum WorkStartError {
    /// The project already has an open work slice.
    AlreadyStarted,
    /// No project has the given id.
    InvalidProjectId,
    /// The requested start time is in the future.
    InvalidStartTime,
}

/// Why ending work at a given time on a project failed.
#[derive(Clone, Copy, Debug, PartialEq, Eq, Structural)]
pub enum WorkEndError {
    /// The end time was not strictly after the start time.
    EndTimeTooEarly,
    /// The project has no open work slice.
    NoWorkToComplete,
    /// No project has the given id.
    InvalidProjectId,
}

impl From<CompleteWorkError> for WorkEndError {
    /// Lifts a project-level completion error to the state level.
    fn from(value: CompleteWorkError) -> (r: Self) {
        match value {
            CompleteWorkError::NoWorkToComplete => WorkEndError::NoWorkToComplete,
            CompleteWorkError::EndTimeTooEarly => WorkEndError::EndTimeTooEarly,
        }
    }
}

impl vstd::std_specs::convert::FromSpecImpl<CompleteWorkError> for WorkEndError {
    open spec fn obeys_from_spec() -> bool {
        true
    }

    open spec fn from_spec(value: CompleteWorkError) -> WorkEndError {
        match value {
            CompleteWorkError::NoWorkToComplete => WorkEndError::NoWorkToComplete,
            CompleteWorkError::EndTimeTooEarly => WorkEndError::EndTimeTooEarly,
        }
    }
}

/// No project has the given id.
#[derive(Clone, Copy, Debug, PartialEq, Eq, Structural)]
pub struct InvalidProjectId;

/// Why one persisted complete-slice record could not be reconstructed.
#[derive(Clone, Copy, Debug, PartialEq, Eq, Structural)]
pub enum DataToCompleteWorkSliceError {
    /// The record's start time is after the load-time clock reading.
    StartTimeAfterNow,
    /// The record's end time is not strictly after its start time.
    EndTimeBeforeStart,
}

/// Why one persisted project record could not be reconstructed.
#[derive(Clone, Copy, Debug, PartialEq, Eq, Structural)]
pub enum DataToProjectError {
    /// A completed-slice record was invalid.
    CompleteWorkSlice(DataToCompleteWorkSliceError),
    /// The open-slice record's start time is after the load-time clock
    /// reading.
    IncompleteWorkSlice,
}

/// Why a whole persisted snapshot could not be loaded. Any of these is
/// fatal to the load: a state is never partially constructed.
#[derive(Clone, Copy, Debug, PartialEq, Eq, Structural)]
pub enum StateInitError {
    /// A project record was invalid.
    ProjectLoadError(DataToProjectError),
    /// Two project records carry the same id.
    DuplicateProjectId,
    /// Two work-slice records, in whatever projects, carry the same id.
    DuplicateWorkSliceId,
}

} // verus!
