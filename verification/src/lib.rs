//! In-memory tracking of billable work: projects accumulate timed work
//! slices, and a payment policy (hourly rate or fixed fee) turns each
//! slice's duration into money owed.

pub mod changes;
mod clock;
pub mod config;
pub mod errors;
pub mod money;
pub mod project;
pub mod snapshot;
pub mod state;
pub mod work_slice;

pub use changes::Change;
pub use config::LocalConfig;
pub use errors::CompleteWorkError;
pub use errors::DataToCompleteWorkSliceError;
pub use errors::DataToProjectError;
pub use errors::InvalidProjectId;
pub use errors::NotFoundError;
pub use errors::StateInitError;
pub use errors::WorkEndError;
pub use errors::WorkEndNowError;
pub use errors::WorkSliceNotFoundError;
pub use errors::WorkStartError;
pub use errors::WorkStartNowError;
pub use money::Money;
pub use money::MoneyExact;
pub use money::Payment;
pub use project::Project;
pub use project::ProjectId;
pub use snapshot::CompleteWorkSliceData;
pub use snapshot::IncompleteWorkSliceData;
pub use snapshot::ProjectData;
pub use state::State;
pub use work_slice::CompleteWorkSlice;
pub use work_slice::IncompleteWorkSlice;
pub use work_slice::WorkSlice;
pub use work_slice::WorkSliceId;
