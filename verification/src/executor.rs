//! The pending-state overlay and the gas accountant.

pub mod action;
pub mod exit_status;
pub mod gasometer;
pub mod snapshot;
pub mod state;

pub use action::Action;
pub use exit_status::ExitStatus;
pub use gasometer::Gasometer;
pub use snapshot::ExecutionSnapshot;
pub use state::ExecutorState;
