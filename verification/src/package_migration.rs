//! Package migrations: a source release, a target release, compatibility
//! evidence and ordered checkpoints bound into one immutable declaration,
//! then executed, resumed, rolled back or marked for recovery under the
//! environment fence.
pub mod admission;
pub mod approval;
pub mod approval_files;
pub mod checkpoint;
pub mod compensate;
pub mod declaration;
pub mod execute;
pub mod leases;
pub mod persist;
pub mod preview;
pub mod rollback;
pub mod types;
