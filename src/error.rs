//! The errors that the deployment engine and its collaborators report.
use vstd::prelude::*;

verus! {

/// An error of the engine; a `String` carries the tool's message or the path
/// or directory concerned.
#[derive(Debug, Clone, PartialEq, Eq)]
pub enum HammerError {
    /// A filesystem tool failed.
    BackingStore(String),
    /// The snapshot to create is already there.
    AlreadyExists(String),
    /// The path is not a snapshot, or does not exist.
    NotFound(String),
    /// A deployment of this day's name is already there.
    NameCollision(String),
    /// A bind mount into the chroot could not be made.
    MountFailed(String),
    /// The command run in the chroot failed.
    BodyFailed(String),
    /// A bind mount could not be removed after the chroot command.
    TeardownFailed(String),
    /// A rollback needs at least two deployments.
    InsufficientHistory,
    /// The container could not be created.
    ContainerCreateFailed(String),
    /// The package index update failed.
    UpdateFailed(String),
    /// The package install or removal failed.
    PackageOpFailed(String),
    /// Pruning the containers failed.
    PruneFailed(String),
    /// The date is not a calendar date between years 0 and 9999.
    InvalidDate,
}

} // verus!
