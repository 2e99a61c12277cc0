//! An image-based package manager core: snapshot naming, deployment history,
//! the atomic deployment state machine and the progress-bar directive filter.

pub mod engine;
pub mod error;
pub mod history;
pub mod naming;
pub mod order;
pub mod progress;
pub mod subvolume;
pub mod text;
