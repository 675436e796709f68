//! What each screen of the picker does with events and actions.

pub mod branch;
pub mod delete;
pub mod new_branch;
pub mod repo;
pub mod snapshots;
pub mod workspace;
