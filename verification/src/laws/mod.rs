//! What holds of the library as a whole.

pub mod actions;
pub mod bindings;
pub mod branches;
pub mod calls;
pub mod events;
pub mod git;
pub mod help;
pub mod lists;
pub mod matching;
pub mod new_branch;
pub mod opening;
pub mod reference;
pub mod removal;
pub mod repos;
pub mod screens;
pub mod search;
pub mod settings;
pub mod stores;
pub mod texts;
pub mod ticks;
pub mod typing;
pub mod workspaces;
