//! Verified core of a terminal picker for repositories, branches and workspaces.

pub mod app;
pub mod branches;
pub mod collisions;
pub mod components;
pub mod config;
pub mod config_write;
pub mod context;
pub mod display;
pub mod effects;
pub mod event;
pub mod focus;
pub mod folder_bindings;
pub mod fuzzy;
pub mod git;
pub mod herdr;
pub mod input;
pub mod keyboard;
pub mod keymap;
pub mod laws;
pub mod order;
pub mod path;
pub mod pending_delete;
pub mod pins;
pub mod readme;
pub mod recency;
pub mod rows;
pub mod screens;
pub mod setup;
pub mod source;
pub mod spawn;
pub mod state;
pub mod state_store;
pub mod text;
pub mod toasts;
