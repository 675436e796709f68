//! What the screens show: lines of text, their widths and their positions.

pub mod branch_picker;
pub mod dialog;
pub mod error_toast;
pub mod help;
pub mod hints;
pub mod list_row;
pub mod list_view;
pub mod new_branch;
pub mod popup;
pub mod repo_list;
pub mod search_bar;
pub mod setup;
pub mod span;
pub mod workspace_list;
