//! The file-manager state behind the desktop window.

pub mod context_menu;
pub mod dialogs;
pub mod dragdrop;
pub mod file_rows;
pub mod jobs;
pub mod listing;
pub mod locations;
pub mod navigation;
pub mod navigator;
pub mod paste;
pub mod preview_cache;
pub mod preview_panel;
pub mod rows;
pub mod search;
pub mod selection;
pub mod sorting;
pub mod view;
