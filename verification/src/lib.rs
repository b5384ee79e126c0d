//! Core of the Rovex file manager: the decisions behind listing, selecting,
//! navigating, sorting, filtering, clipboard framing and media conversion,
//! each stated as a contract and proved.

pub mod text;
pub mod path;
pub mod winpath;
pub mod desktop;
pub mod filesystem;
pub mod operations;
pub mod converters;
pub mod clipboard;
pub mod activation;
pub mod open_with;
