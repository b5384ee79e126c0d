//! Media conversion through an external encoder: the kinds of conversion,
//! where outputs go, where the encoder is looked for, how its runs are
//! watched and judged, and the order in which backends are tried.

pub mod types;
pub mod paths;
pub mod backend;
pub mod discovery;
pub mod process;
pub mod supervise;
pub mod pipeline;
