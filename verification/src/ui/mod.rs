//! The interactive setup: its answers, the preview of its commands and the
//! summary shown before it runs.

pub mod progress;
pub mod prompts;
pub mod summary;
