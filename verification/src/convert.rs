//! Converting documents to Markdown with the bundled markitdown sidecar.
pub mod args;
pub mod commands;
pub mod model;
pub mod runner;
pub mod state;
