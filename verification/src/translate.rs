//! Translating PDFs with the bundled BabelDOC sidecar.
pub mod args;
pub mod assets;
pub mod commands;
pub mod history;
pub mod model;
pub mod progress;
pub mod runner;
pub mod state;
