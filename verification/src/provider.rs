//! AI provider configuration: presets, records, connectivity checks.
pub mod commands;
pub mod connectivity;
pub mod model;
pub mod presets;
