//! PageWeave's core: the BabelDOC / markitdown command lines, the progress parser for the
//! translator's output, the decisions of a translation or conversion run (what to report,
//! record and clean up, which files it produced), the task tables, provider presets, records
//! and probes, the offline-assets rules, and the settings.
use vstd::prelude::*;

pub mod text;
pub mod order;
pub mod sidecar;
pub mod paths;
pub mod registry;
mod deps;
pub mod ids;
pub mod error;
pub mod translate;
pub mod convert;
pub mod provider;
pub mod secrets;
pub mod settings;

verus! {

} // verus!
