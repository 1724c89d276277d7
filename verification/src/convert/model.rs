//! Convert requests, the markitdown probe result and convert events.
use vstd::prelude::*;

use crate::text::opt_text;

verus! {

/// A request to convert one local file to Markdown.
#[derive(Debug, Clone)]
pub struct ConvertRequest {
    /// Optional client-provided id; otherwise one is generated.
    pub task_id: Option<String>,
    /// Absolute local path to the input document.
    pub input_path: String,
    /// Absolute directory for the output `.md`.
    pub output_dir: String,
}

/// Whether the bundled markitdown sidecar was found, and what it reported.
#[derive(Debug, Clone)]
pub struct MarkitdownInfo {
    pub installed: bool,
    pub version: Option<String>,
    pub path: Option<String>,
    pub hint: String,
}

/// What a running conversion reports to the front end.
#[derive(Debug, Clone)]
pub enum ConvertEvent {
    /// One captured log line from markitdown's stdout / stderr.
    Log { task_id: String, line: String, stream: String },
    /// Lifecycle status change (markitdown has no stages, so no percentage).
    Status {
        task_id: String,
        status: String,
        output_file: Option<String>,
        message: Option<String>,
    },
}

/// A convert event as plain values.
pub enum ConvertEventView {
    Log { task_id: Seq<char>, line: Seq<char>, stream: Seq<char> },
    Status {
        task_id: Seq<char>,
        status: Seq<char>,
        output_file: Option<Seq<char>>,
        message: Option<Seq<char>>,
    },
}

impl View for ConvertEvent {
    type V = ConvertEventView;

    open spec fn view(&self) -> ConvertEventView {
        match self {
            ConvertEvent::Log { task_id, line, stream } => ConvertEventView::Log {
                task_id: task_id@,
                line: line@,
                stream: stream@,
            },
            ConvertEvent::Status { task_id, status, output_file, message } =>
                ConvertEventView::Status {
                task_id: task_id@,
                status: status@,
                output_file: opt_text(*output_file),
                message: opt_text(*message),
            },
        }
    }
}

} // verus!
