//! The translation request, its advanced BabelDOC parameters and the events that a running
//! translation reports.
use vstd::prelude::*;

use crate::order::texts;
use crate::text::opt_text;

verus! {

/// Which PDFs BabelDOC writes: translation only, side-by-side, or both.
#[derive(Debug, Clone, Copy, PartialEq, Eq, Structural)]
pub enum OutputMode {
    Mono,
    Dual,
    Both,
}

/// OCR handling strategy. `Auto` is the historical default (emits
/// `--auto-enable-ocr-workaround`); an unset `ocr_mode` in `AdvancedParams` reads as `Auto`.
#[derive(Debug, Clone, Copy, PartialEq, Eq, Structural)]
pub enum OcrMode {
    Auto,
    Off,
    Force,
}

/// Advanced BabelDOC parameters. Every field is optional so that "unset" differs from
/// "explicitly false / zero". Two fields have defaults other than "emit nothing":
/// `enhance_compatibility` (unset reads as `true`) and `ocr_mode` (unset reads as `Auto`).
#[derive(Debug, Clone, PartialEq, Eq)]
pub struct AdvancedParams {
    pub pages: Option<String>,
    pub min_text_length: Option<u32>,
    pub max_pages_per_part: Option<u32>,
    pub glossary_files: Option<Vec<String>>,
    pub no_auto_extract_glossary: Option<bool>,
    pub save_auto_extracted_glossary: Option<bool>,
    pub primary_font_family: Option<String>,
    pub use_alternating_pages_dual: Option<bool>,
    pub dual_translate_first: Option<bool>,
    pub ocr_mode: Option<OcrMode>,
    pub enhance_compatibility: Option<bool>,
    pub skip_clean: Option<bool>,
    pub disable_rich_text_translate: Option<bool>,
    pub translate_table_text: Option<bool>,
    pub disable_graphic_element_process: Option<bool>,
    pub no_merge_alternating_line_numbers: Option<bool>,
    pub disable_same_text_fallback: Option<bool>,
    pub ignore_cache: Option<bool>,
    pub pool_max_workers: Option<u32>,
    pub term_pool_max_workers: Option<u32>,
    pub custom_system_prompt: Option<String>,
    pub no_send_temperature: Option<bool>,
    pub enable_json_mode_if_requested: Option<bool>,
    pub send_dashscope_header: Option<bool>,
    pub openai_reasoning: Option<String>,
}

/// Every advanced parameter unset.
pub open spec fn advanced_all_unset(a: AdvancedParams) -> bool {
    &&& a.pages is None
    &&& a.min_text_length is None
    &&& a.max_pages_per_part is None
    &&& a.glossary_files is None
    &&& a.no_auto_extract_glossary is None
    &&& a.save_auto_extracted_glossary is None
    &&& a.primary_font_family is None
    &&& a.use_alternating_pages_dual is None
    &&& a.dual_translate_first is None
    &&& a.ocr_mode is None
    &&& a.enhance_compatibility is None
    &&& a.skip_clean is None
    &&& a.disable_rich_text_translate is None
    &&& a.translate_table_text is None
    &&& a.disable_graphic_element_process is None
    &&& a.no_merge_alternating_line_numbers is None
    &&& a.disable_same_text_fallback is None
    &&& a.ignore_cache is None
    &&& a.pool_max_workers is None
    &&& a.term_pool_max_workers is None
    &&& a.custom_system_prompt is None
    &&& a.no_send_temperature is None
    &&& a.enable_json_mode_if_requested is None
    &&& a.send_dashscope_header is None
    &&& a.openai_reasoning is None
}

impl Default for AdvancedParams {
    fn default() -> (r: Self)
        ensures
            advanced_all_unset(r),
    {
        AdvancedParams {
            pages: None,
            min_text_length: None,
            max_pages_per_part: None,
            glossary_files: None,
            no_auto_extract_glossary: None,
            save_auto_extracted_glossary: None,
            primary_font_family: None,
            use_alternating_pages_dual: None,
            dual_translate_first: None,
            ocr_mode: None,
            enhance_compatibility: None,
            skip_clean: None,
            disable_rich_text_translate: None,
            translate_table_text: None,
            disable_graphic_element_process: None,
            no_merge_alternating_line_numbers: None,
            disable_same_text_fallback: None,
            ignore_cache: None,
            pool_max_workers: None,
            term_pool_max_workers: None,
            custom_system_prompt: None,
            no_send_temperature: None,
            enable_json_mode_if_requested: None,
            send_dashscope_header: None,
            openai_reasoning: None,
        }
    }
}

/// A request to translate one PDF.
#[derive(Debug, Clone)]
pub struct TranslateRequest {
    /// Optional client-provided id; otherwise one is generated.
    pub task_id: Option<String>,
    /// Exactly one PDF per request for now.
    pub pdf_paths: Vec<String>,
    pub output_dir: String,
    pub lang_in: String,
    pub lang_out: String,
    pub output_mode: OutputMode,
    pub provider: TranslateProvider,
    pub qps: u32,
    /// Unset, or every field unset, reproduces the historical command line exactly.
    pub advanced: Option<AdvancedParams>,
}

/// The queries per second that a request without one asks for.
pub fn default_qps() -> (r: u32)
    ensures
        r == 4,
{
    4
}

/// The provider that a translation calls.
#[derive(Debug, Clone)]
pub struct TranslateProvider {
    pub base_url: String,
    pub api_key_id: String,
    pub model: String,
}

/// Whether the bundled BabelDOC sidecar was found, and what it reported.
#[derive(Debug, Clone)]
pub struct BabeldocInfo {
    pub installed: bool,
    pub version: Option<String>,
    pub path: Option<String>,
    pub hint: String,
}

/// What a running translation reports to the front end.
#[derive(Debug, Clone)]
pub enum TranslateEvent {
    /// One captured log line from BabelDOC's stdout / stderr.
    Log { task_id: String, line: String, stream: String },
    /// Best-effort progress percentage and current stage label.
    Progress {
        task_id: String,
        overall: u32,
        stage: String,
        part_index: Option<u32>,
        total_parts: Option<u32>,
    },
    /// Lifecycle status change.
    Status {
        task_id: String,
        status: String,
        output_files: Option<Vec<String>>,
        message: Option<String>,
    },
}

/// A translate event as plain values.
pub enum TranslateEventView {
    Log { task_id: Seq<char>, line: Seq<char>, stream: Seq<char> },
    Progress {
        task_id: Seq<char>,
        overall: u32,
        stage: Seq<char>,
        part_index: Option<u32>,
        total_parts: Option<u32>,
    },
    Status {
        task_id: Seq<char>,
        status: Seq<char>,
        output_files: Option<Seq<Seq<char>>>,
        message: Option<Seq<char>>,
    },
}

/// An optional list of strings as plain values.
pub open spec fn opt_texts(o: Option<Vec<String>>) -> Option<Seq<Seq<char>>> {
    match o {
        Some(v) => Some(texts(v@)),
        None => None,
    }
}

impl View for TranslateEvent {
    type V = TranslateEventView;

    open spec fn view(&self) -> TranslateEventView {
        match self {
            TranslateEvent::Log { task_id, line, stream } => TranslateEventView::Log {
                task_id: task_id@,
                line: line@,
                stream: stream@,
            },
            TranslateEvent::Progress { task_id, overall, stage, part_index, total_parts } =>
                TranslateEventView::Progress {
                task_id: task_id@,
                overall: *overall,
                stage: stage@,
                part_index: *part_index,
                total_parts: *total_parts,
            },
            TranslateEvent::Status { task_id, status, output_files, message } =>
                TranslateEventView::Status {
                task_id: task_id@,
                status: status@,
                output_files: opt_texts(*output_files),
                message: opt_text(*message),
            },
        }
    }
}

/// The status event of a translation that failed with `message`.
pub open spec fn error_status(task_id: Seq<char>, message: Seq<char>) -> TranslateEventView {
    TranslateEventView::Status {
        task_id,
        status: "error"@,
        output_files: None,
        message: Some(message),
    }
}

} // verus!
