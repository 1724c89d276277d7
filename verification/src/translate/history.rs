//! The history record kept for each translation, and how a status change updates it.
use vstd::prelude::*;

use crate::deps::now_rfc3339;
use crate::ids::rfc3339_form;
use crate::order::{copy_texts, texts};
use crate::text::opt_text;
use crate::translate::model::{OutputMode, TranslateRequest};

verus! {

/// One translation as the history page shows it.
#[derive(Debug, Clone)]
pub struct TaskRecord {
    pub id: String,
    pub pdf_paths: Vec<String>,
    pub output_dir: String,
    pub lang_in: String,
    pub lang_out: String,
    pub output_mode: String,
    pub provider_base_url: String,
    pub model: String,
    pub qps: u32,
    pub status: String,
    pub progress: u32,
    pub stage: String,
    pub output_files: Vec<String>,
    pub message: String,
    pub created_at: String,
    pub updated_at: String,
}

/// The name an output mode is stored under.
pub open spec fn mode_name(m: OutputMode) -> Seq<char> {
    match m {
        OutputMode::Mono => "mono"@,
        OutputMode::Dual => "dual"@,
        OutputMode::Both => "both"@,
    }
}

/// The name an output mode is stored under.
pub fn output_mode_name(m: OutputMode) -> (r: String)
    ensures
        r@ == mode_name(m),
{
    match m {
        OutputMode::Mono => "mono".to_string(),
        OutputMode::Dual => "dual".to_string(),
        OutputMode::Both => "both".to_string(),
    }
}

/// `r` is the record of a translation `id` of `req` that has just started: running, no
/// progress, no stage, no outputs, no message.
pub open spec fn started_record(r: TaskRecord, id: Seq<char>, req: TranslateRequest) -> bool {
    &&& r.id@ == id
    &&& texts(r.pdf_paths@) == texts(req.pdf_paths@)
    &&& r.output_dir@ == req.output_dir@
    &&& r.lang_in@ == req.lang_in@
    &&& r.lang_out@ == req.lang_out@
    &&& r.output_mode@ == mode_name(req.output_mode)
    &&& r.provider_base_url@ == req.provider.base_url@
    &&& r.model@ == req.provider.model@
    &&& r.qps == req.qps
    &&& r.status@ == "running"@
    &&& r.progress == 0
    &&& r.stage@ == Seq::<char>::empty()
    &&& r.output_files@.len() == 0
    &&& r.message@ == Seq::<char>::empty()
}

/// A status change of a translation: the new status, and whatever else changed with it.
#[derive(Debug, Clone)]
pub struct StatusUpdate {
    pub status: String,
    pub progress: Option<u32>,
    pub stage: Option<String>,
    pub output_files: Option<Vec<String>>,
    pub message: Option<String>,
}

/// A status update as plain values.
pub type UpdateView = (
    Seq<char>,
    Option<u32>,
    Option<Seq<char>>,
    Option<Seq<Seq<char>>>,
    Option<Seq<char>>,
);

impl View for StatusUpdate {
    type V = UpdateView;

    open spec fn view(&self) -> UpdateView {
        (
            self.status@,
            self.progress,
            opt_text(self.stage),
            match self.output_files {
                Some(v) => Some(texts(v@)),
                None => None,
            },
            opt_text(self.message),
        )
    }
}

/// `new` is `old` after `upd` at time `now`: the status replaced, each other field replaced
/// when the update carries it, the time of the change recorded, the rest kept.
pub open spec fn updated_record(old: TaskRecord, new: TaskRecord, upd: UpdateView, now: Seq<char>) -> bool {
    &&& new.status@ == upd.0
    &&& new.progress == match upd.1 {
        Some(p) => p,
        None => old.progress,
    }
    &&& new.stage@ == match upd.2 {
        Some(s) => s,
        None => old.stage@,
    }
    &&& texts(new.output_files@) == match upd.3 {
        Some(f) => f,
        None => texts(old.output_files@),
    }
    &&& new.message@ == match upd.4 {
        Some(m) => m,
        None => old.message@,
    }
    &&& new.updated_at@ == now
    &&& new.id@ == old.id@
    &&& texts(new.pdf_paths@) == texts(old.pdf_paths@)
    &&& new.output_dir@ == old.output_dir@
    &&& new.lang_in@ == old.lang_in@
    &&& new.lang_out@ == old.lang_out@
    &&& new.output_mode@ == old.output_mode@
    &&& new.provider_base_url@ == old.provider_base_url@
    &&& new.model@ == old.model@
    &&& new.qps == old.qps
    &&& new.created_at@ == old.created_at@
}

impl TaskRecord {
    /// The record of translation `id` of `req`, started at `now` (an RFC 3339 time).
    pub fn from_request_at(id: String, req: &TranslateRequest, now: String) -> (r: Self)
        ensures
            started_record(r, id@, *req),
            r.created_at@ == now@,
            r.updated_at@ == now@,
    {
        TaskRecord {
            id,
            pdf_paths: copy_texts(&req.pdf_paths),
            output_dir: req.output_dir.clone(),
            lang_in: req.lang_in.clone(),
            lang_out: req.lang_out.clone(),
            output_mode: output_mode_name(req.output_mode),
            provider_base_url: req.provider.base_url.clone(),
            model: req.provider.model.clone(),
            qps: req.qps,
            status: "running".to_string(),
            progress: 0,
            stage: String::new(),
            output_files: Vec::new(),
            message: String::new(),
            created_at: now.clone(),
            updated_at: now,
        }
    }

    /// The record of translation `id` of `req`, started now (local time).
    pub fn from_request(id: String, req: &TranslateRequest) -> (r: Self)
        ensures
            started_record(r, id@, *req),
            r.created_at@ == r.updated_at@,
            rfc3339_form(r.created_at@),
    {
        let now = now_rfc3339();
        Self::from_request_at(id, req, now)
    }

    /// Apply a status change made at `now`.
    pub fn apply_update(&mut self, upd: StatusUpdate, now: String)
        ensures
            updated_record(*old(self), *final(self), upd@, now@),
    {
        self.status = upd.status;
        match upd.progress {
            Some(p) => {
                self.progress = p;
            },
            None => {},
        }
        match upd.stage {
            Some(s) => {
                self.stage = s;
            },
            None => {},
        }
        match upd.output_files {
            Some(f) => {
                self.output_files = f;
            },
            None => {},
        }
        match upd.message {
            Some(m) => {
                self.message = m;
            },
            None => {},
        }
        self.updated_at = now;
    }
}

} // verus!
