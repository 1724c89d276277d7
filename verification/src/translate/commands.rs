//! Starting and cancelling translations: which requests are accepted, the task id, and the
//! cancellation event.
use vstd::prelude::*;

use crate::error::{AppError, AppResult, ErrorView};
use crate::ids::{fresh_form, fresh_id};
use crate::registry::{position, status_of, with_status};
use crate::text::{is_blank, trim};
use crate::translate::model::{TranslateEvent, TranslateEventView, TranslateRequest};
use crate::translate::state::TaskRegistry;

verus! {

/// `s` is empty once trimmed.
pub open spec fn blank(s: Seq<char>) -> bool {
    trim(s).len() == 0
}

/// Why a translation request is refused, checked in this order; `None` when it is accepted.
/// `assets_installed` tells whether BabelDOC's offline assets are in the cache.
pub open spec fn translate_refusal(req: TranslateRequest, assets_installed: bool) -> Option<Seq<char>> {
    if req.pdf_paths@.len() == 0 {
        Some("至少需要一个 PDF 文件"@)
    } else if req.pdf_paths@.len() > 1 {
        Some("当前 MVP 仅支持一次翻译一个 PDF 文件"@)
    } else if blank(req.output_dir@) {
        Some("请选择输出目录"@)
    } else if blank(req.lang_in@) || blank(req.lang_out@) {
        Some("请选择源语言和目标语言"@)
    } else if blank(req.provider.base_url@) {
        Some("服务商 Base URL 不能为空"@)
    } else if blank(req.provider.api_key_id@) {
        Some("服务商 API Key 未设置"@)
    } else if blank(req.provider.model@) {
        Some("请选择或输入模型"@)
    } else if req.qps == 0 {
        Some("QPS 必须大于 0"@)
    } else if !assets_installed {
        Some("未检测到 BabelDOC 离线资源包，请先在设置页安装。"@)
    } else {
        None
    }
}

/// Check a translation request; the error says what is missing.
pub fn validate_translate_request(req: &TranslateRequest, assets_installed: bool) -> (r: AppResult<()>)
    ensures
        match translate_refusal(*req, assets_installed) {
            Some(m) => r matches Err(e) && e@ == ErrorView::InvalidInput(m),
            None => r is Ok,
        },
{
    if req.pdf_paths.len() == 0 {
        return Err(AppError::InvalidInput("至少需要一个 PDF 文件".to_string()));
    }
    if req.pdf_paths.len() > 1 {
        return Err(AppError::InvalidInput("当前 MVP 仅支持一次翻译一个 PDF 文件".to_string()));
    }
    if is_blank(req.output_dir.as_str()) {
        return Err(AppError::InvalidInput("请选择输出目录".to_string()));
    }
    if is_blank(req.lang_in.as_str()) || is_blank(req.lang_out.as_str()) {
        return Err(AppError::InvalidInput("请选择源语言和目标语言".to_string()));
    }
    if is_blank(req.provider.base_url.as_str()) {
        return Err(AppError::InvalidInput("服务商 Base URL 不能为空".to_string()));
    }
    if is_blank(req.provider.api_key_id.as_str()) {
        return Err(AppError::InvalidInput("服务商 API Key 未设置".to_string()));
    }
    if is_blank(req.provider.model.as_str()) {
        return Err(AppError::InvalidInput("请选择或输入模型".to_string()));
    }
    if req.qps == 0 {
        return Err(AppError::InvalidInput("QPS 必须大于 0".to_string()));
    }
    if !assets_installed {
        return Err(
            AppError::InvalidInput("未检测到 BabelDOC 离线资源包，请先在设置页安装。".to_string()),
        );
    }
    Ok(())
}

/// A translation request is accepted exactly when it is complete: one PDF, and an output
/// directory, a source language, a target language, a base URL, a key handle and a model
/// that are not blank once trimmed, a QPS above zero, and the offline assets installed. A
/// request with one PDF and an output directory but a blank source or target language is
/// refused for the languages.
pub proof fn law_accepted_requests_are_complete(req: TranslateRequest, assets_installed: bool)
    ensures
        translate_refusal(req, assets_installed) is None <==> {
            &&& req.pdf_paths@.len() == 1
            &&& trim(req.output_dir@).len() > 0
            &&& trim(req.lang_in@).len() > 0
            &&& trim(req.lang_out@).len() > 0
            &&& trim(req.provider.base_url@).len() > 0
            &&& trim(req.provider.api_key_id@).len() > 0
            &&& trim(req.provider.model@).len() > 0
            &&& req.qps > 0
            &&& assets_installed
        },
        req.pdf_paths@.len() == 1 && trim(req.output_dir@).len() > 0 && (trim(req.lang_in@).len()
            == 0 || trim(req.lang_out@).len() == 0) ==> translate_refusal(req, assets_installed)
            == Some("请选择源语言和目标语言"@),
{
}

/// A task id: the one given, or `prefix` followed by a fresh UUID (32 hex digits).
pub fn task_id_or_fresh(given: &Option<String>, prefix: &str) -> (r: String)
    ensures
        match given {
            Some(t) => r@ == t@,
            None => fresh_form(r@, prefix@),
        },
{
    match given {
        Some(t) => t.clone(),
        None => fresh_id(prefix),
    }
}

/// Accept a translation request and name its task: the id the client gave, or `task_`
/// followed by a fresh UUID. The run itself is started by the caller.
pub fn start_translate(req: &TranslateRequest, assets_installed: bool) -> (r: AppResult<String>)
    ensures
        match translate_refusal(*req, assets_installed) {
            Some(m) => r matches Err(e) && e@ == ErrorView::InvalidInput(m),
            None => r matches Ok(id) && match req.task_id {
                Some(t) => id@ == t@,
                None => fresh_form(id@, "task_"@),
            },
        },
{
    match validate_translate_request(req, assets_installed) {
        Err(e) => Err(e),
        Ok(()) => {
            let id = task_id_or_fresh(&req.task_id, "task_");
            proof {
                reveal_strlit("task_");
            }
            Ok(id)
        },
    }
}

/// The event that tells the front end a task was cancelled.
pub open spec fn cancelled_event(task_id: Seq<char>) -> TranslateEventView {
    TranslateEventView::Status {
        task_id,
        status: "cancelled"@,
        output_files: None,
        message: Some("用户已取消"@),
    }
}

/// Cancel a translation: mark it cancelled in the table (its runner then stops the sidecar),
/// and report the cancellation. The flag tells whether the task was running.
pub fn cancel_translate<H>(reg: &mut TaskRegistry<H>, task_id: &str) -> (r: (bool, TranslateEvent))
    ensures
        r.0 == (position(old(reg)@, task_id@) is Some),
        final(reg)@ == with_status(old(reg)@, task_id@, "cancelled"@),
        r.0 ==> status_of(final(reg)@, task_id@) == Some("cancelled"@),
        r.1@ == cancelled_event(task_id@),
{
    let killed = reg.kill(task_id);
    (
        killed,
        TranslateEvent::Status {
            task_id: task_id.to_string(),
            status: "cancelled".to_string(),
            output_files: None,
            message: Some("用户已取消".to_string()),
        },
    )
}

/// What the file system says about a path: nothing there, an error reading its metadata
/// (with the error text), or whether it is a file and its length.
pub enum FileMeta {
    Missing,
    Unreadable(String),
    Present { is_file: bool, len: u64 },
}

/// The size of the file at `path`, given its metadata; an error when it is missing,
/// unreadable or not a file.
pub fn get_file_size(path: &str, meta: FileMeta) -> (r: AppResult<u64>)
    ensures
        match meta {
            FileMeta::Missing => r matches Err(e) && e@ == ErrorView::NotFound(
                "file not found: "@ + path@,
            ),
            FileMeta::Unreadable(d) => r matches Err(e) && e@ == ErrorView::Io(
                "read file metadata for "@ + path@ + ": "@ + d@,
            ),
            FileMeta::Present { is_file, len } => if is_file {
                r == Ok::<u64, AppError>(len)
            } else {
                r matches Err(e) && e@ == ErrorView::InvalidInput("not a file: "@ + path@)
            },
        },
{
    match meta {
        FileMeta::Missing => {
            let mut m = "file not found: ".to_string();
            m.append(path);
            Err(AppError::NotFound(m))
        },
        FileMeta::Unreadable(d) => {
            let mut m = "read file metadata for ".to_string();
            m.append(path);
            m.append(": ");
            m.append(d.as_str());
            Err(AppError::Io(m))
        },
        FileMeta::Present { is_file, len } => {
            if is_file {
                Ok(len)
            } else {
                let mut m = "not a file: ".to_string();
                m.append(path);
                Err(AppError::InvalidInput(m))
            }
        },
    }
}

} // verus!
