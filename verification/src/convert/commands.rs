//! Starting and cancelling conversions: which requests are accepted, the single convert
//! slot, the task id, and the cancellation event.
use vstd::prelude::*;

use crate::convert::args::{
    allowed_extension, is_allowed_extension, is_local_path, local_path, unsupported_type_message,
    unsupported_type_text,
};
use crate::convert::model::{ConvertEvent, ConvertEventView, ConvertRequest};
use crate::convert::state::ConvertRegistry;
use crate::error::{AppError, AppResult, ErrorView};
use crate::ids::fresh_form;
use crate::paths::extension;
use crate::registry::{any_running, position, running_count, status_of, with_entry, with_status};
use crate::text::{has_prefix, is_blank, lower_seq, trim};
use crate::translate::commands::{blank, task_id_or_fresh};

verus! {

/// Why a conversion request is refused before the slot is claimed, checked in this order;
/// `None` when it may go on. `input_is_file` tells whether the input path is a file.
pub open spec fn convert_refusal(req: ConvertRequest, input_is_file: bool) -> Option<ErrorView> {
    if blank(req.input_path@) {
        Some(ErrorView::InvalidInput("请选择要转换的文件"@))
    } else if blank(req.output_dir@) {
        Some(ErrorView::InvalidInput("请选择输出目录"@))
    } else if !local_path(req.input_path@) {
        Some(ErrorView::InvalidInput("仅支持本地文件路径，不支持远程 URI"@))
    } else if !(extension(req.input_path@) matches Some(e) && allowed_extension(lower_seq(e))) {
        Some(ErrorView::InvalidInput(unsupported_type_text()))
    } else if !input_is_file {
        Some(ErrorView::NotFound("输入文件不存在: "@ + req.input_path@))
    } else {
        None
    }
}

/// A conversion request may go on exactly when its input path and output directory are not
/// blank, the input is a local path (no `http://`, `https://`, `ftp://` or `file://` in front,
/// whatever the case), its extension is one of `pdf`, `docx`, `pptx`, `xlsx`, `xls` (whatever
/// the case), and the input is a file.
pub proof fn law_convert_accepts_complete_local_requests(req: ConvertRequest, input_is_file: bool)
    ensures
        convert_refusal(req, input_is_file) is None <==> {
            let lower = lower_seq(trim(req.input_path@));
            &&& trim(req.input_path@).len() > 0
            &&& trim(req.output_dir@).len() > 0
            &&& !has_prefix(lower, "http://"@)
            &&& !has_prefix(lower, "https://"@)
            &&& !has_prefix(lower, "ftp://"@)
            &&& !has_prefix(lower, "file://"@)
            &&& extension(req.input_path@) matches Some(e) && {
                let l = lower_seq(e);
                l == "pdf"@ || l == "docx"@ || l == "pptx"@ || l == "xlsx"@ || l == "xls"@
            }
            &&& input_is_file
        },
{
}

/// The refusal when another conversion holds the slot.
pub open spec fn busy_text() -> Seq<char> {
    "已有转换任务在进行中，请等待完成或先取消"@
}

/// Accept a conversion and claim the single convert slot for it before it is spawned, so
/// that two starts cannot both pass a busy check. The task id is the one the client gave, or
/// `convert_` followed by a fresh UUID; the slot holds it as running with `cancel_tx`.
pub fn start_convert<H>(
    reg: &mut ConvertRegistry<H>,
    req: &ConvertRequest,
    input_is_file: bool,
    cancel_tx: H,
) -> (r: AppResult<String>)
    ensures
        match convert_refusal(*req, input_is_file) {
            Some(v) => r matches Err(e) && e@ == v && final(reg)@ == old(reg)@,
            None => if any_running(old(reg)@) {
                r matches Err(e) && e@ == ErrorView::InvalidInput(busy_text()) && final(reg)@
                    == old(reg)@
            } else {
                r matches Ok(id) && final(reg)@ == with_entry(old(reg)@, id@, "running"@)
                    && status_of(final(reg)@, id@) == Some("running"@) && running_count(
                    final(reg)@,
                ) == 1 && final(reg).handle_of(id@) == Some(cancel_tx) && match req.task_id {
                    Some(t) => id@ == t@,
                    None => fresh_form(id@, "convert_"@),
                }
            },
        },
{
    if is_blank(req.input_path.as_str()) {
        return Err(AppError::InvalidInput("请选择要转换的文件".to_string()));
    }
    if is_blank(req.output_dir.as_str()) {
        return Err(AppError::InvalidInput("请选择输出目录".to_string()));
    }
    if !is_local_path(req.input_path.as_str()) {
        return Err(AppError::InvalidInput("仅支持本地文件路径，不支持远程 URI".to_string()));
    }
    if !is_allowed_extension(req.input_path.as_str()) {
        return Err(AppError::InvalidInput(unsupported_type_message()));
    }
    if !input_is_file {
        let mut m = "输入文件不存在: ".to_string();
        m.append(req.input_path.as_str());
        return Err(AppError::NotFound(m));
    }
    let task_id = task_id_or_fresh(&req.task_id, "convert_");
    proof {
        reveal_strlit("convert_");
    }
    let id = task_id.clone();
    if !reg.try_begin(task_id, cancel_tx) {
        return Err(AppError::InvalidInput("已有转换任务在进行中，请等待完成或先取消".to_string()));
    }
    Ok(id)
}

/// Cancel a conversion: mark it cancelled in the slot (its runner then stops markitdown)
/// and report the cancellation. The flag tells whether the task was there.
pub fn cancel_convert<H>(reg: &mut ConvertRegistry<H>, task_id: &str) -> (r: (bool, ConvertEvent))
    ensures
        r.0 == (position(old(reg)@, task_id@) is Some),
        final(reg)@ == with_status(old(reg)@, task_id@, "cancelled"@),
        r.0 ==> status_of(final(reg)@, task_id@) == Some("cancelled"@),
        r.1@ == (ConvertEventView::Status {
            task_id: task_id@,
            status: "cancelled"@,
            output_file: None,
            message: Some("用户已取消"@),
        }),
{
    let killed = reg.kill(task_id);
    (
        killed,
        ConvertEvent::Status {
            task_id: task_id.to_string(),
            status: "cancelled".to_string(),
            output_file: None,
            message: Some("用户已取消".to_string()),
        },
    )
}

} // verus!
