//! The decisions of a conversion run: where its output goes, which lines of markitdown's
//! output are shown, which Markdown file it produced, and what to report when it ends.
use vstd::prelude::*;

use crate::convert::args::{build_args, check_output_request, output_request_check};
use crate::convert::model::{ConvertEvent, ConvertEventView, MarkitdownInfo};
use crate::convert::state::ConvertRegistry;
use crate::error::{error_text, AppError, AppResult, ErrorView};
use crate::order::{lemma_text_le_reflexive, lemma_text_order, sort_texts, text_le, text_order, texts};
use crate::paths::{stem_or_output, stem_or_output_of};
use crate::registry::{status_of, with_status, without};
use crate::sidecar::{
    decoded_line, exit_ok, exited_ok, failure_message, failure_text, output_line,
    ExitOutcome,
};
use crate::text::{
    extend_chars, has_prefix, has_suffix, lower_chars, lower_seq, opt_text, signed_decimal,
    str_eq, trim, trim_str, vec_eq, vec_ends_with, vec_starts_with,
};
use crate::translate::runner::{decode_process_output, decode_spec, entries_view};

verus! {

// ---------------------------------------------------------------------------
// The output path
// ---------------------------------------------------------------------------

/// What the file system says about the paths of a conversion: whether the input is a
/// file, whether the output directory exists, and whether it is a directory.
pub open spec fn target_check(
    input: Seq<char>,
    output_dir: Seq<char>,
    input_is_file: bool,
    dir_exists: bool,
    dir_is_dir: bool,
) -> Result<bool, ErrorView> {
    match output_request_check(input, output_dir) {
        Err(e) => Err(e),
        Ok(()) => if !input_is_file {
            Err(ErrorView::NotFound("输入文件不存在: "@ + input))
        } else if !dir_exists {
            Ok(true)
        } else if !dir_is_dir {
            Err(ErrorView::InvalidInput("输出路径不是目录: "@ + output_dir))
        } else {
            Ok(false)
        },
    }
}

/// Once the input and output pass the path checks, a conversion goes on exactly when the
/// input is a file and the output directory is missing (it is then created first) or is a
/// directory; a missing input is reported as not found, an output path that exists but is
/// no directory as invalid. When the path checks fail, their error is the answer.
pub proof fn law_output_target(
    input: Seq<char>,
    output_dir: Seq<char>,
    input_is_file: bool,
    dir_exists: bool,
    dir_is_dir: bool,
)
    ensures
        output_request_check(input, output_dir) matches Err(e) ==> target_check(
            input,
            output_dir,
            input_is_file,
            dir_exists,
            dir_is_dir,
        ) == Err::<bool, ErrorView>(e),
        output_request_check(input, output_dir) is Ok ==> {
            let r = target_check(input, output_dir, input_is_file, dir_exists, dir_is_dir);
            &&& !input_is_file ==> r == Err::<bool, ErrorView>(
                ErrorView::NotFound("输入文件不存在: "@ + input),
            )
            &&& input_is_file && !dir_exists ==> r == Ok::<bool, ErrorView>(true)
            &&& input_is_file && dir_exists && dir_is_dir ==> r == Ok::<bool, ErrorView>(false)
            &&& input_is_file && dir_exists && !dir_is_dir ==> r == Err::<bool, ErrorView>(
                ErrorView::InvalidInput("输出路径不是目录: "@ + output_dir),
            )
        },
{
}

/// Check the paths of a conversion before its output path is chosen. `Ok(true)` asks the
/// caller to create the output directory first.
pub fn check_output_target(
    input_path: &str,
    output_dir: &str,
    input_is_file: bool,
    dir_exists: bool,
    dir_is_dir: bool,
) -> (r: AppResult<bool>)
    ensures
        match r {
            Ok(b) => target_check(input_path@, output_dir@, input_is_file, dir_exists, dir_is_dir)
                == Ok::<bool, ErrorView>(b),
            Err(e) => target_check(input_path@, output_dir@, input_is_file, dir_exists, dir_is_dir)
                == Err::<bool, ErrorView>(e@),
        },
{
    match check_output_request(input_path, output_dir) {
        Err(e) => Err(e),
        Ok(()) => {
            if !input_is_file {
                let mut m = "输入文件不存在: ".to_string();
                m.append(input_path);
                Err(AppError::NotFound(m))
            } else if !dir_exists {
                Ok(true)
            } else if !dir_is_dir {
                let mut m = "输出路径不是目录: ".to_string();
                m.append(output_dir);
                Err(AppError::InvalidInput(m))
            } else {
                Ok(false)
            }
        },
    }
}

/// The error when the output directory cannot be created.
pub fn dir_create_error(dir: &str, detail: &str) -> (r: AppError)
    ensures
        r@ == ErrorView::Io("无法创建输出目录 "@ + dir@ + ": "@ + detail@),
{
    let mut m = "无法创建输出目录 ".to_string();
    m.append(dir);
    m.append(": ");
    m.append(detail);
    AppError::Io(m)
}

// ---------------------------------------------------------------------------
// The produced file
// ---------------------------------------------------------------------------

/// A name markitdown may have written for `stem` (both compared in ASCII lower case):
/// `{stem}.md`, or `{stem}-` followed by anything and ending in `.md`.
pub open spec fn markdown_output(name: Seq<char>, stem: Seq<char>) -> bool {
    let lower = lower_seq(name);
    let s = lower_seq(stem);
    ||| lower == s + ".md"@
    ||| has_prefix(lower, s + "-"@) && has_suffix(lower, ".md"@)
}

/// Whether `name` is a Markdown output for `stem`.
pub fn is_markdown_output(name: &str, stem: &str) -> (r: bool)
    ensures
        r == markdown_output(name@, stem@),
{
    let lower = lower_chars(name);
    let s = lower_chars(stem);
    let mut exact = s.clone();
    extend_chars(&mut exact, ".md");
    let mut prefix = s.clone();
    extend_chars(&mut prefix, "-");
    let mut suffix: Vec<char> = Vec::new();
    extend_chars(&mut suffix, ".md");
    vec_eq(&lower, &exact) || vec_starts_with(&lower, &prefix) && vec_ends_with(&lower, &suffix)
}

/// The paths of the entries that are Markdown outputs for `stem`, in order.
pub open spec fn markdown_matches(entries: Seq<(Seq<char>, Seq<char>)>, stem: Seq<char>) -> Seq<
    Seq<char>,
>
    decreases entries.len(),
{
    if entries.len() == 0 {
        seq![]
    } else {
        markdown_matches(entries.drop_last(), stem) + if markdown_output(entries.last().0, stem) {
            seq![entries.last().1]
        } else {
            seq![]
        }
    }
}

/// The Markdown file a conversion of `input` produced, found among the output directory's
/// entries: the greatest matching path in sorted order (the newest stamp), if any.
pub open spec fn found_output(input: Seq<char>, entries: Seq<(Seq<char>, Seq<char>)>) -> Option<
    Seq<char>,
> {
    let sorted = markdown_matches(entries, stem_or_output(input)).sort_by(text_order());
    if sorted.len() == 0 {
        None
    } else {
        Some(sorted.last())
    }
}

/// Find the Markdown file of `input_path` among the entries (file name, full path) of the
/// output directory.
pub fn find_output_md(input_path: &str, entries: &Vec<(String, String)>) -> (r: Option<String>)
    ensures
        opt_text(r) == found_output(input_path@, entries_view(entries@)),
{
    let stem = stem_or_output_of(input_path);
    let ghost all = entries_view(entries@);
    let mut found: Vec<String> = Vec::new();
    let mut i: usize = 0;
    assert(texts(found@) =~= markdown_matches(all.take(0), stem@));
    while i < entries.len()
        invariant
            i <= entries@.len(),
            all == entries_view(entries@),
            texts(found@) == markdown_matches(all.take(i as int), stem@),
        decreases entries.len() - i,
    {
        let ghost before = texts(found@);
        let hit = is_markdown_output(entries[i].0.as_str(), stem.as_str());
        if hit {
            found.push(entries[i].1.clone());
        }
        proof {
            assert(all.take(i + 1).drop_last() =~= all.take(i as int));
            assert(all.take(i + 1).last() == (entries@[i as int].0@, entries@[i as int].1@));
            assert(texts(found@) =~= before + (if hit {
                seq![entries@[i as int].1@]
            } else {
                Seq::<Seq<char>>::empty()
            }));
        }
        i = i + 1;
    }
    assert(all.take(entries@.len() as int) =~= all);
    let mut sorted = sort_texts(&found);
    let n = sorted.len();
    if n == 0 {
        None
    } else {
        let last = sorted.pop();
        proof {
            assert(texts(sorted@).len() == n - 1);
        }
        last
    }
}

/// The output file to report: the resolved path when it was written, otherwise the one
/// found in the output directory.
pub fn choose_output(resolved: String, resolved_is_file: bool, found: Option<String>) -> (r: Option<String>)
    ensures
        resolved_is_file ==> opt_text(r) == Some(resolved@),
        !resolved_is_file ==> opt_text(r) == opt_text(found),
{
    if resolved_is_file {
        Some(resolved)
    } else {
        found
    }
}

// ---------------------------------------------------------------------------
// The sidecar
// ---------------------------------------------------------------------------

/// The file names the bundled markitdown sidecar may have, in order of preference.
pub fn markitdown_candidates() -> (r: Vec<String>)
    ensures
        texts(r@) == seq![
            "markitdown-sidecar.exe"@,
            "markitdown-sidecar-x86_64-pc-windows-msvc.exe"@,
            "markitdown-sidecar"@,
        ],
{
    let mut v: Vec<String> = Vec::new();
    v.push("markitdown-sidecar.exe".to_string());
    v.push("markitdown-sidecar-x86_64-pc-windows-msvc.exe".to_string());
    v.push("markitdown-sidecar".to_string());
    assert(texts(v@) =~= seq![
        "markitdown-sidecar.exe"@,
        "markitdown-sidecar-x86_64-pc-windows-msvc.exe"@,
        "markitdown-sidecar"@,
    ]);
    v
}

/// What markitdown printed for `--version`: its stdout, or its stderr when stdout is blank;
/// trimmed, and nothing when blank.
pub open spec fn version_text(stdout: Seq<u8>, stderr: Seq<u8>) -> Option<Seq<char>> {
    let out = decode_spec(stdout);
    let err = decode_spec(stderr);
    let text = if trim(out).len() > 0 {
        out
    } else {
        err
    };
    if trim(text).len() > 0 {
        Some(trim(text))
    } else {
        None
    }
}

/// What the user is told when the markitdown sidecar is missing.
pub open spec fn markitdown_missing_hint() -> Seq<char> {
    "未检测到内置 markitdown sidecar，请重新安装 PageWeave 或先构建 sidecar。"@
}

/// The probe result: installed exactly when a sidecar was found, with its path and the
/// version it printed (`version` holds its stdout and stderr); otherwise the hint.
pub fn markitdown_info(sidecar: Option<String>, version: Option<(Vec<u8>, Vec<u8>)>) -> (r: MarkitdownInfo)
    ensures
        r.installed == sidecar is Some,
        opt_text(r.path) == opt_text(sidecar),
        sidecar is Some ==> r.hint@ == Seq::<char>::empty() && opt_text(r.version) == match version {
            Some(o) => version_text(o.0@, o.1@),
            None => None,
        },
        sidecar is None ==> r.hint@ == markitdown_missing_hint() && r.version is None,
{
    match sidecar {
        Some(p) => {
            let v = match version {
                Some((o, e)) => {
                    let out = decode_process_output(o.as_slice());
                    let err = decode_process_output(e.as_slice());
                    let t = trim_str(out.as_str());
                    let text = if t.as_str().is_empty() {
                        err
                    } else {
                        out
                    };
                    let tt = trim_str(text.as_str());
                    if tt.as_str().is_empty() {
                        None
                    } else {
                        Some(tt)
                    }
                },
                None => None,
            };
            MarkitdownInfo { installed: true, version: v, path: Some(p), hint: String::new() }
        },
        None => MarkitdownInfo {
            installed: false,
            version: None,
            path: None,
            hint: "未检测到内置 markitdown sidecar，请重新安装 PageWeave 或先构建 sidecar。".to_string(),
        },
    }
}

/// The error when no markitdown sidecar can be launched.
pub fn markitdown_missing_error() -> (r: AppError)
    ensures
        r@ == ErrorView::NotFound("未检测到内置 markitdown sidecar，请重新安装 PageWeave。"@),
{
    AppError::NotFound("未检测到内置 markitdown sidecar，请重新安装 PageWeave。".to_string())
}

// ---------------------------------------------------------------------------
// Events
// ---------------------------------------------------------------------------

/// The status event of a conversion that failed with `message`.
pub open spec fn convert_error(task_id: Seq<char>, message: Seq<char>) -> ConvertEventView {
    ConvertEventView::Status { task_id, status: "error"@, output_file: None, message: Some(message) }
}

/// The status event of a conversion that failed with `message`.
pub fn convert_error_event(task_id: &str, message: String) -> (r: ConvertEvent)
    ensures
        r@ == convert_error(task_id@, message@),
{
    ConvertEvent::Status {
        task_id: task_id.to_string(),
        status: "error".to_string(),
        output_file: None,
        message: Some(message),
    }
}

/// The error event when markitdown could not be started.
pub fn convert_spawn_failure(task_id: &str, detail: &str) -> (r: ConvertEvent)
    ensures
        r@ == convert_error(task_id@, "启动 markitdown 失败: "@ + detail@),
{
    let mut m = "启动 markitdown 失败: ".to_string();
    m.append(detail);
    convert_error_event(task_id, m)
}

/// The event that a conversion has started.
pub fn convert_running_event(task_id: &str) -> (r: ConvertEvent)
    ensures
        r@ == (ConvertEventView::Status {
            task_id: task_id@,
            status: "running"@,
            output_file: None,
            message: None,
        }),
{
    ConvertEvent::Status {
        task_id: task_id.to_string(),
        status: "running".to_string(),
        output_file: None,
        message: None,
    }
}

/// The log event for one line of markitdown's `stream`, unless it is blank.
pub fn convert_log_event(task_id: &str, bytes: &[u8], stream: &str) -> (r: Option<ConvertEvent>)
    ensures
        match output_line(bytes@) {
            Some(line) => r matches Some(e) && e@ == (ConvertEventView::Log {
                task_id: task_id@,
                line,
                stream: stream@,
            }),
            None => r is None,
        },
{
    match decoded_line(bytes) {
        Some(line) => Some(
            ConvertEvent::Log { task_id: task_id.to_string(), line, stream: stream.to_string() },
        ),
        None => None,
    }
}

// ---------------------------------------------------------------------------
// The end of a run
// ---------------------------------------------------------------------------

/// Give up the convert slot: the task's final status set, then its entry removed.
pub fn release_slot<H>(reg: &mut ConvertRegistry<H>, task_id: &str, status: &str)
    ensures
        final(reg)@ == without(with_status(old(reg)@, task_id@, status@), task_id@),
        status_of(final(reg)@, task_id@) is None,
{
    reg.set_status(task_id, status);
    reg.remove(task_id);
}

/// Stop a conversion before its sidecar runs: the slot is released with the status
/// `error`, and the error is reported.
pub fn convert_abort<H>(reg: &mut ConvertRegistry<H>, task_id: &str, message: String) -> (r: ConvertEvent)
    ensures
        final(reg)@ == without(with_status(old(reg)@, task_id@, "error"@), task_id@),
        status_of(final(reg)@, task_id@) is None,
        r@ == convert_error(task_id@, message@),
{
    release_slot(reg, task_id, "error");
    convert_error_event(task_id, message)
}

/// The first step of a run: with the output path resolved it goes on; otherwise it stops,
/// releasing the slot and reporting the error.
pub fn convert_resolved<H>(
    reg: &mut ConvertRegistry<H>,
    task_id: &str,
    resolved: Result<String, AppError>,
) -> (r: Result<String, ConvertEvent>)
    ensures
        match resolved {
            Ok(p) => r matches Ok(q) && q@ == p@ && final(reg)@ == old(reg)@,
            Err(e) => r matches Err(ev) && ev@ == convert_error(task_id@, error_text(e@))
                && final(reg)@ == without(with_status(old(reg)@, task_id@, "error"@), task_id@)
                && status_of(final(reg)@, task_id@) is None,
        },
{
    match resolved {
        Ok(p) => Ok(p),
        Err(e) => Err(convert_abort(reg, task_id, e.message())),
    }
}

/// The second step: with markitdown installed the run goes on; otherwise it stops,
/// releasing the slot and reporting the probe's hint.
pub fn convert_probed<H>(reg: &mut ConvertRegistry<H>, task_id: &str, info: MarkitdownInfo) -> (r:
    Result<(), ConvertEvent>)
    ensures
        info.installed ==> r is Ok && final(reg)@ == old(reg)@,
        !info.installed ==> (r matches Err(ev) && ev@ == convert_error(task_id@, info.hint@)
            && final(reg)@ == without(with_status(old(reg)@, task_id@, "error"@), task_id@)
            && status_of(final(reg)@, task_id@) is None),
{
    if info.installed {
        Ok(())
    } else {
        Err(convert_abort(reg, task_id, info.hint))
    }
}

/// The third step: with a sidecar found, the program to run and its arguments
/// (`[input, "-o", output]`); otherwise the run stops, releasing the slot and reporting that
/// the sidecar is missing.
pub fn convert_located<H>(
    reg: &mut ConvertRegistry<H>,
    task_id: &str,
    sidecar: Option<String>,
    input_path: &str,
    output_path: &str,
) -> (r: Result<(String, Vec<String>), ConvertEvent>)
    ensures
        match sidecar {
            Some(p) => r matches Ok((prog, argv)) && prog@ == p@ && texts(argv@) == seq![
                input_path@,
                "-o"@,
                output_path@,
            ] && final(reg)@ == old(reg)@,
            None => r matches Err(ev) && ev@ == convert_error(
                task_id@,
                "未检测到内置 markitdown sidecar，请重新安装 PageWeave。"@,
            ) && final(reg)@ == without(with_status(old(reg)@, task_id@, "error"@), task_id@)
                && status_of(final(reg)@, task_id@) is None,
        },
{
    match sidecar {
        Some(p) => {
            let argv = build_args(input_path, output_path);
            assert(texts(argv@) =~= seq![input_path@, "-o"@, output_path@]);
            Ok((p, argv))
        },
        None => Err(convert_abort(reg, task_id, markitdown_missing_error().message())),
    }
}

/// The fourth step: a started sidecar is reported running; one that failed to start stops
/// the run, releasing the slot and reporting why.
pub fn convert_spawned<H>(reg: &mut ConvertRegistry<H>, task_id: &str, spawned: Result<(), String>) -> (r:
    Result<ConvertEvent, ConvertEvent>)
    ensures
        match spawned {
            Ok(()) => r matches Ok(ev) && ev@ == (ConvertEventView::Status {
                task_id: task_id@,
                status: "running"@,
                output_file: None,
                message: None,
            }) && final(reg)@ == old(reg)@,
            Err(d) => r matches Err(ev) && ev@ == convert_error(
                task_id@,
                "启动 markitdown 失败: "@ + d@,
            ) && final(reg)@ == without(with_status(old(reg)@, task_id@, "error"@), task_id@)
                && status_of(final(reg)@, task_id@) is None,
        },
{
    match spawned {
        Ok(()) => Ok(convert_running_event(task_id)),
        Err(d) => {
            release_slot(reg, task_id, "error");
            Err(convert_spawn_failure(task_id, d.as_str()))
        },
    }
}

/// The status a finished conversion is left with before its entry goes.
pub open spec fn convert_final_status(exit_ok: bool, was_cancelled: bool) -> Seq<char> {
    if exit_ok {
        "success"@
    } else if was_cancelled {
        "cancelled"@
    } else {
        "error"@
    }
}

/// Settle a finished conversion: whether it had been cancelled, then the slot released with
/// its final status.
pub fn settle_convert<H>(reg: &mut ConvertRegistry<H>, task_id: &str, exit_ok: bool) -> (was_cancelled: bool)
    ensures
        was_cancelled == (status_of(old(reg)@, task_id@) == Some("cancelled"@)),
        final(reg)@ == without(
            with_status(old(reg)@, task_id@, convert_final_status(exit_ok, was_cancelled)),
            task_id@,
        ),
        status_of(final(reg)@, task_id@) is None,
{
    let was_cancelled = match reg.status(task_id) {
        Some(s) => str_eq(s.as_str(), "cancelled"),
        None => false,
    };
    let status = if exit_ok {
        "success"
    } else if was_cancelled {
        "cancelled"
    } else {
        "error"
    };
    release_slot(reg, task_id, status);
    was_cancelled
}

/// The event that ends a conversion. Cancelled: "用户已取消". A successful exit reports
/// its Markdown file, unless none was found or it is empty (`output_len` is its size);
/// any other end is an error with the exit message.
pub open spec fn convert_finish_spec(
    task_id: Seq<char>,
    exit: ExitOutcome,
    was_cancelled: bool,
    output: Option<Seq<char>>,
    output_len: Option<u64>,
) -> ConvertEventView {
    if was_cancelled {
        ConvertEventView::Status {
            task_id,
            status: "cancelled"@,
            output_file: None,
            message: Some("用户已取消"@),
        }
    } else if exit_ok(exit) {
        match output {
            None => convert_error(task_id, "转换结束但未找到输出 Markdown 文件"@),
            Some(p) => if output_len == Some(0u64) {
                ConvertEventView::Status {
                    task_id,
                    status: "error"@,
                    output_file: Some(p),
                    message: Some("输出 Markdown 为空，请检查源文件是否包含可提取文本"@),
                }
            } else {
                ConvertEventView::Status {
                    task_id,
                    status: "success"@,
                    output_file: Some(p),
                    message: None,
                }
            },
        }
    } else {
        convert_error(task_id, failure_message("markitdown"@, exit))
    }
}

/// Decide the event that ends a conversion.
pub fn finish_convert(
    task_id: &str,
    exit: &ExitOutcome,
    was_cancelled: bool,
    output: Option<String>,
    output_len: Option<u64>,
) -> (r: ConvertEvent)
    ensures
        r@ == convert_finish_spec(task_id@, *exit, was_cancelled, opt_text(output), output_len),
{
    if was_cancelled {
        return ConvertEvent::Status {
            task_id: task_id.to_string(),
            status: "cancelled".to_string(),
            output_file: None,
            message: Some("用户已取消".to_string()),
        };
    }
    if !exited_ok(exit) {
        return convert_error_event(task_id, failure_text("markitdown", exit));
    }
    match output {
        None => convert_error_event(task_id, "转换结束但未找到输出 Markdown 文件".to_string()),
        Some(p) => {
            let empty = match output_len {
                Some(n) => n == 0,
                None => false,
            };
            if empty {
                ConvertEvent::Status {
                    task_id: task_id.to_string(),
                    status: "error".to_string(),
                    output_file: Some(p),
                    message: Some("输出 Markdown 为空，请检查源文件是否包含可提取文本".to_string()),
                }
            } else {
                ConvertEvent::Status {
                    task_id: task_id.to_string(),
                    status: "success".to_string(),
                    output_file: Some(p),
                    message: None,
                }
            }
        },
    }
}


/// The Markdown file found for a conversion is one of the matching entries, and none of the
/// others comes after it in sorted order: with stamped names, the newest.
pub proof fn law_found_output_is_last(input: Seq<char>, entries: Seq<(Seq<char>, Seq<char>)>)
    ensures
        found_output(input, entries) matches Some(x) ==> markdown_matches(
            entries,
            stem_or_output(input),
        ).contains(x) && forall|m: Seq<char>|
            #[trigger] markdown_matches(entries, stem_or_output(input)).contains(m) ==> text_le(
                m,
                x,
            ),
        found_output(input, entries) is None <==> markdown_matches(
            entries,
            stem_or_output(input),
        ).len() == 0,
{
    let ms = markdown_matches(entries, stem_or_output(input));
    lemma_text_order();
    ms.lemma_sort_by_ensures(text_order());
    let sorted = ms.sort_by(text_order());
    broadcast use vstd::seq_lib::group_to_multiset_ensures;
    assert(sorted.len() == ms.len()) by {
        assert(sorted.to_multiset().len() == ms.to_multiset().len());
    }
    if sorted.len() > 0 {
        let x = sorted.last();
        assert(sorted.to_multiset().count(x) > 0) by {
            assert(sorted.contains(x));
        }
        assert(ms.contains(x));
        assert forall|m: Seq<char>| #[trigger] ms.contains(m) implies text_le(m, x) by {
            assert(ms.to_multiset().count(m) > 0);
            assert(sorted.contains(m));
            let k = choose|k: int| 0 <= k < sorted.len() && sorted[k] == m;
            if k < sorted.len() - 1 {
                assert(text_order()(sorted[k], sorted[sorted.len() - 1]));
            } else {
                lemma_text_le_reflexive(m);
            }
        }
    }
}


/// How a conversion ends: cancelled whatever the exit ("用户已取消"); otherwise, after a
/// successful exit, success with the Markdown file when one was found and is not empty, an
/// error naming the empty file when its size is 0, and an error when none was found; an
/// exit with a failure code is an error "markitdown 退出码 {code}" (`-1` without a code), and
/// a wait that failed is an error "markitdown 执行失败".
pub proof fn law_conversion_end(
    task_id: Seq<char>,
    exit: ExitOutcome,
    was_cancelled: bool,
    output: Option<Seq<char>>,
    output_len: Option<u64>,
)
    ensures
        was_cancelled ==> convert_finish_spec(task_id, exit, was_cancelled, output, output_len)
            == (ConvertEventView::Status {
            task_id,
            status: "cancelled"@,
            output_file: None,
            message: Some("用户已取消"@),
        }),
        !was_cancelled && exit is Exited && exit->success ==> match output {
            Some(p) => if output_len == Some(0u64) {
                convert_finish_spec(task_id, exit, was_cancelled, output, output_len)
                    == (ConvertEventView::Status {
                    task_id,
                    status: "error"@,
                    output_file: Some(p),
                    message: Some("输出 Markdown 为空，请检查源文件是否包含可提取文本"@),
                })
            } else {
                convert_finish_spec(task_id, exit, was_cancelled, output, output_len)
                    == (ConvertEventView::Status {
                    task_id,
                    status: "success"@,
                    output_file: Some(p),
                    message: None,
                })
            },
            None => convert_finish_spec(task_id, exit, was_cancelled, output, output_len)
                == (ConvertEventView::Status {
                task_id,
                status: "error"@,
                output_file: None,
                message: Some("转换结束但未找到输出 Markdown 文件"@),
            }),
        },
        !was_cancelled ==> match exit {
            ExitOutcome::Exited { success: false, code } => convert_finish_spec(
                task_id,
                exit,
                was_cancelled,
                output,
                output_len,
            ) == (ConvertEventView::Status {
                task_id,
                status: "error"@,
                output_file: None,
                message: Some(
                    "markitdown"@ + " 退出码 "@ + signed_decimal(
                        match code {
                            Some(c) => c as int,
                            None => -1,
                        },
                    ),
                ),
            }),
            ExitOutcome::WaitFailed => convert_finish_spec(
                task_id,
                exit,
                was_cancelled,
                output,
                output_len,
            ) == (ConvertEventView::Status {
                task_id,
                status: "error"@,
                output_file: None,
                message: Some("markitdown"@ + " 执行失败"@),
            }),
            _ => true,
        },
{
}

/// The status a settled conversion is left with: `success` after a successful exit, else
/// `cancelled` when it had been cancelled, else `error`.
pub proof fn law_conversion_settled_status(exit_ok: bool, was_cancelled: bool)
    ensures
        exit_ok ==> convert_final_status(exit_ok, was_cancelled) == "success"@,
        !exit_ok && was_cancelled ==> convert_final_status(exit_ok, was_cancelled) == "cancelled"@,
        !exit_ok && !was_cancelled ==> convert_final_status(exit_ok, was_cancelled) == "error"@,
{
}

/// Whether the entry name is one markitdown may have written for `stem`, case aside:
/// `{stem}.md`, or `{stem}-...md`.
pub open spec fn named_as_markdown_of(name: Seq<char>, stem: Seq<char>) -> bool {
    let lower = lower_seq(name);
    ||| lower == lower_seq(stem) + ".md"@
    ||| has_prefix(lower, lower_seq(stem) + "-"@) && has_suffix(lower, ".md"@)
}

proof fn lemma_matches_keep_entry(entries: Seq<(Seq<char>, Seq<char>)>, stem: Seq<char>, i: int)
    requires
        0 <= i < entries.len(),
        markdown_output(entries[i].0, stem),
    ensures
        markdown_matches(entries, stem).contains(entries[i].1),
    decreases entries.len(),
{
    let rest = markdown_matches(entries.drop_last(), stem);
    let all = markdown_matches(entries, stem);
    if i == entries.len() - 1 {
        assert(all[rest.len() as int] == entries[i].1);
    } else {
        assert(entries.drop_last()[i] == entries[i]);
        lemma_matches_keep_entry(entries.drop_last(), stem, i);
        let k = choose|k: int| 0 <= k < rest.len() && rest[k] == entries[i].1;
        assert(all[k] == entries[i].1);
    }
}

proof fn lemma_matches_from_entry(entries: Seq<(Seq<char>, Seq<char>)>, stem: Seq<char>, p: Seq<char>)
    requires
        markdown_matches(entries, stem).contains(p),
    ensures
        exists|j: int|
            0 <= j < entries.len() && #[trigger] entries[j].1 == p && markdown_output(
                entries[j].0,
                stem,
            ),
    decreases entries.len(),
{
    let rest = markdown_matches(entries.drop_last(), stem);
    let all = markdown_matches(entries, stem);
    let k = choose|k: int| 0 <= k < all.len() && all[k] == p;
    if k < rest.len() {
        assert(rest[k] == p);
        lemma_matches_from_entry(entries.drop_last(), stem, p);
        let j = choose|j: int|
            0 <= j < entries.drop_last().len() && #[trigger] entries.drop_last()[j].1 == p
                && markdown_output(entries.drop_last()[j].0, stem);
        assert(entries.drop_last()[j] == entries[j]);
    } else {
        assert(entries[entries.len() - 1].1 == p);
    }
}

/// The Markdown file found for a conversion of `input` is the path of an entry named
/// `{stem}.md` or `{stem}-...md` (case aside).
pub proof fn law_found_output_is_named_for_input(
    input: Seq<char>,
    entries: Seq<(Seq<char>, Seq<char>)>,
)
    ensures
        found_output(input, entries) matches Some(x) ==> exists|j: int|
            0 <= j < entries.len() && #[trigger] entries[j].1 == x && named_as_markdown_of(
                entries[j].0,
                stem_or_output(input),
            ),
{
    let stem = stem_or_output(input);
    law_found_output_is_last(input, entries);
    if found_output(input, entries) is Some {
        let x = found_output(input, entries)->0;
        lemma_matches_from_entry(entries, stem, x);
    }
}

/// An entry named `{stem}.md` or `{stem}-...md` (case aside) for the input's stem is never
/// missed: a Markdown file is found, and that entry's path does not come after it in
/// sorted order.
pub proof fn law_named_entry_is_found(
    input: Seq<char>,
    entries: Seq<(Seq<char>, Seq<char>)>,
    j: int,
)
    requires
        0 <= j < entries.len(),
        named_as_markdown_of(entries[j].0, stem_or_output(input)),
    ensures
        found_output(input, entries) is Some,
        text_le(entries[j].1, found_output(input, entries)->0),
{
    let stem = stem_or_output(input);
    law_found_output_is_last(input, entries);
    lemma_matches_keep_entry(entries, stem, j);
}

} // verus!
