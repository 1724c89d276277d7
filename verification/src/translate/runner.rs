//! The decisions of a translation run: decoding the sidecar's output, masking secrets in log
//! lines, recognising the PDFs it wrote, and what to report and record when it ends.
use vstd::prelude::*;
use vstd::relations::sorted_by;
use vstd::utf8::*;

use crate::deps::{gbk_decode, gbk_decode_bytes, regex_replace_all, utf8_decode};
use crate::error::{AppError, ErrorView};
use crate::order::{copy_texts, lemma_text_order, sort_texts, text_order, texts};
use crate::paths::{stem_or_output, stem_or_output_of};
use crate::registry::{
    ids_unique, lemma_status_after_set, lemma_without_absent, position, status_of, with_entry,
    with_status, without, Table,
};
use crate::sidecar::{decoded_line, exit_ok, exited_ok, failure_message, failure_text, output_line, ExitOutcome};
use crate::text::{
    extend_chars, has_prefix, has_suffix, lower_chars, lower_seq, opt_text, signed_decimal, str_eq,
    vec_eq, vec_ends_with, vec_starts_with,
};
use crate::translate::history::{started_record, updated_record, StatusUpdate, TaskRecord, UpdateView};
use crate::translate::model::{
    error_status, BabeldocInfo, OutputMode, TranslateEvent, TranslateEventView, TranslateRequest,
};
use crate::translate::progress::{lines_view, or_keep, replace_all_or_keep, LineView, ParsedLine};
use crate::translate::args::{build_args, translate_args};
use crate::translate::state::{RunningTask, TaskRegistry};

verus! {

/// How the sidecar's output bytes read as text: UTF-8 where they are well-formed UTF-8,
/// GBK (the Chinese Windows console code page) otherwise.
pub open spec fn decode_spec(bytes: Seq<u8>) -> Seq<char> {
    if valid_utf8(bytes) {
        decode_utf8(bytes)
    } else {
        gbk_decode(bytes)
    }
}

/// Decode process output: UTF-8 first, GBK as the fallback.
pub fn decode_process_output(bytes: &[u8]) -> (r: String)
    ensures
        r@ == decode_spec(bytes@),
{
    match utf8_decode(bytes) {
        Some(s) => s,
        None => gbk_decode_bytes(bytes),
    }
}


// ---------------------------------------------------------------------------
// Log lines
// ---------------------------------------------------------------------------

/// An API key passed on the command line: the flag and the value after it.
pub const API_KEY_FLAG_PATTERN: &'static str = r"(--openai-api-key\s+)(\S+)";

/// A bare `sk-` key.
pub const BARE_KEY_PATTERN: &'static str = r"sk-[A-Za-z0-9]{6,}";

/// A log line with API keys masked: the value after `--openai-api-key` becomes `****`, then
/// every bare `sk-` key becomes `sk-****`.
pub open spec fn mask_spec(line: Seq<char>) -> Seq<char> {
    let flagged = or_keep(regex_replace_all(API_KEY_FLAG_PATTERN@, line, "$1****"@), line);
    or_keep(regex_replace_all(BARE_KEY_PATTERN@, flagged, "sk-****"@), flagged)
}

/// Replace anything that looks like an API key on a log line with a mask.
pub fn mask_secrets(line: &str) -> (r: String)
    ensures
        r@ == mask_spec(line@),
{
    let masked = replace_all_or_keep(API_KEY_FLAG_PATTERN, line, "$1****");
    replace_all_or_keep(BARE_KEY_PATTERN, masked.as_str(), "sk-****")
}

/// The events of one parsed stderr line: a progress event when it carries an overall
/// percentage (with its stage, empty when it has none), then the masked log line.
pub open spec fn line_events_of(task_id: Seq<char>, l: LineView) -> Seq<TranslateEventView> {
    let log = TranslateEventView::Log { task_id, line: mask_spec(l.0), stream: "stderr"@ };
    match l.1 {
        Some(o) => seq![
            TranslateEventView::Progress {
                task_id,
                overall: o,
                stage: match l.2 {
                    Some(s) => s,
                    None => Seq::<char>::empty(),
                },
                part_index: None,
                total_parts: None,
            },
            log,
        ],
        None => seq![log],
    }
}

/// The events of parsed stderr lines, in order.
pub open spec fn events_of_lines(task_id: Seq<char>, ls: Seq<LineView>) -> Seq<TranslateEventView>
    decreases ls.len(),
{
    if ls.len() == 0 {
        seq![]
    } else {
        events_of_lines(task_id, ls.drop_last()) + line_events_of(task_id, ls.last())
    }
}

/// Each parsed stderr line is reported as one `stderr` log event carrying the line with its
/// keys masked, preceded by one progress event exactly when the line carries an overall
/// percentage (its stage, or an empty stage); lines reported in two batches give the events
/// of the whole in the same order.
pub proof fn law_line_events(task_id: Seq<char>, a: Seq<LineView>, b: Seq<LineView>, l: LineView)
    ensures
        l.1 is None ==> line_events_of(task_id, l) == seq![
            TranslateEventView::Log { task_id, line: mask_spec(l.0), stream: "stderr"@ },
        ],
        l.1 is Some ==> line_events_of(task_id, l) == seq![
            TranslateEventView::Progress {
                task_id,
                overall: l.1->0,
                stage: if l.2 is Some {
                    l.2->0
                } else {
                    Seq::<char>::empty()
                },
                part_index: None,
                total_parts: None,
            },
            TranslateEventView::Log { task_id, line: mask_spec(l.0), stream: "stderr"@ },
        ],
        events_of_lines(task_id, a + b) == events_of_lines(task_id, a) + events_of_lines(task_id, b),
    decreases b.len(),
{
    if b.len() > 0 {
        law_line_events(task_id, a, b.drop_last(), l);
        assert((a + b).drop_last() =~= a + b.drop_last());
        assert((a + b).last() == b.last());
        assert(events_of_lines(task_id, a + b) =~= events_of_lines(task_id, a) + events_of_lines(
            task_id,
            b,
        ));
    } else {
        assert(a + b =~= a);
        assert(events_of_lines(task_id, a) + events_of_lines(task_id, b) =~= events_of_lines(
            task_id,
            a,
        ));
    }
}

/// Events as plain values.
pub open spec fn events_view(v: Seq<TranslateEvent>) -> Seq<TranslateEventView> {
    v.map_values(|e: TranslateEvent| e@)
}

/// The events to report for lines parsed from BabelDOC's stderr.
pub fn line_events(task_id: &str, lines: &Vec<ParsedLine>) -> (r: Vec<TranslateEvent>)
    ensures
        events_view(r@) == events_of_lines(task_id@, lines_view(lines@)),
{
    let ghost all = lines_view(lines@);
    let mut out: Vec<TranslateEvent> = Vec::new();
    let mut i: usize = 0;
    while i < lines.len()
        invariant
            i <= lines@.len(),
            all == lines_view(lines@),
            events_view(out@) == events_of_lines(task_id@, all.take(i as int)),
        decreases lines.len() - i,
    {
        let line = &lines[i];
        let ghost before = events_view(out@);
        match line.overall {
            Some(o) => {
                let stage = match &line.stage {
                    Some(s) => s.clone(),
                    None => String::new(),
                };
                out.push(
                    TranslateEvent::Progress {
                        task_id: task_id.to_string(),
                        overall: o,
                        stage,
                        part_index: None,
                        total_parts: None,
                    },
                );
            },
            None => {},
        }
        out.push(
            TranslateEvent::Log {
                task_id: task_id.to_string(),
                line: mask_secrets(line.text.as_str()),
                stream: "stderr".to_string(),
            },
        );
        proof {
            assert(all.take(i + 1).drop_last() =~= all.take(i as int));
            assert(all.take(i + 1).last() == lines@[i as int]@);
            assert(events_view(out@) =~= before + line_events_of(task_id@, lines@[i as int]@));
        }
        i = i + 1;
    }
    assert(all.take(lines@.len() as int) =~= all);
    out
}

/// The log event for one line of BabelDOC's stdout, unless it is blank.
pub open spec fn stdout_event_spec(task_id: Seq<char>, bytes: Seq<u8>) -> Option<TranslateEventView> {
    match output_line(bytes) {
        Some(line) => Some(TranslateEventView::Log { task_id, line, stream: "stdout"@ }),
        None => None,
    }
}

/// The log event for one line read from BabelDOC's stdout.
pub fn stdout_event(task_id: &str, bytes: &[u8]) -> (r: Option<TranslateEvent>)
    ensures
        match r {
            Some(e) => stdout_event_spec(task_id@, bytes@) == Some(e@),
            None => stdout_event_spec(task_id@, bytes@) is None,
        },
{
    match decoded_line(bytes) {
        Some(line) => Some(
            TranslateEvent::Log { task_id: task_id.to_string(), line, stream: "stdout".to_string() },
        ),
        None => None,
    }
}

// ---------------------------------------------------------------------------
// Output files
// ---------------------------------------------------------------------------

/// BabelDOC's name for the `kind` (`mono` or `dual`) PDF of `stem`, compared without ASCII
/// case: `{stem}-{kind}.pdf` (older releases), or `{stem}.` followed by anything and ending
/// in `.{kind}.pdf` or `.{kind}.no_watermark.pdf`.
pub open spec fn babeldoc_output(name: Seq<char>, stem: Seq<char>, kind: Seq<char>) -> bool {
    let lower = lower_seq(name);
    let s = lower_seq(stem);
    ||| lower == s + "-"@ + kind + ".pdf"@
    ||| has_prefix(lower, s + "."@) && (has_suffix(lower, "."@ + kind + ".pdf"@) || has_suffix(
        lower,
        "."@ + kind + ".no_watermark.pdf"@,
    ))
}

/// The names BabelDOC gives the `kind` PDF of `stem`, compared without ASCII case, are
/// exactly `{stem}-{kind}.pdf`, and `{stem}.` followed by anything ending in `.{kind}.pdf`
/// or `.{kind}.no_watermark.pdf`.
pub proof fn law_babeldoc_output_names(name: Seq<char>, stem: Seq<char>, kind: Seq<char>)
    ensures
        babeldoc_output(name, stem, kind) <==> {
            let n = lower_seq(name);
            let s = lower_seq(stem);
            ||| n == s + "-"@ + kind + ".pdf"@
            ||| has_prefix(n, s + "."@) && has_suffix(n, "."@ + kind + ".pdf"@)
            ||| has_prefix(n, s + "."@) && has_suffix(n, "."@ + kind + ".no_watermark.pdf"@)
        },
{
}

/// Whether `name` is a PDF that BabelDOC wrote for `stem`.
pub fn is_babeldoc_output(name: &str, stem: &str, kind: &str) -> (r: bool)
    ensures
        r == babeldoc_output(name@, stem@, kind@),
{
    let lower = lower_chars(name);
    let s = lower_chars(stem);
    let mut legacy = s.clone();
    extend_chars(&mut legacy, "-");
    extend_chars(&mut legacy, kind);
    extend_chars(&mut legacy, ".pdf");
    let mut prefix = s.clone();
    extend_chars(&mut prefix, ".");
    let mut plain: Vec<char> = Vec::new();
    extend_chars(&mut plain, ".");
    extend_chars(&mut plain, kind);
    extend_chars(&mut plain, ".pdf");
    let mut marked: Vec<char> = Vec::new();
    extend_chars(&mut marked, ".");
    extend_chars(&mut marked, kind);
    extend_chars(&mut marked, ".no_watermark.pdf");
    proof {
        assert(s@ == lower_seq(stem@));
    }
    vec_eq(&lower, &legacy) || vec_starts_with(&lower, &prefix) && (vec_ends_with(&lower, &plain)
        || vec_ends_with(&lower, &marked))
}

/// The entries of a directory: each file name with its full path.
pub open spec fn entries_view(e: Seq<(String, String)>) -> Seq<(Seq<char>, Seq<char>)> {
    e.map_values(|p: (String, String)| (p.0@, p.1@))
}

/// The paths of the entries that BabelDOC wrote for `stem`: for each entry in order, its
/// path once if it is a wanted `mono` output, and once if it is a wanted `dual` output.
pub open spec fn picked_outputs(
    entries: Seq<(Seq<char>, Seq<char>)>,
    stem: Seq<char>,
    mono: bool,
    dual: bool,
) -> Seq<Seq<char>>
    decreases entries.len(),
{
    if entries.len() == 0 {
        seq![]
    } else {
        let e = entries.last();
        picked_outputs(entries.drop_last(), stem, mono, dual) + (if mono && babeldoc_output(
            e.0,
            stem,
            "mono"@,
        ) {
            seq![e.1]
        } else {
            seq![]
        }) + (if dual && babeldoc_output(e.0, stem, "dual"@) {
            seq![e.1]
        } else {
            seq![]
        })
    }
}

/// The mode asks for the translated-only PDF.
pub open spec fn wants_mono(m: OutputMode) -> bool {
    m is Mono || m is Both
}

/// The mode asks for the side-by-side PDF.
pub open spec fn wants_dual(m: OutputMode) -> bool {
    m is Dual || m is Both
}

/// The PDFs a finished translation produced: of the entries of the output directory, those
/// BabelDOC wrote for the first input's stem (`output` when it has none) in the requested
/// modes, sorted; nothing when the request has no input.
pub open spec fn scan_spec(
    pdf_paths: Seq<Seq<char>>,
    mode: OutputMode,
    entries: Seq<(Seq<char>, Seq<char>)>,
) -> Seq<Seq<char>> {
    if pdf_paths.len() == 0 {
        seq![]
    } else {
        picked_outputs(
            entries,
            stem_or_output(pdf_paths[0]),
            wants_mono(mode),
            wants_dual(mode),
        ).sort_by(text_order())
    }
}

/// Pick the produced mono / dual PDFs of the first input file out of the output directory's
/// entries (file name, full path).
pub fn scan_outputs(req: &TranslateRequest, entries: &Vec<(String, String)>) -> (r: Vec<String>)
    ensures
        texts(r@) == scan_spec(texts(req.pdf_paths@), req.output_mode, entries_view(entries@)),
{
    if req.pdf_paths.len() == 0 {
        let r: Vec<String> = Vec::new();
        assert(texts(r@) =~= Seq::<Seq<char>>::empty());
        return r;
    }
    let stem = stem_or_output_of(req.pdf_paths[0].as_str());
    let want_mono = match req.output_mode {
        OutputMode::Mono | OutputMode::Both => true,
        OutputMode::Dual => false,
    };
    let want_dual = match req.output_mode {
        OutputMode::Dual | OutputMode::Both => true,
        OutputMode::Mono => false,
    };
    let ghost all = entries_view(entries@);
    let mut out: Vec<String> = Vec::new();
    let mut i: usize = 0;
    assert(texts(out@) =~= picked_outputs(all.take(0), stem@, want_mono, want_dual));
    while i < entries.len()
        invariant
            i <= entries@.len(),
            all == entries_view(entries@),
            texts(out@) == picked_outputs(all.take(i as int), stem@, want_mono, want_dual),
        decreases entries.len() - i,
    {
        let ghost before = texts(out@);
        let name = entries[i].0.as_str();
        let path = &entries[i].1;
        let m = want_mono && is_babeldoc_output(name, stem.as_str(), "mono");
        if m {
            out.push(path.clone());
        }
        let ghost mid = texts(out@);
        let d = want_dual && is_babeldoc_output(name, stem.as_str(), "dual");
        if d {
            out.push(path.clone());
        }
        proof {
            reveal_strlit("mono");
            reveal_strlit("dual");
            assert(all.take(i + 1).drop_last() =~= all.take(i as int));
            assert(all.take(i + 1).last() == (entries@[i as int].0@, entries@[i as int].1@));
            assert(mid =~= before + (if m { seq![path@] } else { Seq::<Seq<char>>::empty() }));
            assert(texts(out@) =~= mid + (if d { seq![path@] } else { Seq::<Seq<char>>::empty() }));
        }
        i = i + 1;
    }
    assert(all.take(entries@.len() as int) =~= all);
    proof {
        assert(texts(req.pdf_paths@)[0] == req.pdf_paths@[0]@);
    }
    sort_texts(&out)
}

// ---------------------------------------------------------------------------
// The sidecar
// ---------------------------------------------------------------------------

/// The file names the bundled BabelDOC sidecar may have, in order of preference.
pub fn babeldoc_candidates() -> (r: Vec<String>)
    ensures
        texts(r@) == seq![
            "babeldoc-sidecar.exe"@,
            "babeldoc-sidecar-x86_64-pc-windows-msvc.exe"@,
            "babeldoc-sidecar"@,
        ],
{
    let mut v: Vec<String> = Vec::new();
    v.push("babeldoc-sidecar.exe".to_string());
    v.push("babeldoc-sidecar-x86_64-pc-windows-msvc.exe".to_string());
    v.push("babeldoc-sidecar".to_string());
    assert(texts(v@) =~= seq![
        "babeldoc-sidecar.exe"@,
        "babeldoc-sidecar-x86_64-pc-windows-msvc.exe"@,
        "babeldoc-sidecar"@,
    ]);
    v
}

/// What the user is told when the bundled sidecar is missing.
pub open spec fn babeldoc_missing_hint() -> Seq<char> {
    "未检测到内置 BabelDOC sidecar，请重新安装 PageWeave。"@
}

/// The error when no sidecar can be launched.
pub fn sidecar_missing_error() -> (r: AppError)
    ensures
        r@ == ErrorView::NotFound(babeldoc_missing_hint()),
{
    AppError::NotFound("未检测到内置 BabelDOC sidecar，请重新安装 PageWeave。".to_string())
}

/// The probe result: installed exactly when a sidecar was found, with its path, and the
/// version it printed (trimmed, when not blank); otherwise the hint to reinstall.
pub fn babeldoc_info(sidecar: Option<String>, version_stdout: Option<Vec<u8>>) -> (r: BabeldocInfo)
    ensures
        r.installed == sidecar is Some,
        opt_text(r.path) == opt_text(sidecar),
        sidecar is Some ==> r.hint@ == Seq::<char>::empty() && opt_text(r.version) == match
            version_stdout {
            Some(b) => output_line(b@),
            None => None,
        },
        sidecar is None ==> r.hint@ == babeldoc_missing_hint() && r.version is None,
{
    match sidecar {
        Some(p) => {
            let version = match version_stdout {
                Some(b) => decoded_line(b.as_slice()),
                None => None,
            };
            BabeldocInfo { installed: true, version, path: Some(p), hint: String::new() }
        },
        None => BabeldocInfo {
            installed: false,
            version: None,
            path: None,
            hint: "未检测到内置 BabelDOC sidecar，请重新安装 PageWeave。".to_string(),
        },
    }
}

// ---------------------------------------------------------------------------
// The run
// ---------------------------------------------------------------------------

/// What looking up the provider's API key gave.
pub enum KeyLookup {
    /// The database is not open.
    NoDatabase,
    /// No key is stored.
    Missing,
    /// Reading failed, with the error text.
    Failed(String),
    /// The key.
    Found(String),
}

/// The key to run with, or the error event that ends the run before it starts.
pub fn resolve_api_key(task_id: &str, lookup: KeyLookup) -> (r: Result<String, TranslateEvent>)
    ensures
        match lookup {
            KeyLookup::Found(k) => r matches Ok(x) && x@ == k@,
            KeyLookup::NoDatabase => r matches Err(e) && e@ == error_status(
                task_id@,
                "数据库未初始化，无法读取 API Key。"@,
            ),
            KeyLookup::Missing => r matches Err(e) && e@ == error_status(
                task_id@,
                "API Key 未找到，请先在 API 配置页填写并保存。"@,
            ),
            KeyLookup::Failed(d) => r matches Err(e) && e@ == error_status(
                task_id@,
                "读取 API Key 失败: "@ + d@,
            ),
        },
{
    match lookup {
        KeyLookup::Found(k) => Ok(k),
        KeyLookup::NoDatabase => Err(
            error_event(task_id, "数据库未初始化，无法读取 API Key。".to_string()),
        ),
        KeyLookup::Missing => Err(
            error_event(task_id, "API Key 未找到，请先在 API 配置页填写并保存。".to_string()),
        ),
        KeyLookup::Failed(d) => {
            let mut m = "读取 API Key 失败: ".to_string();
            m.append(d.as_str());
            Err(error_event(task_id, m))
        },
    }
}

/// The status event of a run that failed with `message`.
pub fn error_event(task_id: &str, message: String) -> (r: TranslateEvent)
    ensures
        r@ == error_status(task_id@, message@),
{
    TranslateEvent::Status {
        task_id: task_id.to_string(),
        status: "error".to_string(),
        output_files: None,
        message: Some(message),
    }
}

/// The error event when the sidecar could not be started.
pub fn spawn_failure_event(task_id: &str, detail: &str) -> (r: TranslateEvent)
    ensures
        r@ == error_status(task_id@, "启动 babeldoc 失败: "@ + detail@),
{
    let mut m = "启动 babeldoc 失败: ".to_string();
    m.append(detail);
    error_event(task_id, m)
}

/// The event that a run has started.
pub fn running_event(task_id: &str) -> (r: TranslateEvent)
    ensures
        r@ == (TranslateEventView::Status {
            task_id: task_id@,
            status: "running"@,
            output_files: None,
            message: None,
        }),
{
    TranslateEvent::Status {
        task_id: task_id.to_string(),
        status: "running".to_string(),
        output_files: None,
        message: None,
    }
}

/// After the probe: with BabelDOC installed the run goes on; otherwise it ends with the
/// probe's hint.
pub fn translate_probed(task_id: &str, info: BabeldocInfo) -> (r: Result<(), TranslateEvent>)
    ensures
        info.installed ==> r is Ok,
        !info.installed ==> (r matches Err(ev) && ev@ == error_status(task_id@, info.hint@)),
{
    if info.installed {
        Ok(())
    } else {
        Err(error_event(task_id, info.hint))
    }
}

/// With a sidecar found, the program to run and BabelDOC's arguments for the request and
/// key; otherwise the run ends reporting that the sidecar is missing.
pub fn translate_located(
    task_id: &str,
    sidecar: Option<String>,
    req: &TranslateRequest,
    api_key: &str,
) -> (r: Result<(String, Vec<String>), TranslateEvent>)
    requires
        req.pdf_paths.len() >= 1,
    ensures
        match sidecar {
            Some(p) => r matches Ok((prog, argv)) && prog@ == p@ && texts(argv@) == translate_args(
                *req,
                api_key@,
            ),
            None => r matches Err(ev) && ev@ == error_status(task_id@, babeldoc_missing_hint()),
        },
{
    match sidecar {
        Some(p) => Ok((p, build_args(req, api_key))),
        None => Err(error_event(task_id, sidecar_missing_error().message())),
    }
}

/// After the spawn: a started sidecar is recorded in the table as running, with its cancel
/// handle, and reported running; one that failed to start ends the run, leaving the table
/// unchanged.
pub fn translate_spawned<H>(reg: &mut TaskRegistry<H>, task_id: &str, spawned: Result<H, String>) -> (r:
    Result<TranslateEvent, TranslateEvent>)
    ensures
        match spawned {
            Ok(h) => r matches Ok(ev) && ev@ == (TranslateEventView::Status {
                task_id: task_id@,
                status: "running"@,
                output_files: None,
                message: None,
            }) && final(reg)@ == with_entry(old(reg)@, task_id@, "running"@) && status_of(
                final(reg)@,
                task_id@,
            ) == Some("running"@) && final(reg).handle_of(task_id@) == Some(h),
            Err(d) => r matches Err(ev) && ev@ == error_status(
                task_id@,
                "启动 babeldoc 失败: "@ + d@,
            ) && final(reg)@ == old(reg)@,
        },
{
    match spawned {
        Ok(h) => {
            reg.insert(task_id.to_string(), RunningTask { cancel_tx: h, status: "running".to_string() });
            Ok(running_event(task_id))
        },
        Err(d) => Err(spawn_failure_event(task_id, d.as_str())),
    }
}

/// The status a finished task is left with in the table before its entry goes.
pub open spec fn final_status(exit_ok: bool, was_cancelled: bool) -> Seq<char> {
    if exit_ok {
        "success"@
    } else if was_cancelled {
        "cancelled"@
    } else {
        "cancelled_or_error"@
    }
}

/// Settle a finished task in the table: whether it had been cancelled, then its final
/// status set and its entry removed.
pub fn settle_task<H>(reg: &mut TaskRegistry<H>, task_id: &str, exit_ok: bool) -> (was_cancelled: bool)
    ensures
        was_cancelled == (status_of(old(reg)@, task_id@) == Some("cancelled"@)),
        final(reg)@ == without(
            with_status(old(reg)@, task_id@, final_status(exit_ok, was_cancelled)),
            task_id@,
        ),
        status_of(final(reg)@, task_id@) is None,
{
    let was_cancelled = match reg.status(task_id) {
        Some(s) => str_eq(s.as_str(), "cancelled"),
        None => false,
    };
    let status = if exit_ok {
        "success"
    } else if was_cancelled {
        "cancelled"
    } else {
        "cancelled_or_error"
    };
    reg.set_status(task_id, status);
    reg.remove(task_id);
    was_cancelled
}

/// How a run ends: the change to its history record, and the event to report.
pub struct TranslateFinish {
    pub update: StatusUpdate,
    pub event: TranslateEvent,
}

/// The end of a run. Cancelled: the record says so ("user cancelled") and the user is told
/// "用户已取消". Otherwise a successful exit completes the record (progress 100, the output
/// files) and reports the files; any other end is an error with the exit message.
pub open spec fn finish_spec(
    task_id: Seq<char>,
    exit: ExitOutcome,
    was_cancelled: bool,
    outputs: Seq<Seq<char>>,
) -> (UpdateView, TranslateEventView) {
    if was_cancelled {
        (
            ("cancelled"@, None, None, None, Some("user cancelled"@)),
            TranslateEventView::Status {
                task_id,
                status: "cancelled"@,
                output_files: None,
                message: Some("用户已取消"@),
            },
        )
    } else if exit_ok(exit) {
        (
            ("success"@, Some(100), None, Some(outputs), None),
            TranslateEventView::Status {
                task_id,
                status: "success"@,
                output_files: Some(outputs),
                message: None,
            },
        )
    } else {
        (
            ("error"@, None, None, None, Some(failure_message("babeldoc"@, exit))),
            error_status(task_id, failure_message("babeldoc"@, exit)),
        )
    }
}

/// Decide how a run ends, given how the sidecar exited, whether the task was cancelled, and
/// the PDFs found in the output directory.
pub fn finish_translate(
    task_id: &str,
    exit: &ExitOutcome,
    was_cancelled: bool,
    outputs: Vec<String>,
) -> (r: TranslateFinish)
    ensures
        (r.update@, r.event@) == finish_spec(task_id@, *exit, was_cancelled, texts(outputs@)),
{
    if was_cancelled {
        TranslateFinish {
            update: StatusUpdate {
                status: "cancelled".to_string(),
                progress: None,
                stage: None,
                output_files: None,
                message: Some("user cancelled".to_string()),
            },
            event: TranslateEvent::Status {
                task_id: task_id.to_string(),
                status: "cancelled".to_string(),
                output_files: None,
                message: Some("用户已取消".to_string()),
            },
        }
    } else if exited_ok(exit) {
        let files = copy_texts(&outputs);
        TranslateFinish {
            update: StatusUpdate {
                status: "success".to_string(),
                progress: Some(100),
                stage: None,
                output_files: Some(outputs),
                message: None,
            },
            event: TranslateEvent::Status {
                task_id: task_id.to_string(),
                status: "success".to_string(),
                output_files: Some(files),
                message: None,
            },
        }
    } else {
        let msg = failure_text("babeldoc", exit);
        let msg2 = msg.clone();
        TranslateFinish {
            update: StatusUpdate {
                status: "error".to_string(),
                progress: None,
                stage: None,
                output_files: None,
                message: Some(msg),
            },
            event: error_event(task_id, msg2),
        }
    }
}


// ---------------------------------------------------------------------------
// Laws
// ---------------------------------------------------------------------------

/// How a run ends, whatever the outputs: a cancelled run is recorded as cancelled ("user
/// cancelled") and reported as cancelled ("用户已取消") even when the sidecar exited
/// successfully; otherwise a successful exit is recorded with progress 100 and the files,
/// and reports those files; an exit with a failure code is an error "babeldoc 退出码 {code}"
/// (`-1` without a code), and a wait that failed is an error "babeldoc 执行失败".
pub proof fn law_run_end(
    task_id: Seq<char>,
    exit: ExitOutcome,
    was_cancelled: bool,
    outputs: Seq<Seq<char>>,
)
    ensures
        was_cancelled ==> finish_spec(task_id, exit, was_cancelled, outputs) == (
            ("cancelled"@, None::<u32>, None::<Seq<char>>, None::<Seq<Seq<char>>>, Some("user cancelled"@)),
            TranslateEventView::Status {
                task_id,
                status: "cancelled"@,
                output_files: None,
                message: Some("用户已取消"@),
            },
        ),
        !was_cancelled && exit is Exited && exit->success ==> finish_spec(
            task_id,
            exit,
            was_cancelled,
            outputs,
        ) == (
            ("success"@, Some(100u32), None::<Seq<char>>, Some(outputs), None::<Seq<char>>),
            TranslateEventView::Status {
                task_id,
                status: "success"@,
                output_files: Some(outputs),
                message: None,
            },
        ),
        !was_cancelled ==> match exit {
            ExitOutcome::Exited { success: false, code } => {
                let m = "babeldoc"@ + " 退出码 "@ + signed_decimal(
                    match code {
                        Some(c) => c as int,
                        None => -1,
                    },
                );
                finish_spec(task_id, exit, was_cancelled, outputs) == (
                    ("error"@, None::<u32>, None::<Seq<char>>, None::<Seq<Seq<char>>>, Some(m)),
                    TranslateEventView::Status {
                        task_id,
                        status: "error"@,
                        output_files: None,
                        message: Some(m),
                    },
                )
            },
            ExitOutcome::WaitFailed => {
                let m = "babeldoc"@ + " 执行失败"@;
                finish_spec(task_id, exit, was_cancelled, outputs) == (
                    ("error"@, None::<u32>, None::<Seq<char>>, None::<Seq<Seq<char>>>, Some(m)),
                    TranslateEventView::Status {
                        task_id,
                        status: "error"@,
                        output_files: None,
                        message: Some(m),
                    },
                )
            },
            _ => true,
        },
{
}

/// What the history keeps of a run: it starts `running` at progress 0 with the output mode
/// stored as `mono`, `dual` or `both`; when the run ends, the record applied with the end's
/// update says `success` with progress 100 and exactly the found PDFs after a successful
/// exit, `cancelled` with "user cancelled" (progress and files as they were) after a
/// cancellation, and `error` with the exit message otherwise.
pub proof fn law_history_of_a_run(
    start: TaskRecord,
    id: Seq<char>,
    req: TranslateRequest,
    done: TaskRecord,
    exit: ExitOutcome,
    was_cancelled: bool,
    outputs: Seq<Seq<char>>,
    now: Seq<char>,
)
    requires
        started_record(start, id, req),
        updated_record(start, done, finish_spec(id, exit, was_cancelled, outputs).0, now),
    ensures
        start.status@ == "running"@ && start.progress == 0,
        req.output_mode is Mono ==> start.output_mode@ == "mono"@,
        req.output_mode is Dual ==> start.output_mode@ == "dual"@,
        req.output_mode is Both ==> start.output_mode@ == "both"@,
        was_cancelled ==> done.status@ == "cancelled"@ && done.message@ == "user cancelled"@
            && done.progress == 0 && done.output_files@.len() == 0,
        !was_cancelled && exit is Exited && exit->success ==> done.status@ == "success"@
            && done.progress == 100 && texts(done.output_files@) == outputs,
        !was_cancelled && !(exit is Exited && exit->success) ==> done.status@ == "error"@
            && done.message@ == failure_message("babeldoc"@, exit) && done.progress == 0,
        done.id@ == id && done.created_at@ == start.created_at@ && done.updated_at@ == now,
{
    assert(texts(start.output_files@).len() == 0);
}

/// The status a settled task is left with: `success` after a successful exit, else
/// `cancelled` when it had been cancelled, else `cancelled_or_error`.
pub proof fn law_settled_status(exit_ok: bool, was_cancelled: bool)
    ensures
        exit_ok ==> final_status(exit_ok, was_cancelled) == "success"@,
        !exit_ok && was_cancelled ==> final_status(exit_ok, was_cancelled) == "cancelled"@,
        !exit_ok && !was_cancelled ==> final_status(exit_ok, was_cancelled)
            == "cancelled_or_error"@,
{
}

/// A task that is cancelled while it is in the table (`cancel_translate`) is found
/// cancelled when its run ends (`settle_task`), leaves the table, and is reported and
/// recorded as cancelled however the sidecar exited (`finish_translate`).
pub proof fn law_cancelled_task_ends_cancelled(
    t: Table,
    task_id: Seq<char>,
    exit: ExitOutcome,
    outputs: Seq<Seq<char>>,
)
    requires
        ids_unique(t),
        position(t, task_id) is Some,
    ensures
        status_of(with_status(t, task_id, "cancelled"@), task_id) == Some("cancelled"@),
        status_of(
            without(
                with_status(
                    with_status(t, task_id, "cancelled"@),
                    task_id,
                    final_status(exit_ok(exit), true),
                ),
                task_id,
            ),
            task_id,
        ) is None,
        finish_spec(task_id, exit, true, outputs).0.0 == "cancelled"@,
        finish_spec(task_id, exit, true, outputs).1 == (TranslateEventView::Status {
            task_id,
            status: "cancelled"@,
            output_files: None,
            message: Some("用户已取消"@),
        }),
{
    lemma_status_after_set(t, task_id, "cancelled"@);
    let c = with_status(t, task_id, "cancelled"@);
    lemma_status_after_set(c, task_id, final_status(exit_ok(exit), true));
    lemma_without_absent(with_status(c, task_id, final_status(exit_ok(exit), true)), task_id);
}

/// The PDFs reported for a finished translation are in sorted order, and are exactly the
/// picked outputs, each as often as it was picked.
pub proof fn law_scan_outputs_sorted(
    pdf_paths: Seq<Seq<char>>,
    mode: OutputMode,
    entries: Seq<(Seq<char>, Seq<char>)>,
)
    requires
        pdf_paths.len() > 0,
    ensures
        sorted_by(scan_spec(pdf_paths, mode, entries), text_order()),
        scan_spec(pdf_paths, mode, entries).to_multiset() == picked_outputs(
            entries,
            stem_or_output(pdf_paths[0]),
            wants_mono(mode),
            wants_dual(mode),
        ).to_multiset(),
{
    lemma_text_order();
    picked_outputs(
        entries,
        stem_or_output(pdf_paths[0]),
        wants_mono(mode),
        wants_dual(mode),
    ).lemma_sort_by_ensures(text_order());
}


proof fn lemma_picked_keeps_entry(
    entries: Seq<(Seq<char>, Seq<char>)>,
    stem: Seq<char>,
    mono: bool,
    dual: bool,
    i: int,
)
    requires
        0 <= i < entries.len(),
        (mono && babeldoc_output(entries[i].0, stem, "mono"@)) || (dual && babeldoc_output(
            entries[i].0,
            stem,
            "dual"@,
        )),
    ensures
        picked_outputs(entries, stem, mono, dual).contains(entries[i].1),
    decreases entries.len(),
{
    let rest = picked_outputs(entries.drop_last(), stem, mono, dual);
    let e = entries.last();
    let a: Seq<Seq<char>> = if mono && babeldoc_output(e.0, stem, "mono"@) {
        seq![e.1]
    } else {
        seq![]
    };
    let b: Seq<Seq<char>> = if dual && babeldoc_output(e.0, stem, "dual"@) {
        seq![e.1]
    } else {
        seq![]
    };
    let all = picked_outputs(entries, stem, mono, dual);
    assert(all == rest + a + b);
    if i == entries.len() - 1 {
        if a.len() > 0 {
            assert(all[rest.len() as int] == entries[i].1);
        } else {
            assert(all[(rest.len() + a.len()) as int] == entries[i].1);
        }
    } else {
        assert(entries.drop_last()[i] == entries[i]);
        lemma_picked_keeps_entry(entries.drop_last(), stem, mono, dual, i);
        let k = choose|k: int| 0 <= k < rest.len() && rest[k] == entries[i].1;
        assert(all[k] == entries[i].1);
    }
}

proof fn lemma_picked_from_entry(
    entries: Seq<(Seq<char>, Seq<char>)>,
    stem: Seq<char>,
    mono: bool,
    dual: bool,
    p: Seq<char>,
)
    requires
        picked_outputs(entries, stem, mono, dual).contains(p),
    ensures
        exists|j: int|
            0 <= j < entries.len() && #[trigger] entries[j].1 == p && ((mono && babeldoc_output(
                entries[j].0,
                stem,
                "mono"@,
            )) || (dual && babeldoc_output(entries[j].0, stem, "dual"@))),
    decreases entries.len(),
{
    let rest = picked_outputs(entries.drop_last(), stem, mono, dual);
    let e = entries.last();
    let a: Seq<Seq<char>> = if mono && babeldoc_output(e.0, stem, "mono"@) {
        seq![e.1]
    } else {
        seq![]
    };
    let b: Seq<Seq<char>> = if dual && babeldoc_output(e.0, stem, "dual"@) {
        seq![e.1]
    } else {
        seq![]
    };
    let all = picked_outputs(entries, stem, mono, dual);
    assert(all == rest + a + b);
    let k = choose|k: int| 0 <= k < all.len() && all[k] == p;
    let j = entries.len() - 1;
    if k < rest.len() {
        assert(rest[k] == p);
        lemma_picked_from_entry(entries.drop_last(), stem, mono, dual, p);
        let j2 = choose|j2: int|
            0 <= j2 < entries.drop_last().len() && #[trigger] entries.drop_last()[j2].1 == p && ((
            mono && babeldoc_output(entries.drop_last()[j2].0, stem, "mono"@)) || (dual
                && babeldoc_output(entries.drop_last()[j2].0, stem, "dual"@)));
        assert(entries.drop_last()[j2] == entries[j2]);
        assert(entries[j2].1 == p);
    } else {
        assert(entries[j] == e);
        assert(entries[j].1 == p);
    }
}

/// The PDFs reported for a finished translation are exactly the paths of the directory
/// entries that BabelDOC wrote for the first input's stem in a kind the output mode asks
/// for: the `mono` PDF when the mode is `Mono` or `Both`, the `dual` PDF when it is `Dual`
/// or `Both`.
pub proof fn law_scan_keeps_wanted_outputs(
    pdf_paths: Seq<Seq<char>>,
    mode: OutputMode,
    entries: Seq<(Seq<char>, Seq<char>)>,
)
    requires
        pdf_paths.len() > 0,
    ensures
        forall|i: int|
            0 <= i < entries.len() && (mode is Mono || mode is Both) && babeldoc_output(
                entries[i].0,
                stem_or_output(pdf_paths[0]),
                "mono"@,
            ) ==> scan_spec(pdf_paths, mode, entries).contains(#[trigger] entries[i].1),
        forall|i: int|
            0 <= i < entries.len() && (mode is Dual || mode is Both) && babeldoc_output(
                entries[i].0,
                stem_or_output(pdf_paths[0]),
                "dual"@,
            ) ==> scan_spec(pdf_paths, mode, entries).contains(#[trigger] entries[i].1),
        forall|p: Seq<char>|
            #[trigger] scan_spec(pdf_paths, mode, entries).contains(p) ==> exists|j: int|
                0 <= j < entries.len() && #[trigger] entries[j].1 == p && (((mode is Mono
                    || mode is Both) && babeldoc_output(
                    entries[j].0,
                    stem_or_output(pdf_paths[0]),
                    "mono"@,
                )) || ((mode is Dual || mode is Both) && babeldoc_output(
                    entries[j].0,
                    stem_or_output(pdf_paths[0]),
                    "dual"@,
                ))),
{
    broadcast use vstd::seq_lib::group_to_multiset_ensures;

    let stem = stem_or_output(pdf_paths[0]);
    let picked = picked_outputs(entries, stem, wants_mono(mode), wants_dual(mode));
    lemma_text_order();
    picked.lemma_sort_by_ensures(text_order());
    let scanned = scan_spec(pdf_paths, mode, entries);
    assert(scanned == picked.sort_by(text_order()));
    assert forall|i: int|
        0 <= i < entries.len() && ((mode is Mono || mode is Both) && babeldoc_output(
            entries[i].0,
            stem,
            "mono"@,
        ) || (mode is Dual || mode is Both) && babeldoc_output(
            entries[i].0,
            stem,
            "dual"@,
        )) implies scanned.contains(#[trigger] entries[i].1) by {
        lemma_picked_keeps_entry(entries, stem, wants_mono(mode), wants_dual(mode), i);
        assert(picked.to_multiset().count(entries[i].1) > 0);
        assert(scanned.to_multiset().count(entries[i].1) > 0);
    }
    assert forall|p: Seq<char>| #[trigger] scanned.contains(p) implies exists|j: int|
        0 <= j < entries.len() && #[trigger] entries[j].1 == p && (((mode is Mono || mode is Both)
            && babeldoc_output(entries[j].0, stem, "mono"@)) || ((mode is Dual || mode is Both)
            && babeldoc_output(entries[j].0, stem, "dual"@))) by {
        assert(scanned.to_multiset().count(p) > 0);
        assert(picked.to_multiset().count(p) > 0);
        lemma_picked_from_entry(entries, stem, wants_mono(mode), wants_dual(mode), p);
    }
}

} // verus!
