use pageweave::error::AppError;
use pageweave::paths::stem_or_output_of;
use pageweave::sidecar::{
    dev_sidecar_paths, find_sidecar_in_dir, is_python_runtime, is_usable_sidecar,
    sidecar_search_dirs, ExitOutcome,
};
use pageweave::translate::commands::{cancel_translate, start_translate, validate_translate_request};
use pageweave::translate::history::{output_mode_name, StatusUpdate, TaskRecord};
use pageweave::translate::model::{OutputMode, TranslateEvent, TranslateProvider, TranslateRequest};
use pageweave::translate::progress::ParsedLine;
use pageweave::translate::runner::{
    babeldoc_candidates, babeldoc_info, finish_translate, is_babeldoc_output, line_events,
    mask_secrets, resolve_api_key, running_event, scan_outputs, settle_task, sidecar_missing_error,
    spawn_failure_event, stdout_event, translate_located, translate_probed, translate_spawned,
    KeyLookup,
};
use pageweave::translate::state::{RunningTask, TaskRegistry};

fn req(output_dir: &str, mode: OutputMode) -> TranslateRequest {
    TranslateRequest {
        task_id: None,
        pdf_paths: vec!["C:/tmp/pageweave-smoke-valid.pdf".into()],
        output_dir: output_dir.into(),
        lang_in: "en".into(),
        lang_out: "zh".into(),
        output_mode: mode,
        provider: TranslateProvider {
            base_url: "https://example.test/v1".into(),
            api_key_id: "key_test".into(),
            model: "m".into(),
        },
        qps: 1,
        advanced: None,
    }
}

fn entry(dir: &str, name: &str) -> (String, String) {
    (name.to_string(), format!("{dir}/{name}"))
}

#[test]
fn scans_current_babeldoc_output_names() {
    let dir = "C:/tmp/out";
    let entries = vec![
        entry(dir, "pageweave-smoke-valid.zh.mono.pdf"),
        entry(dir, "pageweave-smoke-valid.zh.dual.pdf"),
    ];
    let outputs = scan_outputs(&req(dir, OutputMode::Both), &entries);
    assert_eq!(outputs.len(), 2);
    assert!(outputs.iter().any(|p| p.ends_with(".zh.mono.pdf")));
    assert!(outputs.iter().any(|p| p.ends_with(".zh.dual.pdf")));
}

#[test]
fn scans_legacy_babeldoc_output_names() {
    let dir = "C:/tmp/out";
    let entries = vec![
        entry(dir, "pageweave-smoke-valid-mono.pdf"),
        entry(dir, "pageweave-smoke-valid-dual.pdf"),
    ];
    let outputs = scan_outputs(&req(dir, OutputMode::Mono), &entries);
    assert_eq!(outputs.len(), 1);
    assert!(outputs[0].ends_with("-mono.pdf"));
}

#[test]
fn scanned_outputs_are_sorted_and_filtered() {
    let dir = "C:/tmp/out";
    let entries = vec![
        entry(dir, "pageweave-smoke-valid.zh.no_watermark.mono.pdf"),
        entry(dir, "PageWeave-Smoke-Valid.zh.mono.no_watermark.pdf"),
        entry(dir, "pageweave-smoke-valid.zh.dual.pdf"),
        entry(dir, "other.zh.mono.pdf"),
        entry(dir, "pageweave-smoke-valid.pdf"),
        entry(dir, "pageweave-smoke-valid.en.mono.pdf"),
    ];
    let outputs = scan_outputs(&req(dir, OutputMode::Mono), &entries);
    assert_eq!(
        outputs,
        vec![
            "C:/tmp/out/PageWeave-Smoke-Valid.zh.mono.no_watermark.pdf".to_string(),
            "C:/tmp/out/pageweave-smoke-valid.en.mono.pdf".into(),
            "C:/tmp/out/pageweave-smoke-valid.zh.no_watermark.mono.pdf".into(),
        ]
    );
    let mut none = req(dir, OutputMode::Both);
    none.pdf_paths.clear();
    assert!(scan_outputs(&none, &entries).is_empty());
}

#[test]
fn babeldoc_output_names() {
    assert!(is_babeldoc_output("Doc-MONO.pdf", "doc", "mono"));
    assert!(is_babeldoc_output("doc.zh.dual.pdf", "Doc", "dual"));
    assert!(is_babeldoc_output("doc.x.dual.no_watermark.pdf", "doc", "dual"));
    assert!(!is_babeldoc_output("doc.zh.dual.pdf", "doc", "mono"));
    assert!(!is_babeldoc_output("docs.zh.mono.pdf", "doc", "mono"));
    assert!(!is_babeldoc_output("doc-mono.pdf.bak", "doc", "mono"));
}

#[test]
fn masks_api_keys_in_log_lines() {
    assert_eq!(
        mask_secrets("babeldoc --openai-api-key sk-abcdef123456 --qps 4"),
        "babeldoc --openai-api-key **** --qps 4"
    );
    assert_eq!(mask_secrets("key=sk-abcdefghij end"), "key=sk-**** end");
    assert_eq!(mask_secrets("short sk-abc stays"), "short sk-abc stays");
    assert_eq!(mask_secrets("nothing secret"), "nothing secret");
}

#[test]
fn parsed_lines_become_progress_then_log_events() {
    let lines = vec![
        ParsedLine { text: "translate 45%".into(), overall: Some(45), stage: Some("translate".into()) },
        ParsedLine { text: "using sk-abcdefgh".into(), overall: None, stage: None },
        ParsedLine { text: "50%".into(), overall: Some(50), stage: None },
    ];
    let events = line_events("t1", &lines);
    assert_eq!(events.len(), 5);
    match &events[0] {
        TranslateEvent::Progress { task_id, overall, stage, part_index, total_parts } => {
            assert_eq!(task_id, "t1");
            assert_eq!(*overall, 45);
            assert_eq!(stage, "translate");
            assert!(part_index.is_none() && total_parts.is_none());
        }
        other => panic!("unexpected {:?}", other),
    }
    match &events[2] {
        TranslateEvent::Log { line, stream, .. } => {
            assert_eq!(line, "using sk-****");
            assert_eq!(stream, "stderr");
        }
        other => panic!("unexpected {:?}", other),
    }
    match &events[3] {
        TranslateEvent::Progress { overall, stage, .. } => {
            assert_eq!(*overall, 50);
            assert_eq!(stage, "");
        }
        other => panic!("unexpected {:?}", other),
    }
}

#[test]
fn stdout_lines_are_trimmed_and_blank_ones_dropped() {
    match stdout_event("t1", b"  done \n") {
        Some(TranslateEvent::Log { line, stream, .. }) => {
            assert_eq!(line, "done");
            assert_eq!(stream, "stdout");
        }
        other => panic!("unexpected {:?}", other),
    }
    assert!(stdout_event("t1", b" \r\n").is_none());
}

fn status_parts(ev: &TranslateEvent) -> (String, Option<Vec<String>>, Option<String>) {
    match ev {
        TranslateEvent::Status { status, output_files, message, .. } => {
            (status.clone(), output_files.clone(), message.clone())
        }
        other => panic!("unexpected {:?}", other),
    }
}

#[test]
fn api_key_lookup_outcomes() {
    assert_eq!(resolve_api_key("t", KeyLookup::Found("sk-1".into())).unwrap(), "sk-1");
    let e = resolve_api_key("t", KeyLookup::Missing).unwrap_err();
    assert_eq!(
        status_parts(&e),
        ("error".into(), None, Some("API Key 未找到，请先在 API 配置页填写并保存。".into()))
    );
    let e = resolve_api_key("t", KeyLookup::NoDatabase).unwrap_err();
    assert_eq!(status_parts(&e).2.as_deref(), Some("数据库未初始化，无法读取 API Key。"));
    let e = resolve_api_key("t", KeyLookup::Failed("locked".into())).unwrap_err();
    assert_eq!(status_parts(&e).2.as_deref(), Some("读取 API Key 失败: locked"));
}

#[test]
fn lifecycle_events() {
    assert_eq!(status_parts(&running_event("t")), ("running".into(), None, None));
    assert_eq!(
        status_parts(&spawn_failure_event("t", "not found")).2.as_deref(),
        Some("启动 babeldoc 失败: not found")
    );
    match sidecar_missing_error() {
        AppError::NotFound(m) => {
            assert_eq!(m, "未检测到内置 BabelDOC sidecar，请重新安装 PageWeave。")
        }
        other => panic!("unexpected {:?}", other),
    }
}

#[test]
fn finish_translate_outcomes() {
    let ok = ExitOutcome::Exited { success: true, code: Some(0) };
    let files = vec!["C:/out/a.zh.mono.pdf".to_string()];
    let f = finish_translate("t", &ok, false, files.clone());
    assert_eq!(status_parts(&f.event), ("success".into(), Some(files.clone()), None));
    assert_eq!(f.update.status, "success");
    assert_eq!(f.update.progress, Some(100));
    assert_eq!(f.update.output_files, Some(files.clone()));
    assert!(f.update.message.is_none());

    let f = finish_translate("t", &ok, true, files.clone());
    assert_eq!(status_parts(&f.event), ("cancelled".into(), None, Some("用户已取消".into())));
    assert_eq!(f.update.status, "cancelled");
    assert_eq!(f.update.message.as_deref(), Some("user cancelled"));

    let bad = ExitOutcome::Exited { success: false, code: Some(-1073741510) };
    let f = finish_translate("t", &bad, false, vec![]);
    assert_eq!(
        status_parts(&f.event),
        ("error".into(), None, Some("babeldoc 退出码 -1073741510".into()))
    );
    assert_eq!(f.update.message.as_deref(), Some("babeldoc 退出码 -1073741510"));

    let f = finish_translate("t", &ExitOutcome::WaitFailed, false, vec![]);
    assert_eq!(status_parts(&f.event).2.as_deref(), Some("babeldoc 执行失败"));
}

#[test]
fn cancelled_task_settles_as_cancelled() {
    let mut reg: TaskRegistry<u8> = TaskRegistry::new();
    reg.insert("t1".into(), RunningTask { cancel_tx: 1, status: "running".into() });
    reg.insert("t2".into(), RunningTask { cancel_tx: 2, status: "running".into() });
    let (killed, ev) = cancel_translate(&mut reg, "t1");
    assert!(killed);
    assert_eq!(status_parts(&ev), ("cancelled".into(), None, Some("用户已取消".into())));
    assert!(settle_task(&mut reg, "t1", false));
    assert_eq!(reg.status("t1"), None);
    assert!(!settle_task(&mut reg, "t2", true));
    assert_eq!(reg.status("t2"), None);
    let (killed, _) = cancel_translate(&mut reg, "t3");
    assert!(!killed);
}

fn valid() -> TranslateRequest {
    req("C:/out", OutputMode::Both)
}

#[test]
fn translate_request_refusals_in_order() {
    assert!(validate_translate_request(&valid(), true).is_ok());
    let mut cases: Vec<(TranslateRequest, bool, &str)> = Vec::new();
    let mut r = valid();
    r.pdf_paths.clear();
    cases.push((r, true, "至少需要一个 PDF 文件"));
    let mut r = valid();
    r.pdf_paths.push("C:/b.pdf".into());
    cases.push((r, true, "当前 MVP 仅支持一次翻译一个 PDF 文件"));
    let mut r = valid();
    r.output_dir = " ".into();
    cases.push((r, true, "请选择输出目录"));
    let mut r = valid();
    r.lang_out = "".into();
    cases.push((r, true, "请选择源语言和目标语言"));
    let mut r = valid();
    r.provider.base_url = "\t".into();
    cases.push((r, true, "服务商 Base URL 不能为空"));
    let mut r = valid();
    r.provider.api_key_id = "".into();
    cases.push((r, true, "服务商 API Key 未设置"));
    let mut r = valid();
    r.provider.model = "".into();
    cases.push((r, true, "请选择或输入模型"));
    let mut r = valid();
    r.qps = 0;
    cases.push((r, true, "QPS 必须大于 0"));
    cases.push((valid(), false, "未检测到 BabelDOC 离线资源包，请先在设置页安装。"));
    for (r, installed, msg) in cases {
        match start_translate(&r, installed) {
            Err(AppError::InvalidInput(m)) => assert_eq!(m, msg),
            other => panic!("unexpected {:?}", other),
        }
    }
}

#[test]
fn translate_task_ids() {
    let id = start_translate(&valid(), true).unwrap();
    assert!(id.starts_with("task_"));
    assert_eq!(id.len(), 37);
    assert!(id[5..].chars().all(|c| c.is_ascii_digit() || ('a'..='f').contains(&c)));
    let mut r = valid();
    r.task_id = Some("mine".into());
    assert_eq!(start_translate(&r, true).unwrap(), "mine");
}

#[test]
fn sidecar_selection() {
    assert!(is_python_runtime("python311.dll"));
    assert!(is_python_runtime("PYTHON3.DLL"));
    assert!(!is_python_runtime("libpython.so"));
    let names = vec!["base_library.zip".to_string(), "python312.dll".into()];
    assert!(is_usable_sidecar(true, Some(&names)));
    assert!(!is_usable_sidecar(false, Some(&names)));
    assert!(!is_usable_sidecar(true, None));
    assert!(!is_usable_sidecar(true, Some(&vec!["vcruntime140.dll".to_string()])));
    let cands = vec![
        ("C:/app/babeldoc-sidecar.exe".to_string(), false),
        ("C:/app/babeldoc-sidecar-x86_64-pc-windows-msvc.exe".to_string(), true),
        ("C:/app/babeldoc-sidecar".to_string(), true),
    ];
    assert_eq!(
        find_sidecar_in_dir(&cands),
        Some("C:/app/babeldoc-sidecar-x86_64-pc-windows-msvc.exe".to_string())
    );
    assert_eq!(find_sidecar_in_dir(&vec![("x".to_string(), false)]), None);
    assert_eq!(babeldoc_candidates()[0], "babeldoc-sidecar.exe");
    assert_eq!(
        sidecar_search_dirs(Some("R".into()), Some("E".into()), "babeldoc-sidecar"),
        vec![
            vec!["R".to_string(), "babeldoc-sidecar".into()],
            vec!["E".to_string()],
            vec!["E".to_string(), "sidecar".into()]
        ]
    );
    assert_eq!(sidecar_search_dirs(None, None, "x"), Vec::<Vec<String>>::new());
    assert_eq!(
        dev_sidecar_paths("M", "babeldoc-sidecar", &vec!["babeldoc-sidecar.exe".to_string()]),
        vec![vec![
            "M".to_string(),
            "..".into(),
            "sidecar".into(),
            "dist".into(),
            "babeldoc-sidecar".into(),
            "babeldoc-sidecar.exe".into()
        ]]
    );
}

#[test]
fn babeldoc_probe_results() {
    let info = babeldoc_info(Some("C:/app/babeldoc-sidecar.exe".into()), Some(b"0.5.1\r\n".to_vec()));
    assert!(info.installed);
    assert_eq!(info.version.as_deref(), Some("0.5.1"));
    assert_eq!(info.hint, "");
    let info = babeldoc_info(Some("s".into()), Some(b"  ".to_vec()));
    assert!(info.version.is_none());
    let info = babeldoc_info(None, None);
    assert!(!info.installed && info.path.is_none());
    assert_eq!(info.hint, "未检测到内置 BabelDOC sidecar，请重新安装 PageWeave。");
}

#[test]
fn history_records_start_running_and_take_updates() {
    let r = req("C:/out", OutputMode::Dual);
    let mut rec = TaskRecord::from_request_at("t9".into(), &r, "2024-01-02T03:04:05+08:00".into());
    assert_eq!(rec.status, "running");
    assert_eq!(rec.output_mode, "dual");
    assert_eq!(rec.progress, 0);
    assert_eq!(rec.pdf_paths, r.pdf_paths);
    assert_eq!(rec.model, "m");
    assert_eq!(rec.created_at, rec.updated_at);
    rec.apply_update(
        StatusUpdate {
            status: "success".into(),
            progress: Some(100),
            stage: None,
            output_files: Some(vec!["C:/out/a.pdf".into()]),
            message: None,
        },
        "2024-01-02T03:10:00+08:00".into(),
    );
    assert_eq!(rec.status, "success");
    assert_eq!(rec.progress, 100);
    assert_eq!(rec.stage, "");
    assert_eq!(rec.output_files, vec!["C:/out/a.pdf".to_string()]);
    assert_eq!(rec.created_at, "2024-01-02T03:04:05+08:00");
    assert_eq!(rec.updated_at, "2024-01-02T03:10:00+08:00");
    let now = TaskRecord::from_request("t10".into(), &r);
    assert_eq!(now.created_at, now.updated_at);
    let t = now.created_at.find('T').unwrap();
    assert_eq!(&now.created_at[t - 3..t - 2], "-");
    assert_eq!(&now.created_at[t + 3..t + 4], ":");
    let n = now.created_at.len();
    assert!(now.created_at[n - 6..n - 5] == *"+" || now.created_at[n - 6..n - 5] == *"-");
    assert_eq!(output_mode_name(OutputMode::Mono), "mono");
    assert_eq!(output_mode_name(OutputMode::Both), "both");
}

#[test]
fn windows_prefixes_are_not_part_of_the_file_name() {
    assert_eq!(stem_or_output_of("C:report.pdf"), "report");
    assert_eq!(stem_or_output_of(r"C:\docs\a.b.pdf"), "a.b");
    assert_eq!(stem_or_output_of(r"\\server\share\doc.pdf"), "doc");
    assert_eq!(stem_or_output_of(r"\\server\share"), "output");
    assert_eq!(stem_or_output_of("C:"), "output");
    assert_eq!(stem_or_output_of("/tmp/x.tar.gz"), "x.tar");
}

#[test]
fn run_steps_record_the_spawned_task() {
    let r = req("C:/out", OutputMode::Mono);
    let missing = babeldoc_info(None, None);
    let ev = translate_probed("t", missing).unwrap_err();
    assert_eq!(status_parts(&ev).2.as_deref(), Some("未检测到内置 BabelDOC sidecar，请重新安装 PageWeave。"));
    assert!(translate_probed("t", babeldoc_info(Some("s".into()), None)).is_ok());
    let (prog, argv) = translate_located("t", Some("C:/app/babeldoc-sidecar.exe".into()), &r, "sk-k").unwrap();
    assert_eq!(prog, "C:/app/babeldoc-sidecar.exe");
    assert_eq!(argv[0], "--files");
    assert!(translate_located("t", None, &r, "sk-k").is_err());
    let mut reg: TaskRegistry<u8> = TaskRegistry::new();
    let ev = translate_spawned(&mut reg, "t", Ok(7)).unwrap();
    assert_eq!(status_parts(&ev).0, "running");
    assert_eq!(reg.status("t"), Some("running".to_string()));
    assert_eq!(reg.handle("t"), Some(&7));
    let ev = translate_spawned(&mut reg, "u", Err("no such file".into())).unwrap_err();
    assert_eq!(status_parts(&ev).2.as_deref(), Some("启动 babeldoc 失败: no such file"));
    assert_eq!(reg.status("u"), None);
}
