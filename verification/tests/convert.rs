use pageweave::convert::args::{
    build_args, check_output_request, is_allowed_extension, is_local_path, output_file_name,
    pick_output_name,
};
use pageweave::convert::commands::{cancel_convert, start_convert};
use pageweave::convert::model::{ConvertEvent, ConvertRequest};
use pageweave::convert::runner::{
    check_output_target, choose_output, convert_abort, convert_located, convert_log_event,
    convert_probed, convert_resolved, convert_spawned, dir_create_error, find_output_md,
    finish_convert, markitdown_candidates, markitdown_info, settle_convert,
};
use pageweave::convert::state::ConvertRegistry;
use pageweave::error::AppError;
use pageweave::sidecar::ExitOutcome;

#[test]
fn whitelist_is_case_insensitive() {
    assert!(is_allowed_extension(r"C:\docs\a.PDF"));
    assert!(is_allowed_extension(r"C:\docs\a.docx"));
    assert!(is_allowed_extension("report.XLSX"));
    assert!(!is_allowed_extension("notes.md"));
    assert!(!is_allowed_extension("image.png"));
}

#[test]
fn rejects_remote_uri() {
    assert!(!is_local_path("https://example.com/a.pdf"));
    assert!(!is_local_path("http://x/y.docx"));
    assert!(is_local_path(r"C:\Users\me\file.pdf"));
}

#[test]
fn remote_schemes_are_rejected_in_any_case_and_blank_is_not_local() {
    assert!(!is_local_path("  FTP://host/a.pdf"));
    assert!(!is_local_path("File:///C:/a.pdf"));
    assert!(!is_local_path("   "));
    assert!(is_local_path("/home/me/a.pptx"));
}

#[test]
fn extension_rules_follow_the_file_name() {
    assert!(is_allowed_extension("C:/dir.pdf/slides.pptx"));
    assert!(is_allowed_extension("book.xls"));
    assert!(!is_allowed_extension("C:/docs/.pdf"));
    assert!(!is_allowed_extension("C:/docs/archive"));
}

#[test]
fn output_names_plain_stamped_and_with_millis() {
    assert_eq!(output_file_name("sample", None, None), "sample.md");
    assert_eq!(
        output_file_name("sample", Some("20240102-030405"), None),
        "sample-20240102-030405.md"
    );
    assert_eq!(
        output_file_name("sample", Some("20240102-030405"), Some(7)),
        "sample-20240102-030405-007.md"
    );
    assert_eq!(
        output_file_name("sample", Some("20240102-030405"), Some(42)),
        "sample-20240102-030405-042.md"
    );
    assert_eq!(
        output_file_name("sample", Some("20240102-030405"), Some(999)),
        "sample-20240102-030405-999.md"
    );
}

#[test]
fn output_names_never_collide() {
    let plain = output_file_name("sample", None, None);
    let stamped = output_file_name("sample", Some("20240102-030405"), None);
    let milli = output_file_name("sample", Some("20240102-030405"), Some(0));
    assert_ne!(plain, stamped);
    assert_ne!(plain, milli);
    assert_ne!(stamped, milli);
    assert!(stamped.starts_with("sample-"));
    assert!(stamped.ends_with(".md"));
}

#[test]
fn picked_output_name_avoids_taken_files() {
    assert_eq!(
        pick_output_name("sample", "20240102-030405", 5, false, true, true).as_deref(),
        Some("sample.md")
    );
    assert_eq!(
        pick_output_name("sample", "20240102-030405", 5, true, false, true).as_deref(),
        Some("sample-20240102-030405.md")
    );
    assert_eq!(
        pick_output_name("sample", "20240102-030405", 5, true, true, false).as_deref(),
        Some("sample-20240102-030405-005.md")
    );
    assert_eq!(pick_output_name("sample", "20240102-030405", 5, true, true, true), None);
}

#[test]
fn output_request_errors_in_order() {
    assert!(check_output_request("C:/a.docx", "C:/out").is_ok());
    match check_output_request("https://x/a.docx", "") {
        Err(AppError::InvalidInput(m)) => assert_eq!(m, "仅支持本地文件路径，不支持远程 URI"),
        other => panic!("unexpected {:?}", other),
    }
    match check_output_request("C:/a.txt", "C:/out") {
        Err(AppError::InvalidInput(m)) => {
            assert_eq!(m, "不支持的文件类型，仅支持: .pdf / .docx / .pptx / .xlsx / .xls")
        }
        other => panic!("unexpected {:?}", other),
    }
    match check_output_request("C:/a.pdf", "  ") {
        Err(AppError::InvalidInput(m)) => assert_eq!(m, "请选择输出目录"),
        other => panic!("unexpected {:?}", other),
    }
    match check_output_request("C:/a.pdf", "ftp://server/out") {
        Err(AppError::InvalidInput(m)) => assert_eq!(m, "输出目录必须是本地路径"),
        other => panic!("unexpected {:?}", other),
    }
}

#[test]
fn output_target_checks_the_file_system_facts() {
    assert_eq!(check_output_target("C:/a.pdf", "C:/out", true, true, true).unwrap(), false);
    assert_eq!(check_output_target("C:/a.pdf", "C:/out", true, false, false).unwrap(), true);
    match check_output_target("C:/a.pdf", "C:/out", false, true, true) {
        Err(AppError::NotFound(m)) => assert_eq!(m, "输入文件不存在: C:/a.pdf"),
        other => panic!("unexpected {:?}", other),
    }
    match check_output_target("C:/a.pdf", "C:/out", true, true, false) {
        Err(AppError::InvalidInput(m)) => assert_eq!(m, "输出路径不是目录: C:/out"),
        other => panic!("unexpected {:?}", other),
    }
    match dir_create_error("C:/out", "denied") {
        AppError::Io(m) => assert_eq!(m, "无法创建输出目录 C:/out: denied"),
        other => panic!("unexpected {:?}", other),
    }
}

#[test]
fn markitdown_argv() {
    assert_eq!(
        build_args("C:/a.pdf", "C:/out/a.md"),
        vec!["C:/a.pdf".to_string(), "-o".into(), "C:/out/a.md".into()]
    );
}

fn entry(name: &str) -> (String, String) {
    (name.to_string(), format!("C:/out/{name}"))
}

#[test]
fn finds_the_newest_markdown_output() {
    let entries = vec![
        entry("Report-20240101-000000.md"),
        entry("report.md"),
        entry("report-20240301-000000.md"),
        entry("report.pdf"),
        entry("other.md"),
    ];
    assert_eq!(
        find_output_md("C:/in/Report.docx", &entries),
        Some("C:/out/report.md".to_string())
    );
    let stamped = vec![entry("report-20240101-000000.md"), entry("report-20240301-000000.md")];
    assert_eq!(
        find_output_md("C:/in/report.docx", &stamped),
        Some("C:/out/report-20240301-000000.md".to_string())
    );
    assert_eq!(find_output_md("C:/in/report.docx", &vec![entry("x.md")]), None);
}

#[test]
fn resolved_output_is_preferred_when_written() {
    assert_eq!(
        choose_output("C:/out/a.md".into(), true, Some("C:/out/a-1.md".into())),
        Some("C:/out/a.md".to_string())
    );
    assert_eq!(
        choose_output("C:/out/a.md".into(), false, Some("C:/out/a-1.md".into())),
        Some("C:/out/a-1.md".to_string())
    );
    assert_eq!(choose_output("C:/out/a.md".into(), false, None), None);
}

fn req(input: &str) -> ConvertRequest {
    ConvertRequest { task_id: None, input_path: input.into(), output_dir: "C:/out".into() }
}

#[test]
fn start_convert_claims_the_single_slot() {
    let mut reg: ConvertRegistry<u32> = ConvertRegistry::new();
    let id = start_convert(&mut reg, &req("C:/in/a.pdf"), true, 1).unwrap();
    assert!(id.starts_with("convert_"));
    assert_eq!(id.len(), 40);
    assert!(reg.is_busy());
    assert_eq!(reg.status(&id), Some("running".to_string()));
    match start_convert(&mut reg, &req("C:/in/b.pdf"), true, 2) {
        Err(AppError::InvalidInput(m)) => {
            assert_eq!(m, "已有转换任务在进行中，请等待完成或先取消")
        }
        other => panic!("unexpected {:?}", other),
    }
    assert_eq!(reg.handle(&id), Some(&1));
}

#[test]
fn start_convert_keeps_a_given_task_id() {
    let mut reg: ConvertRegistry<u32> = ConvertRegistry::new();
    let mut r = req("C:/in/a.pdf");
    r.task_id = Some("c1".into());
    assert_eq!(start_convert(&mut reg, &r, true, 9).unwrap(), "c1");
}

#[test]
fn start_convert_refusals() {
    let mut reg: ConvertRegistry<u32> = ConvertRegistry::new();
    let cases: Vec<(ConvertRequest, bool, &str)> = vec![
        (req("  "), true, "请选择要转换的文件"),
        (
            ConvertRequest { task_id: None, input_path: "C:/a.pdf".into(), output_dir: "".into() },
            true,
            "请选择输出目录",
        ),
        (req("https://x/a.pdf"), true, "仅支持本地文件路径，不支持远程 URI"),
        (req("C:/a.md"), true, "不支持的文件类型，仅支持: .pdf / .docx / .pptx / .xlsx / .xls"),
    ];
    for (r, is_file, msg) in cases {
        match start_convert(&mut reg, &r, is_file, 0) {
            Err(AppError::InvalidInput(m)) => assert_eq!(m, msg),
            other => panic!("unexpected {:?}", other),
        }
    }
    match start_convert(&mut reg, &req("C:/missing.pdf"), false, 0) {
        Err(AppError::NotFound(m)) => assert_eq!(m, "输入文件不存在: C:/missing.pdf"),
        other => panic!("unexpected {:?}", other),
    }
    assert!(!reg.is_busy());
}

#[test]
fn cancel_then_settle_reports_cancelled_and_frees_the_slot() {
    let mut reg: ConvertRegistry<u32> = ConvertRegistry::new();
    let id = start_convert(&mut reg, &req("C:/in/a.pdf"), true, 1).unwrap();
    let (killed, ev) = cancel_convert(&mut reg, &id);
    assert!(killed);
    match ev {
        ConvertEvent::Status { status, message, output_file, .. } => {
            assert_eq!(status, "cancelled");
            assert_eq!(message.as_deref(), Some("用户已取消"));
            assert!(output_file.is_none());
        }
        other => panic!("unexpected {:?}", other),
    }
    assert!(settle_convert(&mut reg, &id, false));
    assert_eq!(reg.status(&id), None);
    assert!(!reg.is_busy());
    let (killed_again, _) = cancel_convert(&mut reg, &id);
    assert!(!killed_again);
}

#[test]
fn settle_after_success_is_not_cancelled() {
    let mut reg: ConvertRegistry<u32> = ConvertRegistry::new();
    let id = start_convert(&mut reg, &req("C:/in/a.pdf"), true, 1).unwrap();
    assert!(!settle_convert(&mut reg, &id, true));
    assert!(!reg.is_busy());
    assert!(start_convert(&mut reg, &req("C:/in/b.pdf"), true, 2).is_ok());
}

fn status_of(ev: &ConvertEvent) -> (String, Option<String>, Option<String>) {
    match ev {
        ConvertEvent::Status { status, output_file, message, .. } => {
            (status.clone(), output_file.clone(), message.clone())
        }
        other => panic!("unexpected {:?}", other),
    }
}

#[test]
fn finish_convert_outcomes() {
    let ok = ExitOutcome::Exited { success: true, code: Some(0) };
    let ev = finish_convert("c1", &ok, false, Some("C:/out/a.md".into()), Some(12));
    assert_eq!(status_of(&ev), ("success".into(), Some("C:/out/a.md".into()), None));

    let ev = finish_convert("c1", &ok, false, Some("C:/out/a.md".into()), Some(0));
    assert_eq!(
        status_of(&ev),
        (
            "error".into(),
            Some("C:/out/a.md".into()),
            Some("输出 Markdown 为空，请检查源文件是否包含可提取文本".into())
        )
    );

    let ev = finish_convert("c1", &ok, false, None, None);
    assert_eq!(
        status_of(&ev),
        ("error".into(), None, Some("转换结束但未找到输出 Markdown 文件".into()))
    );

    let failed = ExitOutcome::Exited { success: false, code: Some(2) };
    let ev = finish_convert("c1", &failed, false, None, None);
    assert_eq!(status_of(&ev), ("error".into(), None, Some("markitdown 退出码 2".into())));

    let killed = ExitOutcome::Exited { success: false, code: None };
    let ev = finish_convert("c1", &killed, false, None, None);
    assert_eq!(status_of(&ev), ("error".into(), None, Some("markitdown 退出码 -1".into())));

    let ev = finish_convert("c1", &ExitOutcome::WaitFailed, false, None, None);
    assert_eq!(status_of(&ev), ("error".into(), None, Some("markitdown 执行失败".into())));

    let ev = finish_convert("c1", &ok, true, Some("C:/out/a.md".into()), Some(12));
    assert_eq!(status_of(&ev), ("cancelled".into(), None, Some("用户已取消".into())));
}

#[test]
fn markitdown_probe_results() {
    let info = markitdown_info(
        Some("C:/app/markitdown-sidecar.exe".into()),
        Some((b"  \n".to_vec(), b" markitdown 0.1.2 \n".to_vec())),
    );
    assert!(info.installed);
    assert_eq!(info.version.as_deref(), Some("markitdown 0.1.2"));
    assert_eq!(info.path.as_deref(), Some("C:/app/markitdown-sidecar.exe"));
    assert_eq!(info.hint, "");

    let info = markitdown_info(Some("m".into()), Some((b"1.0\n".to_vec(), b"warn".to_vec())));
    assert_eq!(info.version.as_deref(), Some("1.0"));

    let info = markitdown_info(None, None);
    assert!(!info.installed);
    assert!(info.version.is_none() && info.path.is_none());
    assert_eq!(info.hint, "未检测到内置 markitdown sidecar，请重新安装 PageWeave 或先构建 sidecar。");
    assert_eq!(
        markitdown_candidates(),
        vec![
            "markitdown-sidecar.exe".to_string(),
            "markitdown-sidecar-x86_64-pc-windows-msvc.exe".into(),
            "markitdown-sidecar".into()
        ]
    );
}

#[test]
fn log_events_skip_blank_lines() {
    assert!(convert_log_event("c1", b"   \r\n", "stdout").is_none());
    match convert_log_event("c1", &[0xd6, 0xd0, 0xce, 0xc4, b'\n'], "stderr") {
        Some(ConvertEvent::Log { task_id, line, stream }) => {
            assert_eq!(task_id, "c1");
            assert_eq!(line, "中文");
            assert_eq!(stream, "stderr");
        }
        other => panic!("unexpected {:?}", other),
    }
}

#[test]
fn every_early_stop_releases_the_slot() {
    let mut reg: ConvertRegistry<u32> = ConvertRegistry::new();
    let id = start_convert(&mut reg, &req("C:/in/a.pdf"), true, 1).unwrap();
    assert_eq!(convert_resolved(&mut reg, &id, Ok("C:/out/a.md".into())).unwrap(), "C:/out/a.md");
    assert!(reg.is_busy());
    let info = markitdown_info(Some("m".into()), None);
    assert!(convert_probed(&mut reg, &id, info).is_ok());
    let (prog, argv) = convert_located(&mut reg, &id, Some("m".into()), "C:/in/a.pdf", "C:/out/a.md").unwrap();
    assert_eq!(prog, "m");
    assert_eq!(argv, vec!["C:/in/a.pdf".to_string(), "-o".into(), "C:/out/a.md".into()]);
    assert_eq!(status_of(&convert_spawned(&mut reg, &id, Ok(())).unwrap()).0, "running");
    assert!(reg.is_busy());

    let ev = convert_spawned(&mut reg, &id, Err("denied".into())).unwrap_err();
    assert_eq!(status_of(&ev), ("error".into(), None, Some("启动 markitdown 失败: denied".into())));
    assert!(!reg.is_busy());

    let id = start_convert(&mut reg, &req("C:/in/b.pdf"), true, 2).unwrap();
    let ev = convert_resolved(&mut reg, &id, Err(AppError::Io("disk".into()))).unwrap_err();
    assert_eq!(status_of(&ev).2.as_deref(), Some("disk"));
    assert!(!reg.is_busy());

    let id = start_convert(&mut reg, &req("C:/in/c.pdf"), true, 3).unwrap();
    let ev = convert_probed(&mut reg, &id, markitdown_info(None, None)).unwrap_err();
    assert_eq!(
        status_of(&ev).2.as_deref(),
        Some("未检测到内置 markitdown sidecar，请重新安装 PageWeave 或先构建 sidecar。")
    );
    assert!(!reg.is_busy());

    let id = start_convert(&mut reg, &req("C:/in/d.pdf"), true, 4).unwrap();
    let ev = convert_located(&mut reg, &id, None, "a", "b").unwrap_err();
    assert_eq!(
        status_of(&ev).2.as_deref(),
        Some("未检测到内置 markitdown sidecar，请重新安装 PageWeave。")
    );
    assert!(!reg.is_busy());

    let id = start_convert(&mut reg, &req("C:/in/e.pdf"), true, 5).unwrap();
    let ev = convert_abort(&mut reg, &id, "x".into());
    assert_eq!(status_of(&ev).2.as_deref(), Some("x"));
    assert_eq!(reg.status(&id), None);
}
