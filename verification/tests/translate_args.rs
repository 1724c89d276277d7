use pageweave::translate::args::build_args;
use pageweave::translate::model::{AdvancedParams, OcrMode, OutputMode, TranslateProvider, TranslateRequest};

fn req() -> TranslateRequest {
    TranslateRequest {
        task_id: None,
        pdf_paths: vec!["C:/tmp/input.pdf".into()],
        output_dir: "C:/tmp/out".into(),
        lang_in: "en".into(),
        lang_out: "zh".into(),
        output_mode: OutputMode::Mono,
        provider: TranslateProvider {
            base_url: "https://example.test/v1".into(),
            api_key_id: "key_test".into(),
            model: "m".into(),
        },
        qps: 1,
        advanced: None,
    }
}

/// The argument list of a request without advanced parameters.
fn baseline_args() -> Vec<String> {
    vec![
        "--files".into(),
        "C:/tmp/input.pdf".into(),
        "--output".into(),
        "C:/tmp/out".into(),
        "--lang-in".into(),
        "en".into(),
        "--lang-out".into(),
        "zh".into(),
        "--openai".into(),
        "--openai-model".into(),
        "m".into(),
        "--openai-base-url".into(),
        "https://example.test/v1".into(),
        "--openai-api-key".into(),
        "sk-test".into(),
        "--qps".into(),
        "1".into(),
        "--enhance-compatibility".into(),
        "--auto-enable-ocr-workaround".into(),
        "--watermark-output-mode".into(),
        "no_watermark".into(),
        "--report-interval".into(),
        "0.1".into(),
        "--no-dual".into(),
    ]
}

fn args_contain(args: &[String], flag: &str) -> bool {
    args.iter().any(|a| a == flag)
}

fn args_contain_pair(args: &[String], flag: &str, val: &str) -> bool {
    args.windows(2).any(|pair| pair[0] == flag && pair[1] == val)
}

#[test]
fn requests_no_watermark_output() {
    let args = build_args(&req(), "sk-test");
    let watermark_arg = args
        .windows(2)
        .find(|pair| pair[0] == "--watermark-output-mode")
        .map(|pair| pair[1].as_str());

    assert_eq!(watermark_arg, Some("no_watermark"));
}

#[test]
fn default_advanced_matches_baseline() {
    let args = build_args(&req(), "sk-test");
    assert_eq!(args, baseline_args());
}

#[test]
fn empty_advanced_matches_baseline() {
    let mut r = req();
    r.advanced = Some(Default::default());
    let args = build_args(&r, "sk-test");
    assert_eq!(args, baseline_args());
}

#[test]
fn compat_off_emits_subflags_not_bundle() {
    let mut r = req();
    r.output_mode = OutputMode::Dual;
    r.advanced = Some(AdvancedParams {
        enhance_compatibility: Some(false),
        skip_clean: Some(true),
        disable_rich_text_translate: Some(true),
        dual_translate_first: Some(true),
        ..Default::default()
    });
    let args = build_args(&r, "sk-test");
    assert!(!args_contain(&args, "--enhance-compatibility"));
    assert!(args_contain(&args, "--skip-clean"));
    assert!(args_contain(&args, "--disable-rich-text-translate"));
    assert!(args_contain(&args, "--dual-translate-first"));
}

#[test]
fn compat_on_ignores_individuals() {
    let mut r = req();
    r.advanced = Some(AdvancedParams {
        enhance_compatibility: Some(true),
        skip_clean: Some(true),
        disable_rich_text_translate: Some(true),
        dual_translate_first: Some(true),
        ..Default::default()
    });
    let args = build_args(&r, "sk-test");
    assert!(args_contain(&args, "--enhance-compatibility"));
    assert!(!args_contain(&args, "--skip-clean"));
    assert!(!args_contain(&args, "--disable-rich-text-translate"));
    assert!(!args_contain(&args, "--dual-translate-first"));
}

#[test]
fn ocr_off_emits_skip_scanned() {
    let mut r = req();
    r.advanced = Some(AdvancedParams {
        ocr_mode: Some(OcrMode::Off),
        ..Default::default()
    });
    let args = build_args(&r, "sk-test");
    assert!(args_contain(&args, "--skip-scanned-detection"));
    assert!(!args_contain(&args, "--auto-enable-ocr-workaround"));
    assert!(!args_contain(&args, "--ocr-workaround"));
}

#[test]
fn ocr_force_emits_ocr_workaround() {
    let mut r = req();
    r.advanced = Some(AdvancedParams {
        ocr_mode: Some(OcrMode::Force),
        ..Default::default()
    });
    let args = build_args(&r, "sk-test");
    assert!(args_contain(&args, "--ocr-workaround"));
    assert!(!args_contain(&args, "--auto-enable-ocr-workaround"));
    assert!(!args_contain(&args, "--skip-scanned-detection"));
}

#[test]
fn ocr_auto_is_default() {
    let mut r = req();
    r.advanced = Some(AdvancedParams {
        ocr_mode: Some(OcrMode::Auto),
        ..Default::default()
    });
    let args = build_args(&r, "sk-test");
    assert!(args_contain(&args, "--auto-enable-ocr-workaround"));
}

#[test]
fn glossary_files_joined_with_comma() {
    let mut r = req();
    r.advanced = Some(AdvancedParams {
        glossary_files: Some(vec!["a.csv".into(), "b.csv".into()]),
        ..Default::default()
    });
    let args = build_args(&r, "sk-test");
    assert!(args_contain_pair(&args, "--glossary-files", "a.csv,b.csv"));
}

#[test]
fn pages_emitted_when_set() {
    let mut r = req();
    r.advanced = Some(AdvancedParams {
        pages: Some("1-3".into()),
        ..Default::default()
    });
    let args = build_args(&r, "sk-test");
    assert!(args_contain_pair(&args, "--pages", "1-3"));
}

#[test]
fn min_text_length_emitted_when_set() {
    let mut r = req();
    r.advanced = Some(AdvancedParams {
        min_text_length: Some(10),
        ..Default::default()
    });
    let args = build_args(&r, "sk-test");
    assert!(args_contain_pair(&args, "--min-text-length", "10"));
}

#[test]
fn dual_translate_first_skipped_in_mono() {
    let mut r = req();
    // mono output + bundle off + dual_translate_first on
    r.advanced = Some(AdvancedParams {
        enhance_compatibility: Some(false),
        dual_translate_first: Some(true),
        ..Default::default()
    });
    let args = build_args(&r, "sk-test");
    assert!(!args_contain(&args, "--dual-translate-first"));
}

#[test]
fn use_alternating_pages_dual_skipped_in_mono() {
    let mut r = req();
    r.advanced = Some(AdvancedParams {
        use_alternating_pages_dual: Some(true),
        ..Default::default()
    });
    let args = build_args(&r, "sk-test");
    assert!(!args_contain(&args, "--use-alternating-pages-dual"));
}
