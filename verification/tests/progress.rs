use pageweave::translate::progress::{
    at_most_100, best_match_ratio, is_bar_glyph, last_match_ratio, match_ratio, scale_to_percent,
    ProgressParser,
};
use pageweave::translate::runner::decode_process_output;

#[test]
fn parses_progress_line() {
    let mut p = ProgressParser::new();
    let lines = p.push_bytes(
        b"\x1b[36mtranslate\x1b[0m \x1b[32m\xe2\x96\x81\xe2\x96\x81\xe2\x96\x81 45%\r",
    );
    assert_eq!(lines.len(), 1);
    assert_eq!(lines[0].overall, Some(45));
    assert!(lines[0].text.contains("45%"));
}

#[test]
fn handles_split_across_feeds() {
    let mut p = ProgressParser::new();
    let a = p.push_bytes(b"some partial line without newline");
    assert!(a.is_empty());
    let b = p.push_bytes(b" and the rest\r");
    assert_eq!(b.len(), 1);
    assert!(b[0].text.contains("partial line"));
}

#[test]
fn ignores_pct_over_100() {
    let mut p = ProgressParser::new();
    let lines = p.push_bytes(b"not a real 999% thing\n");
    assert!(lines[0].overall.is_none());
}

#[test]
fn stage_local_counts_do_not_set_overall() {
    let mut p = ProgressParser::new();
    let lines = p.push_bytes(b"Parse Layout (1/1) ----- 15/20 0:00\n");
    assert_eq!(lines.len(), 1);
    // Stage work units must not become overall % (would freeze monotonic bar).
    assert_eq!(lines[0].overall, None);
    assert_eq!(lines[0].stage.as_deref(), Some("Parse Layout"));
    assert_eq!(p.current(), 0);
}

#[test]
fn ignores_stage_count_when_work_count_is_unknown() {
    let mut p = ProgressParser::new();
    let lines = p.push_bytes(b"Translate Paragraphs (1/1) ----- 245/-- 0:00\n");
    assert_eq!(lines.len(), 1);
    // Stage still extracted; overall may be absent when total unknown.
    assert_eq!(lines[0].stage.as_deref(), Some("Translate Paragraphs"));
}

#[test]
fn parses_rich_stage_count_without_total_as_stage_only() {
    let mut p = ProgressParser::new();
    let lines = p.push_bytes(b"translate -- 42 0:03 0:24\n");
    assert_eq!(lines.len(), 1);
    assert_eq!(lines[0].stage.as_deref(), Some("translate"));
    assert_eq!(p.current(), 0);
}

#[test]
fn parses_rich_stage_count_with_total() {
    let mut p = ProgressParser::new();
    let lines = p.push_bytes(b"translate -- 42/100 0:03 0:24\n");
    assert_eq!(lines.len(), 1);
    assert_eq!(lines[0].overall, Some(42));
    assert_eq!(lines[0].stage.as_deref(), Some("translate"));
    assert_eq!(p.current(), 42);
}

#[test]
fn ignores_elapsed_and_remaining_time_counts() {
    let mut p = ProgressParser::new();
    let lines = p.push_bytes(b"translate --- 69/100 0:08 0:04\n");
    assert_eq!(lines.len(), 1);
    assert_eq!(lines[0].overall, Some(69));
    assert_eq!(lines[0].stage.as_deref(), Some("translate"));
    assert_eq!(p.current(), 69);
}

#[test]
fn parses_translate_task_count_as_overall_progress() {
    let mut p = ProgressParser::new();
    let lines = p.push_bytes(b"translate 35\n");
    assert_eq!(lines.len(), 1);
    assert_eq!(lines[0].overall, Some(35));
    assert_eq!(lines[0].stage.as_deref(), Some("translate"));
    assert_eq!(p.current(), 35);
}

#[test]
fn decodes_gbk_log_lines() {
    let mut p = ProgressParser::new();
    let lines = p.push_bytes(&[0xd6, 0xd0, 0xce, 0xc4, b' ', b'4', b'5', b'%', b'\n']);
    assert_eq!(lines.len(), 1);
    assert_eq!(lines[0].text, "中文 45%");
    assert_eq!(lines[0].overall, Some(45));
}

#[test]
fn parses_rich_mofn_without_percent() {
    let mut p = ProgressParser::new();
    // rich default: description + bar + MofNComplete (no % column)
    let lines = p.push_bytes("translate ━━━━━━━━━━━━━━━━━━━━━━━━━━━━ 42/100 0:03 0:24\r".as_bytes());
    assert_eq!(lines.len(), 1);
    assert_eq!(lines[0].overall, Some(42));
    assert_eq!(lines[0].stage.as_deref(), Some("translate"));
}

#[test]
fn progress_is_monotonic() {
    let mut p = ProgressParser::new();
    let a = p.push_bytes(b"translate 50%\n");
    assert_eq!(a[0].overall, Some(50));
    let b = p.push_bytes(b"Parse Layout (1/1) 10/100\n");
    // 10% would go backwards; reject as overall update, keep last at 50.
    assert!(b[0].overall.is_none() || b[0].overall == Some(50));
    assert_eq!(p.current(), 50);
    let c = p.push_bytes(b"translate 60%\n");
    assert_eq!(c[0].overall, Some(60));
    assert_eq!(p.current(), 60);
}

#[test]
fn parses_stage_with_part_index_without_overall() {
    let mut p = ProgressParser::new();
    let lines =
        p.push_bytes(b"IL Translator (1/1) ------------------------------- 12/40 0:01 0:03\n");
    assert_eq!(lines.len(), 1);
    assert_eq!(lines[0].stage.as_deref(), Some("IL Translator"));
    assert_eq!(lines[0].overall, None);
    // Overall only from the translate task bar.
    let t = p.push_bytes(b"translate ------------------------------- 42/100 0:01 0:03\n");
    assert_eq!(t[0].overall, Some(42));
    assert_eq!(p.current(), 42);
}

#[test]
fn percent_on_stage_line_is_accepted_as_overall() {
    // Some rich columns print an explicit percentage on the overall bar only;
    // if a stage line carries %, treat it as overall (still monotonic).
    let mut p = ProgressParser::new();
    let lines = p.push_bytes(b"translate 18%\n");
    assert_eq!(lines[0].overall, Some(18));
}

#[test]
fn decodes_utf8_before_falling_back_to_gbk() {
    assert_eq!(decode_process_output("中文".as_bytes()), "中文");
    assert_eq!(decode_process_output(&[0xd6, 0xd0, 0xce, 0xc4]), "中文");
}

#[test]
fn bar_glyphs() {
    assert!(is_bar_glyph('|'));
    assert!(is_bar_glyph('█'));
    assert!(is_bar_glyph('░'));
    assert!(is_bar_glyph('━'));
    assert!(!is_bar_glyph('-'));
    assert!(!is_bar_glyph('a'));
    assert_eq!(pageweave::translate::model::default_qps(), 4);
}

#[test]
fn current_is_the_last_reported_value() {
    let mut p = ProgressParser::new();
    let a = p.push_bytes(b"translate 50%\nParse Layout (1/1) 10/100\n");
    assert_eq!(a.iter().filter_map(|l| l.overall).last(), Some(50));
    assert_eq!(p.current(), 50);
    let b = p.push_bytes(b"translate 40%\n");
    assert_eq!(b[0].overall, None);
    assert_eq!(p.current(), 50);
    let c = p.push_bytes(b"translate 60%\ntranslate 60%\n");
    assert_eq!(c.iter().filter_map(|l| l.overall).collect::<Vec<_>>(), vec![60, 60]);
    assert_eq!(p.current(), 60);
}

#[test]
fn flushing_equals_feeding_a_newline() {
    let mut p1 = ProgressParser::new();
    let mut p2 = ProgressParser::new();
    p1.push_bytes(b"translate 20%\ntranslate 35");
    p2.push_bytes(b"translate 20%\ntranslate 35");
    let flushed = p1.finish();
    let fed = p2.push_bytes(b"\n");
    assert_eq!(flushed, fed);
    assert_eq!(flushed.len(), 1);
    assert_eq!(flushed[0].overall, Some(35));
    assert_eq!(p1.current(), p2.current());
    assert!(p1.finish().is_empty());
}

fn groups(cur: &str, total: &str) -> Vec<Option<String>> {
    vec![Some(format!("{cur}/{total}")), Some(cur.to_string()), Some(total.to_string())]
}

#[test]
fn counter_rules_on_given_captures() {
    assert_eq!(match_ratio(&groups("42", "100")), Some(42));
    assert_eq!(match_ratio(&groups("142", "100")), Some(100));
    assert_eq!(match_ratio(&groups("15", "20")), None);
    let ms = vec![groups("30", "100"), groups("15", "20"), groups("20", "100")];
    assert_eq!(best_match_ratio(&ms), Some(30));
    assert_eq!(last_match_ratio(&ms), Some(20));
    assert_eq!(last_match_ratio(&vec![groups("1", "2")]), None);
    assert_eq!(scale_to_percent(Some(1), Some(3)), Some(33));
    assert_eq!(scale_to_percent(Some(9), Some(3)), Some(100));
    assert_eq!(scale_to_percent(Some(1), Some(0)), None);
    assert_eq!(scale_to_percent(None, Some(3)), None);
    assert_eq!(at_most_100(Some(101)), None);
    assert_eq!(at_most_100(Some(100)), Some(100));
}
