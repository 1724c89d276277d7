//! The BabelDOC command line for a translation request.
use vstd::prelude::*;

use crate::order::texts;
use crate::text::{decimal, u32_to_string, str_eq};
use crate::translate::model::{AdvancedParams, OcrMode, OutputMode, TranslateRequest};

verus! {

/// `flag` when `on`, nothing otherwise.
pub open spec fn flag_if(on: bool, flag: Seq<char>) -> Seq<Seq<char>> {
    if on {
        seq![flag]
    } else {
        seq![]
    }
}

/// An advanced boolean that is set to `true` (unset reads as `false`).
pub open spec fn on(req: TranslateRequest, pick: spec_fn(AdvancedParams) -> Option<bool>) -> bool {
    match req.advanced {
        Some(a) => pick(a) == Some(true),
        None => false,
    }
}

/// An advanced value, if the request has advanced parameters and that one is set.
pub open spec fn adv<T>(req: TranslateRequest, pick: spec_fn(AdvancedParams) -> Option<T>) -> Option<T> {
    match req.advanced {
        Some(a) => pick(a),
        None => None,
    }
}

/// The bundle `--enhance-compatibility` is on unless explicitly switched off.
pub open spec fn compat_bundle_on(req: TranslateRequest) -> bool {
    adv(req, |a: AdvancedParams| a.enhance_compatibility) != Some(false)
}

pub open spec fn not_mono(req: TranslateRequest) -> bool {
    req.output_mode != OutputMode::Mono
}

/// Input, output, languages and the OpenAI-compatible provider.
pub open spec fn base_args(req: TranslateRequest, api_key: Seq<char>) -> Seq<Seq<char>> {
    seq![
        "--files"@,
        req.pdf_paths@[0]@,
        "--output"@,
        req.output_dir@,
        "--lang-in"@,
        req.lang_in@,
        "--lang-out"@,
        req.lang_out@,
        "--openai"@,
        "--openai-model"@,
        req.provider.model@,
        "--openai-base-url"@,
        req.provider.base_url@,
        "--openai-api-key"@,
        api_key,
        "--qps"@,
        decimal(req.qps as nat),
    ]
}

/// The compatibility bundle, or, when it is off, its individual sub-flags
/// (`--dual-translate-first` only when a dual PDF is written).
pub open spec fn compat_args(req: TranslateRequest) -> Seq<Seq<char>> {
    if compat_bundle_on(req) {
        seq!["--enhance-compatibility"@]
    } else {
        flag_if(on(req, |a: AdvancedParams| a.skip_clean), "--skip-clean"@) + flag_if(
            on(req, |a: AdvancedParams| a.disable_rich_text_translate),
            "--disable-rich-text-translate"@,
        ) + flag_if(
            not_mono(req) && on(req, |a: AdvancedParams| a.dual_translate_first),
            "--dual-translate-first"@,
        )
    }
}

/// Exactly one OCR flag; unset reads as `Auto`.
pub open spec fn ocr_args(req: TranslateRequest) -> Seq<Seq<char>> {
    match adv(req, |a: AdvancedParams| a.ocr_mode) {
        Some(OcrMode::Off) => seq!["--skip-scanned-detection"@],
        Some(OcrMode::Force) => seq!["--ocr-workaround"@],
        _ => seq!["--auto-enable-ocr-workaround"@],
    }
}

/// Flags that every translation passes.
pub open spec fn fixed_args() -> Seq<Seq<char>> {
    seq!["--watermark-output-mode"@, "no_watermark"@, "--report-interval"@, "0.1"@]
}

/// Which PDFs to write.
pub open spec fn output_mode_args(req: TranslateRequest) -> Seq<Seq<char>> {
    match req.output_mode {
        OutputMode::Mono => seq!["--no-dual"@],
        OutputMode::Dual => seq!["--no-mono"@],
        OutputMode::Both => seq![],
    }
}

/// `flag value` when the string is set and not empty.
pub open spec fn text_pair(value: Option<String>, flag: Seq<char>) -> Seq<Seq<char>> {
    match value {
        Some(s) => if s@.len() > 0 {
            seq![flag, s@]
        } else {
            seq![]
        },
        None => seq![],
    }
}

/// `flag n` when the number is set.
pub open spec fn number_pair(value: Option<u32>, flag: Seq<char>) -> Seq<Seq<char>> {
    match value {
        Some(n) => seq![flag, decimal(n as nat)],
        None => seq![],
    }
}

/// The items of `files` joined with `,`.
pub open spec fn join_comma(files: Seq<Seq<char>>) -> Seq<char>
    decreases files.len(),
{
    if files.len() == 0 {
        seq![]
    } else if files.len() == 1 {
        files[0]
    } else {
        join_comma(files.drop_last()) + seq![','] + files.last()
    }
}

/// `--glossary-files a,b,...` when there is at least one glossary file.
pub open spec fn glossary_of(a: AdvancedParams) -> Seq<Seq<char>> {
    match a.glossary_files {
        Some(files) => if files@.len() > 0 {
            seq!["--glossary-files"@, join_comma(texts(files@))]
        } else {
            seq![]
        },
        None => seq![],
    }
}

/// The primary font, unless it is empty or `auto`.
pub open spec fn font_of(a: AdvancedParams) -> Seq<Seq<char>> {
    match a.primary_font_family {
        Some(f) => if f@.len() > 0 && f@ != "auto"@ {
            seq!["--primary-font-family"@, f@]
        } else {
            seq![]
        },
        None => seq![],
    }
}

/// Layout, scope and glossary options (`dual`: a side-by-side PDF is written).
pub open spec fn scope_of(a: AdvancedParams, dual: bool) -> Seq<Seq<char>> {
    flag_if(dual && a.use_alternating_pages_dual == Some(true), "--use-alternating-pages-dual"@)
        + text_pair(a.pages, "--pages"@) + number_pair(a.min_text_length, "--min-text-length"@)
        + number_pair(a.max_pages_per_part, "--max-pages-per-part"@) + glossary_of(a) + flag_if(
        a.no_auto_extract_glossary == Some(true),
        "--no-auto-extract-glossary"@,
    ) + flag_if(a.save_auto_extracted_glossary == Some(true), "--save-auto-extracted-glossary"@)
}

/// Font, layout-processing, cache and pool options.
pub open spec fn processing_of(a: AdvancedParams) -> Seq<Seq<char>> {
    font_of(a) + flag_if(a.translate_table_text == Some(true), "--translate-table-text"@)
        + flag_if(
        a.disable_graphic_element_process == Some(true),
        "--disable-graphic-element-process"@,
    ) + flag_if(
        a.no_merge_alternating_line_numbers == Some(true),
        "--no-merge-alternating-line-numbers"@,
    ) + flag_if(a.disable_same_text_fallback == Some(true), "--disable-same-text-fallback"@)
        + flag_if(a.ignore_cache == Some(true), "--ignore-cache"@) + number_pair(
        a.pool_max_workers,
        "--pool-max-workers"@,
    ) + number_pair(a.term_pool_max_workers, "--term-pool-max-workers"@)
}

/// Options of the OpenAI-compatible client.
pub open spec fn client_of(a: AdvancedParams) -> Seq<Seq<char>> {
    text_pair(a.custom_system_prompt, "--custom-system-prompt"@) + flag_if(
        a.no_send_temperature == Some(true),
        "--no-send-temperature"@,
    ) + flag_if(
        a.enable_json_mode_if_requested == Some(true),
        "--enable-json-mode-if-requested"@,
    ) + flag_if(a.send_dashscope_header == Some(true), "--send-dashscope-header"@) + text_pair(
        a.openai_reasoning,
        "--openai-reasoning"@,
    )
}

/// Everything after the output mode, in the order BabelDOC receives it; nothing when the
/// request has no advanced parameters.
pub open spec fn optional_args(req: TranslateRequest) -> Seq<Seq<char>> {
    match req.advanced {
        Some(a) => scope_of(a, not_mono(req)) + processing_of(a) + client_of(a),
        None => seq![],
    }
}

/// The BabelDOC argument list for `req` with the provider key `api_key`.
pub open spec fn translate_args(req: TranslateRequest, api_key: Seq<char>) -> Seq<Seq<char>> {
    base_args(req, api_key) + compat_args(req) + ocr_args(req) + fixed_args() + output_mode_args(
        req,
    ) + optional_args(req)
}

fn push_str(args: &mut Vec<String>, s: &str)
    ensures
        texts(final(args)@) == texts(old(args)@).push(s@),
{
    args.push(s.to_string());
    assert(texts(args@) =~= texts(old(args)@).push(s@));
}

fn push_flag_if(args: &mut Vec<String>, cond: bool, s: &str)
    ensures
        texts(final(args)@) == texts(old(args)@) + flag_if(cond, s@),
{
    if cond {
        push_str(args, s);
        assert(texts(old(args)@).push(s@) =~= texts(old(args)@) + seq![s@]);
    } else {
        assert(texts(old(args)@) =~= texts(old(args)@) + Seq::<Seq<char>>::empty());
    }
}

fn push_text_pair(args: &mut Vec<String>, value: &Option<String>, flag: &str)
    ensures
        texts(final(args)@) == texts(old(args)@) + text_pair(*value, flag@),
{
    match value {
        Some(s) => {
            if !s.as_str().is_empty() {
                push_str(args, flag);
                push_str(args, s.as_str());
                assert(texts(final(args)@) =~= texts(old(args)@) + seq![flag@, s@]);
            } else {
                assert(texts(old(args)@) =~= texts(old(args)@) + Seq::<
                    Seq<char>,
                >::empty());
            }
        },
        None => {
            assert(texts(old(args)@) =~= texts(old(args)@) + Seq::<
                Seq<char>,
            >::empty());
        },
    }
}

fn push_number_pair(args: &mut Vec<String>, value: Option<u32>, flag: &str)
    ensures
        texts(final(args)@) == texts(old(args)@) + number_pair(value, flag@),
{
    match value {
        Some(n) => {
            push_str(args, flag);
            let d = u32_to_string(n);
            push_str(args, d.as_str());
            assert(texts(final(args)@) =~= texts(old(args)@) + seq![
                flag@,
                decimal(n as nat),
            ]);
        },
        None => {
            assert(texts(old(args)@) =~= texts(old(args)@) + Seq::<
                Seq<char>,
            >::empty());
        },
    }
}

/// `files.join(",")`.
fn join_with_comma(files: &Vec<String>) -> (r: String)
    ensures
        r@ == join_comma(texts(files@)),
{
    let mut out = String::new();
    let mut i: usize = 0;
    while i < files.len()
        invariant
            i <= files.len(),
            out@ == join_comma(texts(files@).subrange(0, i as int)),
        decreases files.len() - i,
    {
        let ghost pre = texts(files@).subrange(0, i as int);
        let ghost next = texts(files@).subrange(0, i + 1);
        assert(next.drop_last() =~= pre);
        assert(next.last() == files@[i as int]@);
        if i > 0 {
            out.append(",");
            proof {
                reveal_strlit(",");
            }
        } else {
            assert(pre =~= Seq::<Seq<char>>::empty());
        }
        out.append(files[i].as_str());
        i = i + 1;
    }
    assert(texts(files@).subrange(0, files.len() as int) =~= texts(files@));
    out
}

fn push_base(args: &mut Vec<String>, req: &TranslateRequest, api_key: &str)
    requires
        req.pdf_paths.len() >= 1,
    ensures
        texts(final(args)@) == texts(old(args)@) + base_args(*req, api_key@),
{
    push_str(args, "--files");
    push_str(args, req.pdf_paths[0].as_str());
    push_str(args, "--output");
    push_str(args, req.output_dir.as_str());
    push_str(args, "--lang-in");
    push_str(args, req.lang_in.as_str());
    push_str(args, "--lang-out");
    push_str(args, req.lang_out.as_str());
    push_str(args, "--openai");
    push_str(args, "--openai-model");
    push_str(args, req.provider.model.as_str());
    push_str(args, "--openai-base-url");
    push_str(args, req.provider.base_url.as_str());
    push_str(args, "--openai-api-key");
    push_str(args, api_key);
    push_str(args, "--qps");
    let q = u32_to_string(req.qps);
    push_str(args, q.as_str());
    assert(texts(final(args)@) =~= texts(old(args)@) + base_args(*req, api_key@));
}

fn flag_on(o: Option<bool>) -> (r: bool)
    ensures
        r == (o == Some(true)),
{
    match o {
        Some(b) => b,
        None => false,
    }
}

fn push_compat(args: &mut Vec<String>, req: &TranslateRequest)
    ensures
        texts(final(args)@) == texts(old(args)@) + compat_args(*req),
{
    let enhance = match &req.advanced {
        Some(a) => match a.enhance_compatibility {
            Some(b) => b,
            None => true,
        },
        None => true,
    };
    if enhance {
        push_str(args, "--enhance-compatibility");
        assert(texts(final(args)@) =~= texts(old(args)@) + compat_args(*req));
    } else {
        let a = req.advanced.as_ref().unwrap();
        let ghost mid0 = texts(args@);
        push_flag_if(args, flag_on(a.skip_clean), "--skip-clean");
        push_flag_if(args, flag_on(a.disable_rich_text_translate), "--disable-rich-text-translate");
        let not_mono = req.output_mode != OutputMode::Mono;
        push_flag_if(args, not_mono && flag_on(a.dual_translate_first), "--dual-translate-first");
        assert(texts(final(args)@) =~= texts(old(args)@) + compat_args(*req));
    }
}

fn push_ocr(args: &mut Vec<String>, req: &TranslateRequest)
    ensures
        texts(final(args)@) == texts(old(args)@) + ocr_args(*req),
{
    let mode = match &req.advanced {
        Some(a) => match a.ocr_mode {
            Some(m) => m,
            None => OcrMode::Auto,
        },
        None => OcrMode::Auto,
    };
    match mode {
        OcrMode::Auto => push_str(args, "--auto-enable-ocr-workaround"),
        OcrMode::Off => push_str(args, "--skip-scanned-detection"),
        OcrMode::Force => push_str(args, "--ocr-workaround"),
    }
    assert(texts(final(args)@) =~= texts(old(args)@) + ocr_args(*req));
}

fn push_fixed_and_mode(args: &mut Vec<String>, req: &TranslateRequest)
    ensures
        texts(final(args)@) == texts(old(args)@) + fixed_args() + output_mode_args(
            *req,
        ),
{
    push_str(args, "--watermark-output-mode");
    push_str(args, "no_watermark");
    push_str(args, "--report-interval");
    push_str(args, "0.1");
    match req.output_mode {
        OutputMode::Mono => push_str(args, "--no-dual"),
        OutputMode::Dual => push_str(args, "--no-mono"),
        OutputMode::Both => {},
    }
    assert(texts(final(args)@) =~= texts(old(args)@) + fixed_args()
        + output_mode_args(*req));
}

fn push_glossary(args: &mut Vec<String>, a: &AdvancedParams)
    ensures
        texts(final(args)@) == texts(old(args)@) + glossary_of(*a),
{
    match &a.glossary_files {
        Some(files) => {
            if files.len() > 0 {
                push_str(args, "--glossary-files");
                let joined = join_with_comma(files);
                push_str(args, joined.as_str());
                assert(texts(final(args)@) =~= texts(old(args)@) + glossary_of(*a));
            } else {
                assert(texts(old(args)@) =~= texts(old(args)@) + glossary_of(*a));
            }
        },
        None => {
            assert(texts(old(args)@) =~= texts(old(args)@) + glossary_of(*a));
        },
    }
}

fn push_font(args: &mut Vec<String>, a: &AdvancedParams)
    ensures
        texts(final(args)@) == texts(old(args)@) + font_of(*a),
{
    match &a.primary_font_family {
        Some(f) => {
            let nonempty = !f.as_str().is_empty();
            if nonempty && !str_eq(f.as_str(), "auto") {
                push_str(args, "--primary-font-family");
                push_str(args, f.as_str());
                assert(texts(final(args)@) =~= texts(old(args)@) + font_of(*a));
            } else {
                assert(texts(old(args)@) =~= texts(old(args)@) + font_of(*a));
            }
        },
        None => {
            assert(texts(old(args)@) =~= texts(old(args)@) + font_of(*a));
        },
    }
}

fn push_scope(args: &mut Vec<String>, a: &AdvancedParams, dual: bool)
    ensures
        texts(final(args)@) == texts(old(args)@) + scope_of(*a, dual),
{
    let ghost v0 = texts(args@);
    push_flag_if(args, dual && flag_on(a.use_alternating_pages_dual), "--use-alternating-pages-dual");
    let ghost acc = flag_if(dual && a.use_alternating_pages_dual == Some(true), "--use-alternating-pages-dual"@);
    push_text_pair(args, &a.pages, "--pages");
    proof {
        vstd::seq_lib::lemma_concat_associative(v0, acc, text_pair(a.pages, "--pages"@));
        acc = acc + text_pair(a.pages, "--pages"@);
    }
    push_number_pair(args, a.min_text_length, "--min-text-length");
    proof {
        let seg = number_pair(a.min_text_length, "--min-text-length"@);
        vstd::seq_lib::lemma_concat_associative(v0, acc, seg);
        acc = acc + seg;
    }
    push_number_pair(args, a.max_pages_per_part, "--max-pages-per-part");
    proof {
        let seg = number_pair(a.max_pages_per_part, "--max-pages-per-part"@);
        vstd::seq_lib::lemma_concat_associative(v0, acc, seg);
        acc = acc + seg;
    }
    push_glossary(args, a);
    proof {
        let seg = glossary_of(*a);
        vstd::seq_lib::lemma_concat_associative(v0, acc, seg);
        acc = acc + seg;
    }
    push_flag_if(args, flag_on(a.no_auto_extract_glossary), "--no-auto-extract-glossary");
    proof {
        let seg = flag_if(a.no_auto_extract_glossary == Some(true), "--no-auto-extract-glossary"@);
        vstd::seq_lib::lemma_concat_associative(v0, acc, seg);
        acc = acc + seg;
    }
    push_flag_if(args, flag_on(a.save_auto_extracted_glossary), "--save-auto-extracted-glossary");
    proof {
        let seg = flag_if(
            a.save_auto_extracted_glossary == Some(true),
            "--save-auto-extracted-glossary"@,
        );
        vstd::seq_lib::lemma_concat_associative(v0, acc, seg);
        acc = acc + seg;
    }
}

fn push_processing(args: &mut Vec<String>, a: &AdvancedParams)
    ensures
        texts(final(args)@) == texts(old(args)@) + processing_of(*a),
{
    let ghost v0 = texts(args@);
    push_font(args, a);
    let ghost acc = font_of(*a);
    push_flag_if(args, flag_on(a.translate_table_text), "--translate-table-text");
    proof {
        let seg = flag_if(a.translate_table_text == Some(true), "--translate-table-text"@);
        vstd::seq_lib::lemma_concat_associative(v0, acc, seg);
        acc = acc + seg;
    }
    push_flag_if(args, flag_on(a.disable_graphic_element_process), "--disable-graphic-element-process");
    proof {
        let seg = flag_if(
            a.disable_graphic_element_process == Some(true),
            "--disable-graphic-element-process"@,
        );
        vstd::seq_lib::lemma_concat_associative(v0, acc, seg);
        acc = acc + seg;
    }
    push_flag_if(args, flag_on(a.no_merge_alternating_line_numbers), "--no-merge-alternating-line-numbers");
    proof {
        let seg = flag_if(
            a.no_merge_alternating_line_numbers == Some(true),
            "--no-merge-alternating-line-numbers"@,
        );
        vstd::seq_lib::lemma_concat_associative(v0, acc, seg);
        acc = acc + seg;
    }
    push_flag_if(args, flag_on(a.disable_same_text_fallback), "--disable-same-text-fallback");
    proof {
        let seg = flag_if(a.disable_same_text_fallback == Some(true), "--disable-same-text-fallback"@);
        vstd::seq_lib::lemma_concat_associative(v0, acc, seg);
        acc = acc + seg;
    }
    push_flag_if(args, flag_on(a.ignore_cache), "--ignore-cache");
    proof {
        let seg = flag_if(a.ignore_cache == Some(true), "--ignore-cache"@);
        vstd::seq_lib::lemma_concat_associative(v0, acc, seg);
        acc = acc + seg;
    }
    push_number_pair(args, a.pool_max_workers, "--pool-max-workers");
    proof {
        let seg = number_pair(a.pool_max_workers, "--pool-max-workers"@);
        vstd::seq_lib::lemma_concat_associative(v0, acc, seg);
        acc = acc + seg;
    }
    push_number_pair(args, a.term_pool_max_workers, "--term-pool-max-workers");
    proof {
        let seg = number_pair(a.term_pool_max_workers, "--term-pool-max-workers"@);
        vstd::seq_lib::lemma_concat_associative(v0, acc, seg);
        acc = acc + seg;
    }
}

fn push_client(args: &mut Vec<String>, a: &AdvancedParams)
    ensures
        texts(final(args)@) == texts(old(args)@) + client_of(*a),
{
    push_text_pair(args, &a.custom_system_prompt, "--custom-system-prompt");
    push_flag_if(args, flag_on(a.no_send_temperature), "--no-send-temperature");
    push_flag_if(
        args,
        flag_on(a.enable_json_mode_if_requested),
        "--enable-json-mode-if-requested",
    );
    push_flag_if(args, flag_on(a.send_dashscope_header), "--send-dashscope-header");
    push_text_pair(args, &a.openai_reasoning, "--openai-reasoning");
    assert(texts(final(args)@) =~= texts(old(args)@) + client_of(*a));
}

fn push_optional(args: &mut Vec<String>, req: &TranslateRequest)
    ensures
        texts(final(args)@) == texts(old(args)@) + optional_args(*req),
{
    match &req.advanced {
        None => {
            assert(texts(old(args)@) =~= texts(old(args)@) + optional_args(*req));
        },
        Some(a) => {
            let dual = req.output_mode != OutputMode::Mono;
            push_scope(args, a, dual);
            push_processing(args, a);
            push_client(args, a);
            assert(texts(final(args)@) =~= texts(old(args)@) + optional_args(
                *req,
            ));
        },
    }
}

/// The argument list opens with the input PDF, the output directory, the two languages and
/// the OpenAI-compatible provider (model, base URL, key) and the QPS, in that order. Then
/// comes `--enhance-compatibility` unless it is switched off, and a mono-only run never
/// asks for `--dual-translate-first`. Then exactly one OCR flag: `--skip-scanned-detection`
/// when OCR is off, `--ocr-workaround` when it is forced, `--auto-enable-ocr-workaround`
/// otherwise.
pub proof fn law_command_line_layout(req: TranslateRequest, api_key: Seq<char>)
    ensures
        ({
            let args = translate_args(req, api_key);
            let c = compat_args(req).len() as int;
            let compat_off = req.advanced matches Some(a) && a.enhance_compatibility == Some(
                false,
            );
            let ocr = if req.advanced is Some {
                req.advanced->0.ocr_mode
            } else {
                None
            };
            &&& args.len() > 17 + c
            &&& args.take(17) == seq![
                "--files"@,
                req.pdf_paths@[0]@,
                "--output"@,
                req.output_dir@,
                "--lang-in"@,
                req.lang_in@,
                "--lang-out"@,
                req.lang_out@,
                "--openai"@,
                "--openai-model"@,
                req.provider.model@,
                "--openai-base-url"@,
                req.provider.base_url@,
                "--openai-api-key"@,
                api_key,
                "--qps"@,
                decimal(req.qps as nat),
            ]
            &&& !compat_off ==> c == 1 && args[17] == "--enhance-compatibility"@
            &&& req.output_mode is Mono ==> !compat_args(req).contains("--dual-translate-first"@)
            &&& ocr == Some(OcrMode::Off) ==> args[17 + c] == "--skip-scanned-detection"@
            &&& ocr == Some(OcrMode::Force) ==> args[17 + c] == "--ocr-workaround"@
            &&& ocr != Some(OcrMode::Off) && ocr != Some(OcrMode::Force) ==> args[17 + c]
                == "--auto-enable-ocr-workaround"@
        }),
{
    let args = translate_args(req, api_key);
    let base = base_args(req, api_key);
    assert(base.len() == 17);
    assert(args =~= base + compat_args(req) + ocr_args(req) + fixed_args() + output_mode_args(req)
        + optional_args(req));
    assert(args.take(17) =~= base);
    let c = compat_args(req).len() as int;
    assert(args[17 + c] == ocr_args(req)[0]);
    if compat_args(req).len() > 0 {
        assert(args[17] == compat_args(req)[0]);
    }
    if req.output_mode is Mono && !compat_bundle_on(req) {
        reveal_strlit("--skip-clean");
        reveal_strlit("--disable-rich-text-translate");
        reveal_strlit("--dual-translate-first");
        let a = flag_if(on(req, |a: AdvancedParams| a.skip_clean), "--skip-clean"@);
        let b = flag_if(
            on(req, |a: AdvancedParams| a.disable_rich_text_translate),
            "--disable-rich-text-translate"@,
        );
        assert(compat_args(req) =~= a + b);
        assert forall|i: int| 0 <= i < compat_args(req).len() implies compat_args(req)[i]
            != "--dual-translate-first"@ by {
            assert(compat_args(req)[i].len() != "--dual-translate-first"@.len());
        }
    }
    if compat_bundle_on(req) {
        reveal_strlit("--enhance-compatibility");
        reveal_strlit("--dual-translate-first");
        assert(compat_args(req)[0].len() != "--dual-translate-first"@.len());
    }
}

/// The output mode decides the flag that follows the fixed `--report-interval 0.1`: a
/// dual-only run passes `--no-mono` there, a mono-only run `--no-dual`, and a run that
/// writes both PDFs passes neither, going straight on to the optional arguments.
pub proof fn law_mode_flag_suppresses_the_unwanted_pdf(req: TranslateRequest, api_key: Seq<char>)
    ensures
        ({
            let args = translate_args(req, api_key);
            let n = (base_args(req, api_key) + compat_args(req) + ocr_args(req)).len() as int;
            &&& args.len() >= n + 4
            &&& args.subrange(n, n + 4) == seq![
                "--watermark-output-mode"@,
                "no_watermark"@,
                "--report-interval"@,
                "0.1"@,
            ]
            &&& req.output_mode is Dual ==> args.len() >= n + 5 && args[n + 4] == "--no-mono"@
                && args.subrange(n + 5, args.len() as int) == optional_args(req)
            &&& req.output_mode is Mono ==> args.len() >= n + 5 && args[n + 4] == "--no-dual"@
                && args.subrange(n + 5, args.len() as int) == optional_args(req)
            &&& req.output_mode is Both ==> args.subrange(n + 4, args.len() as int)
                == optional_args(req)
        }),
{
    let pre = base_args(req, api_key) + compat_args(req) + ocr_args(req);
    let args = translate_args(req, api_key);
    let n = pre.len() as int;
    assert(args =~= pre + fixed_args() + output_mode_args(req) + optional_args(req));
    assert(args.subrange(n, n + 4) =~= fixed_args());
    let m = output_mode_args(req).len() as int;
    assert(args.subrange(n + 4 + m, args.len() as int) =~= optional_args(req));
    if m > 0 {
        assert(args[n + 4] == output_mode_args(req)[0]);
    }
}

/// Build the BabelDOC argument vector. The API key travels as `--openai-api-key`.
///
/// With `req.advanced` unset, or with every advanced field unset, the list is exactly the
/// historical one: the compatibility bundle, automatic OCR, no watermark, and nothing else
/// beyond the output mode.
pub fn build_args(req: &TranslateRequest, api_key: &str) -> (args: Vec<String>)
    requires
        req.pdf_paths.len() >= 1,
    ensures
        texts(args@) == translate_args(*req, api_key@),
{
    let mut args: Vec<String> = Vec::new();
    push_base(&mut args, req, api_key);
    push_compat(&mut args, req);
    push_ocr(&mut args, req);
    push_fixed_and_mode(&mut args, req);
    push_optional(&mut args, req);
    assert(texts(args@) =~= translate_args(*req, api_key@));
    args
}

} // verus!
