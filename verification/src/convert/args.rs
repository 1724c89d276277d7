//! Which inputs a conversion accepts, where its Markdown goes, and the markitdown command
//! line.
use vstd::prelude::*;

use crate::error::{AppError, AppResult, ErrorView, unit_result_view};
use crate::paths::{extension, lower_extension};
use crate::text::{
    chars_of, decimal, digit_char, has_prefix, is_blank, lower_chars, lower_seq, trim, u32_to_string,
    vec_eq, vec_starts_with,
};

verus! {

/// The file types a conversion accepts (lower case, without the dot).
pub const ALLOWED_EXTENSIONS: [&'static str; 5] = ["pdf", "docx", "pptx", "xlsx", "xls"];

pub open spec fn allowed_extension(e: Seq<char>) -> bool {
    ||| e == "pdf"@
    ||| e == "docx"@
    ||| e == "pptx"@
    ||| e == "xlsx"@
    ||| e == "xls"@
}

/// True when `path` has a whitelisted extension (case-insensitive).
pub fn is_allowed_extension(path: &str) -> (r: bool)
    ensures
        r == (extension(path@) matches Some(e) && allowed_extension(lower_seq(e))),
{
    match lower_extension(path) {
        None => false,
        Some(e) => {
            vec_eq(&e, &chars_of("pdf")) || vec_eq(&e, &chars_of("docx")) || vec_eq(
                &e,
                &chars_of("pptx"),
            ) || vec_eq(&e, &chars_of("xlsx")) || vec_eq(&e, &chars_of("xls"))
        },
    }
}

/// A remote scheme (already lower-cased).
pub open spec fn is_remote(lower: Seq<char>) -> bool {
    ||| has_prefix(lower, "http://"@)
    ||| has_prefix(lower, "https://"@)
    ||| has_prefix(lower, "ftp://"@)
    ||| has_prefix(lower, "file://"@)
}

/// Not blank and without a remote scheme.
pub open spec fn local_path(path: Seq<char>) -> bool {
    trim(path).len() > 0 && !is_remote(lower_seq(trim(path)))
}

/// Reject remote schemes; only local paths are accepted.
pub fn is_local_path(path: &str) -> (r: bool)
    ensures
        r == local_path(path@),
{
    let trimmed = crate::text::trim_str(path);
    if trimmed.as_str().is_empty() {
        return false;
    }
    let lower = lower_chars(trimmed.as_str());
    if vec_starts_with(&lower, &chars_of("http://")) || vec_starts_with(&lower, &chars_of("https://"))
        || vec_starts_with(&lower, &chars_of("ftp://")) || vec_starts_with(
        &lower,
        &chars_of("file://"),
    ) {
        return false;
    }
    true
}

/// The message for a file type outside the whitelist.
pub open spec fn unsupported_type_text() -> Seq<char> {
    "不支持的文件类型，仅支持: .pdf / .docx / .pptx / .xlsx / .xls"@
}

pub fn unsupported_type_message() -> (r: String)
    ensures
        r@ == unsupported_type_text(),
{
    "不支持的文件类型，仅支持: .pdf / .docx / .pptx / .xlsx / .xls".to_string()
}

/// The checks on an input file and an output directory before the output path is chosen:
/// a local input, of an allowed type, and an output directory that is given and local.
pub open spec fn output_request_check(input: Seq<char>, output_dir: Seq<char>) -> Result<
    (),
    ErrorView,
> {
    if !local_path(input) {
        Err(ErrorView::InvalidInput("仅支持本地文件路径，不支持远程 URI"@))
    } else if !(extension(input) matches Some(e) && allowed_extension(lower_seq(e))) {
        Err(ErrorView::InvalidInput(unsupported_type_text()))
    } else if trim(output_dir).len() == 0 {
        Err(ErrorView::InvalidInput("请选择输出目录"@))
    } else if !local_path(output_dir) {
        Err(ErrorView::InvalidInput("输出目录必须是本地路径"@))
    } else {
        Ok(())
    }
}

/// The input and output of a conversion pass the checks exactly when the input is a
/// non-blank local path with one of the extensions `pdf`, `docx`, `pptx`, `xlsx`, `xls`
/// (whatever the case), and the output directory is a non-blank local path; remote means
/// starting with `http://`, `https://`, `ftp://` or `file://` after trimming, whatever the case.
pub proof fn law_output_request_needs_local_paths(input: Seq<char>, output_dir: Seq<char>)
    ensures
        output_request_check(input, output_dir) is Ok <==> {
            let li = lower_seq(trim(input));
            let lo = lower_seq(trim(output_dir));
            &&& trim(input).len() > 0
            &&& !has_prefix(li, "http://"@) && !has_prefix(li, "https://"@) && !has_prefix(
                li,
                "ftp://"@,
            ) && !has_prefix(li, "file://"@)
            &&& extension(input) matches Some(e) && {
                let l = lower_seq(e);
                l == "pdf"@ || l == "docx"@ || l == "pptx"@ || l == "xlsx"@ || l == "xls"@
            }
            &&& trim(output_dir).len() > 0
            &&& !has_prefix(lo, "http://"@) && !has_prefix(lo, "https://"@) && !has_prefix(
                lo,
                "ftp://"@,
            ) && !has_prefix(lo, "file://"@)
        },
{
}

/// Validate the input file and the output directory of a conversion.
pub fn check_output_request(input_path: &str, output_dir: &str) -> (r: AppResult<()>)
    ensures
        unit_result_view(r) == output_request_check(input_path@, output_dir@),
{
    if !is_local_path(input_path) {
        return Err(AppError::InvalidInput("仅支持本地文件路径，不支持远程 URI".to_string()));
    }
    if !is_allowed_extension(input_path) {
        return Err(AppError::InvalidInput(unsupported_type_message()));
    }
    if is_blank(output_dir) {
        return Err(AppError::InvalidInput("请选择输出目录".to_string()));
    }
    if !is_local_path(output_dir) {
        return Err(AppError::InvalidInput("输出目录必须是本地路径".to_string()));
    }
    Ok(())
}

/// `n` written with at least three digits, zero-padded (`{:03}`).
pub open spec fn pad3(n: nat) -> Seq<char> {
    if n < 10 {
        "00"@ + decimal(n)
    } else if n < 100 {
        "0"@ + decimal(n)
    } else {
        decimal(n)
    }
}

/// The Markdown file name for `stem`: `{stem}.md`; with a time stamp
/// `{stem}-{stamp}.md`; with a stamp and milliseconds `{stem}-{stamp}-{millis:03}.md`.
pub open spec fn output_name(stem: Seq<char>, stamp: Option<Seq<char>>, millis: Option<u32>) -> Seq<
    char,
> {
    match stamp {
        None => stem + ".md"@,
        Some(s) => match millis {
            None => stem + "-"@ + s + ".md"@,
            Some(m) => stem + "-"@ + s + "-"@ + pad3(m as nat) + ".md"@,
        },
    }
}

/// The milliseconds in a name are always three digits, zero-padded: `{stem}-{stamp}-{mmm}.md`
/// with the hundreds, tens and units of the milliseconds (below 1000).
pub proof fn law_millis_padded_to_three_digits(stem: Seq<char>, stamp: Seq<char>, m: u32)
    requires
        m < 1000,
    ensures
        output_name(stem, Some(stamp), Some(m)) == stem + "-"@ + stamp + "-"@ + seq![
            digit_char((m / 100) as nat),
            digit_char(((m / 10) % 10) as nat),
            digit_char((m % 10) as nat),
        ] + ".md"@,
{
    reveal_strlit("00");
    reveal_strlit("0");
    let n = m as nat;
    let d = seq![digit_char(n / 100), digit_char((n / 10) % 10), digit_char(n % 10)];
    if n < 10 {
        assert(decimal(n) == seq![digit_char(n)]);
        assert(pad3(n) =~= d);
    } else if n < 100 {
        assert(decimal(n / 10) == seq![digit_char(n / 10)]);
        assert(decimal(n) == decimal(n / 10) + seq![digit_char(n % 10)]);
        assert(pad3(n) =~= d);
    } else {
        assert(decimal((n / 10) / 10) == seq![digit_char((n / 10) / 10)]);
        assert(decimal(n / 10) == decimal((n / 10) / 10) + seq![digit_char((n / 10) % 10)]);
        assert(decimal(n) == decimal(n / 10) + seq![digit_char(n % 10)]);
        assert((n / 10) / 10 == n / 100);
        assert(pad3(n) =~= d);
    }
}

/// The output file name: plain first; stamped when the plain name is taken; stamped with
/// milliseconds when that is taken too. An existing file is never overwritten.
pub fn output_file_name(stem: &str, stamp: Option<&str>, millis: Option<u32>) -> (r: String)
    ensures
        r@ == output_name(
            stem@,
            match stamp {
                Some(s) => Some(s@),
                None => None,
            },
            millis,
        ),
{
    let mut name = stem.to_string();
    match stamp {
        None => {},
        Some(s) => {
            name.append("-");
            name.append(s);
            match millis {
                None => {},
                Some(m) => {
                    name.append("-");
                    if m < 10 {
                        name.append("00");
                    } else if m < 100 {
                        name.append("0");
                    }
                    let d = u32_to_string(m);
                    name.append(d.as_str());
                },
            }
        },
    }
    name.append(".md");
    proof {
        reveal_strlit("00");
        reveal_strlit("0");
    }
    name
}

/// The output name to use, given which candidates are taken: the plain name when it is
/// free, else the stamped one when that is free, else the stamped one with milliseconds when
/// that is free; nothing when all three are taken.
pub open spec fn picked_name(
    stem: Seq<char>,
    stamp: Seq<char>,
    millis: u32,
    plain_taken: bool,
    stamped_taken: bool,
    millis_taken: bool,
) -> Option<Seq<char>> {
    if !plain_taken {
        Some(output_name(stem, None, None))
    } else if !stamped_taken {
        Some(output_name(stem, Some(stamp), None))
    } else if !millis_taken {
        Some(output_name(stem, Some(stamp), Some(millis)))
    } else {
        None
    }
}

/// Choose the output file name, given whether the plain, the stamped and the
/// stamped-with-milliseconds names are taken; `None` asks the caller to try again with a
/// later time.
pub fn pick_output_name(
    stem: &str,
    stamp: &str,
    millis: u32,
    plain_taken: bool,
    stamped_taken: bool,
    millis_taken: bool,
) -> (r: Option<String>)
    ensures
        crate::text::opt_text(r) == picked_name(
            stem@,
            stamp@,
            millis,
            plain_taken,
            stamped_taken,
            millis_taken,
        ),
{
    if !plain_taken {
        Some(output_file_name(stem, None, None))
    } else if !stamped_taken {
        Some(output_file_name(stem, Some(stamp), None))
    } else if !millis_taken {
        Some(output_file_name(stem, Some(stamp), Some(millis)))
    } else {
        None
    }
}

/// The chosen output name is never one known to be taken, so an existing file is never
/// overwritten; a name is chosen whenever one of the three is free.
pub proof fn law_picked_name_is_free(
    stem: Seq<char>,
    stamp: Seq<char>,
    millis: u32,
    plain_taken: bool,
    stamped_taken: bool,
    millis_taken: bool,
)
    ensures
        picked_name(stem, stamp, millis, plain_taken, stamped_taken, millis_taken) matches Some(n)
            ==> (plain_taken ==> n != output_name(stem, None, None)) && (stamped_taken ==> n
            != output_name(stem, Some(stamp), None)) && (millis_taken ==> n != output_name(
            stem,
            Some(stamp),
            Some(millis),
        )),
        picked_name(stem, stamp, millis, plain_taken, stamped_taken, millis_taken) is None <==> (
        plain_taken && stamped_taken && millis_taken),
{
    law_output_names_distinct(stem, stamp, millis);
}

/// The plain, the stamped and the stamped-with-milliseconds output names of a stem are
/// pairwise distinct.
pub proof fn law_output_names_distinct(stem: Seq<char>, stamp: Seq<char>, millis: u32)
    ensures
        output_name(stem, None, None) != output_name(stem, Some(stamp), None),
        output_name(stem, None, None) != output_name(stem, Some(stamp), Some(millis)),
        output_name(stem, Some(stamp), None) != output_name(stem, Some(stamp), Some(millis)),
{
    reveal_strlit(".md");
    reveal_strlit("-");
    assert(output_name(stem, None, None).len() < output_name(stem, Some(stamp), None).len());
    assert(output_name(stem, Some(stamp), None).len() < output_name(
        stem,
        Some(stamp),
        Some(millis),
    ).len());
}

/// Build the markitdown argv: `[input, "-o", output]`.
pub fn build_args(input_path: &str, output_path: &str) -> (r: Vec<String>)
    ensures
        r@.len() == 3,
        r@[0]@ == input_path@,
        r@[1]@ == "-o"@,
        r@[2]@ == output_path@,
{
    let mut v: Vec<String> = Vec::new();
    v.push(input_path.to_string());
    v.push("-o".to_string());
    v.push(output_path.to_string());
    v
}

} // verus!
