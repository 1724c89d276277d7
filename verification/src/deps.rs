//! The calls that PageWeave makes into `regex`, `encoding_rs`, `serde_json`, `chrono`, `uuid`
//! and into the parts of std that vstd does not describe. Each function here is trusted: Verus
//! believes its contract and does not read its body.
use vstd::prelude::*;
use vstd::utf8::*;

use crate::ids::{lower_hex_digit, rfc3339_form};
use crate::text::opt_text;

verus! {

/// The text of each capture group, as plain character sequences.
pub open spec fn groups_view(g: Vec<Option<String>>) -> Seq<Option<Seq<char>>> {
    g@.map_values(
        |o: Option<String>|
            match o {
                Some(s) => Some(s@),
                None => None,
            },
    )
}

/// What `Regex::new(pattern)` followed by `Regex::captures(text)` gives: for the leftmost-first
/// match of `pattern` in `text`, the text of every capture group in order (group 0 being the
/// whole match, `None` for a group that took no part in it); `None` where nothing matches or
/// the pattern does not compile.
pub uninterp spec fn regex_captures(pattern: Seq<char>, text: Seq<char>) -> Option<
    Seq<Option<Seq<char>>>,
>;

/// What `Regex::new(pattern)` followed by `Regex::captures_iter(text)` gives: the capture
/// groups of each successive non-overlapping match, in the form of `regex_captures`;
/// `None` where the pattern does not compile.
pub uninterp spec fn regex_captures_iter(pattern: Seq<char>, text: Seq<char>) -> Option<
    Seq<Seq<Option<Seq<char>>>>,
>;

/// What `Regex::new(pattern)` followed by `Regex::replace_all(text, rep)` gives (with `$n`
/// in `rep` standing for group `n`); `None` where the pattern does not compile.
pub uninterp spec fn regex_replace_all(pattern: Seq<char>, text: Seq<char>, rep: Seq<char>) -> Option<
    Seq<char>,
>;

/// What `Regex::new(pattern)` followed by `Regex::replace(text, rep)` gives: `text` with its
/// first match replaced; `None` where the pattern does not compile.
pub uninterp spec fn regex_replace_first(pattern: Seq<char>, text: Seq<char>, rep: Seq<char>) -> Option<
    Seq<char>,
>;

/// What `encoding_rs::GBK.decode(bytes)` gives back as text (a leading byte-order mark selects
/// its own encoding; malformed sequences become U+FFFD).
pub uninterp spec fn gbk_decode(bytes: Seq<u8>) -> Seq<char>;

/// What `String::from_utf8_lossy(bytes)` gives: the text of `bytes` with each malformed
/// sequence replaced by U+FFFD.
pub uninterp spec fn utf8_lossy_decode(bytes: Seq<u8>) -> Seq<char>;

/// What `serde_json::from_str::<serde_json::Value>(text)` reads as an error body: the
/// string at `error.message` and the string at the top-level `message` (each `None` when
/// absent or not a string); `None` where `text` is not JSON.
pub uninterp spec fn json_error_fields_of(text: Seq<char>) -> Option<
    (Option<Seq<char>>, Option<Seq<char>>),
>;

/// What `serde_json::from_str::<serde_json::Value>(text)` reads as a model list: for each
/// element of the top-level `data` array, its `id` when that is a string; `None` where
/// `text` is not JSON or has no `data` array.
pub uninterp spec fn json_model_ids_of(text: Seq<char>) -> Option<Seq<Option<Seq<char>>>>;

/// Whether std's `char::is_alphabetic` holds of `c` (the Unicode `Alphabetic` property).
pub uninterp spec fn char_alphabetic(c: char) -> bool;

/// `regex::Regex::captures` (the pattern compiled by `Regex::new`). The contract claims only
/// that the result is the one named `regex_captures` for these arguments.
#[verifier::external_body]
pub(crate) fn re_captures(pattern: &str, text: &str) -> (r: Option<Vec<Option<String>>>)
    ensures
        match r {
            Some(g) => regex_captures(pattern@, text@) == Some(groups_view(g)),
            None => regex_captures(pattern@, text@) is None,
        },
{
    let re = regex::Regex::new(pattern).ok()?;
    let caps = re.captures(text)?;
    Some(caps.iter().map(|m| m.map(|m| m.as_str().to_string())).collect())
}

/// `regex::Regex::captures_iter` (the pattern compiled by `Regex::new`). The contract claims
/// only that the result is the one named `regex_captures_iter` for these arguments.
#[verifier::external_body]
pub(crate) fn re_captures_iter(pattern: &str, text: &str) -> (r: Option<Vec<Vec<Option<String>>>>)
    ensures
        match r {
            Some(all) => regex_captures_iter(pattern@, text@) == Some(
                all@.map_values(|g: Vec<Option<String>>| groups_view(g)),
            ),
            None => regex_captures_iter(pattern@, text@) is None,
        },
{
    let re = regex::Regex::new(pattern).ok()?;
    Some(
        re.captures_iter(text).map(
            |c| c.iter().map(|m| m.map(|m| m.as_str().to_string())).collect(),
        ).collect(),
    )
}

/// `regex::Regex::replace_all` (the pattern compiled by `Regex::new`). The contract claims
/// only that the result is the one named `regex_replace_all` for these arguments.
#[verifier::external_body]
pub(crate) fn re_replace_all(pattern: &str, text: &str, rep: &str) -> (r: Option<String>)
    ensures
        match r {
            Some(s) => regex_replace_all(pattern@, text@, rep@) == Some(s@),
            None => regex_replace_all(pattern@, text@, rep@) is None,
        },
{
    let re = regex::Regex::new(pattern).ok()?;
    Some(re.replace_all(text, rep).into_owned())
}

/// `regex::Regex::replace` (the pattern compiled by `Regex::new`). The contract claims only
/// that the result is the one named `regex_replace_first` for these arguments.
#[verifier::external_body]
pub(crate) fn re_replace_first(pattern: &str, text: &str, rep: &str) -> (r: Option<String>)
    ensures
        match r {
            Some(s) => regex_replace_first(pattern@, text@, rep@) == Some(s@),
            None => regex_replace_first(pattern@, text@, rep@) is None,
        },
{
    let re = regex::Regex::new(pattern).ok()?;
    Some(re.replace(text, rep).into_owned())
}

/// `encoding_rs::Encoding::decode` on `GBK`. The contract claims only that the text is the
/// one named `gbk_decode` for these bytes.
#[verifier::external_body]
pub(crate) fn gbk_decode_bytes(bytes: &[u8]) -> (r: String)
    ensures
        r@ == gbk_decode(bytes@),
{
    let (text, _, _) = encoding_rs::GBK.decode(bytes);
    text.into_owned()
}

/// std's `std::str::from_utf8`: it succeeds exactly on well-formed UTF-8, and then the text
/// is what those bytes encode.
#[verifier::external_body]
pub(crate) fn utf8_decode(bytes: &[u8]) -> (r: Option<String>)
    ensures
        r is Some <==> valid_utf8(bytes@),
        r matches Some(s) ==> s@ == decode_utf8(bytes@),
{
    std::str::from_utf8(bytes).ok().map(|s| s.to_string())
}

/// std's `char::is_alphabetic`. The contract claims only that the answer is the one named
/// `char_alphabetic`.
#[verifier::external_body]
pub(crate) fn is_alphabetic(c: char) -> (r: bool)
    ensures
        r == char_alphabetic(c),
{
    c.is_alphabetic()
}

/// `chrono::Local::now()` written by `DateTime::to_rfc3339`. The time depends on the clock
/// and the time zone; the contract states only the form every such text takes (chrono's
/// `write_rfc3339` with automatic sub-second digits and a numeric offset).
#[verifier::external_body]
pub(crate) fn now_rfc3339() -> (r: String)
    ensures
        rfc3339_form(r@),
{
    chrono::Local::now().to_rfc3339()
}

/// `uuid::Uuid::new_v4()` written in its `simple` form: 32 lowercase hexadecimal digits.
/// The value is random; the contract states only that form.
#[verifier::external_body]
pub(crate) fn uuid_simple() -> (r: String)
    ensures
        r@.len() == 32,
        forall|i: int| 0 <= i < 32 ==> lower_hex_digit(#[trigger] r@[i]),
{
    uuid::Uuid::new_v4().simple().to_string()
}

/// std's `String::from_utf8_lossy`. The contract claims that the text is the one named
/// `utf8_lossy_decode`, and, as the documentation says, that well-formed UTF-8 reads as
/// exactly what it encodes.
#[verifier::external_body]
pub(crate) fn utf8_lossy(bytes: &[u8]) -> (r: String)
    ensures
        r@ == utf8_lossy_decode(bytes@),
        valid_utf8(bytes@) ==> r@ == decode_utf8(bytes@),
{
    String::from_utf8_lossy(bytes).into_owned()
}

/// `serde_json::from_str` into a `serde_json::Value`, then the strings at `error.message`
/// and `message` picked out. The contract claims only that the result is the one named
/// `json_error_fields_of` for this text.
#[verifier::external_body]
pub(crate) fn json_error_fields(text: &str) -> (r: Option<(Option<String>, Option<String>)>)
    ensures
        match r {
            Some(f) => json_error_fields_of(text@) == Some((opt_text(f.0), opt_text(f.1))),
            None => json_error_fields_of(text@) is None,
        },
{
    let v: serde_json::Value = serde_json::from_str(text).ok()?;
    let nested = v.get("error").and_then(|e| e.get("message")).and_then(|m| m.as_str());
    let top = v.get("message").and_then(|m| m.as_str());
    Some((nested.map(|s| s.to_string()), top.map(|s| s.to_string())))
}

/// `serde_json::from_str` into a `serde_json::Value`, then the `id` string of each element of
/// its `data` array. The contract claims only that the result is the one named
/// `json_model_ids_of` for this text.
#[verifier::external_body]
pub(crate) fn json_model_ids(text: &str) -> (r: Option<Vec<Option<String>>>)
    ensures
        match r {
            Some(v) => json_model_ids_of(text@) == Some(
                v@.map_values(|o: Option<String>| opt_text(o)),
            ),
            None => json_model_ids_of(text@) is None,
        },
{
    let v: serde_json::Value = serde_json::from_str(text).ok()?;
    let data = v.get("data").and_then(|d| d.as_array())?;
    Some(data.iter().map(|m| m.get("id").and_then(|x| x.as_str()).map(|s| s.to_string())).collect())
}

} // verus!
