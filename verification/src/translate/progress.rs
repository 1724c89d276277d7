//! Stateful parser for BabelDOC's rich / tqdm progress output on stderr.
//!
//! rich refreshes the active progress line in place with `\r` and prints newlines for log
//! entries. Bytes go in through `push_bytes`, which splits on `\r` and `\n`; each logical
//! line comes back ANSI-stripped, with a percentage when it carries one for the whole task and
//! a stage label when it names one.
//!
//! Progress is monotonic: the reported percentage never decreases for a running task.
use vstd::prelude::*;
use vstd::utf8::*;

use crate::deps::{
    char_alphabetic, is_alphabetic, re_captures, re_captures_iter, re_replace_all,
    re_replace_first, regex_captures, regex_captures_iter, regex_replace_all,
    regex_replace_first,
};
use crate::text::{
    chars_of, has_prefix, lower_chars, lower_seq, opt_text, parse_u32, parse_u32_spec, trim,
    trim_str, vec_starts_with,
};
use crate::translate::runner::{decode_process_output, decode_spec};

verus! {

// ---------------------------------------------------------------------------
// The line grammar
// ---------------------------------------------------------------------------

/// CSI sequences such as colours and cursor moves.
pub const ANSI_PATTERN: &'static str = "\x1b\\[[0-9;]*[A-Za-z]";

/// OSC strings and other escape sequences that are not CSI.
pub const ANSI_MISC_PATTERN: &'static str = "\x1b\\].*?(?:\x07|\x1b\\\\)|\x1b[()][AB012]|\x1b[>=]";

/// `stage (cur/total)`, the rich / tqdm description.
pub const STAGE_PATTERN: &'static str = r"(.+?)\s*\((\d+)[/:](\d+)\)";

/// `stage ---- cur[/total]`.
pub const DESC_COUNT_PATTERN: &'static str = r"^(.+?)\s+-+\s+(\d+)(?:[/?](\d+|--))?";

/// `translate N`, BabelDOC's overall task.
pub const TRANSLATE_COUNT_PATTERN: &'static str = r"^translate\s+(\d{1,3})(?:\b|$)";

/// An explicit percentage.
pub const PCT_PATTERN: &'static str = r"(\d{1,3})\s*%";

/// A parenthesised `(cur/total)` part index.
pub const PAREN_RATIO_PATTERN: &'static str = r"\(\d+[/:]\d+\)";

/// Any `cur/total`.
pub const COUNT_PATTERN: &'static str = r"\b(\d+)/(\d+)\b";

/// rich's `MofNCompleteColumn`: `42/100` standing on its own.
pub const MOFN_PATTERN: &'static str = r"(?:^|\s)(\d{1,6})/(\d{1,6})(?:\s|$)";

/// Runs of blanks left by stripped control codes and bar glyphs.
pub const WHITESPACE_PATTERN: &'static str = "[ \t\u{00a0}]+";

/// A `cur/total` at the end of a label.
pub const TRAILING_MOFN_PATTERN: &'static str = r"\s+\d+/\d+\s*$";

/// The replacement's result, or the text itself where the pattern did not compile.
pub open spec fn or_keep(r: Option<Seq<char>>, s: Seq<char>) -> Seq<char> {
    match r {
        Some(t) => t,
        None => s,
    }
}

/// Capture group `i`, when it took part in the match.
pub open spec fn group(g: Seq<Option<Seq<char>>>, i: int) -> Option<Seq<char>> {
    if 0 <= i < g.len() {
        g[i]
    } else {
        None
    }
}

/// Group `i` of the first match of `pattern` in `text`.
pub open spec fn cap_group(pattern: Seq<char>, text: Seq<char>, i: int) -> Option<Seq<char>> {
    match regex_captures(pattern, text) {
        Some(g) => group(g, i),
        None => None,
    }
}

/// Group `i` of the first match, read as a `u32`.
pub open spec fn cap_u32(pattern: Seq<char>, text: Seq<char>, i: int) -> Option<u32> {
    match cap_group(pattern, text, i) {
        Some(t) => parse_u32_spec(t),
        None => None,
    }
}

/// The visible text of a raw line: OSC and CSI sequences removed, runs of blanks collapsed
/// to one space, then trimmed.
pub open spec fn clean_spec(raw: Seq<char>) -> Seq<char> {
    let no_osc = or_keep(regex_replace_all(ANSI_MISC_PATTERN@, raw, ""@), raw);
    let no_csi = or_keep(regex_replace_all(ANSI_PATTERN@, no_osc, ""@), no_osc);
    trim(or_keep(regex_replace_all(WHITESPACE_PATTERN@, no_csi, " "@), no_csi))
}

/// A percentage of at most 100 written as `N%`.
pub open spec fn pct_overall(clean: Seq<char>) -> Option<u32> {
    match cap_u32(PCT_PATTERN@, clean, 1) {
        Some(v) => if v <= 100 {
            Some(v)
        } else {
            None
        },
        None => None,
    }
}

/// `translate N` with `N` at most 100.
pub open spec fn translate_count(clean: Seq<char>) -> Option<u32> {
    match cap_u32(TRANSLATE_COUNT_PATTERN@, clean, 1) {
        Some(v) => if v <= 100 {
            Some(v)
        } else {
            None
        },
        None => None,
    }
}

pub open spec fn min_u32(a: u32, b: u32) -> u32 {
    if a <= b {
        a
    } else {
        b
    }
}

/// A `cur/100` match, read as `min(cur, 100)`; other totals say nothing about the whole task.
pub open spec fn overall_ratio(g: Seq<Option<Seq<char>>>) -> Option<u32> {
    match (
        match group(g, 1) {
            Some(t) => parse_u32_spec(t),
            None => None,
        },
        match group(g, 2) {
            Some(t) => parse_u32_spec(t),
            None => None,
        },
    ) {
        (Some(cur), Some(total)) => if total == 100 {
            Some(min_u32(cur, 100))
        } else {
            None
        },
        _ => None,
    }
}

/// The largest `cur/100` among the matches.
pub open spec fn best_ratio(ms: Seq<Seq<Option<Seq<char>>>>) -> Option<u32>
    decreases ms.len(),
{
    if ms.len() == 0 {
        None
    } else {
        match (best_ratio(ms.drop_last()), overall_ratio(ms.last())) {
            (Some(b), Some(p)) => Some(if b >= p {
                b
            } else {
                p
            }),
            (Some(b), None) => Some(b),
            (None, p) => p,
        }
    }
}

/// The last `cur/100` among the matches.
pub open spec fn last_ratio(ms: Seq<Seq<Option<Seq<char>>>>) -> Option<u32>
    decreases ms.len(),
{
    if ms.len() == 0 {
        None
    } else {
        match overall_ratio(ms.last()) {
            Some(p) => Some(p),
            None => last_ratio(ms.drop_last()),
        }
    }
}

/// All matches, none where the pattern did not compile.
pub open spec fn all_matches(pattern: Seq<char>, text: Seq<char>) -> Seq<Seq<Option<Seq<char>>>> {
    match regex_captures_iter(pattern, text) {
        Some(ms) => ms,
        None => seq![],
    }
}

/// `cur` out of `total` as a percentage (rounded down, `cur` capped at `total`); nothing
/// without both or with a zero total.
pub open spec fn scaled_percent(cur: Option<u32>, total: Option<u32>) -> Option<u32> {
    match (cur, total) {
        (Some(c), Some(t)) => if t == 0 {
            None
        } else {
            let scaled = (min_u32(c, t) as int * 100) / (t as int);
            Some(if scaled <= 100 {
                scaled as u32
            } else {
                100u32
            })
        },
        _ => None,
    }
}

/// Legacy tqdm: `translate ---- cur/total`, scaled to a percentage.
pub open spec fn legacy_overall(clean: Seq<char>) -> Option<u32> {
    if !has_prefix(lower_seq(clean), "translate"@) {
        None
    } else {
        scaled_percent(cap_u32(DESC_COUNT_PATTERN@, clean, 2), cap_u32(DESC_COUNT_PATTERN@, clean, 3))
    }
}

/// Overall progress from counters: `translate N`, then a rich `M/100` column, then any
/// `cur/100` outside parentheses, then the legacy tqdm line. Stage-local counters (any other
/// total) never count.
pub open spec fn count_overall(clean: Seq<char>) -> Option<u32> {
    match translate_count(clean) {
        Some(v) => Some(v),
        None => match best_ratio(all_matches(MOFN_PATTERN@, clean)) {
            Some(v) => Some(v),
            None => {
                let stripped = or_keep(
                    regex_replace_all(PAREN_RATIO_PATTERN@, clean, ""@),
                    clean,
                );
                match last_ratio(all_matches(COUNT_PATTERN@, stripped)) {
                    Some(v) => Some(v),
                    None => legacy_overall(clean),
                }
            },
        },
    }
}

/// The overall percentage a line proposes: an explicit `N%` first, counters otherwise.
pub open spec fn overall_candidate(clean: Seq<char>) -> Option<u32> {
    match pct_overall(clean) {
        Some(v) => Some(v),
        None => count_overall(clean),
    }
}

pub open spec fn is_bar(c: char) -> bool {
    ||| c == '|'
    ||| ('\u{2580}' <= c && c <= '\u{259f}')
    ||| ('\u{2500}' <= c && c <= '\u{257f}')
}

/// Characters of a bare bar / number line.
pub open spec fn is_noise(c: char) -> bool {
    ||| ('0' <= c && c <= '9')
    ||| c == '%'
    ||| c == '/'
    ||| c == ':'
    ||| c == '-'
    ||| c == '.'
    ||| c == ' '
    ||| is_bar(c)
}

/// The first position whose element satisfies `p`.
pub open spec fn first_where<A>(s: Seq<A>, p: spec_fn(A) -> bool) -> Option<int> {
    if exists|i: int| 0 <= i < s.len() && p(s[i]) && (forall|j: int| 0 <= j < i ==> !p(s[j])) {
        Some(
            choose|i: int|
                0 <= i < s.len() && p(s[i]) && (forall|j: int| 0 <= j < i ==> !p(s[j])),
        )
    } else {
        None
    }
}

pub proof fn lemma_first_where_found<A>(s: Seq<A>, p: spec_fn(A) -> bool, i: int)
    requires
        0 <= i < s.len(),
        p(s[i]),
        forall|j: int| 0 <= j < i ==> !p(s[j]),
    ensures
        first_where(s, p) == Some(i),
{
    let k = choose|k: int| 0 <= k < s.len() && p(s[k]) && (forall|j: int| 0 <= j < k ==> !p(s[j]));
    assert(0 <= k < s.len() && p(s[k]) && (forall|j: int| 0 <= j < k ==> !p(s[j])));
    if k < i {
        assert(!p(s[k]));
    }
    if i < k {
        assert(!p(s[i]));
    }
}

pub proof fn lemma_first_where_none<A>(s: Seq<A>, p: spec_fn(A) -> bool)
    requires
        forall|j: int| 0 <= j < s.len() ==> !p(s[j]),
    ensures
        first_where(s, p) is None,
{
}

/// Logger lines stay log-only.
pub open spec fn is_logger_line(t: Seq<char>) -> bool {
    ||| has_prefix(t, "INFO "@)
    ||| has_prefix(t, "DEBUG "@)
    ||| has_prefix(t, "WARNING "@)
    ||| has_prefix(t, "ERROR "@)
    ||| has_prefix(t, "CRITICAL "@)
}

/// Where the label of a free-form line ends: at the first bar glyph, else at the first `%`,
/// else at the end.
pub open spec fn label_cut(t: Seq<char>) -> int {
    match first_where(t, |c: char| is_bar(c)) {
        Some(i) => i,
        None => match first_where(t, |c: char| c == '%') {
            Some(i) => i,
            None => t.len() as int,
        },
    }
}

/// The heuristic stage label of a free-form rich / log line: its leading words before any bar
/// glyph or percent sign, at most 80 bytes, without a trailing `cur/total`, and holding at
/// least one letter. Bare bar / number lines and logger lines have none.
pub open spec fn stage_prefix(clean: Seq<char>) -> Option<Seq<char>> {
    let t = trim(clean);
    if t.len() == 0 {
        None
    } else if forall|i: int| 0 <= i < t.len() ==> is_noise(#[trigger] t[i]) {
        None
    } else if is_logger_line(t) {
        None
    } else {
        let head = trim(t.subrange(0, label_cut(t)));
        if head.len() == 0 || encode_utf8(head).len() > 80 {
            None
        } else {
            let h = trim(or_keep(regex_replace_first(TRAILING_MOFN_PATTERN@, head, ""@), head));
            if h.len() == 0 {
                None
            } else if exists|i: int| 0 <= i < h.len() && char_alphabetic(#[trigger] h[i]) {
                Some(h)
            } else {
                None
            }
        }
    }
}

/// The stage a line names: a `stage (cur/total)` description, a `stage ---- N` description,
/// `translate N`, or else the heuristic label.
pub open spec fn stage_spec(clean: Seq<char>) -> Option<Seq<char>> {
    match cap_group(STAGE_PATTERN@, clean, 1) {
        Some(t) => Some(trim(t)),
        None => match cap_group(DESC_COUNT_PATTERN@, clean, 1) {
            Some(t) => Some(trim(t)),
            None => if regex_captures(TRANSLATE_COUNT_PATTERN@, clean) is Some {
                Some("translate"@)
            } else {
                stage_prefix(clean)
            },
        },
    }
}

/// Accept only non-decreasing progress: the committed value (if any) and the new maximum.
pub open spec fn commit(last: u32, cand: Option<u32>) -> (Option<u32>, u32) {
    match cand {
        Some(v) => if v > last {
            (Some(v), v)
        } else if v == last {
            (Some(v), last)
        } else {
            (None, last)
        },
        None => (None, last),
    }
}

/// A parsed line as plain values: text, overall percentage, stage.
pub type LineView = (Seq<char>, Option<u32>, Option<Seq<char>>);

/// One clean, non-empty line parsed with the running maximum `last`.
pub open spec fn parse_line(last: u32, clean: Seq<char>) -> (LineView, u32) {
    let (o, l) = commit(last, overall_candidate(clean));
    ((clean, o, stage_spec(clean)), l)
}

/// The visible text of a line's bytes, when there is any.
pub open spec fn segment_text(seg: Seq<u8>) -> Option<Seq<char>> {
    if seg.len() == 0 {
        None
    } else {
        let c = clean_spec(decode_spec(seg));
        if trim(c).len() == 0 {
            None
        } else {
            Some(c)
        }
    }
}

/// One line's bytes, processed with the running maximum `last`.
pub open spec fn step(last: u32, seg: Seq<u8>) -> (Seq<LineView>, u32) {
    match segment_text(seg) {
        Some(c) => {
            let (lv, l) = parse_line(last, c);
            (seq![lv], l)
        },
        None => (seq![], last),
    }
}

/// Lines' bytes processed in order.
pub open spec fn run(last: u32, segs: Seq<Seq<u8>>) -> (Seq<LineView>, u32)
    decreases segs.len(),
{
    if segs.len() == 0 {
        (seq![], last)
    } else {
        let (a, l1) = step(last, segs[0]);
        let (b, l2) = run(l1, segs.drop_first());
        (a + b, l2)
    }
}

pub open spec fn is_delim(b: u8) -> bool {
    b == 13u8 || b == 10u8
}

/// The complete lines of `buf`: the pieces before each `\r` or `\n`.
pub open spec fn segments(buf: Seq<u8>) -> Seq<Seq<u8>>
    decreases buf.len(),
{
    match first_where(buf, |b: u8| is_delim(b)) {
        Some(p) => if 0 <= p < buf.len() {
            seq![buf.subrange(0, p)] + segments(buf.subrange(p + 1, buf.len() as int))
        } else {
            seq![]
        },
        None => seq![],
    }
}

/// What follows the last `\r` or `\n` of `buf`: a line not yet complete.
pub open spec fn remainder(buf: Seq<u8>) -> Seq<u8>
    decreases buf.len(),
{
    match first_where(buf, |b: u8| is_delim(b)) {
        Some(p) => if 0 <= p < buf.len() {
            remainder(buf.subrange(p + 1, buf.len() as int))
        } else {
            buf
        },
        None => buf,
    }
}

// ---------------------------------------------------------------------------
// Facts about the grammar
// ---------------------------------------------------------------------------

pub proof fn lemma_best_ratio_le_100(ms: Seq<Seq<Option<Seq<char>>>>)
    ensures
        best_ratio(ms) matches Some(v) ==> v <= 100,
    decreases ms.len(),
{
    if ms.len() > 0 {
        lemma_best_ratio_le_100(ms.drop_last());
    }
}

pub proof fn lemma_last_ratio_le_100(ms: Seq<Seq<Option<Seq<char>>>>)
    ensures
        last_ratio(ms) matches Some(v) ==> v <= 100,
    decreases ms.len(),
{
    if ms.len() > 0 {
        lemma_last_ratio_le_100(ms.drop_last());
    }
}

/// Every percentage a line proposes is at most 100.
pub proof fn lemma_candidate_le_100(clean: Seq<char>)
    ensures
        overall_candidate(clean) matches Some(v) ==> v <= 100,
{
    lemma_best_ratio_le_100(all_matches(MOFN_PATTERN@, clean));
    let stripped = or_keep(regex_replace_all(PAREN_RATIO_PATTERN@, clean, ""@), clean);
    lemma_last_ratio_le_100(all_matches(COUNT_PATTERN@, stripped));
}

// ---------------------------------------------------------------------------
// Matching
// ---------------------------------------------------------------------------

pub(crate) fn replace_all_or_keep(pattern: &str, text: &str, rep: &str) -> (r: String)
    ensures
        r@ == or_keep(regex_replace_all(pattern@, text@, rep@), text@),
{
    match re_replace_all(pattern, text, rep) {
        Some(s) => s,
        None => text.to_owned(),
    }
}

/// The visible text of a raw line.
fn clean_line(raw: &str) -> (r: String)
    ensures
        r@ == clean_spec(raw@),
{
    let no_osc = replace_all_or_keep(ANSI_MISC_PATTERN, raw, "");
    let no_csi = replace_all_or_keep(ANSI_PATTERN, no_osc.as_str(), "");
    let collapsed = replace_all_or_keep(WHITESPACE_PATTERN, no_csi.as_str(), " ");
    trim_str(collapsed.as_str())
}

fn group_at(g: &Vec<Option<String>>, i: usize) -> (r: Option<String>)
    ensures
        r matches Some(s) ==> group(crate::deps::groups_view(*g), i as int) == Some(s@),
        r is None ==> group(crate::deps::groups_view(*g), i as int) is None,
{
    if i < g.len() {
        match &g[i] {
            Some(s) => Some(s.clone()),
            None => None,
        }
    } else {
        None
    }
}

fn cap_group_exec(pattern: &str, text: &str, i: usize) -> (r: Option<String>)
    ensures
        r matches Some(s) ==> cap_group(pattern@, text@, i as int) == Some(s@),
        r is None ==> cap_group(pattern@, text@, i as int) is None,
{
    match re_captures(pattern, text) {
        Some(g) => group_at(&g, i),
        None => None,
    }
}

fn cap_u32_exec(pattern: &str, text: &str, i: usize) -> (r: Option<u32>)
    ensures
        r == cap_u32(pattern@, text@, i as int),
{
    match cap_group_exec(pattern, text, i) {
        Some(t) => parse_u32(t.as_str()),
        None => None,
    }
}

/// A reading kept when it is a percentage (at most 100), dropped otherwise.
pub fn at_most_100(v: Option<u32>) -> (r: Option<u32>)
    ensures
        r == (match v {
            Some(x) => if x <= 100 {
                Some(x)
            } else {
                None
            },
            None => None,
        }),
{
    match v {
        Some(x) => if x <= 100 {
            Some(x)
        } else {
            None
        },
        None => None,
    }
}

/// The overall percentage of one `cur/total` match (its capture groups): `cur` capped at
/// 100 when the total is 100, nothing for any other total.
pub fn match_ratio(g: &Vec<Option<String>>) -> (r: Option<u32>)
    ensures
        r == overall_ratio(crate::deps::groups_view(*g)),
{
    let cur = match group_at(g, 1) {
        Some(t) => parse_u32(t.as_str()),
        None => None,
    };
    let total = match group_at(g, 2) {
        Some(t) => parse_u32(t.as_str()),
        None => None,
    };
    match (cur, total) {
        (Some(c), Some(t)) => if t == 100 {
            Some(if c <= 100 {
                c
            } else {
                100
            })
        } else {
            None
        },
        _ => None,
    }
}

pub open spec fn matches_view(ms: Seq<Vec<Option<String>>>) -> Seq<Seq<Option<Seq<char>>>> {
    ms.map_values(|g: Vec<Option<String>>| crate::deps::groups_view(g))
}

fn all_matches_exec(pattern: &str, text: &str) -> (r: Vec<Vec<Option<String>>>)
    ensures
        matches_view(r@) == all_matches(pattern@, text@),
{
    match re_captures_iter(pattern, text) {
        Some(all) => all,
        None => {
            let v: Vec<Vec<Option<String>>> = Vec::new();
            assert(matches_view(v@) =~= Seq::<Seq<Option<Seq<char>>>>::empty());
            v
        },
    }
}

/// The largest percentage among `cur/100` matches (each given by its capture groups).
pub fn best_match_ratio(ms: &Vec<Vec<Option<String>>>) -> (r: Option<u32>)
    ensures
        r == best_ratio(matches_view(ms@)),
{
    let mut best: Option<u32> = None;
    let mut i: usize = 0;
    while i < ms.len()
        invariant
            i <= ms.len(),
            best == best_ratio(matches_view(ms@).take(i as int)),
        decreases ms.len() - i,
    {
        let p = match_ratio(&ms[i]);
        let ghost pre = matches_view(ms@).take(i as int);
        let ghost next = matches_view(ms@).take(i + 1);
        assert(next.drop_last() =~= pre);
        assert(next.last() == crate::deps::groups_view(ms@[i as int]));
        best = match (best, p) {
            (Some(b), Some(q)) => Some(if b >= q {
                b
            } else {
                q
            }),
            (Some(b), None) => Some(b),
            (None, q) => q,
        };
        i = i + 1;
    }
    assert(matches_view(ms@).take(ms.len() as int) =~= matches_view(ms@));
    best
}

/// The percentage of the last `cur/100` match (each given by its capture groups).
pub fn last_match_ratio(ms: &Vec<Vec<Option<String>>>) -> (r: Option<u32>)
    ensures
        r == last_ratio(matches_view(ms@)),
{
    let mut last: Option<u32> = None;
    let mut i: usize = 0;
    while i < ms.len()
        invariant
            i <= ms.len(),
            last == last_ratio(matches_view(ms@).take(i as int)),
        decreases ms.len() - i,
    {
        let p = match_ratio(&ms[i]);
        let ghost pre = matches_view(ms@).take(i as int);
        let ghost next = matches_view(ms@).take(i + 1);
        assert(next.drop_last() =~= pre);
        assert(next.last() == crate::deps::groups_view(ms@[i as int]));
        if p.is_some() {
            last = p;
        }
        i = i + 1;
    }
    assert(matches_view(ms@).take(ms.len() as int) =~= matches_view(ms@));
    last
}

fn legacy_overall_exec(clean: &str) -> (r: Option<u32>)
    ensures
        r == legacy_overall(clean@),
{
    let lower = lower_chars(clean);
    let prefix = chars_of("translate");
    if !vec_starts_with(&lower, &prefix) {
        return None;
    }
    let cur = cap_u32_exec(DESC_COUNT_PATTERN, clean, 2);
    let total = cap_u32_exec(DESC_COUNT_PATTERN, clean, 3);
    scale_to_percent(cur, total)
}

/// `cur` out of `total` as a percentage, as the legacy tqdm line reports it.
pub fn scale_to_percent(cur: Option<u32>, total: Option<u32>) -> (r: Option<u32>)
    ensures
        r == scaled_percent(cur, total),
{
    match (cur, total) {
        (Some(c), Some(t)) => {
            if t == 0 {
                None
            } else {
                let m: u64 = if c <= t {
                    c as u64
                } else {
                    t as u64
                };
                let scaled = (m * 100) / (t as u64);
                Some(if scaled <= 100 {
                    scaled as u32
                } else {
                    100u32
                })
            }
        },
        _ => None,
    }
}

fn count_overall_exec(clean: &str) -> (r: Option<u32>)
    ensures
        r == count_overall(clean@),
{
    let t = at_most_100(cap_u32_exec(TRANSLATE_COUNT_PATTERN, clean, 1));
    if t.is_some() {
        return t;
    }
    let mofn = all_matches_exec(MOFN_PATTERN, clean);
    let best = best_match_ratio(&mofn);
    if best.is_some() {
        return best;
    }
    let stripped = replace_all_or_keep(PAREN_RATIO_PATTERN, clean, "");
    let counts = all_matches_exec(COUNT_PATTERN, stripped.as_str());
    let last = last_match_ratio(&counts);
    if last.is_some() {
        return last;
    }
    legacy_overall_exec(clean)
}

fn overall_candidate_exec(clean: &str) -> (r: Option<u32>)
    ensures
        r == overall_candidate(clean@),
{
    let p = at_most_100(cap_u32_exec(PCT_PATTERN, clean, 1));
    if p.is_some() {
        p
    } else {
        count_overall_exec(clean)
    }
}

/// Whether `c` draws part of a progress bar: `|`, a block element or a box-drawing character.
pub fn is_bar_glyph(c: char) -> (r: bool)
    ensures
        r == is_bar(c),
{
    c == '|' || ('\u{2580}' <= c && c <= '\u{259f}') || ('\u{2500}' <= c && c <= '\u{257f}')
}

fn all_noise(v: &Vec<char>) -> (r: bool)
    ensures
        r == (forall|i: int| 0 <= i < v@.len() ==> is_noise(#[trigger] v@[i])),
{
    let mut i: usize = 0;
    while i < v.len()
        invariant
            i <= v.len(),
            forall|j: int| 0 <= j < i ==> is_noise(#[trigger] v@[j]),
        decreases v.len() - i,
    {
        let c = v[i];
        let noise = ('0' <= c && c <= '9') || c == '%' || c == '/' || c == ':' || c == '-' || c
            == '.' || c == ' ' || is_bar_glyph(c);
        if !noise {
            return false;
        }
        i = i + 1;
    }
    true
}

fn first_bar(v: &Vec<char>) -> (r: Option<usize>)
    ensures
        match r {
            Some(i) => first_where(v@, |c: char| is_bar(c)) == Some(i as int),
            None => first_where(v@, |c: char| is_bar(c)) is None,
        },
{
    let mut i: usize = 0;
    while i < v.len()
        invariant
            i <= v.len(),
            forall|j: int| 0 <= j < i ==> !is_bar(#[trigger] v@[j]),
        decreases v.len() - i,
    {
        if is_bar_glyph(v[i]) {
            proof {
                lemma_first_where_found(v@, |c: char| is_bar(c), i as int);
            }
            return Some(i);
        }
        i = i + 1;
    }
    proof {
        lemma_first_where_none(v@, |c: char| is_bar(c));
    }
    None
}

fn first_percent(v: &Vec<char>) -> (r: Option<usize>)
    ensures
        match r {
            Some(i) => first_where(v@, |c: char| c == '%') == Some(i as int),
            None => first_where(v@, |c: char| c == '%') is None,
        },
{
    let mut i: usize = 0;
    while i < v.len()
        invariant
            i <= v.len(),
            forall|j: int| 0 <= j < i ==> #[trigger] v@[j] != '%',
        decreases v.len() - i,
    {
        if v[i] == '%' {
            proof {
                lemma_first_where_found(v@, |c: char| c == '%', i as int);
            }
            return Some(i);
        }
        i = i + 1;
    }
    proof {
        lemma_first_where_none(v@, |c: char| c == '%');
    }
    None
}

fn is_logger_exec(t: &Vec<char>) -> (r: bool)
    ensures
        r == is_logger_line(t@),
{
    vec_starts_with(t, &chars_of("INFO ")) || vec_starts_with(t, &chars_of("DEBUG "))
        || vec_starts_with(t, &chars_of("WARNING ")) || vec_starts_with(t, &chars_of("ERROR "))
        || vec_starts_with(t, &chars_of("CRITICAL "))
}

fn any_alphabetic(v: &Vec<char>) -> (r: bool)
    ensures
        r == (exists|i: int| 0 <= i < v@.len() && char_alphabetic(#[trigger] v@[i])),
{
    let mut i: usize = 0;
    while i < v.len()
        invariant
            i <= v.len(),
            forall|j: int| 0 <= j < i ==> !char_alphabetic(#[trigger] v@[j]),
        decreases v.len() - i,
    {
        if is_alphabetic(v[i]) {
            return true;
        }
        i = i + 1;
    }
    false
}

/// Heuristic stage label from a free-form rich / log line.
fn extract_stage_prefix(clean: &str) -> (r: Option<String>)
    ensures
        r matches Some(s) ==> stage_prefix(clean@) == Some(s@),
        r is None ==> stage_prefix(clean@) is None,
{
    let t = trim_str(clean);
    let tv = chars_of(t.as_str());
    if tv.len() == 0 {
        return None;
    }
    if all_noise(&tv) {
        return None;
    }
    if is_logger_exec(&tv) {
        return None;
    }
    let cut = match first_bar(&tv) {
        Some(i) => i,
        None => match first_percent(&tv) {
            Some(i) => i,
            None => tv.len(),
        },
    };
    let head = trim_str(t.as_str().substring_char(0, cut));
    if head.as_str().is_empty() || head.as_str().as_bytes().len() > 80 {
        return None;
    }
    let stripped = match re_replace_first(TRAILING_MOFN_PATTERN, head.as_str(), "") {
        Some(s) => s,
        None => head.clone(),
    };
    let h = trim_str(stripped.as_str());
    if h.as_str().is_empty() {
        return None;
    }
    let hv = chars_of(h.as_str());
    if any_alphabetic(&hv) {
        Some(h)
    } else {
        None
    }
}

/// The stage a clean line names.
fn stage_exec(clean: &str) -> (r: Option<String>)
    ensures
        r matches Some(s) ==> stage_spec(clean@) == Some(s@),
        r is None ==> stage_spec(clean@) is None,
{
    match cap_group_exec(STAGE_PATTERN, clean, 1) {
        Some(t) => return Some(trim_str(t.as_str())),
        None => {},
    }
    match cap_group_exec(DESC_COUNT_PATTERN, clean, 1) {
        Some(t) => return Some(trim_str(t.as_str())),
        None => {},
    }
    if re_captures(TRANSLATE_COUNT_PATTERN, clean).is_some() {
        return Some("translate".to_string());
    }
    extract_stage_prefix(clean)
}


/// What feeding `bytes` to a parser in state `p` (pending bytes, progress so far) gives:
/// the lines completed, and the next state.
pub open spec fn push_spec(p: (Seq<u8>, u32), bytes: Seq<u8>) -> (Seq<LineView>, (Seq<u8>, u32)) {
    let buf = p.0 + bytes;
    (run(p.1, segments(buf)).0, (remainder(buf), run(p.1, segments(buf)).1))
}

// ---------------------------------------------------------------------------
// Laws
// ---------------------------------------------------------------------------

proof fn lemma_segments_concat(x: Seq<u8>, y: Seq<u8>)
    ensures
        segments(x + y) == segments(x) + segments(remainder(x) + y),
        remainder(x + y) == remainder(remainder(x) + y),
    decreases x.len(),
{
    let f = |b: u8| is_delim(b);
    match first_where(x, f) {
        Some(p) => {
            let k = choose|i: int|
                0 <= i < x.len() && f(x[i]) && (forall|j: int| 0 <= j < i ==> !f(x[j]));
            assert(k == p);
            assert((x + y)[p] == x[p]);
            assert forall|j: int| 0 <= j < p implies !f(#[trigger] (x + y)[j]) by {
                assert((x + y)[j] == x[j]);
            }
            lemma_first_where_found(x + y, f, p);
            let rest = x.subrange(p + 1, x.len() as int);
            assert((x + y).subrange(0, p) =~= x.subrange(0, p));
            assert((x + y).subrange(p + 1, (x + y).len() as int) =~= rest + y);
            lemma_segments_concat(rest, y);
            assert(segments(x) == seq![x.subrange(0, p)] + segments(rest));
            assert(remainder(x) == remainder(rest));
            vstd::seq_lib::lemma_concat_associative(
                seq![x.subrange(0, p)],
                segments(rest),
                segments(remainder(rest) + y),
            );
        },
        None => {
            assert(segments(x) == Seq::<Seq<u8>>::empty());
            assert(remainder(x) == x);
            assert(segments(x) + segments(remainder(x) + y) =~= segments(x + y));
        },
    }
}

proof fn lemma_run_concat(last: u32, s1: Seq<Seq<u8>>, s2: Seq<Seq<u8>>)
    ensures
        run(last, s1 + s2) == (
            run(last, s1).0 + run(run(last, s1).1, s2).0,
            run(run(last, s1).1, s2).1,
        ),
    decreases s1.len(),
{
    if s1.len() == 0 {
        assert(s1 + s2 =~= s2);
        assert(run(last, s1).0 + run(last, s2).0 =~= run(last, s2).0);
    } else {
        let (a, l1) = step(last, s1[0]);
        lemma_run_concat(l1, s1.drop_first(), s2);
        assert((s1 + s2)[0] == s1[0]);
        assert((s1 + s2).drop_first() =~= s1.drop_first() + s2);
        vstd::seq_lib::lemma_concat_associative(
            a,
            run(l1, s1.drop_first()).0,
            run(run(l1, s1.drop_first()).1, s2).0,
        );
    }
}

/// Feeding bytes in two pieces gives the same lines, and the same final state, as feeding
/// them at once: a line split across reads is parsed as if it had arrived whole.
pub proof fn law_split_feeds(p: (Seq<u8>, u32), a: Seq<u8>, b: Seq<u8>)
    ensures
        push_spec(p, a + b).0 == push_spec(p, a).0 + push_spec(push_spec(p, a).1, b).0,
        push_spec(p, a + b).1 == push_spec(push_spec(p, a).1, b).1,
{
    let x = p.0 + a;
    assert(p.0 + (a + b) =~= x + b);
    lemma_segments_concat(x, b);
    lemma_run_concat(p.1, segments(x), segments(remainder(x) + b));
}

/// The overall values that a sequence of lines reports never decrease, and stay within
/// `lo ..= hi`.
pub open spec fn monotone_within(ls: Seq<LineView>, lo: u32, hi: u32) -> bool {
    &&& forall|i: int| 0 <= i < ls.len() ==> (#[trigger] ls[i].1 matches Some(v) ==> lo <= v <= hi)
    &&& forall|i: int, j: int|
        0 <= i < j < ls.len() ==> (#[trigger] ls[i].1 matches Some(v) ==> (
        #[trigger] ls[j].1 matches Some(w) ==> v <= w))
}

proof fn lemma_run_monotone(last: u32, segs: Seq<Seq<u8>>)
    ensures
        run(last, segs).1 >= last,
        monotone_within(run(last, segs).0, last, run(last, segs).1),
        last <= 100 ==> run(last, segs).1 <= 100,
    decreases segs.len(),
{
    if segs.len() > 0 {
        let (a, l1) = step(last, segs[0]);
        match segment_text(segs[0]) {
            Some(c) => lemma_candidate_le_100(c),
            None => {},
        }
        lemma_run_monotone(l1, segs.drop_first());
        let b = run(l1, segs.drop_first()).0;
        let hi = run(l1, segs.drop_first()).1;
        let all = a + b;
        assert forall|i: int| 0 <= i < all.len() implies (#[trigger] all[i].1 matches Some(v) ==> last <= v
            <= hi) by {
            if i >= a.len() {
                assert(all[i] == b[i - a.len()]);
            }
        }
        assert forall|i: int, j: int| 0 <= i < j < all.len() implies (#[trigger] all[i].1 matches Some(v) ==> (
        #[trigger] all[j].1 matches Some(w) ==> v <= w)) by {
            if i >= a.len() {
                assert(all[i] == b[i - a.len()]);
                assert(all[j] == b[j - a.len()]);
            } else if j >= a.len() {
                assert(all[j] == b[j - a.len()]);
            }
        }
    }
}

/// Progress is monotonic: feeding bytes never lowers the current percentage, and the
/// percentages reported on the way never decrease and lie between the old and the new
/// current value, which never exceeds 100.
pub proof fn law_progress_monotonic(p: (Seq<u8>, u32), bytes: Seq<u8>)
    requires
        p.1 <= 100,
    ensures
        push_spec(p, bytes).1.1 >= p.1,
        push_spec(p, bytes).1.1 <= 100,
        monotone_within(push_spec(p, bytes).0, p.1, push_spec(p, bytes).1.1),
{
    lemma_run_monotone(p.1, segments(p.0 + bytes));
}

/// The last overall value that a sequence of lines reports, or `dflt` when none does.
pub open spec fn last_reported(ls: Seq<LineView>, dflt: u32) -> u32
    decreases ls.len(),
{
    if ls.len() == 0 {
        dflt
    } else {
        match ls.last().1 {
            Some(v) => v,
            None => last_reported(ls.drop_last(), dflt),
        }
    }
}

proof fn lemma_last_reported_concat(a: Seq<LineView>, b: Seq<LineView>, d: u32)
    ensures
        last_reported(a + b, d) == last_reported(b, last_reported(a, d)),
    decreases b.len(),
{
    if b.len() == 0 {
        assert(a + b =~= a);
    } else {
        assert((a + b).drop_last() =~= a + b.drop_last());
        assert((a + b).last() == b.last());
        lemma_last_reported_concat(a, b.drop_last(), d);
    }
}

proof fn lemma_run_last_reported(last: u32, segs: Seq<Seq<u8>>)
    ensures
        run(last, segs).1 == last_reported(run(last, segs).0, last),
    decreases segs.len(),
{
    if segs.len() > 0 {
        let (a, l1) = step(last, segs[0]);
        lemma_run_last_reported(l1, segs.drop_first());
        lemma_last_reported_concat(a, run(l1, segs.drop_first()).0, last);
        match segment_text(segs[0]) {
            Some(c) => {
                let lv = parse_line(last, c).0;
                assert(a == seq![lv]);
                assert(a.last() == lv);
                assert(a.drop_last() =~= Seq::<LineView>::empty());
                let cm = commit(last, overall_candidate(c));
                assert(lv.1 == cm.0);
                assert(l1 == cm.1);
                match cm.0 {
                    Some(v) => assert(cm.1 == v),
                    None => {
                        assert(cm.1 == last);
                        assert(last_reported(a.drop_last(), last) == last);
                    },
                }
                assert(last_reported(a, last) == l1);
            },
            None => {
                assert(a =~= Seq::<LineView>::empty());
            },
        }
    }
}

/// After a chunk, the parser's current value is the last overall value it reported, or the
/// value it had before when it reported none.
pub proof fn law_current_is_last_reported(p: (Seq<u8>, u32), bytes: Seq<u8>)
    ensures
        push_spec(p, bytes).1.1 == last_reported(push_spec(p, bytes).0, p.1),
{
    lemma_run_last_reported(p.1, segments(p.0 + bytes));
}

/// A reading lower than the current value reports no overall value and leaves the current
/// value as it was; any other reading is reported and becomes the current value.
pub proof fn law_lower_reading_reports_nothing(last: u32, clean: Seq<char>)
    ensures
        match overall_candidate(clean) {
            Some(v) => if v < last {
                parse_line(last, clean).0.1 is None && parse_line(last, clean).1 == last
            } else {
                parse_line(last, clean).0.1 == Some(v) && parse_line(last, clean).1 == v
            },
            None => parse_line(last, clean).0.1 is None && parse_line(last, clean).1 == last,
        },
{
}

/// A legacy tqdm line `translate ---- cur/total` (with `total` above zero, and neither an
/// explicit `N%`, nor `translate N`, nor any `cur/100` counter on it) reports
/// `min(cur, total) * 100 / total`, rounded down: the count scaled by its own total, so
/// `30/60` reads as 50, not 30.
pub proof fn law_legacy_line_scales_by_total(clean: Seq<char>, c: u32, t: u32)
    requires
        has_prefix(lower_seq(clean), "translate"@),
        cap_u32(DESC_COUNT_PATTERN@, clean, 2) == Some(c),
        cap_u32(DESC_COUNT_PATTERN@, clean, 3) == Some(t),
        t > 0,
        pct_overall(clean) is None,
        translate_count(clean) is None,
        best_ratio(all_matches(MOFN_PATTERN@, clean)) is None,
        last_ratio(
            all_matches(
                COUNT_PATTERN@,
                or_keep(regex_replace_all(PAREN_RATIO_PATTERN@, clean, ""@), clean),
            ),
        ) is None,
    ensures
        ({
            let m: int = if c <= t {
                c as int
            } else {
                t as int
            };
            &&& overall_candidate(clean) == Some(((m * 100) / (t as int)) as u32)
            &&& parse_line(0, clean).0.1 == Some(((m * 100) / (t as int)) as u32)
        }),
{
    let m: int = if c <= t {
        c as int
    } else {
        t as int
    };
    assert(0 <= (m * 100) / (t as int) <= 100) by (nonlinear_arith)
        requires
            0 <= m <= t,
            t > 0,
    ;
}

/// Which description names a line's stage, first match wins: `stage (cur/total)`, then
/// `stage ---- N`, then `translate N` (the stage is `translate`), then the heuristic label.
/// A logger line (`INFO `, `DEBUG `, `WARNING `, `ERROR `, `CRITICAL `) and a line of bar
/// glyphs, digits and `%/:-.` alone have no heuristic label.
pub proof fn law_stage_precedence(clean: Seq<char>)
    ensures
        cap_group(STAGE_PATTERN@, clean, 1) is Some ==> stage_spec(clean) == Some(
            trim(cap_group(STAGE_PATTERN@, clean, 1)->0),
        ),
        cap_group(STAGE_PATTERN@, clean, 1) is None && cap_group(DESC_COUNT_PATTERN@, clean, 1) is Some
            ==> stage_spec(clean) == Some(trim(cap_group(DESC_COUNT_PATTERN@, clean, 1)->0)),
        cap_group(STAGE_PATTERN@, clean, 1) is None && cap_group(DESC_COUNT_PATTERN@, clean, 1) is None
            && regex_captures(TRANSLATE_COUNT_PATTERN@, clean) is Some ==> stage_spec(clean)
            == Some("translate"@),
        cap_group(STAGE_PATTERN@, clean, 1) is None && cap_group(DESC_COUNT_PATTERN@, clean, 1) is None
            && regex_captures(TRANSLATE_COUNT_PATTERN@, clean) is None ==> stage_spec(clean)
            == stage_prefix(clean),
        has_prefix(trim(clean), "INFO "@) || has_prefix(trim(clean), "DEBUG "@) || has_prefix(
            trim(clean),
            "WARNING "@,
        ) || has_prefix(trim(clean), "ERROR "@) || has_prefix(trim(clean), "CRITICAL "@)
            ==> stage_prefix(clean) is None,
        (forall|i: int|
            0 <= i < trim(clean).len() ==> {
                let c = #[trigger] trim(clean)[i];
                ||| ('0' <= c && c <= '9')
                ||| c == '%' || c == '/' || c == ':' || c == '-' || c == '.' || c == ' '
                ||| c == '|'
                ||| ('\u{2580}' <= c && c <= '\u{259f}')
                ||| ('\u{2500}' <= c && c <= '\u{257f}')
            }) ==> stage_prefix(clean) is None,
{
    let t = trim(clean);
    if forall|i: int|
        0 <= i < t.len() ==> {
            let c = #[trigger] t[i];
            ||| ('0' <= c && c <= '9')
            ||| c == '%' || c == '/' || c == ':' || c == '-' || c == '.' || c == ' '
            ||| c == '|'
            ||| ('\u{2580}' <= c && c <= '\u{259f}')
            ||| ('\u{2500}' <= c && c <= '\u{257f}')
        } {
        assert forall|i: int| 0 <= i < t.len() implies is_noise(#[trigger] t[i]) by {}
    }
}

/// What a `cur/total` match says when its total is 100: `cur`, capped at 100.
pub open spec fn percent_column(g: Seq<Option<Seq<char>>>) -> Option<u32> {
    match (group(g, 1), group(g, 2)) {
        (Some(a), Some(b)) => match (parse_u32_spec(a), parse_u32_spec(b)) {
            (Some(c), Some(t)) => if t == 100 {
                Some(if c <= 100 {
                    c
                } else {
                    100u32
                })
            } else {
                None
            },
            _ => None,
        },
        _ => None,
    }
}

/// Of the `cur/total` columns of a rich line, the largest `cur/100` counts, capped at 100;
/// columns with any other total count for nothing.
pub proof fn law_rich_columns_take_the_largest(ms: Seq<Seq<Option<Seq<char>>>>)
    ensures
        best_ratio(ms) matches Some(v) ==> (exists|k: int|
            0 <= k < ms.len() && percent_column(#[trigger] ms[k]) == Some(v)) && forall|k: int|
            0 <= k < ms.len() && (#[trigger] percent_column(ms[k])) is Some ==> percent_column(
                ms[k],
            )->0 <= v,
        best_ratio(ms) is None ==> forall|k: int|
            0 <= k < ms.len() ==> (#[trigger] percent_column(ms[k])) is None,
    decreases ms.len(),
{
    if ms.len() > 0 {
        let d = ms.drop_last();
        law_rich_columns_take_the_largest(d);
        assert forall|k: int| 0 <= k < d.len() implies #[trigger] ms[k] == d[k] by {}
        let l = ms.len() - 1;
        assert(overall_ratio(ms[l]) == percent_column(ms[l]));
        match best_ratio(d) {
            Some(b) => {
                let k0 = choose|k: int| 0 <= k < d.len() && percent_column(#[trigger] d[k]) == Some(b);
                assert(ms[k0] == d[k0]);
            },
            None => {},
        }
    }
}

/// Of the plain `cur/total` counters of a line, the last `cur/100` counts, capped at 100;
/// counters with any other total count for nothing.
pub proof fn law_counters_take_the_last(ms: Seq<Seq<Option<Seq<char>>>>)
    ensures
        last_ratio(ms) matches Some(v) ==> exists|k: int|
            0 <= k < ms.len() && percent_column(#[trigger] ms[k]) == Some(v) && forall|j: int|
                k < j < ms.len() ==> (#[trigger] percent_column(ms[j])) is None,
        last_ratio(ms) is None ==> forall|k: int|
            0 <= k < ms.len() ==> (#[trigger] percent_column(ms[k])) is None,
    decreases ms.len(),
{
    if ms.len() > 0 {
        let d = ms.drop_last();
        law_counters_take_the_last(d);
        assert forall|k: int| 0 <= k < d.len() implies #[trigger] ms[k] == d[k] by {}
        let l = ms.len() - 1;
        assert(overall_ratio(ms[l]) == percent_column(ms[l]));
        if percent_column(ms[l]) is None {
            match last_ratio(d) {
                Some(v) => {
                    let k0 = choose|k: int|
                        0 <= k < d.len() && percent_column(#[trigger] d[k]) == Some(v) && forall|
                            j: int,
                        | k < j < d.len() ==> (#[trigger] percent_column(d[j])) is None;
                    assert(ms[k0] == d[k0]);
                    assert forall|j: int| k0 < j < ms.len() implies (#[trigger] percent_column(
                        ms[j],
                    )) is None by {
                        if j < l {
                            assert(ms[j] == d[j]);
                        }
                    }
                },
                None => {},
            }
        }
    }
}

/// Which reading a line's overall percentage comes from, first match wins: an explicit
/// `N%` of at most 100; else `translate N` with `N` at most 100; else the largest rich
/// `cur/100` column; else the last `cur/100` counter outside parentheses; else the legacy
/// tqdm line.
pub proof fn law_overall_reading_precedence(clean: Seq<char>)
    ensures
        cap_u32(PCT_PATTERN@, clean, 1) is Some && cap_u32(PCT_PATTERN@, clean, 1)->0 <= 100
            ==> overall_candidate(clean) == cap_u32(PCT_PATTERN@, clean, 1),
        !(cap_u32(PCT_PATTERN@, clean, 1) is Some && cap_u32(PCT_PATTERN@, clean, 1)->0 <= 100)
            ==> {
            let stripped = or_keep(regex_replace_all(PAREN_RATIO_PATTERN@, clean, ""@), clean);
            &&& cap_u32(TRANSLATE_COUNT_PATTERN@, clean, 1) is Some && cap_u32(
                TRANSLATE_COUNT_PATTERN@,
                clean,
                1,
            )->0 <= 100 ==> overall_candidate(clean) == cap_u32(TRANSLATE_COUNT_PATTERN@, clean, 1)
            &&& !(cap_u32(TRANSLATE_COUNT_PATTERN@, clean, 1) is Some && cap_u32(
                TRANSLATE_COUNT_PATTERN@,
                clean,
                1,
            )->0 <= 100) ==> {
                &&& best_ratio(all_matches(MOFN_PATTERN@, clean)) is Some ==> overall_candidate(
                    clean,
                ) == best_ratio(all_matches(MOFN_PATTERN@, clean))
                &&& best_ratio(all_matches(MOFN_PATTERN@, clean)) is None ==> {
                    &&& last_ratio(all_matches(COUNT_PATTERN@, stripped)) is Some
                        ==> overall_candidate(clean) == last_ratio(
                        all_matches(COUNT_PATTERN@, stripped),
                    )
                    &&& last_ratio(all_matches(COUNT_PATTERN@, stripped)) is None
                        ==> overall_candidate(clean) == legacy_overall(clean)
                }
            }
        },
{
}

/// No `\r` or `\n` among the bytes.
pub open spec fn no_line_break(bytes: Seq<u8>) -> bool {
    forall|i: int| 0 <= i < bytes.len() ==> !is_delim(#[trigger] bytes[i])
}

proof fn lemma_remainder_no_line_break(buf: Seq<u8>)
    ensures
        no_line_break(remainder(buf)),
    decreases buf.len(),
{
    let f = |b: u8| is_delim(b);
    match first_where(buf, f) {
        Some(p) => {
            if 0 <= p < buf.len() {
                lemma_remainder_no_line_break(buf.subrange(p + 1, buf.len() as int));
            }
        },
        None => {
            assert forall|i: int| 0 <= i < buf.len() implies !is_delim(#[trigger] buf[i]) by {
                if is_delim(buf[i]) {
                    let k = choose|k: int| 0 <= k <= i && f(buf[k]) && forall|j: int|
                        0 <= j < k ==> !f(buf[j]);
                    lemma_first_line_break(buf, i);
                }
            }
        },
    }
}

proof fn lemma_first_line_break(buf: Seq<u8>, i: int)
    requires
        0 <= i < buf.len(),
        is_delim(buf[i]),
    ensures
        first_where(buf, |b: u8| is_delim(b)) is Some,
    decreases i,
{
    let f = |b: u8| is_delim(b);
    if forall|j: int| 0 <= j < i ==> !f(buf[j]) {
        lemma_first_where_found(buf, f, i);
    } else {
        let j = choose|j: int| 0 <= j < i && f(buf[j]);
        lemma_first_line_break(buf, j);
    }
}

/// The bytes a parser holds back never contain a line break: after any chunk, what is
/// pending is the part after the last `\r` or `\n`.
pub proof fn law_pending_has_no_line_break(p: (Seq<u8>, u32), bytes: Seq<u8>)
    ensures
        no_line_break(push_spec(p, bytes).1.0),
{
    lemma_remainder_no_line_break(p.0 + bytes);
}

/// Flushing a parser (`finish`) gives what feeding it a newline would: at most one line,
/// the same current value, and nothing left pending, so a second flush gives nothing.
pub proof fn law_flush_is_newline(p: (Seq<u8>, u32))
    requires
        no_line_break(p.0),
    ensures
        step(p.1, p.0).0 == push_spec(p, seq![10u8]).0,
        step(p.1, p.0).1 == push_spec(p, seq![10u8]).1.1,
        push_spec(p, seq![10u8]).1.0 == Seq::<u8>::empty(),
        step(p.1, p.0).0.len() <= 1,
        step(step(p.1, p.0).1, Seq::<u8>::empty()).0.len() == 0,
{
    let f = |b: u8| is_delim(b);
    let buf = p.0 + seq![10u8];
    let n = p.0.len() as int;
    assert(buf[n] == 10u8);
    assert forall|j: int| 0 <= j < n implies !f(buf[j]) by {
        assert(buf[j] == p.0[j]);
    }
    lemma_first_where_found(buf, f, n);
    let rest = buf.subrange(n + 1, buf.len() as int);
    assert(rest =~= Seq::<u8>::empty());
    assert(buf.subrange(0, n) =~= p.0);
    lemma_first_where_none(rest, f);
    assert(segments(rest) =~= Seq::<Seq<u8>>::empty());
    assert(segments(buf) =~= seq![p.0]);
    assert(remainder(buf) == remainder(rest));
    let segs = seq![p.0];
    assert(segs[0] == p.0);
    assert(segs.drop_first() =~= Seq::<Seq<u8>>::empty());
    let l1 = step(p.1, p.0).1;
    assert(run(l1, segs.drop_first()) == (Seq::<LineView>::empty(), l1));
    assert(run(p.1, segs).0 =~= step(p.1, p.0).0 + Seq::<LineView>::empty());
    assert(run(p.1, segs).1 == l1);
    assert(segments(buf) == segs);
}

// ---------------------------------------------------------------------------
// The parser
// ---------------------------------------------------------------------------

/// One logical line of output.
#[derive(Debug, Clone, PartialEq)]
pub struct ParsedLine {
    /// ANSI-stripped visible text of the line.
    pub text: String,
    /// Percentage of the whole task read from the line, if any.
    pub overall: Option<u32>,
    pub stage: Option<String>,
}

impl View for ParsedLine {
    type V = LineView;

    open spec fn view(&self) -> LineView {
        (self.text@, self.overall, opt_text(self.stage))
    }
}

/// An optional line as a sequence of at most one line.
pub open spec fn line_seq(o: Option<ParsedLine>) -> Seq<LineView> {
    match o {
        Some(l) => seq![l@],
        None => seq![],
    }
}

pub open spec fn lines_view(v: Seq<ParsedLine>) -> Seq<LineView> {
    v.map_values(|l: ParsedLine| l@)
}

/// Parses BabelDOC's stderr into log lines and progress updates.
pub struct ProgressParser {
    pending: Vec<u8>,
    last_overall: u32,
}

impl View for ProgressParser {
    /// The bytes of the line not yet complete, and the progress reached so far.
    type V = (Seq<u8>, u32);

    closed spec fn view(&self) -> (Seq<u8>, u32) {
        (self.pending@, self.last_overall)
    }
}

impl ProgressParser {
    #[verifier::type_invariant]
    spec fn inv(self) -> bool {
        self.last_overall <= 100
    }

    /// A parser that has seen nothing: no pending bytes, progress 0.
    pub fn new() -> (p: Self)
        ensures
            p@ == (Seq::<u8>::empty(), 0u32),
    {
        ProgressParser { pending: Vec::new(), last_overall: 0 }
    }

    /// Current best-known overall progress.
    pub fn current(&self) -> (r: u32)
        ensures
            r == self@.1,
            r <= 100,
    {
        proof {
            use_type_invariant(self);
        }
        self.last_overall
    }

    /// Only accept non-decreasing progress, so that bar jitter and stage restarts never move
    /// the bar backwards.
    fn commit_progress(&mut self, v: u32) -> (r: Option<u32>)
        requires
            v <= 100,
        ensures
            (r, final(self).last_overall) == commit(old(self).last_overall, Some(v)),
            final(self).pending == old(self).pending,
    {
        if v > self.last_overall {
            self.last_overall = v;
            Some(v)
        } else if v == self.last_overall {
            Some(v)
        } else {
            None
        }
    }

    /// Overall progress (committed) and stage of a clean line.
    fn parse_clean_line(&mut self, clean: &str) -> (r: (Option<u32>, Option<String>))
        ensures
            (r.0, final(self).last_overall) == commit(
                old(self).last_overall,
                overall_candidate(clean@),
            ),
            opt_text(r.1) == stage_spec(clean@),
            final(self).pending == old(self).pending,
    {
        let cand = overall_candidate_exec(clean);
        proof {
            lemma_candidate_le_100(clean@);
        }
        let stage = stage_exec(clean);
        let overall = match cand {
            Some(v) => self.commit_progress(v),
            None => None,
        };
        (overall, stage)
    }

    /// One line's bytes (without its delimiter).
    fn process_segment(&mut self, seg: &[u8]) -> (r: Option<ParsedLine>)
        ensures
            (line_seq(r), final(self).last_overall) == step(old(self).last_overall, seg@),
            final(self).pending == old(self).pending,
    {
        if seg.len() == 0 {
            return None;
        }
        let raw = decode_process_output(seg);
        let clean = clean_line(raw.as_str());
        if crate::text::is_blank(clean.as_str()) {
            return None;
        }
        let (overall, stage) = self.parse_clean_line(clean.as_str());
        Some(ParsedLine { text: clean, overall, stage })
    }

    /// Append raw bytes and return the complete logical lines that resulted.
    pub fn push_bytes(&mut self, bytes: &[u8]) -> (lines: Vec<ParsedLine>)
        ensures
            (lines_view(lines@), final(self)@) == push_spec(old(self)@, bytes@),
    {
        proof {
            use_type_invariant(&*self);
        }
        let ghost last0 = self.last_overall;
        let buf = concat_bytes(&self.pending, bytes);
        let ghost buf0 = buf@;
        self.pending = Vec::new();
        let mut out: Vec<ParsedLine> = Vec::new();
        let mut start: usize = 0;
        assert(buf@.subrange(0, buf.len() as int) =~= buf0);
        assert(lines_view(out@) + run(last0, segments(buf0)).0 =~= run(last0, segments(buf0)).0);
        loop
            invariant
                buf@ == buf0,
                start <= buf.len(),
                self.pending@ == Seq::<u8>::empty(),
                lines_view(out@) + run(
                    self.last_overall,
                    segments(buf@.subrange(start as int, buf.len() as int)),
                ).0 == run(last0, segments(buf0)).0,
                run(self.last_overall, segments(buf@.subrange(start as int, buf.len() as int))).1
                    == run(last0, segments(buf0)).1,
                remainder(buf@.subrange(start as int, buf.len() as int)) == remainder(buf0),
            ensures
                buf@ == buf0,
                start <= buf.len(),
                self.pending@ == Seq::<u8>::empty(),
                lines_view(out@) == run(last0, segments(buf0)).0,
                self.last_overall == run(last0, segments(buf0)).1,
                buf@.subrange(start as int, buf.len() as int) == remainder(buf0),
            decreases buf.len() - start,
        {
            let ghost tail = buf@.subrange(start as int, buf.len() as int);
            let j = find_delim(&buf, start);
            if j == buf.len() {
                proof {
                    lemma_segments_none(buf@, start as int);
                    assert(lines_view(out@) + Seq::<LineView>::empty() =~= lines_view(out@));
                }
                break;
            }
            let seg = copy_range(&buf, start, j);
            let ghost next_tail = buf@.subrange(j + 1, buf.len() as int);
            proof {
                lemma_segments_found(buf@, start as int, j as int);
            }
            let ghost l_before = self.last_overall;
            let ghost out_before = lines_view(out@);
            let line = self.process_segment(seg.as_slice());
            let ghost produced = line_seq(line);
            match line {
                Some(l) => {
                    out.push(l);
                },
                None => {},
            }
            proof {
                assert(lines_view(out@) =~= out_before + produced);
                lemma_run_first(l_before, seg@, segments(next_tail));
                let r_next = run(self.last_overall, segments(next_tail));
                vstd::seq_lib::lemma_concat_associative(out_before, produced, r_next.0);
            }
            start = j + 1;
        }
        proof {
            use_type_invariant(&*self);
        }
        self.pending = copy_range(&buf, start, buf.len());
        out
    }

    /// Flush the pending bytes as a final line (used when the stream ends).
    pub fn finish(&mut self) -> (lines: Vec<ParsedLine>)
        ensures
            lines_view(lines@) == step(old(self)@.1, old(self)@.0).0,
            final(self)@ == (Seq::<u8>::empty(), step(old(self)@.1, old(self)@.0).1),
    {
        proof {
            use_type_invariant(&*self);
        }
        let mut seg: Vec<u8> = Vec::new();
        std::mem::swap(&mut seg, &mut self.pending);
        let line = self.process_segment(seg.as_slice());
        let mut out: Vec<ParsedLine> = Vec::new();
        match line {
            Some(l) => {
                out.push(l);
            },
            None => {},
        }
        assert(lines_view(out@) =~= line_seq(line));
        out
    }
}

fn concat_bytes(a: &Vec<u8>, b: &[u8]) -> (r: Vec<u8>)
    ensures
        r@ == a@ + b@,
{
    let mut r: Vec<u8> = Vec::new();
    let mut i: usize = 0;
    while i < a.len()
        invariant
            i <= a.len(),
            r@ == a@.take(i as int),
        decreases a.len() - i,
    {
        r.push(a[i]);
        i = i + 1;
        assert(r@ =~= a@.take(i as int));
    }
    let mut k: usize = 0;
    while k < b.len()
        invariant
            k <= b.len(),
            r@ == a@ + b@.take(k as int),
        decreases b.len() - k,
    {
        r.push(b[k]);
        k = k + 1;
        assert(r@ =~= a@ + b@.take(k as int));
    }
    assert(a@.take(a.len() as int) =~= a@);
    assert(b@.take(b.len() as int) =~= b@);
    r
}

fn copy_range(buf: &Vec<u8>, lo: usize, hi: usize) -> (r: Vec<u8>)
    requires
        lo <= hi <= buf.len(),
    ensures
        r@ == buf@.subrange(lo as int, hi as int),
{
    let mut r: Vec<u8> = Vec::new();
    let mut i: usize = lo;
    while i < hi
        invariant
            lo <= i <= hi <= buf.len(),
            r@ == buf@.subrange(lo as int, i as int),
        decreases hi - i,
    {
        r.push(buf[i]);
        i = i + 1;
        assert(r@ =~= buf@.subrange(lo as int, i as int));
    }
    r
}

/// The position of the first `\r` or `\n` at or after `start`, or the length.
fn find_delim(buf: &Vec<u8>, start: usize) -> (j: usize)
    requires
        start <= buf.len(),
    ensures
        start <= j <= buf.len(),
        forall|i: int| start <= i < j ==> !is_delim(#[trigger] buf@[i]),
        j < buf.len() ==> is_delim(buf@[j as int]),
{
    let mut j: usize = start;
    while j < buf.len() && buf[j] != 13u8 && buf[j] != 10u8
        invariant
            start <= j <= buf.len(),
            forall|i: int| start <= i < j ==> !is_delim(#[trigger] buf@[i]),
        decreases buf.len() - j,
    {
        j = j + 1;
    }
    j
}

proof fn lemma_segments_none(buf: Seq<u8>, start: int)
    requires
        0 <= start <= buf.len(),
        forall|i: int| start <= i < buf.len() ==> !is_delim(#[trigger] buf[i]),
    ensures
        segments(buf.subrange(start, buf.len() as int)) == Seq::<Seq<u8>>::empty(),
        remainder(buf.subrange(start, buf.len() as int)) == buf.subrange(start, buf.len() as int),
{
    let tail = buf.subrange(start, buf.len() as int);
    assert forall|i: int| 0 <= i < tail.len() implies !(|b: u8| is_delim(b))(#[trigger] tail[i]) by {
        assert(tail[i] == buf[start + i]);
    }
    lemma_first_where_none(tail, |b: u8| is_delim(b));
}

proof fn lemma_segments_found(buf: Seq<u8>, start: int, j: int)
    requires
        0 <= start <= j < buf.len(),
        forall|i: int| start <= i < j ==> !is_delim(#[trigger] buf[i]),
        is_delim(buf[j]),
    ensures
        segments(buf.subrange(start, buf.len() as int)) == seq![buf.subrange(start, j)] + segments(
            buf.subrange(j + 1, buf.len() as int),
        ),
        remainder(buf.subrange(start, buf.len() as int)) == remainder(
            buf.subrange(j + 1, buf.len() as int),
        ),
{
    let tail = buf.subrange(start, buf.len() as int);
    let p = j - start;
    assert(tail[p] == buf[j]);
    assert forall|i: int| 0 <= i < p implies !(|b: u8| is_delim(b))(#[trigger] tail[i]) by {
        assert(tail[i] == buf[start + i]);
    }
    lemma_first_where_found(tail, |b: u8| is_delim(b), p);
    assert(tail.subrange(0, p) =~= buf.subrange(start, j));
    assert(tail.subrange(p + 1, tail.len() as int) =~= buf.subrange(j + 1, buf.len() as int));
}

proof fn lemma_run_first(last: u32, seg: Seq<u8>, rest: Seq<Seq<u8>>)
    ensures
        run(last, seq![seg] + rest) == (
            step(last, seg).0 + run(step(last, seg).1, rest).0,
            run(step(last, seg).1, rest).1,
        ),
{
    let segs = seq![seg] + rest;
    assert(segs[0] == seg);
    assert(segs.drop_first() =~= rest);
}

} // verus!
