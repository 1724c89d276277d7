//! File names, stems and extensions of path strings.
//!
//! Paths are read as the Windows desktop app receives them: a drive (`C:`) or UNC share
//! (`\\server\share`) prefix is set apart, both `/` and `\` separate components, trailing
//! separators and `.` components are ignored, and a final `..` has no file name.
use vstd::prelude::*;

use crate::text::{ascii_lower_char, lower_seq};

verus! {

pub open spec fn is_sep(c: char) -> bool {
    c == '/' || c == '\\'
}

/// The position just after the last separator of `p` (0 when there is none).
pub open spec fn last_sep_end(p: Seq<char>) -> int
    decreases p.len(),
{
    if p.len() == 0 {
        0
    } else if is_sep(p.last()) {
        p.len() as int
    } else {
        last_sep_end(p.drop_last())
    }
}

pub proof fn lemma_last_sep_end_bounds(p: Seq<char>)
    ensures
        0 <= last_sep_end(p) <= p.len(),
        p.len() > 0 && !is_sep(p.last()) ==> last_sep_end(p) < p.len(),
        forall|i: int| last_sep_end(p) <= i < p.len() ==> !is_sep(#[trigger] p[i]),
    decreases p.len(),
{
    if p.len() > 0 && !is_sep(p.last()) {
        lemma_last_sep_end_bounds(p.drop_last());
        assert forall|i: int| last_sep_end(p) <= i < p.len() implies !is_sep(#[trigger] p[i]) by {
            if i < p.len() - 1 {
                assert(p[i] == p.drop_last()[i]);
            }
        }
    }
}

/// The last component of `p`, a path without prefix, that names something.
pub open spec fn name_in(p: Seq<char>) -> Option<Seq<char>>
    decreases p.len(),
{
    if p.len() == 0 {
        None
    } else if is_sep(p.last()) {
        name_in(p.drop_last())
    } else {
        let k = last_sep_end(p);
        if 0 <= k < p.len() {
            let seg = p.subrange(k, p.len() as int);
            if seg == seq!['.'] {
                name_in(p.subrange(0, k))
            } else if seg == seq!['.', '.'] {
                None
            } else {
                Some(seg)
            }
        } else {
            None
        }
    }
}

/// The first separator of `p` at or after `i` (the length when there is none).
pub open spec fn next_sep(p: Seq<char>, i: int) -> int
    decreases p.len() - i,
{
    if i < 0 || i >= p.len() {
        p.len() as int
    } else if is_sep(p[i]) {
        i
    } else {
        next_sep(p, i + 1)
    }
}

/// The length of a Windows path prefix of `p`: a drive (`C:`), or a UNC share
/// (`\\server\share`, either separator); 0 when there is none.
pub open spec fn prefix_len(p: Seq<char>) -> int {
    if p.len() >= 2 && ascii_letter(p[0]) && p[1] == ':' {
        2
    } else if p.len() >= 2 && is_sep(p[0]) && is_sep(p[1]) {
        let a = next_sep(p, 2);
        if a >= p.len() {
            p.len() as int
        } else {
            next_sep(p, a + 1)
        }
    } else {
        0
    }
}

pub open spec fn ascii_letter(c: char) -> bool {
    ('a' <= c && c <= 'z') || ('A' <= c && c <= 'Z')
}

/// What `Path::file_name` gives on Windows: the last component after the prefix that names
/// something.
pub open spec fn file_name(p: Seq<char>) -> Option<Seq<char>> {
    name_in(p.subrange(prefix_len(p), p.len() as int))
}

/// The position of the last `.` in `n`.
pub open spec fn last_dot(n: Seq<char>) -> Option<int>
    decreases n.len(),
{
    if n.len() == 0 {
        None
    } else if n.last() == '.' {
        Some(n.len() - 1)
    } else {
        last_dot(n.drop_last())
    }
}

/// What `Path::extension` gives: the file name's part after its last `.`, unless that dot
/// is its first character.
pub open spec fn extension(p: Seq<char>) -> Option<Seq<char>> {
    match file_name(p) {
        Some(n) => match last_dot(n) {
            Some(i) => if i == 0 {
                None
            } else {
                Some(n.subrange(i + 1, n.len() as int))
            },
            None => None,
        },
        None => None,
    }
}

/// What `Path::file_stem` gives: the file name without its extension.
pub open spec fn file_stem(p: Seq<char>) -> Option<Seq<char>> {
    match file_name(p) {
        Some(n) => match last_dot(n) {
            Some(i) => if i == 0 {
                Some(n)
            } else {
                Some(n.subrange(0, i))
            },
            None => Some(n),
        },
        None => None,
    }
}

proof fn lemma_scan_is_last_sep_end(p: Seq<char>, k: int)
    requires
        0 <= k <= p.len(),
        k == 0 || is_sep(p[k - 1]),
        forall|i: int| k <= i < p.len() ==> !is_sep(#[trigger] p[i]),
    ensures
        last_sep_end(p) == k,
    decreases p.len(),
{
    if p.len() > k {
        assert(!is_sep(p.last()));
        let q = p.drop_last();
        assert forall|i: int| k <= i < q.len() implies !is_sep(#[trigger] q[i]) by {
            assert(q[i] == p[i]);
        }
        if k > 0 {
            assert(q[k - 1] == p[k - 1]);
        }
        lemma_scan_is_last_sep_end(q, k);
    } else if k > 0 {
        assert(p.last() == p[k - 1]);
    }
}

fn is_sep_char(c: char) -> (r: bool)
    ensures
        r == is_sep(c),
{
    c == '/' || c == '\\'
}

/// Bounds of the named last component of `p` (a path without prefix) within `p`.
fn name_bounds(p: &Vec<char>) -> (r: Option<(usize, usize)>)
    ensures
        match r {
            Some((lo, hi)) => lo <= hi <= p@.len() && name_in(p@) == Some(
                p@.subrange(lo as int, hi as int),
            ),
            None => name_in(p@) is None,
        },
{
    let mut end: usize = p.len();
    assert(p@.subrange(0, end as int) =~= p@);
    loop
        invariant
            end <= p.len(),
            name_in(p@) == name_in(p@.subrange(0, end as int)),
        decreases end,
    {
        let ghost e0 = end;
        while end > 0 && is_sep_char(p[end - 1])
            invariant
                end <= e0 <= p.len(),
                name_in(p@) == name_in(p@.subrange(0, end as int)),
            decreases end,
        {
            let ghost q = p@.subrange(0, end as int);
            assert(q.last() == p@[end - 1]);
            assert(q.drop_last() =~= p@.subrange(0, end - 1));
            end = end - 1;
        }
        if end == 0 {
            return None;
        }
        let ghost q = p@.subrange(0, end as int);
        assert(q.last() == p@[end - 1]);
        let mut k: usize = end;
        while k > 0 && !is_sep_char(p[k - 1])
            invariant
                k <= end <= p.len(),
                forall|i: int| k <= i < end ==> !is_sep(#[trigger] p@[i]),
            decreases k,
        {
            k = k - 1;
        }
        proof {
            assert forall|i: int| k <= i < q.len() implies !is_sep(#[trigger] q[i]) by {
                assert(q[i] == p@[i]);
            }
            if k > 0 {
                assert(q[k - 1] == p@[k - 1]);
            }
            lemma_scan_is_last_sep_end(q, k as int);
        }
        let ghost seg = q.subrange(k as int, end as int);
        assert(seg =~= p@.subrange(k as int, end as int));
        let len = end - k;
        if len == 1 && p[k] == '.' {
            assert(seg =~= seq!['.']);
            assert(q.subrange(0, k as int) =~= p@.subrange(0, k as int));
            end = k;
        } else if len == 2 && p[k] == '.' && p[k + 1] == '.' {
            assert(seg =~= seq!['.', '.']);
            return None;
        } else {
            assert(seg != seq!['.']) by {
                if seg.len() == 1 {
                    assert(seg[0] == p@[k as int]);
                }
            }
            assert(seg != seq!['.', '.']) by {
                if seg.len() == 2 {
                    assert(seg[0] == p@[k as int]);
                    assert(seg[1] == p@[k + 1]);
                }
            }
            return Some((k, end));
        }
    }
}

fn next_sep_exec(p: &Vec<char>, i: usize) -> (r: usize)
    requires
        i <= p.len(),
    ensures
        r as int == next_sep(p@, i as int),
        r <= p.len(),
{
    let mut j: usize = i;
    while j < p.len() && !is_sep_char(p[j])
        invariant
            i <= j <= p.len(),
            next_sep(p@, i as int) == next_sep(p@, j as int),
        decreases p.len() - j,
    {
        j = j + 1;
    }
    j
}

/// The length of the Windows prefix of `p`.
pub fn prefix_end(p: &Vec<char>) -> (r: usize)
    ensures
        r as int == prefix_len(p@),
        r <= p.len(),
{
    let n = p.len();
    if n >= 2 && (('a' <= p[0] && p[0] <= 'z') || ('A' <= p[0] && p[0] <= 'Z')) && p[1] == ':' {
        2
    } else if n >= 2 && is_sep_char(p[0]) && is_sep_char(p[1]) {
        let a = next_sep_exec(p, 2);
        if a >= n {
            n
        } else {
            next_sep_exec(p, a + 1)
        }
    } else {
        0
    }
}

/// Bounds of the file name of `p` within `p`.
pub fn file_name_bounds(p: &Vec<char>) -> (r: Option<(usize, usize)>)
    ensures
        match r {
            Some((lo, hi)) => lo <= hi <= p@.len() && file_name(p@) == Some(
                p@.subrange(lo as int, hi as int),
            ),
            None => file_name(p@) is None,
        },
{
    let k = prefix_end(p);
    let mut rest: Vec<char> = Vec::new();
    let mut i: usize = k;
    while i < p.len()
        invariant
            k <= i <= p.len(),
            rest@ == p@.subrange(k as int, i as int),
        decreases p.len() - i,
    {
        rest.push(p[i]);
        i = i + 1;
        assert(rest@ =~= p@.subrange(k as int, i as int));
    }
    match name_bounds(&rest) {
        None => None,
        Some((lo, hi)) => {
            assert(rest@.subrange(lo as int, hi as int) =~= p@.subrange(lo + k, hi + k));
            Some((lo + k, hi + k))
        },
    }
}

/// Position of the last `.` within `p[lo..hi]`, relative to `lo`.
fn last_dot_in(p: &Vec<char>, lo: usize, hi: usize) -> (r: Option<usize>)
    requires
        lo <= hi <= p.len(),
    ensures
        match r {
            Some(i) => lo + i < hi && last_dot(p@.subrange(lo as int, hi as int)) == Some(
                i as int,
            ),
            None => last_dot(p@.subrange(lo as int, hi as int)) is None,
        },
{
    let mut j: usize = hi;
    while j > lo
        invariant
            lo <= j <= hi <= p.len(),
            last_dot(p@.subrange(lo as int, hi as int)) == last_dot(
                p@.subrange(lo as int, j as int),
            ),
        decreases j,
    {
        let ghost n = p@.subrange(lo as int, j as int);
        assert(n.last() == p@[j - 1]);
        if p[j - 1] == '.' {
            return Some(j - 1 - lo);
        }
        assert(n.drop_last() =~= p@.subrange(lo as int, j - 1));
        j = j - 1;
    }
    None
}

/// Bounds of the extension of `p` within `p`, as `Path::extension` finds it.
pub fn extension_bounds(p: &Vec<char>) -> (r: Option<(usize, usize)>)
    ensures
        match r {
            Some((lo, hi)) => lo <= hi <= p@.len() && extension(p@) == Some(
                p@.subrange(lo as int, hi as int),
            ),
            None => extension(p@) is None,
        },
{
    match file_name_bounds(p) {
        None => None,
        Some((lo, hi)) => match last_dot_in(p, lo, hi) {
            None => None,
            Some(i) => {
                if i == 0 {
                    None
                } else {
                    let ghost n = p@.subrange(lo as int, hi as int);
                    assert(n.subrange(i + 1, n.len() as int) =~= p@.subrange(
                        lo + i + 1,
                        hi as int,
                    ));
                    Some((lo + i + 1, hi))
                }
            },
        },
    }
}

/// Bounds of the file stem of `p` within `p`, as `Path::file_stem` finds it.
pub fn file_stem_bounds(p: &Vec<char>) -> (r: Option<(usize, usize)>)
    ensures
        match r {
            Some((lo, hi)) => lo <= hi <= p@.len() && file_stem(p@) == Some(
                p@.subrange(lo as int, hi as int),
            ),
            None => file_stem(p@) is None,
        },
{
    match file_name_bounds(p) {
        None => None,
        Some((lo, hi)) => match last_dot_in(p, lo, hi) {
            None => Some((lo, hi)),
            Some(i) => {
                if i == 0 {
                    Some((lo, hi))
                } else {
                    let ghost n = p@.subrange(lo as int, hi as int);
                    assert(n.subrange(0, i as int) =~= p@.subrange(lo as int, lo + i));
                    Some((lo, lo + i))
                }
            },
        },
    }
}

proof fn lemma_last_dot(n: Seq<char>)
    ensures
        last_dot(n) matches Some(i) ==> 0 <= i < n.len() && n[i] == '.' && forall|j: int|
            i < j < n.len() ==> #[trigger] n[j] != '.',
        last_dot(n) is None ==> forall|j: int| 0 <= j < n.len() ==> #[trigger] n[j] != '.',
    decreases n.len(),
{
    if n.len() > 0 && n.last() != '.' {
        lemma_last_dot(n.drop_last());
        assert forall|j: int| 0 <= j < n.len() - 1 implies #[trigger] n[j] == n.drop_last()[j] by {}
    }
}

proof fn lemma_name_in(p: Seq<char>)
    ensures
        name_in(p) matches Some(n) ==> n.len() > 0 && n != seq!['.'] && n != seq!['.', '.']
            && forall|j: int| 0 <= j < n.len() ==> !is_sep(#[trigger] n[j]),
    decreases p.len(),
{
    if p.len() > 0 {
        if is_sep(p.last()) {
            lemma_name_in(p.drop_last());
        } else {
            let k = last_sep_end(p);
            lemma_last_sep_end_bounds(p);
            if 0 <= k < p.len() {
                let seg = p.subrange(k, p.len() as int);
                if seg == seq!['.'] {
                    lemma_name_in(p.subrange(0, k));
                } else if seg != seq!['.', '.'] {
                    assert forall|j: int| 0 <= j < seg.len() implies !is_sep(#[trigger] seg[j]) by {
                        assert(seg[j] == p[k + j]);
                    }
                }
            }
        }
    }
}

/// A file name is never empty, `.` or `..`, and holds no `/` or `\`. With an extension, it
/// is the stem, a `.`, and the extension, which holds no `.` (the stem is not empty);
/// without one, the stem is the whole name; without a file name there is neither.
pub proof fn law_name_is_stem_dot_extension(p: Seq<char>)
    ensures
        file_name(p) matches Some(n) ==> n.len() > 0 && n != "."@ && n != ".."@ && forall|j: int|
            0 <= j < n.len() ==> (#[trigger] n[j] != '/' && n[j] != '\\'),
        file_name(p) is None ==> file_stem(p) is None && extension(p) is None,
        file_name(p) is Some && extension(p) is None ==> file_stem(p) == file_name(p),
        file_name(p) is Some && extension(p) is Some ==> file_stem(p) is Some && file_stem(p)->0.len()
            > 0 && file_name(p)->0 == file_stem(p)->0 + "."@ + extension(p)->0 && forall|j: int|
            0 <= j < extension(p)->0.len() ==> #[trigger] extension(p)->0[j] != '.',
{
    reveal_strlit(".");
    reveal_strlit("..");
    let q = p.subrange(prefix_len(p), p.len() as int);
    lemma_name_in(q);
    assert("."@ =~= seq!['.']);
    assert(".."@ =~= seq!['.', '.']);
    match file_name(p) {
        Some(n) => {
            lemma_last_dot(n);
            match last_dot(n) {
                Some(i) => {
                    if i > 0 {
                        let e = n.subrange(i + 1, n.len() as int);
                        assert(n =~= n.subrange(0, i) + "."@ + e);
                        assert forall|j: int| 0 <= j < e.len() implies #[trigger] e[j] != '.' by {
                            assert(e[j] == n[i + 1 + j]);
                        }
                    }
                },
                None => {},
            }
        },
        None => {},
    }
}

/// The file stem of `path`, or `"output"` when it has none: the name the sidecars'
/// outputs are derived from.
pub open spec fn stem_or_output(path: Seq<char>) -> Seq<char> {
    match file_stem(path) {
        Some(s) => s,
        None => "output"@,
    }
}

/// Outputs are named after the input's file stem, and after `output` when the input has
/// no file name.
pub proof fn law_outputs_named_after_stem(path: Seq<char>)
    ensures
        file_stem(path) matches Some(s) ==> stem_or_output(path) == s,
        file_name(path) is None ==> stem_or_output(path) == "output"@,
{
}

pub fn stem_or_output_of(path: &str) -> (r: String)
    ensures
        r@ == stem_or_output(path@),
{
    let v = crate::text::chars_of(path);
    match file_stem_bounds(&v) {
        Some((lo, hi)) => path.substring_char(lo, hi).to_owned(),
        None => "output".to_string(),
    }
}

/// The extension of `path`, in ASCII lower case.
pub fn lower_extension(path: &str) -> (r: Option<Vec<char>>)
    ensures
        match r {
            Some(e) => extension(path@) matches Some(x) && e@ == lower_seq(x),
            None => extension(path@) is None,
        },
{
    let v = crate::text::chars_of(path);
    match extension_bounds(&v) {
        None => None,
        Some((lo, hi)) => {
            let mut e: Vec<char> = Vec::new();
            let mut i: usize = lo;
            while i < hi
                invariant
                    lo <= i <= hi <= v.len(),
                    e@ == lower_seq(v@.subrange(lo as int, i as int)),
                decreases hi - i,
            {
                e.push(ascii_lower_char(v[i]));
                i = i + 1;
                assert(e@ =~= lower_seq(v@.subrange(lo as int, i as int)));
            }
            Some(e)
        },
    }
}

} // verus!
