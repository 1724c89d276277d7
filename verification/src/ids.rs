//! Fresh ids and time stamps: the forms they always take.
use vstd::prelude::*;

use crate::deps::uuid_simple;
use crate::text::{has_prefix, is_ascii_digit};

verus! {

/// A lower-case hexadecimal digit.
pub open spec fn lower_hex_digit(c: char) -> bool {
    ('0' <= c && c <= '9') || ('a' <= c && c <= 'f')
}

/// `r` is `prefix` followed by 32 lower-case hexadecimal digits: the form of a fresh id.
pub open spec fn fresh_form(r: Seq<char>, prefix: Seq<char>) -> bool {
    &&& r.len() == prefix.len() + 32
    &&& has_prefix(r, prefix)
    &&& forall|i: int| prefix.len() <= i < r.len() ==> lower_hex_digit(#[trigger] r[i])
}

/// A fresh random id: `prefix` followed by a new UUID in its 32-digit form.
pub fn fresh_id(prefix: &str) -> (r: String)
    ensures
        fresh_form(r@, prefix@),
{
    let mut r = prefix.to_string();
    let u = uuid_simple();
    r.append(u.as_str());
    assert(r@.subrange(0, prefix@.len() as int) =~= prefix@);
    assert forall|i: int| prefix@.len() <= i < r@.len() implies lower_hex_digit(#[trigger] r@[i]) by {
        assert(r@[i] == u@[i - prefix@.len()]);
    }
    r
}

/// All characters are ASCII digits.
pub open spec fn all_digits(s: Seq<char>) -> bool {
    forall|i: int| 0 <= i < s.len() ==> is_ascii_digit(#[trigger] s[i])
}

/// The year of an RFC 3339 time stamp: four digits, or a sign and at least four digits.
pub open spec fn year_form(y: Seq<char>) -> bool {
    ||| y.len() >= 4 && all_digits(y)
    ||| y.len() >= 5 && (y[0] == '+' || y[0] == '-') && all_digits(y.drop_first())
}

/// The date of a time stamp: a year, then `-MM-DD`.
pub open spec fn date_form(d: Seq<char>) -> bool {
    let n = d.len() as int;
    &&& n >= 10
    &&& year_form(d.subrange(0, n - 6))
    &&& d[n - 6] == '-'
    &&& is_ascii_digit(d[n - 5]) && is_ascii_digit(d[n - 4])
    &&& d[n - 3] == '-'
    &&& is_ascii_digit(d[n - 2]) && is_ascii_digit(d[n - 1])
}

/// The part after the `T`: `HH:MM:SS`, no fraction or a `.` and 3, 6 or 9 digits, then the
/// offset `+HH:MM` or `-HH:MM`.
pub open spec fn clock_form(t: Seq<char>) -> bool {
    let n = t.len() as int;
    let frac = t.subrange(8, n - 6);
    &&& n >= 14
    &&& is_ascii_digit(t[0]) && is_ascii_digit(t[1]) && t[2] == ':'
    &&& is_ascii_digit(t[3]) && is_ascii_digit(t[4]) && t[5] == ':'
    &&& is_ascii_digit(t[6]) && is_ascii_digit(t[7])
    &&& (frac.len() == 0 || (frac[0] == '.' && (frac.len() == 4 || frac.len() == 7 || frac.len()
        == 10) && all_digits(frac.drop_first())))
    &&& (t[n - 6] == '+' || t[n - 6] == '-')
    &&& is_ascii_digit(t[n - 5]) && is_ascii_digit(t[n - 4]) && t[n - 3] == ':'
    &&& is_ascii_digit(t[n - 2]) && is_ascii_digit(t[n - 1])
}

/// An RFC 3339 time stamp with a numeric offset, such as `2024-01-02T03:04:05.123+08:00`.
pub open spec fn rfc3339_form(s: Seq<char>) -> bool {
    exists|k: int|
        0 <= k < s.len() && #[trigger] s[k] == 'T' && date_form(s.subrange(0, k)) && clock_form(
            s.subrange(k + 1, s.len() as int),
        )
}

} // verus!
