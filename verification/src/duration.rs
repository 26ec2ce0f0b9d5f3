//! Duration specs such as "3-5分钟" or "10分钟", turned into a range of seconds.
use vstd::prelude::*;
use crate::text::{chars_of, digits_end, digits_end_index, digits_value, digits_value_capped, lemma_digits_end, spaces_end, spaces_end_index, trim, trim_chars};

verus! {

pub open spec fn is_dash(c: char) -> bool {
    c == '-' || c == '\u{2013}' || c == '\u{2014}'
}

/// `分` (minute).
pub open spec fn is_fen(c: char) -> bool {
    c == '\u{5206}'
}

/// The grammar `(\d+)\s*[-–—]\s*(\d+)\s*分钟?` matches at `p`.
pub open spec fn range_match_at(s: Seq<char>, p: int) -> bool {
    let e1 = digits_end(s, p);
    let d = spaces_end(s, e1);
    let q = spaces_end(s, d + 1);
    let e2 = digits_end(s, q);
    let f = spaces_end(s, e2);
    &&& 0 <= p < s.len()
    &&& e1 > p
    &&& d < s.len() && is_dash(s[d])
    &&& e2 > q
    &&& f < s.len() && is_fen(s[f])
}

/// The grammar `(\d+)\s*分钟?` matches at `p`.
pub open spec fn single_match_at(s: Seq<char>, p: int) -> bool {
    let e = digits_end(s, p);
    let f = spaces_end(s, e);
    &&& 0 <= p < s.len()
    &&& e > p
    &&& f < s.len() && is_fen(s[f])
}

/// Leftmost position at or after `k` where the range grammar matches, or -1.
pub open spec fn first_range_match(s: Seq<char>, k: int) -> int
    decreases s.len() - k,
{
    if k < 0 || k >= s.len() {
        -1
    } else if range_match_at(s, k) {
        k
    } else {
        first_range_match(s, k + 1)
    }
}

/// Leftmost position at or after `k` where the single grammar matches, or -1.
pub open spec fn first_single_match(s: Seq<char>, k: int) -> int
    decreases s.len() - k,
{
    if k < 0 || k >= s.len() {
        -1
    } else if single_match_at(s, k) {
        k
    } else {
        first_single_match(s, k + 1)
    }
}

pub open spec fn u32_max() -> int {
    0xffff_ffff
}

/// The minute range the text states, when its numbers fit `u32`.
pub open spec fn spec_parse_range(s: Seq<char>) -> Option<(int, int)> {
    let p = first_range_match(s, 0);
    if p < 0 {
        None
    } else {
        let e1 = digits_end(s, p);
        let q = spaces_end(s, spaces_end(s, e1) + 1);
        let e2 = digits_end(s, q);
        let lo = digits_value(s, p, e1);
        let hi = digits_value(s, q, e2);
        if lo <= u32_max() && hi <= u32_max() {
            Some((lo, hi))
        } else {
            None
        }
    }
}

/// The single minute count the text states, when it fits `u32`.
pub open spec fn spec_parse_single(s: Seq<char>) -> Option<int> {
    let p = first_single_match(s, 0);
    if p < 0 {
        None
    } else {
        let v = digits_value(s, p, digits_end(s, p));
        if v <= u32_max() {
            Some(v)
        } else {
            None
        }
    }
}

/// Seconds range of a duration text: a stated range of minutes, else a single
/// count of minutes (both ends equal), else 180 to 300 seconds.
pub open spec fn spec_duration(text: Seq<char>) -> (int, int) {
    let s = trim(text);
    match spec_parse_range(s) {
        Some((lo, hi)) => (lo * 60, hi * 60),
        None => match spec_parse_single(s) {
            Some(v) => (v * 60, v * 60),
            None => (180, 300),
        },
    }
}

/// The seconds of the range fit `u32` (the multiplication by 60 does not overflow).
pub open spec fn duration_fits(text: Seq<char>) -> bool {
    spec_duration(text).0 <= u32_max() && spec_duration(text).1 <= u32_max()
}

fn range_match_exec(s: &[char], p: usize) -> (r: bool)
    requires
        p < s@.len(),
    ensures
        r == range_match_at(s@, p as int),
{
    let e1 = digits_end_index(s, p);
    if e1 == p {
        return false;
    }
    let d = spaces_end_index(s, e1);
    if d >= s.len() || !(s[d] == '-' || s[d] == '\u{2013}' || s[d] == '\u{2014}') {
        return false;
    }
    let q = spaces_end_index(s, d + 1);
    let e2 = digits_end_index(s, q);
    if e2 == q {
        return false;
    }
    let f = spaces_end_index(s, e2);
    f < s.len() && s[f] == '\u{5206}'
}

fn single_match_exec(s: &[char], p: usize) -> (r: bool)
    requires
        p < s@.len(),
    ensures
        r == single_match_at(s@, p as int),
{
    let e = digits_end_index(s, p);
    if e == p {
        return false;
    }
    let f = spaces_end_index(s, e);
    f < s.len() && s[f] == '\u{5206}'
}

fn parse_range(s: &[char]) -> (r: Option<(u32, u32)>)
    ensures
        r is Some <==> spec_parse_range(s@) is Some,
        r is Some ==> (r->0).0 == (spec_parse_range(s@)->0).0 && (r->0).1 == (spec_parse_range(s@)->0).1,
{
    let mut p: usize = 0;
    while p < s.len()
        invariant
            p <= s@.len(),
            first_range_match(s@, 0) == first_range_match(s@, p as int),
        decreases s@.len() - p,
    {
        if range_match_exec(s, p) {
            let e1 = digits_end_index(s, p);
            let q = spaces_end_index(s, spaces_end_index(s, e1) + 1);
            let e2 = digits_end_index(s, q);
            proof {
                lemma_digits_end(s@, p as int);
                lemma_digits_end(s@, q as int);
            }
            assert(first_range_match(s@, p as int) == p);
            let lo = digits_value_capped(s, p, e1, 0xffff_ffff);
            let hi = digits_value_capped(s, q, e2, 0xffff_ffff);
            assert(spec_parse_range(s@) == (if digits_value(s@, p as int, e1 as int) <= u32_max()
                && digits_value(s@, q as int, e2 as int) <= u32_max() {
                Some((digits_value(s@, p as int, e1 as int), digits_value(s@, q as int, e2 as int)))
            } else {
                None
            }));
            match (lo, hi) {
                (Some(a), Some(b)) => {
                    return Some((a as u32, b as u32));
                },
                _ => {
                    return None;
                },
            }
        }
        p += 1;
    }
    None
}

fn parse_single(s: &[char]) -> (r: Option<u32>)
    ensures
        r is Some <==> spec_parse_single(s@) is Some,
        r is Some ==> r->0 == spec_parse_single(s@)->0,
{
    let mut p: usize = 0;
    while p < s.len()
        invariant
            p <= s@.len(),
            first_single_match(s@, 0) == first_single_match(s@, p as int),
        decreases s@.len() - p,
    {
        if single_match_exec(s, p) {
            let e = digits_end_index(s, p);
            proof {
                lemma_digits_end(s@, p as int);
            }
            assert(first_single_match(s@, p as int) == p);
            match digits_value_capped(s, p, e, 0xffff_ffff) {
                Some(v) => {
                    return Some(v as u32);
                },
                None => {
                    return None;
                },
            }
        }
        p += 1;
    }
    None
}

/// Whether the seconds of a duration text fit `u32` (`duration_fits`).
pub fn duration_text_fits(duration_str: &str) -> (r: bool)
    ensures
        r == duration_fits(duration_str@),
{
    let all = chars_of(duration_str);
    let s = trim_chars(&all);
    assert(s@ == trim(duration_str@));
    if let Some((lo, hi)) = parse_range(&s) {
        return lo <= 71582788 && hi <= 71582788;
    }
    if let Some(v) = parse_single(&s) {
        return v <= 71582788;
    }
    true
}

/// Parse a duration text (e.g. "3-5分钟", "10分钟") into a range of seconds.
pub fn parse_duration(duration_str: &str) -> (r: (u32, u32))
    requires
        duration_fits(duration_str@),
    ensures
        r.0 == spec_duration(duration_str@).0,
        r.1 == spec_duration(duration_str@).1,
{
    let all = chars_of(duration_str);
    let s = trim_chars(&all);
    assert(s@ == trim(duration_str@));
    if let Some((lo, hi)) = parse_range(&s) {
        assert(spec_parse_range(s@) is Some);
        let ghost sp = spec_parse_range(s@)->0;
        assert(spec_duration(duration_str@) == (sp.0 * 60, sp.1 * 60));
        return (lo * 60, hi * 60);
    }
    if let Some(v) = parse_single(&s) {
        return (v * 60, v * 60);
    }
    (180, 300)
}

} // verus!
