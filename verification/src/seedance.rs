//! The script side of the video planning phases: scene headers and their
//! durations, the splitting of a script into numbered paragraphs grouped by
//! scene, and the decisions around the model's analysis and unit outputs.
use vstd::prelude::*;
use crate::v5_parser::ParagraphIndexItem;
use crate::json::{Json, JsonV};
use crate::text::{
    chars_of, copy_range, digits_end, digits_end_index, digits_value, digits_value_capped, is_digit,
    lemma_digits_end, lemma_spaces_end, spaces_end, spaces_end_index, spec_parse_usize, string_of, trim, trim_chars,
};

verus! {

/// The first match at or after `i` of a pattern whose matches at each start
/// `f` gives.
pub open spec fn first_match<T>(s: Seq<char>, i: int, f: spec_fn(int) -> Option<T>) -> Option<T>
    decreases s.len() + 1 - i,
{
    if i < 0 || i > s.len() {
        None
    } else if f(i) is Some {
        f(i)
    } else {
        first_match(s, i + 1, f)
    }
}

/// The value of the digits `s[a..b]` as `parse::<usize>().unwrap_or(0)` reads
/// them.
pub open spec fn dval(s: Seq<char>, a: int, b: int) -> int {
    if digits_value(s, a, b) <= usize::MAX {
        digits_value(s, a, b)
    } else {
        0
    }
}

pub open spec fn is_open_paren(c: char) -> bool {
    c == '(' || c == '\u{ff08}'
}

pub open spec fn is_close_paren(c: char) -> bool {
    c == ')' || c == '\u{ff09}'
}

pub open spec fn is_range_dash(c: char) -> bool {
    c == '-' || c == '\u{2013}' || c == '\u{2014}' || c == '~' || c == '\u{ff5e}'
}

/// `(m:ss-m:ss)`: the start and end of a time range, in seconds.
pub open spec fn range_at(s: Seq<char>, p: int) -> Option<(int, int)> {
    let i1 = spaces_end(s, p + 1);
    let d1 = digits_end(s, i1);
    let d2 = digits_end(s, d1 + 1);
    let w = spaces_end(s, d2);
    let i3 = spaces_end(s, w + 1);
    let d3 = digits_end(s, i3);
    let d4 = digits_end(s, d3 + 1);
    let w2 = spaces_end(s, d4);
    if 0 <= p < s.len() && is_open_paren(s[p]) && i1 < d1 < s.len() && s[d1] == ':' && d1 + 1 < d2 && w < s.len()
        && is_range_dash(s[w]) && i3 < d3 < s.len() && s[d3] == ':' && d3 + 1 < d4 && w2 < s.len() && is_close_paren(s[w2]) {
        Some((dval(s, i1, d1) * 60 + dval(s, d1 + 1, d2), dval(s, i3, d3) * 60 + dval(s, d3 + 1, d4)))
    } else {
        None
    }
}

/// Start of the number after an opening bracket, an optional `约` and space.
pub open spec fn about_num_start(s: Seq<char>, p: int) -> int {
    let i1 = spaces_end(s, p + 1);
    let j = if 0 <= i1 < s.len() && s[i1] == '\u{7ea6}' { i1 + 1 } else { i1 };
    spaces_end(s, j)
}

/// `(约 m 分 s 秒)`: a duration in seconds.
pub open spec fn min_sec_at(s: Seq<char>, p: int) -> Option<int> {
    let i2 = about_num_start(s, p);
    let d1 = digits_end(s, i2);
    let w1 = spaces_end(s, d1);
    let i3 = spaces_end(s, w1 + 1);
    let d2 = digits_end(s, i3);
    let w2 = spaces_end(s, d2);
    let w3 = spaces_end(s, w2 + 1);
    if 0 <= p < s.len() && is_open_paren(s[p]) && i2 < d1 && w1 < s.len() && s[w1] == '\u{5206}' && i3 < d2
        && w2 < s.len() && s[w2] == '\u{79d2}' && w3 < s.len() && is_close_paren(s[w3]) {
        Some(dval(s, i2, d1) * 60 + dval(s, i3, d2))
    } else {
        None
    }
}

/// `(约 m 分钟)`: a duration in seconds.
pub open spec fn minutes_at(s: Seq<char>, p: int) -> Option<int> {
    let i2 = about_num_start(s, p);
    let d1 = digits_end(s, i2);
    let w1 = spaces_end(s, d1);
    let k = if 0 <= w1 + 1 < s.len() && s[w1 + 1] == '\u{949f}' { w1 + 2 } else { w1 + 1 };
    let w2 = spaces_end(s, k);
    if 0 <= p < s.len() && is_open_paren(s[p]) && i2 < d1 && w1 < s.len() && s[w1] == '\u{5206}' && w2 < s.len()
        && is_close_paren(s[w2]) {
        Some(dval(s, i2, d1) * 60)
    } else {
        None
    }
}

/// `(约 s 秒)`: a duration in seconds.
pub open spec fn seconds_at(s: Seq<char>, p: int) -> Option<int> {
    let i2 = about_num_start(s, p);
    let d1 = digits_end(s, i2);
    let w1 = spaces_end(s, d1);
    let w2 = spaces_end(s, w1 + 1);
    if 0 <= p < s.len() && is_open_paren(s[p]) && i2 < d1 && w1 < s.len() && s[w1] == '\u{79d2}' && w2 < s.len()
        && is_close_paren(s[w2]) {
        Some(dval(s, i2, d1))
    } else {
        None
    }
}

pub open spec fn first_range(s: Seq<char>) -> Option<(int, int)> {
    first_match(s, 0, |p: int| range_at(s, p))
}

pub open spec fn first_min_sec(s: Seq<char>) -> Option<int> {
    first_match(s, 0, |p: int| min_sec_at(s, p))
}

pub open spec fn first_minutes(s: Seq<char>) -> Option<int> {
    first_match(s, 0, |p: int| minutes_at(s, p))
}

pub open spec fn first_seconds(s: Seq<char>) -> Option<int> {
    first_match(s, 0, |p: int| seconds_at(s, p))
}

/// The length of a scene in seconds, as its header writes it: a time range
/// `(0:00-1:30)` (when it ends after it starts), else `(约1分30秒)`, `(约2分钟)`
/// or `(约45秒)`.
pub open spec fn spec_scene_secs(s: Seq<char>) -> Option<int> {
    let r = first_range(s);
    if r is Some && (r->0).1 > (r->0).0 {
        Some((r->0).1 - (r->0).0)
    } else if first_min_sec(s) is Some {
        first_min_sec(s)
    } else if first_minutes(s) is Some {
        first_minutes(s)
    } else {
        first_seconds(s)
    }
}

/// The sums the reading of a duration computes fit `usize`.
pub open spec fn scene_secs_fit(s: Seq<char>) -> bool {
    let r = first_range(s);
    &&& (r is Some ==> (r->0).0 <= usize::MAX && (r->0).1 <= usize::MAX)
    &&& (!(r is Some && (r->0).1 > (r->0).0) ==> (first_min_sec(s) is Some ==> first_min_sec(s)->0 <= usize::MAX)
        && (first_min_sec(s) is None ==> (first_minutes(s) is Some ==> first_minutes(s)->0 <= usize::MAX)))
}

proof fn lemma_digits(s: Seq<char>, i: int)
    requires
        0 <= i <= s.len(),
    ensures
        i <= digits_end(s, i) <= s.len(),
        forall|k: int| i <= k < digits_end(s, i) ==> is_digit(#[trigger] s[k]),
        digits_value(s, i, digits_end(s, i)) >= 0,
{
    lemma_digits_end(s, i);
    lemma_digits_value_nonneg(s, i, digits_end(s, i));
}

proof fn lemma_digits_value_nonneg(s: Seq<char>, a: int, b: int)
    requires
        forall|k: int| a <= k < b ==> is_digit(#[trigger] s[k]),
    ensures
        digits_value(s, a, b) >= 0,
    decreases b - a,
{
    if b > a {
        lemma_digits_value_nonneg(s, a, b - 1);
    }
}

/// `dval` of a digit run.
fn dval_exec(s: &[char], a: usize, b: usize) -> (r: u128)
    requires
        a <= b <= s@.len(),
        forall|k: int| a <= k < b ==> is_digit(#[trigger] s@[k]),
    ensures
        r == dval(s@, a as int, b as int),
        r <= usize::MAX,
{
    match digits_value_capped(s, a, b, usize::MAX as u64) {
        Some(v) => v as u128,
        None => 0,
    }
}

/// The digit run at `i` (its end), with the facts the readers use.
fn digits_at(s: &[char], i: usize) -> (r: usize)
    requires
        i <= s@.len(),
    ensures
        r == digits_end(s@, i as int),
        i <= r <= s@.len(),
        forall|k: int| i <= k < r ==> is_digit(#[trigger] s@[k]),
{
    proof {
        lemma_digits(s@, i as int);
    }
    digits_end_index(s, i)
}

fn spaces_at(s: &[char], i: usize) -> (r: usize)
    requires
        i <= s@.len(),
    ensures
        r == spaces_end(s@, i as int),
        i <= r <= s@.len(),
{
    proof {
        lemma_spaces_end(s@, i as int);
    }
    spaces_end_index(s, i)
}

fn is_open_paren_exec(c: char) -> (r: bool)
    ensures
        r == is_open_paren(c),
{
    c == '(' || c == '\u{ff08}'
}

fn is_close_paren_exec(c: char) -> (r: bool)
    ensures
        r == is_close_paren(c),
{
    c == ')' || c == '\u{ff09}'
}

fn range_at_exec(s: &[char], p: usize) -> (r: Option<(u128, u128)>)
    requires
        p <= s@.len(),
    ensures
        match r {
            Some(v) => range_at(s@, p as int) == Some((v.0 as int, v.1 as int)),
            None => range_at(s@, p as int) is None,
        },
{
    let n = s.len();
    if !(p < n && is_open_paren_exec(s[p])) {
        return None;
    }
    let i1 = spaces_at(s, p + 1);
    let d1 = digits_at(s, i1);
    if !(i1 < d1 && d1 < n && s[d1] == ':') {
        return None;
    }
    let d2 = digits_at(s, d1 + 1);
    if !(d1 + 1 < d2) {
        return None;
    }
    let w = spaces_at(s, d2);
    if !(w < n && (s[w] == '-' || s[w] == '\u{2013}' || s[w] == '\u{2014}' || s[w] == '~' || s[w] == '\u{ff5e}')) {
        return None;
    }
    let i3 = spaces_at(s, w + 1);
    let d3 = digits_at(s, i3);
    if !(i3 < d3 && d3 < n && s[d3] == ':') {
        return None;
    }
    let d4 = digits_at(s, d3 + 1);
    if !(d3 + 1 < d4) {
        return None;
    }
    let w2 = spaces_at(s, d4);
    if !(w2 < n && is_close_paren_exec(s[w2])) {
        return None;
    }
    let a = dval_exec(s, i1, d1) * 60 + dval_exec(s, d1 + 1, d2);
    let b = dval_exec(s, i3, d3) * 60 + dval_exec(s, d3 + 1, d4);
    Some((a, b))
}

fn about_num_start_exec(s: &[char], p: usize) -> (r: usize)
    requires
        p < s@.len(),
    ensures
        r == about_num_start(s@, p as int),
        p < r <= s@.len(),
{
    let n = s.len();
    let i1 = spaces_at(s, p + 1);
    let j = if i1 < n && s[i1] == '\u{7ea6}' { i1 + 1 } else { i1 };
    spaces_at(s, j)
}

fn min_sec_at_exec(s: &[char], p: usize) -> (r: Option<u128>)
    requires
        p <= s@.len(),
    ensures
        match r {
            Some(v) => min_sec_at(s@, p as int) == Some(v as int),
            None => min_sec_at(s@, p as int) is None,
        },
{
    let n = s.len();
    if !(p < n && is_open_paren_exec(s[p])) {
        return None;
    }
    let i2 = about_num_start_exec(s, p);
    let d1 = digits_at(s, i2);
    if !(i2 < d1) {
        return None;
    }
    let w1 = spaces_at(s, d1);
    if !(w1 < n && s[w1] == '\u{5206}') {
        return None;
    }
    let i3 = spaces_at(s, w1 + 1);
    let d2 = digits_at(s, i3);
    if !(i3 < d2) {
        return None;
    }
    let w2 = spaces_at(s, d2);
    if !(w2 < n && s[w2] == '\u{79d2}') {
        return None;
    }
    let w3 = spaces_at(s, w2 + 1);
    if !(w3 < n && is_close_paren_exec(s[w3])) {
        return None;
    }
    Some(dval_exec(s, i2, d1) * 60 + dval_exec(s, i3, d2))
}

fn minutes_at_exec(s: &[char], p: usize) -> (r: Option<u128>)
    requires
        p <= s@.len(),
    ensures
        match r {
            Some(v) => minutes_at(s@, p as int) == Some(v as int),
            None => minutes_at(s@, p as int) is None,
        },
{
    let n = s.len();
    if !(p < n && is_open_paren_exec(s[p])) {
        return None;
    }
    let i2 = about_num_start_exec(s, p);
    let d1 = digits_at(s, i2);
    if !(i2 < d1) {
        return None;
    }
    let w1 = spaces_at(s, d1);
    if !(w1 < n && s[w1] == '\u{5206}') {
        return None;
    }
    let k = if w1 + 1 < n && s[w1 + 1] == '\u{949f}' { w1 + 2 } else { w1 + 1 };
    let w2 = spaces_at(s, k);
    if !(w2 < n && is_close_paren_exec(s[w2])) {
        return None;
    }
    Some(dval_exec(s, i2, d1) * 60)
}

fn seconds_at_exec(s: &[char], p: usize) -> (r: Option<u128>)
    requires
        p <= s@.len(),
    ensures
        match r {
            Some(v) => seconds_at(s@, p as int) == Some(v as int) && v <= usize::MAX,
            None => seconds_at(s@, p as int) is None,
        },
{
    let n = s.len();
    if !(p < n && is_open_paren_exec(s[p])) {
        return None;
    }
    let i2 = about_num_start_exec(s, p);
    let d1 = digits_at(s, i2);
    if !(i2 < d1) {
        return None;
    }
    let w1 = spaces_at(s, d1);
    if !(w1 < n && s[w1] == '\u{79d2}') {
        return None;
    }
    let w2 = spaces_at(s, w1 + 1);
    if !(w2 < n && is_close_paren_exec(s[w2])) {
        return None;
    }
    Some(dval_exec(s, i2, d1))
}


fn first_range_exec(s: &[char]) -> (r: Option<(u128, u128)>)
    ensures
        match r {
            Some(v) => first_range(s@) == Some((v.0 as int, v.1 as int)),
            None => first_range(s@) is None,
        },
{
    let ghost f = |p: int| range_at(s@, p);
    let mut p: usize = 0;
    loop
        invariant
            p <= s@.len(),
            f == (|p: int| range_at(s@, p)),
            first_match(s@, 0, f) == first_match(s@, p as int, f),
        decreases s@.len() - p,
    {
        match range_at_exec(s, p) {
            Some(v) => {
                return Some(v);
            },
            None => {},
        }
        if p == s.len() {
            assert(first_match(s@, p + 1, f) is None);
            return None;
        }
        p += 1;
    }
}

fn first_min_sec_exec(s: &[char]) -> (r: Option<u128>)
    ensures
        match r {
            Some(v) => first_min_sec(s@) == Some(v as int),
            None => first_min_sec(s@) is None,
        },
{
    let ghost f = |p: int| min_sec_at(s@, p);
    let mut p: usize = 0;
    loop
        invariant
            p <= s@.len(),
            f == (|p: int| min_sec_at(s@, p)),
            first_match(s@, 0, f) == first_match(s@, p as int, f),
        decreases s@.len() - p,
    {
        match min_sec_at_exec(s, p) {
            Some(v) => {
                return Some(v);
            },
            None => {},
        }
        if p == s.len() {
            assert(first_match(s@, p + 1, f) is None);
            return None;
        }
        p += 1;
    }
}

fn first_minutes_exec(s: &[char]) -> (r: Option<u128>)
    ensures
        match r {
            Some(v) => first_minutes(s@) == Some(v as int),
            None => first_minutes(s@) is None,
        },
{
    let ghost f = |p: int| minutes_at(s@, p);
    let mut p: usize = 0;
    loop
        invariant
            p <= s@.len(),
            f == (|p: int| minutes_at(s@, p)),
            first_match(s@, 0, f) == first_match(s@, p as int, f),
        decreases s@.len() - p,
    {
        match minutes_at_exec(s, p) {
            Some(v) => {
                return Some(v);
            },
            None => {},
        }
        if p == s.len() {
            assert(first_match(s@, p + 1, f) is None);
            return None;
        }
        p += 1;
    }
}

fn first_seconds_exec(s: &[char]) -> (r: Option<u128>)
    ensures
        match r {
            Some(v) => first_seconds(s@) == Some(v as int) && v <= usize::MAX,
            None => first_seconds(s@) is None,
        },
{
    let ghost f = |p: int| seconds_at(s@, p);
    let mut p: usize = 0;
    loop
        invariant
            p <= s@.len(),
            f == (|p: int| seconds_at(s@, p)),
            first_match(s@, 0, f) == first_match(s@, p as int, f),
        decreases s@.len() - p,
    {
        match seconds_at_exec(s, p) {
            Some(v) => {
                return Some(v);
            },
            None => {},
        }
        if p == s.len() {
            assert(first_match(s@, p + 1, f) is None);
            return None;
        }
        p += 1;
    }
}

/// `parse_scene_secs`: the length in seconds that a scene header writes.
pub fn parse_scene_secs(text: &str) -> (r: Option<usize>)
    requires
        scene_secs_fit(text@),
    ensures
        match r {
            Some(v) => spec_scene_secs(text@) == Some(v as int),
            None => spec_scene_secs(text@) is None,
        },
{
    let s = chars_of(text);
    match first_range_exec(&s) {
        Some((a, b)) => {
            if b > a {
                return Some((b - a) as usize);
            }
        },
        None => {},
    }
    match first_min_sec_exec(&s) {
        Some(v) => {
            return Some(v as usize);
        },
        None => {},
    }
    match first_minutes_exec(&s) {
        Some(v) => {
            return Some(v as usize);
        },
        None => {},
    }
    match first_seconds_exec(&s) {
        Some(v) => Some(v as usize),
        None => None,
    }
}

/// The value of a Chinese numeral digit (`零` to `十`).
pub open spec fn cn_digit(c: char) -> Option<int> {
    if c == '\u{96f6}' { Some(0) } else if c == '\u{4e00}' { Some(1) } else if c == '\u{4e8c}' { Some(2) }
    else if c == '\u{4e09}' { Some(3) } else if c == '\u{56db}' { Some(4) } else if c == '\u{4e94}' { Some(5) }
    else if c == '\u{516d}' { Some(6) } else if c == '\u{4e03}' { Some(7) } else if c == '\u{516b}' { Some(8) }
    else if c == '\u{4e5d}' { Some(9) } else if c == '\u{5341}' { Some(10) } else { None }
}

pub open spec fn or0(o: Option<int>) -> int {
    match o {
        Some(x) => x,
        None => 0,
    }
}

/// A scene number: decimal digits, or a Chinese numeral of one digit,
/// `十x`, `x十` or `x十y`.
pub open spec fn spec_cn_number(s: Seq<char>) -> Option<int> {
    if spec_parse_usize(s) is Some {
        spec_parse_usize(s)
    } else if s.len() == 1 {
        cn_digit(s[0])
    } else if s.len() == 2 && s[0] == '\u{5341}' {
        Some(10 + or0(cn_digit(s[1])))
    } else if s.len() == 2 && s[1] == '\u{5341}' {
        Some(or0(cn_digit(s[0])) * 10)
    } else if s.len() == 3 && s[1] == '\u{5341}' {
        Some(or0(cn_digit(s[0])) * 10 + or0(cn_digit(s[2])))
    } else {
        None
    }
}

/// The Chinese numerals 零 to 九, at the position of their value.
pub open spec fn cn_numerals() -> Seq<char> {
    seq!['\u{96f6}', '\u{4e00}', '\u{4e8c}', '\u{4e09}', '\u{56db}', '\u{4e94}', '\u{516d}', '\u{4e03}', '\u{516b}', '\u{4e5d}']
}

proof fn lemma_cn_numeral(d: int)
    requires
        0 <= d <= 9,
    ensures
        cn_digit(cn_numerals()[d]) == Some(d),
        !is_digit(cn_numerals()[d]),
        cn_numerals()[d] != '+',
        cn_numerals()[d] != '\u{5341}',
{
    let n = cn_numerals();
    if d == 0 { assert(n[0] == '\u{96f6}'); }
    else if d == 1 { assert(n[1] == '\u{4e00}'); }
    else if d == 2 { assert(n[2] == '\u{4e8c}'); }
    else if d == 3 { assert(n[3] == '\u{4e09}'); }
    else if d == 4 { assert(n[4] == '\u{56db}'); }
    else if d == 5 { assert(n[5] == '\u{4e94}'); }
    else if d == 6 { assert(n[6] == '\u{516d}'); }
    else if d == 7 { assert(n[7] == '\u{4e03}'); }
    else if d == 8 { assert(n[8] == '\u{516b}'); }
    else { assert(n[9] == '\u{4e5d}'); }
}

/// Law: a Chinese scene numeral has its value: each digit char its digit,
/// 十 alone 10, 十x 10 + x, x十 10x and x十y 10x + y.
pub proof fn law_chinese_numerals()
    ensures
        forall|d: int| 0 <= d <= 9 ==> spec_cn_number(seq![#[trigger] cn_numerals()[d]]) == Some(d),
        spec_cn_number(seq!['\u{5341}']) == Some(10int),
        forall|e: int| 1 <= e <= 9 ==> spec_cn_number(seq!['\u{5341}', #[trigger] cn_numerals()[e]]) == Some(10 + e),
        forall|d: int| 1 <= d <= 9 ==> spec_cn_number(seq![#[trigger] cn_numerals()[d], '\u{5341}']) == Some(10 * d),
        forall|d: int, e: int| 1 <= d <= 9 && 1 <= e <= 9 ==> spec_cn_number(
            seq![#[trigger] cn_numerals()[d], '\u{5341}', #[trigger] cn_numerals()[e]],
        ) == Some(10 * d + e),
{
    let ten = seq!['\u{5341}'];
    assert(digits_end(ten, 0) == 0);
    assert forall|d: int| 0 <= d <= 9 implies spec_cn_number(seq![#[trigger] cn_numerals()[d]]) == Some(d) by {
        lemma_cn_numeral(d);
        let t = seq![cn_numerals()[d]];
        assert(digits_end(t, 0) == 0);
    }
    assert forall|e: int| 1 <= e <= 9 implies spec_cn_number(seq!['\u{5341}', #[trigger] cn_numerals()[e]]) == Some(10 + e) by {
        lemma_cn_numeral(e);
        let t = seq!['\u{5341}', cn_numerals()[e]];
        assert(digits_end(t, 0) == 0);
    }
    assert forall|d: int| 1 <= d <= 9 implies spec_cn_number(seq![#[trigger] cn_numerals()[d], '\u{5341}']) == Some(10 * d) by {
        lemma_cn_numeral(d);
        let t = seq![cn_numerals()[d], '\u{5341}'];
        assert(digits_end(t, 0) == 0);
    }
    assert forall|d: int, e: int| 1 <= d <= 9 && 1 <= e <= 9 implies spec_cn_number(
        seq![#[trigger] cn_numerals()[d], '\u{5341}', #[trigger] cn_numerals()[e]],
    ) == Some(10 * d + e) by {
        lemma_cn_numeral(d);
        lemma_cn_numeral(e);
        let t = seq![cn_numerals()[d], '\u{5341}', cn_numerals()[e]];
        assert(digits_end(t, 0) == 0);
    }
}

fn cn_digit_exec(c: char) -> (r: Option<usize>)
    ensures
        match r {
            Some(v) => cn_digit(c) == Some(v as int),
            None => cn_digit(c) is None,
        },
{
    if c == '\u{96f6}' { Some(0) } else if c == '\u{4e00}' { Some(1) } else if c == '\u{4e8c}' { Some(2) }
    else if c == '\u{4e09}' { Some(3) } else if c == '\u{56db}' { Some(4) } else if c == '\u{4e94}' { Some(5) }
    else if c == '\u{516d}' { Some(6) } else if c == '\u{4e03}' { Some(7) } else if c == '\u{516b}' { Some(8) }
    else if c == '\u{4e5d}' { Some(9) } else if c == '\u{5341}' { Some(10) } else { None }
}

fn or0_exec(o: Option<usize>) -> (r: usize)
    requires
        o matches Some(v) ==> v <= 10,
    ensures
        r == or0(match o { Some(v) => Some(v as int), None => None }),
        r <= 10,
{
    match o {
        Some(v) => v,
        None => 0,
    }
}

/// `chinese_digit_to_number`: the value of a scene number.
pub fn chinese_digit_to_number(s: &[char]) -> (r: Option<usize>)
    ensures
        match r {
            Some(v) => spec_cn_number(s@) == Some(v as int),
            None => spec_cn_number(s@) is None,
        },
{
    match crate::text::parse_usize(s) {
        Some(n) => {
            return Some(n);
        },
        None => {},
    }
    let n = s.len();
    if n == 1 {
        return cn_digit_exec(s[0]);
    }
    if n == 2 && s[0] == '\u{5341}' {
        return Some(10 + or0_exec(cn_digit_exec(s[1])));
    }
    if n == 2 && s[1] == '\u{5341}' {
        return Some(or0_exec(cn_digit_exec(s[0])) * 10);
    }
    if n == 3 && s[1] == '\u{5341}' {
        return Some(or0_exec(cn_digit_exec(s[0])) * 10 + or0_exec(cn_digit_exec(s[2])));
    }
    None
}


/// A char of a scene number: an ASCII digit or a Chinese numeral.
pub open spec fn is_numeral(c: char) -> bool {
    is_digit(c) || c == '\u{4e00}' || c == '\u{4e8c}' || c == '\u{4e09}' || c == '\u{56db}' || c == '\u{4e94}'
        || c == '\u{516d}' || c == '\u{4e03}' || c == '\u{516b}' || c == '\u{4e5d}' || c == '\u{5341}'
        || c == '\u{767e}' || c == '\u{96f6}'
}

pub open spec fn numeral_end(s: Seq<char>, i: int) -> int
    decreases s.len() - i,
{
    if 0 <= i < s.len() && is_numeral(s[i]) {
        numeral_end(s, i + 1)
    } else {
        i
    }
}

pub open spec fn scene_word() -> Seq<char> {
    seq!['\u{573a}', '\u{666f}']
}

/// Start of the scene number after `场` or `场景` at `w`, or -1.
pub open spec fn after_scene_word(s: Seq<char>, w: int) -> int {
    let a1 = spaces_end(s, w + 1);
    if !(0 <= w < s.len() && s[w] == '\u{573a}') {
        -1
    } else if numeral_end(s, a1) > a1 {
        a1
    } else if crate::text::occurs_at(s, scene_word(), w) {
        spaces_end(s, w + 2)
    } else {
        -1
    }
}

/// `【场景 N：title】`: the span of the scene number.
pub open spec fn bracket_num(s: Seq<char>) -> Option<(int, int)> {
    let i1 = spaces_end(s, 1);
    let j = if crate::text::occurs_at(s, scene_word(), i1) { i1 + 2 } else if 0 <= i1 < s.len() && s[i1] == '\u{573a}' { i1 + 1 } else { -1 };
    let i2 = spaces_end(s, j);
    let ne = numeral_end(s, i2);
    let w = spaces_end(s, ne);
    if s.len() > 0 && s[0] == '\u{3010}' && j >= 0 && ne > i2 && w < s.len() && crate::v5_parser::is_colon(s[w])
        && crate::blocks::char_from(s, '\u{3011}', w + 2) < s.len() {
        Some((i2, ne))
    } else {
        None
    }
}

/// `# 场 N title` or `## 第 N 场：title` (one to four `#`): the span of the
/// scene number.
pub open spec fn heading_num(s: Seq<char>) -> Option<(int, int)> {
    let h = crate::blocks::hashes_end(s, 0);
    let w = spaces_end(s, h);
    if !(1 <= h <= 4 && w > h && w < s.len()) {
        None
    } else if s[w] == '\u{573a}' {
        let a = after_scene_word(s, w);
        let e = numeral_end(s, a);
        if a < 0 || e <= a {
            None
        } else if e < s.len() {
            Some((a, e))
        } else if e - a >= 2 {
            Some((a, e - 1))
        } else {
            None
        }
    } else if s[w] == '\u{7b2c}' {
        let a = spaces_end(s, w + 1);
        let e = numeral_end(s, a);
        let k = spaces_end(s, e);
        if e > a && k < s.len() && s[k] == '\u{573a}' && k + 1 < s.len() {
            Some((a, e))
        } else {
            None
        }
    } else {
        None
    }
}

/// `场 N：title` or `第 N 场：title`: the span of the scene number.
pub open spec fn plain_num(s: Seq<char>) -> Option<(int, int)> {
    if !(s.len() > 0) {
        None
    } else if s[0] == '\u{573a}' {
        let a = after_scene_word(s, 0);
        let e = numeral_end(s, a);
        let t = spaces_end(s, e);
        if a >= 0 && e > a && t < s.len() && crate::v5_parser::is_colon(s[t]) && t + 1 < s.len() {
            Some((a, e))
        } else {
            None
        }
    } else if s[0] == '\u{7b2c}' {
        let a = spaces_end(s, 1);
        let e = numeral_end(s, a);
        let k = spaces_end(s, e);
        let t = spaces_end(s, k + 1);
        if e > a && k < s.len() && s[k] == '\u{573a}' && t < s.len() && crate::v5_parser::is_colon(s[t]) && t + 1 < s.len() {
            Some((a, e))
        } else {
            None
        }
    } else {
        None
    }
}

/// The header a line makes with the scene number at `span`: the number (when
/// positive) and the length the line writes.
pub open spec fn header_with(s: Seq<char>, span: Option<(int, int)>) -> Option<(int, int)> {
    match span {
        Some((a, e)) => {
            let n = spec_cn_number(s.subrange(a, e));
            let secs = spec_scene_secs(s);
            if secs is Some && n is Some && n->0 > 0 {
                Some((n->0, secs->0))
            } else {
                None
            }
        },
        None => None,
    }
}

/// A scene header: `【场景…】`, then `# 场…`, then `场…：` forms, each with a
/// positive scene number and a written length; (number, seconds).
pub open spec fn spec_scene_header(s: Seq<char>) -> Option<(int, int)> {
    if header_with(s, bracket_num(s)) is Some {
        header_with(s, bracket_num(s))
    } else if header_with(s, heading_num(s)) is Some {
        header_with(s, heading_num(s))
    } else {
        header_with(s, plain_num(s))
    }
}

/// The lengths a header line writes can be computed.
pub open spec fn header_fits(s: Seq<char>) -> bool {
    (bracket_num(s) is Some || heading_num(s) is Some || plain_num(s) is Some) ==> scene_secs_fit(s)
}

pub struct SceneHeader {
    pub scene_num: usize,
    pub secs: usize,
}

pub(crate) fn is_numeral_exec(c: char) -> (r: bool)
    ensures
        r == is_numeral(c),
{
    ('0' <= c && c <= '9') || c == '\u{4e00}' || c == '\u{4e8c}' || c == '\u{4e09}' || c == '\u{56db}' || c == '\u{4e94}'
        || c == '\u{516d}' || c == '\u{4e03}' || c == '\u{516b}' || c == '\u{4e5d}' || c == '\u{5341}'
        || c == '\u{767e}' || c == '\u{96f6}'
}

pub(crate) proof fn lemma_numeral_end(s: Seq<char>, i: int)
    requires
        0 <= i <= s.len(),
    ensures
        i <= numeral_end(s, i) <= s.len(),
    decreases s.len() - i,
{
    if i < s.len() && is_numeral(s[i]) {
        lemma_numeral_end(s, i + 1);
    }
}

fn numeral_at(s: &[char], i: usize) -> (r: usize)
    requires
        i <= s@.len(),
    ensures
        r == numeral_end(s@, i as int),
        i <= r <= s@.len(),
{
    proof {
        lemma_numeral_end(s@, i as int);
    }
    let mut k = i;
    while k < s.len() && is_numeral_exec(s[k])
        invariant
            i <= k <= s@.len(),
            numeral_end(s@, k as int) == numeral_end(s@, i as int),
        decreases s@.len() - k,
    {
        k += 1;
    }
    k
}

fn occurs_scene_word(s: &[char], i: usize) -> (r: bool)
    ensures
        r == crate::text::occurs_at(s@, scene_word(), i as int),
{
    let w: Vec<char> = vec!['\u{573a}', '\u{666f}'];
    assert(w@ == scene_word());
    crate::text::occurs_at_exec(s, &w, i)
}

fn after_scene_word_exec(s: &[char], w: usize) -> (r: Option<usize>)
    requires
        w <= s@.len(),
    ensures
        match r {
            Some(a) => after_scene_word(s@, w as int) == a && a <= s@.len(),
            None => after_scene_word(s@, w as int) == -1,
        },
{
    let n = s.len();
    if !(w < n && s[w] == '\u{573a}') {
        return None;
    }
    let a1 = spaces_at(s, w + 1);
    if numeral_at(s, a1) > a1 {
        return Some(a1);
    }
    if occurs_scene_word(s, w) {
        return Some(spaces_at(s, w + 2));
    }
    None
}

fn is_colon_exec(c: char) -> (r: bool)
    ensures
        r == crate::v5_parser::is_colon(c),
{
    c == ':' || c == '\u{ff1a}'
}

fn bracket_num_exec(s: &[char]) -> (r: Option<(usize, usize)>)
    ensures
        match r {
            Some(v) => bracket_num(s@) == Some((v.0 as int, v.1 as int)) && v.0 <= v.1 <= s@.len(),
            None => bracket_num(s@) is None,
        },
{
    let n = s.len();
    if !(n > 0 && s[0] == '\u{3010}') {
        return None;
    }
    let i1 = spaces_at(s, 1);
    let j = if occurs_scene_word(s, i1) {
        i1 + 2
    } else if i1 < n && s[i1] == '\u{573a}' {
        i1 + 1
    } else {
        return None;
    };
    let i2 = spaces_at(s, j);
    let ne = numeral_at(s, i2);
    if ne <= i2 {
        return None;
    }
    let w = spaces_at(s, ne);
    if !(w < n && is_colon_exec(s[w])) {
        return None;
    }
    if n - w < 2 {
        return None;
    }
    proof {
        crate::blocks::lemma_char_from(s@, '\u{3011}', w + 2);
    }
    if crate::blocks::char_index(s, '\u{3011}', w + 2) < n {
        Some((i2, ne))
    } else {
        None
    }
}

fn heading_num_exec(s: &[char]) -> (r: Option<(usize, usize)>)
    ensures
        match r {
            Some(v) => heading_num(s@) == Some((v.0 as int, v.1 as int)) && v.0 <= v.1 <= s@.len(),
            None => heading_num(s@) is None,
        },
{
    let n = s.len();
    proof {
        crate::blocks::lemma_hashes_end(s@, 0);
    }
    let mut h: usize = 0;
    while h < n && s[h] == '#'
        invariant
            h <= s@.len(),
            n == s@.len(),
            crate::blocks::hashes_end(s@, h as int) == crate::blocks::hashes_end(s@, 0),
        decreases s@.len() - h,
    {
        h += 1;
    }
    let w = spaces_at(s, h);
    if !(1 <= h && h <= 4 && w > h && w < n) {
        return None;
    }
    if s[w] == '\u{573a}' {
        let a = match after_scene_word_exec(s, w) {
            Some(a) => a,
            None => {
                return None;
            },
        };
        let e = numeral_at(s, a);
        if e <= a {
            None
        } else if e < n {
            Some((a, e))
        } else if e - a >= 2 {
            Some((a, e - 1))
        } else {
            None
        }
    } else if s[w] == '\u{7b2c}' {
        let a = spaces_at(s, w + 1);
        let e = numeral_at(s, a);
        let k = spaces_at(s, e);
        if e > a && k < n && s[k] == '\u{573a}' && k + 1 < n {
            Some((a, e))
        } else {
            None
        }
    } else {
        None
    }
}

fn plain_num_exec(s: &[char]) -> (r: Option<(usize, usize)>)
    ensures
        match r {
            Some(v) => plain_num(s@) == Some((v.0 as int, v.1 as int)) && v.0 <= v.1 <= s@.len(),
            None => plain_num(s@) is None,
        },
{
    let n = s.len();
    if n == 0 {
        return None;
    }
    if s[0] == '\u{573a}' {
        let a = match after_scene_word_exec(s, 0) {
            Some(a) => a,
            None => {
                return None;
            },
        };
        let e = numeral_at(s, a);
        let t = spaces_at(s, e);
        if e > a && t < n && is_colon_exec(s[t]) && t + 1 < n {
            Some((a, e))
        } else {
            None
        }
    } else if s[0] == '\u{7b2c}' {
        let a = spaces_at(s, 1);
        let e = numeral_at(s, a);
        let k = spaces_at(s, e);
        if !(e > a && k < n && s[k] == '\u{573a}') {
            return None;
        }
        let t = spaces_at(s, k + 1);
        if t < n && is_colon_exec(s[t]) && t + 1 < n {
            Some((a, e))
        } else {
            None
        }
    } else {
        None
    }
}

fn header_with_exec(line: &str, s: &Vec<char>, span: Option<(usize, usize)>) -> (r: Option<SceneHeader>)
    requires
        s@ == line@,
        span matches Some(v) ==> v.0 <= v.1 <= s@.len(),
        span is Some ==> scene_secs_fit(line@),
    ensures
        match r {
            Some(h) => header_with(line@, match span { Some(v) => Some((v.0 as int, v.1 as int)), None => None })
                == Some((h.scene_num as int, h.secs as int)),
            None => header_with(line@, match span { Some(v) => Some((v.0 as int, v.1 as int)), None => None }) is None,
        },
{
    match span {
        Some((a, e)) => {
            let secs = parse_scene_secs(line);
            let num = chinese_digit_to_number(&copy_range(s, a, e));
            match (secs, num) {
                (Some(sec), Some(n)) => {
                    if n > 0 {
                        Some(SceneHeader { scene_num: n, secs: sec })
                    } else {
                        None
                    }
                },
                _ => None,
            }
        },
        None => None,
    }
}

/// `try_parse_scene_header`: the scene number and length of a header line.
pub fn try_parse_scene_header(line: &str) -> (r: Option<SceneHeader>)
    requires
        header_fits(line@),
    ensures
        match r {
            Some(h) => spec_scene_header(line@) == Some((h.scene_num as int, h.secs as int)),
            None => spec_scene_header(line@) is None,
        },
{
    let s = chars_of(line);
    let b = header_with_exec(line, &s, bracket_num_exec(&s));
    if b.is_some() {
        return b;
    }
    let m = header_with_exec(line, &s, heading_num_exec(&s));
    if m.is_some() {
        return m;
    }
    header_with_exec(line, &s, plain_num_exec(&s))
}


/// `N分M秒` starting at `p`: the seconds.
pub open spec fn init_min_sec_at(s: Seq<char>, p: int) -> Option<int> {
    let d1 = digits_end(s, p);
    let w1 = spaces_end(s, d1);
    let i2 = spaces_end(s, w1 + 1);
    let d2 = digits_end(s, i2);
    let w2 = spaces_end(s, d2);
    if 0 <= p < s.len() && is_digit(s[p]) && w1 < s.len() && s[w1] == '\u{5206}' && i2 < d2 && w2 < s.len() && s[w2] == '\u{79d2}' {
        Some(dval(s, p, d1) * 60 + dval(s, i2, d2))
    } else {
        None
    }
}

/// `N分` starting at `p`: the seconds.
pub open spec fn init_min_at(s: Seq<char>, p: int) -> Option<int> {
    let d1 = digits_end(s, p);
    let w1 = spaces_end(s, d1);
    if 0 <= p < s.len() && is_digit(s[p]) && w1 < s.len() && s[w1] == '\u{5206}' {
        Some(dval(s, p, d1) * 60)
    } else {
        None
    }
}

/// `N秒` starting at `p`: the seconds.
pub open spec fn init_sec_at(s: Seq<char>, p: int) -> Option<int> {
    let d1 = digits_end(s, p);
    let w1 = spaces_end(s, d1);
    if 0 <= p < s.len() && is_digit(s[p]) && w1 < s.len() && s[w1] == '\u{79d2}' {
        Some(dval(s, p, d1))
    } else {
        None
    }
}

/// The length in seconds that a task's duration text gives: `N分M秒`, else
/// `N分`, else `N秒`, else a minute.
pub open spec fn spec_init_duration(s: Seq<char>) -> int {
    let a = first_match(s, 0, |p: int| init_min_sec_at(s, p));
    let b = first_match(s, 0, |p: int| init_min_at(s, p));
    let c = first_match(s, 0, |p: int| init_sec_at(s, p));
    if a is Some {
        a->0
    } else if b is Some {
        b->0
    } else if c is Some {
        c->0
    } else {
        60
    }
}

pub open spec fn init_duration_fits(s: Seq<char>) -> bool {
    let a = first_match(s, 0, |p: int| init_min_sec_at(s, p));
    let b = first_match(s, 0, |p: int| init_min_at(s, p));
    &&& (a is Some ==> a->0 <= usize::MAX)
    &&& (a is None && b is Some ==> b->0 <= usize::MAX)
}

fn init_min_sec_at_exec(s: &[char], p: usize) -> (r: Option<u128>)
    requires
        p <= s@.len(),
    ensures
        match r {
            Some(v) => init_min_sec_at(s@, p as int) == Some(v as int),
            None => init_min_sec_at(s@, p as int) is None,
        },
{
    let n = s.len();
    if !(p < n && '0' <= s[p] && s[p] <= '9') {
        return None;
    }
    let d1 = digits_at(s, p);
    let w1 = spaces_at(s, d1);
    if !(w1 < n && s[w1] == '\u{5206}') {
        return None;
    }
    let i2 = spaces_at(s, w1 + 1);
    let d2 = digits_at(s, i2);
    if !(i2 < d2) {
        return None;
    }
    let w2 = spaces_at(s, d2);
    if !(w2 < n && s[w2] == '\u{79d2}') {
        return None;
    }
    Some(dval_exec(s, p, d1) * 60 + dval_exec(s, i2, d2))
}

fn init_min_at_exec(s: &[char], p: usize) -> (r: Option<u128>)
    requires
        p <= s@.len(),
    ensures
        match r {
            Some(v) => init_min_at(s@, p as int) == Some(v as int),
            None => init_min_at(s@, p as int) is None,
        },
{
    let n = s.len();
    if !(p < n && '0' <= s[p] && s[p] <= '9') {
        return None;
    }
    let d1 = digits_at(s, p);
    let w1 = spaces_at(s, d1);
    if !(w1 < n && s[w1] == '\u{5206}') {
        return None;
    }
    Some(dval_exec(s, p, d1) * 60)
}

fn init_sec_at_exec(s: &[char], p: usize) -> (r: Option<u128>)
    requires
        p <= s@.len(),
    ensures
        match r {
            Some(v) => init_sec_at(s@, p as int) == Some(v as int) && v <= usize::MAX,
            None => init_sec_at(s@, p as int) is None,
        },
{
    let n = s.len();
    if !(p < n && '0' <= s[p] && s[p] <= '9') {
        return None;
    }
    let d1 = digits_at(s, p);
    let w1 = spaces_at(s, d1);
    if !(w1 < n && s[w1] == '\u{79d2}') {
        return None;
    }
    Some(dval_exec(s, p, d1))
}

fn first_init_min_sec(s: &[char]) -> (r: Option<u128>)
    ensures
        match r {
            Some(v) => first_match(s@, 0, |p: int| init_min_sec_at(s@, p)) == Some(v as int),
            None => first_match(s@, 0, |p: int| init_min_sec_at(s@, p)) is None,
        },
{
    let ghost f = |p: int| init_min_sec_at(s@, p);
    let mut p: usize = 0;
    loop
        invariant
            p <= s@.len(),
            f == (|p: int| init_min_sec_at(s@, p)),
            first_match(s@, 0, f) == first_match(s@, p as int, f),
        decreases s@.len() - p,
    {
        match init_min_sec_at_exec(s, p) {
            Some(v) => {
                return Some(v);
            },
            None => {},
        }
        if p == s.len() {
            assert(first_match(s@, p + 1, f) is None);
            return None;
        }
        p += 1;
    }
}

fn first_init_min(s: &[char]) -> (r: Option<u128>)
    ensures
        match r {
            Some(v) => first_match(s@, 0, |p: int| init_min_at(s@, p)) == Some(v as int),
            None => first_match(s@, 0, |p: int| init_min_at(s@, p)) is None,
        },
{
    let ghost f = |p: int| init_min_at(s@, p);
    let mut p: usize = 0;
    loop
        invariant
            p <= s@.len(),
            f == (|p: int| init_min_at(s@, p)),
            first_match(s@, 0, f) == first_match(s@, p as int, f),
        decreases s@.len() - p,
    {
        match init_min_at_exec(s, p) {
            Some(v) => {
                return Some(v);
            },
            None => {},
        }
        if p == s.len() {
            assert(first_match(s@, p + 1, f) is None);
            return None;
        }
        p += 1;
    }
}

fn first_init_sec(s: &[char]) -> (r: Option<u128>)
    ensures
        match r {
            Some(v) => first_match(s@, 0, |p: int| init_sec_at(s@, p)) == Some(v as int) && v <= usize::MAX,
            None => first_match(s@, 0, |p: int| init_sec_at(s@, p)) is None,
        },
{
    let ghost f = |p: int| init_sec_at(s@, p);
    let mut p: usize = 0;
    loop
        invariant
            p <= s@.len(),
            f == (|p: int| init_sec_at(s@, p)),
            first_match(s@, 0, f) == first_match(s@, p as int, f),
        decreases s@.len() - p,
    {
        match init_sec_at_exec(s, p) {
            Some(v) => {
                return Some(v);
            },
            None => {},
        }
        if p == s.len() {
            assert(first_match(s@, p + 1, f) is None);
            return None;
        }
        p += 1;
    }
}

/// `parse_init_duration_to_sec`: the length in seconds of a task's duration
/// text.
pub fn parse_init_duration_to_sec(duration: &str) -> (r: usize)
    requires
        init_duration_fits(duration@),
    ensures
        r == spec_init_duration(duration@),
{
    let s = chars_of(duration);
    match first_init_min_sec(&s) {
        Some(v) => {
            return v as usize;
        },
        None => {},
    }
    match first_init_min(&s) {
        Some(v) => {
            return v as usize;
        },
        None => {},
    }
    match first_init_sec(&s) {
        Some(v) => v as usize,
        None => 60,
    }
}


/// The pieces of `s[i..]` between blank-line breaks (`"\n\n"`), left to right.
pub open spec fn blank_pieces_from(s: Seq<char>, i: int) -> Seq<Seq<char>>
    decreases s.len() + 1 - i,
{
    if i < 0 || i > s.len() {
        Seq::empty()
    } else {
        let k = crate::model_text::first_occurrence(s, seq!['\n', '\n'], i);
        if k < i || k + 2 > s.len() {
            seq![s.subrange(i, s.len() as int)]
        } else {
            seq![s.subrange(i, k)] + blank_pieces_from(s, k + 2)
        }
    }
}

/// The non-empty trimmed paragraphs of a script.
pub open spec fn initial_paras(s: Seq<char>) -> Seq<Seq<char>> {
    blank_pieces_from(s, 0).map_values(|p: Seq<char>| crate::text::trim(p)).filter(|p: Seq<char>| p.len() > 0)
}

/// The first line of a text (as `str::lines` gives it), or empty.
pub open spec fn first_line(p: Seq<char>) -> Seq<char> {
    if crate::text::spec_lines(p).len() > 0 {
        crate::text::spec_lines(p)[0]
    } else {
        Seq::empty()
    }
}

/// A rhythm line: `情节节奏` or `情感节奏` and a colon at its start.
pub open spec fn is_meta_line(t: Seq<char>) -> bool {
    (crate::text::occurs_at(t, seq!['\u{60c5}', '\u{8282}', '\u{8282}', '\u{594f}'], 0)
        || crate::text::occurs_at(t, seq!['\u{60c5}', '\u{611f}', '\u{8282}', '\u{594f}'], 0))
        && t.len() > 4 && crate::v5_parser::is_colon(t[4])
}

/// The pieces read so far and the body lines gathered for the next one.
pub open spec fn flush(acc: Seq<Seq<char>>, cur: Seq<Seq<char>>) -> Seq<Seq<char>> {
    if cur.len() > 0 {
        acc.push(crate::text::join_nl(cur))
    } else {
        acc
    }
}

pub open spec fn body_upto(ls: Seq<Seq<char>>, n: int) -> (Seq<Seq<char>>, Seq<Seq<char>>)
    decreases n,
{
    if n <= 0 {
        (Seq::empty(), Seq::empty())
    } else {
        let (acc, cur) = body_upto(ls, n - 1);
        let t = crate::text::trim(ls[n - 1]);
        if t.len() == 0 {
            (flush(acc, cur), Seq::empty())
        } else if is_meta_line(t) {
            (flush(acc, cur).push(t), Seq::empty())
        } else {
            (acc, cur.push(t))
        }
    }
}

/// The body of a scene after its header: runs of non-blank lines joined with
/// line breaks, each rhythm line a piece of its own.
pub open spec fn body_pieces(rem: Seq<char>) -> Seq<Seq<char>> {
    let ls = crate::text::spec_lines(rem);
    let st = body_upto(ls, ls.len() as int);
    flush(st.0, st.1)
}

/// A paragraph opening with a scene header gives the header line and the
/// pieces of the rest; any other paragraph stays whole.
pub open spec fn expand_para(p: Seq<char>) -> Seq<Seq<char>> {
    if spec_scene_header(first_line(p)) is Some {
        let he = crate::text::nl_from(p, 0);
        let hb = crate::text::trim(p.subrange(0, he));
        let rem = if he < p.len() { crate::text::trim(p.subrange(he + 1, p.len() as int)) } else { Seq::empty() };
        seq![hb] + body_pieces(rem)
    } else {
        seq![p]
    }
}

pub open spec fn expand_upto(ps: Seq<Seq<char>>, n: int) -> Seq<Seq<char>>
    decreases n,
{
    if n <= 0 {
        Seq::empty()
    } else {
        expand_upto(ps, n - 1) + expand_para(ps[n - 1])
    }
}

/// The script's paragraphs once scene headers are split off.
pub open spec fn raw_paras(s: Seq<char>) -> Seq<Seq<char>> {
    let ps = initial_paras(s);
    expand_upto(ps, ps.len() as int)
}

/// The units a scene of `secs` seconds gets: 13.5 s each, rounded, at least one.
pub open spec fn units_for(secs: int) -> int {
    let u = (4 * secs + 27) / 54;
    if u < 1 { 1 } else { u }
}

/// The scenes (number, units) and the scene each paragraph belongs to (0 for
/// headers, rhythm lines and text before the first scene), after `n`
/// paragraphs; and the current scene.
pub open spec fn scenes_upto(rp: Seq<Seq<char>>, n: int) -> (Seq<(int, int)>, Seq<int>, int)
    decreases n,
{
    if n <= 0 {
        (Seq::empty(), Seq::empty(), 0)
    } else {
        let (sc, ids, cur) = scenes_upto(rp, n - 1);
        let h = spec_scene_header(first_line(rp[n - 1]));
        if h is Some {
            (sc.push(((h->0).0, units_for((h->0).1))), ids.push(0), (h->0).0)
        } else if is_meta_line(rp[n - 1]) {
            (sc, ids.push(0), cur)
        } else {
            (sc, ids.push(cur), cur)
        }
    }
}

pub open spec fn para_sep() -> Seq<char> {
    seq!['\n', '\n']
}

/// Paragraphs gathered so far: the closed groups (text, scene), the open
/// group's text and its scene.
pub open spec fn agg_upto(rp: Seq<Seq<char>>, ids: Seq<int>, n: int) -> (Seq<(Seq<char>, int)>, Seq<char>, int)
    decreases n,
{
    if n <= 0 {
        (Seq::empty(), Seq::empty(), 0)
    } else {
        let (agg, buf, bsid) = agg_upto(rp, ids, n - 1);
        let sid = ids[n - 1];
        let para = rp[n - 1];
        if sid == 0 {
            (agg, buf, bsid)
        } else {
            let (a1, b1, s1) = if buf.len() > 0 && sid != bsid { (agg.push((buf, bsid)), Seq::<char>::empty(), 0int) } else { (agg, buf, bsid) };
            if b1.len() == 0 {
                (a1, para, sid)
            } else {
                let merged = b1 + para_sep() + para;
                if crate::text::utf8_len(merged) > 600 || crate::text::utf8_len(b1) >= 280 {
                    (a1.push((b1, s1)), para, sid)
                } else {
                    (a1, merged, s1)
                }
            }
        }
    }
}

/// The paragraphs of a scene grouped up to about 280 bytes (never past 600
/// when joined), each with its scene.
pub open spec fn aggregated(s: Seq<char>) -> Seq<(Seq<char>, int)> {
    let rp = raw_paras(s);
    let ids = scenes_upto(rp, rp.len() as int).1;
    let st = agg_upto(rp, ids, rp.len() as int);
    if st.1.len() > 0 {
        st.0.push((st.1, st.2))
    } else {
        st.0
    }
}

/// The id of paragraph `i` (0-based): `§` and its 1-based number.
pub open spec fn para_id(i: int) -> Seq<char> {
    seq!['\u{a7}'] + crate::text::decimal((i + 1) as nat)
}

/// The ids of the numbered paragraphs of scene `sid`, in order.
pub open spec fn refs_upto(es: Seq<(Seq<char>, Seq<char>, int)>, sid: int, n: int) -> Seq<Seq<char>>
    decreases n,
{
    if n <= 0 {
        Seq::empty()
    } else if es[n - 1].2 == sid {
        refs_upto(es, sid, n - 1).push(es[n - 1].0)
    } else {
        refs_upto(es, sid, n - 1)
    }
}

/// No scene before `j` has the number of scene `j`.
pub open spec fn first_of_number(sc: Seq<(int, int)>, j: int) -> bool {
    forall|k: int| 0 <= k < j ==> #[trigger] sc[k].0 != sc[j].0
}

/// A scene's paragraph ids: the first scene of a number has them all, a later
/// one of the same number none.
pub open spec fn scene_refs(sc: Seq<(int, int)>, es: Seq<(Seq<char>, Seq<char>, int)>, j: int) -> Seq<Seq<char>> {
    if first_of_number(sc, j) {
        refs_upto(es, sc[j].0, es.len() as int)
    } else {
        Seq::empty()
    }
}

/// The scenes that keep paragraphs: (number, units, paragraph ids).
pub open spec fn kept_scenes_upto(sc: Seq<(int, int)>, agg: Seq<(Seq<char>, Seq<char>, int)>, n: int) -> Seq<(int, int, Seq<Seq<char>>)>
    decreases n,
{
    if n <= 0 {
        Seq::empty()
    } else {
        let p = kept_scenes_upto(sc, agg, n - 1);
        let refs = scene_refs(sc, agg, n - 1);
        if refs.len() > 0 {
            p.push((sc[n - 1].0, sc[n - 1].1, refs))
        } else {
            p
        }
    }
}

pub open spec fn kept_scenes(s: Seq<char>) -> Seq<(int, int, Seq<Seq<char>>)> {
    let rp = raw_paras(s);
    let sc = scenes_upto(rp, rp.len() as int).0;
    kept_scenes_upto(sc, entries(s), sc.len() as int)
}

pub open spec fn units_sum(ks: Seq<(int, int, Seq<Seq<char>>)>, n: int) -> int
    decreases n,
{
    if n <= 0 {
        0
    } else {
        units_sum(ks, n - 1) + ks[n - 1].1
    }
}

/// The header of every blank-line paragraph computes its length.
pub open spec fn initial_headers_fit(s: Seq<char>) -> bool {
    let ps = initial_paras(s);
    forall|i: int| 0 <= i < ps.len() ==> header_fits(first_line(#[trigger] ps[i]))
}

/// Every header computes its length, and the lengths stay below 2^53 seconds.
pub open spec fn headers_fit(s: Seq<char>) -> bool {
    let rp = raw_paras(s);
    &&& initial_headers_fit(s)
    &&& forall|i: int| 0 <= i < rp.len() ==> header_fits(first_line(#[trigger] rp[i]))
    &&& forall|i: int| 0 <= i < rp.len() ==> ((#[trigger] spec_scene_header(first_line(rp[i]))) matches Some(h) ==> h.1 <= 0x20_0000_0000_0000)
}

/// What the splitting can read: its headers fit, and the units add up within
/// `usize`.
pub open spec fn split_readable(s: Seq<char>) -> bool {
    let ks = kept_scenes(s);
    &&& headers_fit(s)
    &&& units_sum(ks, ks.len() as int) <= usize::MAX
}


pub open spec fn views(v: Seq<Vec<char>>) -> Seq<Seq<char>> {
    v.map_values(|x: Vec<char>| x@)
}

proof fn lemma_views_push(v: Seq<Vec<char>>, x: Vec<char>)
    ensures
        views(v.push(x)) == views(v).push(x@),
{
    assert(views(v.push(x)) =~= views(v).push(x@));
}

/// The non-empty trimmed paragraphs between blank-line breaks.
fn split_blank(c: &Vec<char>) -> (r: Vec<Vec<char>>)
    ensures
        views(r@) == initial_paras(c@),
{
    let sep: Vec<char> = vec!['\n', '\n'];
    assert(sep@ == seq!['\n', '\n']);
    let ghost pieces = blank_pieces_from(c@, 0);
    let ghost pred = |p: Seq<char>| p.len() > 0;
    let ghost tr = |p: Seq<char>| crate::text::trim(p);
    let mut out: Vec<Vec<char>> = Vec::new();
    let ghost mut done: Seq<Seq<char>> = Seq::empty();
    let mut i: usize = 0;
    let mut finished = false;
    while !finished
        invariant
            i <= c@.len(),
            sep@ == seq!['\n', '\n'],
            pred == (|p: Seq<char>| p.len() > 0),
            tr == (|p: Seq<char>| crate::text::trim(p)),
            pieces == blank_pieces_from(c@, 0),
            !finished ==> done + blank_pieces_from(c@, i as int) == pieces,
            finished ==> done == pieces,
            views(out@) == done.map_values(tr).filter(pred),
        decreases c@.len() + 1 - i, if finished { 0int } else { 1int },
    {
        let found = crate::model_text::first_occurrence_exec(c, &sep, i);
        proof {
            crate::model_text::lemma_first_occurrence(c@, sep@, i as int);
        }
        let e = match found {
            Some(k) => if k >= i && c.len() >= 2 && k <= c.len() - 2 { k } else { c.len() },
            None => c.len(),
        };
        let piece = crate::text::trim_chars(&copy_range(c, i, e));
        let ghost pv = c@.subrange(i as int, e as int);
        proof {
            reveal_with_fuel(Seq::filter, 1);
            let d2 = done.push(pv);
            assert(d2.map_values(tr) =~= done.map_values(tr).push(crate::text::trim(pv)));
            assert(d2.map_values(tr).drop_last() =~= done.map_values(tr));
        }
        if piece.len() > 0 {
            let ghost before = out@;
            out.push(piece);
            proof {
                lemma_views_push(before, out@.last());
            }
        }
        let last = match found {
            Some(k) => !(k >= i && c.len() >= 2 && k <= c.len() - 2),
            None => true,
        };
        proof {
            if last {
                assert(blank_pieces_from(c@, i as int) == seq![pv]);
                assert(done + seq![pv] =~= done.push(pv));
            } else {
                assert(blank_pieces_from(c@, i as int) == seq![pv] + blank_pieces_from(c@, e + 2));
                assert(done + (seq![pv] + blank_pieces_from(c@, e + 2)) =~= done.push(pv) + blank_pieces_from(c@, e + 2));
            }
            done = done.push(pv);
        }
        if last {
            finished = true;
        } else {
            i = e + 2;
        }
    }
    out
}

fn first_line_exec(p: &[char]) -> (r: Vec<char>)
    ensures
        r@ == first_line(p@),
{
    let ls = crate::text::lines(p);
    if ls.len() > 0 {
        assert(ls@[0]@ == crate::text::spec_lines(p@)[0]);
        copy_range(&ls[0], 0, ls[0].len())
    } else {
        Vec::new()
    }
}

fn is_meta_exec(t: &[char]) -> (r: bool)
    ensures
        r == is_meta_line(t@),
{
    let a: Vec<char> = vec!['\u{60c5}', '\u{8282}', '\u{8282}', '\u{594f}'];
    let b: Vec<char> = vec!['\u{60c5}', '\u{611f}', '\u{8282}', '\u{594f}'];
    assert(a@ == seq!['\u{60c5}', '\u{8282}', '\u{8282}', '\u{594f}']);
    assert(b@ == seq!['\u{60c5}', '\u{611f}', '\u{8282}', '\u{594f}']);
    (crate::text::occurs_at_exec(t, &a, 0) || crate::text::occurs_at_exec(t, &b, 0)) && t.len() > 4 && is_colon_exec(t[4])
}

fn flush_exec(acc: &mut Vec<Vec<char>>, cur: &Vec<Vec<char>>)
    ensures
        views(final(acc)@) == flush(views(old(acc)@), views(cur@)),
{
    if cur.len() > 0 {
        let j = crate::text::join_lines(cur, 0, cur.len());
        assert(cur@.subrange(0, cur@.len() as int) =~= cur@);
        let ghost before = acc@;
        acc.push(j);
        proof {
            lemma_views_push(before, j);
        }
    }
}

fn body_pieces_exec(rem: &[char]) -> (r: Vec<Vec<char>>)
    ensures
        views(r@) == body_pieces(rem@),
{
    let ls = crate::text::lines(rem);
    let ghost lv = views(ls@);
    let mut acc: Vec<Vec<char>> = Vec::new();
    let mut cur: Vec<Vec<char>> = Vec::new();
    let mut i: usize = 0;
    while i < ls.len()
        invariant
            i <= ls@.len(),
            lv == views(ls@),
            lv == crate::text::spec_lines(rem@),
            (views(acc@), views(cur@)) == body_upto(lv, i as int),
        decreases ls@.len() - i,
    {
        let t = crate::text::trim_chars(&ls[i]);
        assert(t@ == crate::text::trim(lv[i as int]));
        if t.len() == 0 {
            flush_exec(&mut acc, &cur);
            cur = Vec::new();
            assert(views(cur@) =~= Seq::<Seq<char>>::empty());
        } else if is_meta_exec(&t) {
            flush_exec(&mut acc, &cur);
            let ghost before = acc@;
            acc.push(t);
            proof {
                lemma_views_push(before, acc@.last());
            }
            cur = Vec::new();
            assert(views(cur@) =~= Seq::<Seq<char>>::empty());
        } else {
            let ghost before = cur@;
            cur.push(t);
            proof {
                lemma_views_push(before, cur@.last());
            }
        }
        i += 1;
    }
    flush_exec(&mut acc, &cur);
    acc
}

fn expand_para_exec(p: &Vec<char>, out: &mut Vec<Vec<char>>)
    requires
        header_fits(first_line(p@)),
    ensures
        views(final(out)@) == views(old(out)@) + expand_para(p@),
{
    let fl = first_line_exec(p);
    let h = try_parse_scene_header(string_of(&fl).as_str());
    let ghost o = views(out@);
    match h {
        Some(_) => {
            let mut he: usize = 0;
            while he < p.len() && p[he] != '\n'
                invariant
                    he <= p@.len(),
                    crate::text::nl_from(p@, he as int) == crate::text::nl_from(p@, 0),
                decreases p@.len() - he,
            {
                he += 1;
            }
            proof {
                crate::text::lemma_nl_from(p@, 0);
            }
            assert(he == crate::text::nl_from(p@, 0));
            let hb = crate::text::trim_chars(&copy_range(p, 0, he));
            let rem = if he < p.len() { crate::text::trim_chars(&copy_range(p, he + 1, p.len())) } else { Vec::new() };
            let ghost before = out@;
            out.push(hb);
            proof {
                lemma_views_push(before, hb);
            }
            let body = body_pieces_exec(&rem);
            let mut k: usize = 0;
            while k < body.len()
                invariant
                    k <= body@.len(),
                    views(out@) == o + seq![hb@] + views(body@).take(k as int),
                decreases body@.len() - k,
            {
                let ghost b2 = out@;
                out.push(copy_range(&body[k], 0, body[k].len()));
                assert(body@[k as int]@.subrange(0, body@[k as int]@.len() as int) =~= body@[k as int]@);
                proof {
                    lemma_views_push(b2, out@.last());
                    assert(views(body@).take(k + 1) =~= views(body@).take(k as int).push(body@[k as int]@));
                }
                k += 1;
            }
            assert(views(body@).take(k as int) =~= views(body@));
            assert(o + seq![hb@] + views(body@) =~= o + (seq![hb@] + body_pieces(rem@)));
        },
        None => {
            let ghost before = out@;
            out.push(copy_range(p, 0, p.len()));
            assert(p@.subrange(0, p@.len() as int) =~= p@);
            proof {
                lemma_views_push(before, out@.last());
            }
            assert(o.push(p@) =~= o + seq![p@]);
        },
    }
}

fn raw_paras_exec(c: &Vec<char>) -> (r: Vec<Vec<char>>)
    requires
        initial_headers_fit(c@),
    ensures
        views(r@) == raw_paras(c@),
{
    let ps = split_blank(c);
    let ghost pv = views(ps@);
    let mut out: Vec<Vec<char>> = Vec::new();
    let mut i: usize = 0;
    while i < ps.len()
        invariant
            i <= ps@.len(),
            pv == views(ps@),
            pv == initial_paras(c@),
            initial_headers_fit(c@),
            views(out@) == expand_upto(pv, i as int),
        decreases ps@.len() - i,
    {
        assert(pv[i as int] == ps@[i as int]@);
        assert(header_fits(first_line(pv[i as int])));
        expand_para_exec(&ps[i], &mut out);
        i += 1;
    }
    out
}


fn units_for_exec(secs: usize) -> (r: usize)
    requires
        secs <= 0x20_0000_0000_0000,
    ensures
        r == units_for(secs as int),
{
    let u = (4 * (secs as u128) + 27) / 54;
    assert(u <= secs as u128 + 1) by (nonlinear_arith)
        requires u == (4 * (secs as u128) + 27) / 54;
    if u < 1 {
        1
    } else {
        assert(u <= secs);
        u as usize
    }
}

/// The scenes (number, units) and the scene of each paragraph.
fn scenes_pass(rp: &Vec<Vec<char>>, Ghost(s): Ghost<Seq<char>>) -> (r: (Vec<(usize, usize)>, Vec<usize>))
    requires
        views(rp@) == raw_paras(s),
        headers_fit(s),
    ensures
        r.0@.len() == scenes_upto(views(rp@), rp@.len() as int).0.len(),
        forall|j: int| 0 <= j < r.0@.len() ==> (#[trigger] r.0@[j]).0 == scenes_upto(views(rp@), rp@.len() as int).0[j].0
            && r.0@[j].1 == scenes_upto(views(rp@), rp@.len() as int).0[j].1,
        r.1@.len() == rp@.len(),
        scenes_upto(views(rp@), rp@.len() as int).1.len() == rp@.len(),
        forall|j: int| 0 <= j < r.1@.len() ==> (#[trigger] r.1@[j]) == scenes_upto(views(rp@), rp@.len() as int).1[j],
{
    let ghost rv = views(rp@);
    let mut sc: Vec<(usize, usize)> = Vec::new();
    let mut ids: Vec<usize> = Vec::new();
    let mut cur: usize = 0;
    let mut i: usize = 0;
    while i < rp.len()
        invariant
            i <= rp@.len(),
            rv == views(rp@),
            rv == raw_paras(s),
            headers_fit(s),
            sc@.len() == scenes_upto(rv, i as int).0.len(),
            forall|j: int| 0 <= j < sc@.len() ==> (#[trigger] sc@[j]).0 == scenes_upto(rv, i as int).0[j].0
                && sc@[j].1 == scenes_upto(rv, i as int).0[j].1,
            ids@.len() == i,
            scenes_upto(rv, i as int).1.len() == i,
            forall|j: int| 0 <= j < i ==> (#[trigger] ids@[j]) == scenes_upto(rv, i as int).1[j],
            cur == scenes_upto(rv, i as int).2,
        decreases rp@.len() - i,
    {
        let ghost prev = scenes_upto(rv, i as int);
        assert(rv[i as int] == rp@[i as int]@);
        let fl = first_line_exec(&rp[i]);
        assert(header_fits(first_line(rv[i as int])));
        let h = try_parse_scene_header(string_of(&fl).as_str());
        match h {
            Some(hd) => {
                assert(spec_scene_header(first_line(rv[i as int])) matches Some(x) && x.1 <= 0x20_0000_0000_0000);
                let u = units_for_exec(hd.secs);
                sc.push((hd.scene_num, u));
                ids.push(0);
                cur = hd.scene_num;
            },
            None => {
                if is_meta_exec(&rp[i]) {
                    ids.push(0);
                } else {
                    ids.push(cur);
                }
            },
        }
        i += 1;
    }
    (sc, ids)
}

fn concat3(a: &Vec<char>, b: &Vec<char>) -> (r: Vec<char>)
    ensures
        r@ == a@ + para_sep() + b@,
{
    let mut v = copy_range(a, 0, a.len());
    assert(a@.subrange(0, a@.len() as int) =~= a@);
    v.push('\n');
    v.push('\n');
    crate::text::append_chars(&mut v, b);
    assert(v@ =~= a@ + para_sep() + b@);
    v
}

/// The grouped paragraphs (text, scene).
fn aggregate(rp: &Vec<Vec<char>>, ids: &Vec<usize>, Ghost(idv): Ghost<Seq<int>>) -> (r: Vec<(Vec<char>, usize)>)
    requires
        ids@.len() == rp@.len(),
        idv.len() == ids@.len(),
        forall|j: int| 0 <= j < ids@.len() ==> (#[trigger] ids@[j]) == idv[j],
    ensures
        r@.len() == ({
            let st = agg_upto(views(rp@), idv, rp@.len() as int);
            if st.1.len() > 0 { st.0.push((st.1, st.2)) } else { st.0 }
        }).len(),
        forall|j: int| 0 <= j < r@.len() ==> (#[trigger] r@[j]).0@ == ({
            let st = agg_upto(views(rp@), idv, rp@.len() as int);
            if st.1.len() > 0 { st.0.push((st.1, st.2)) } else { st.0 }
        })[j].0 && r@[j].1 == ({
            let st = agg_upto(views(rp@), idv, rp@.len() as int);
            if st.1.len() > 0 { st.0.push((st.1, st.2)) } else { st.0 }
        })[j].1,
{
    let ghost rv = views(rp@);
    let mut agg: Vec<(Vec<char>, usize)> = Vec::new();
    let mut buf: Vec<char> = Vec::new();
    let mut bsid: usize = 0;
    let mut i: usize = 0;
    while i < rp.len()
        invariant
            i <= rp@.len(),
            rv == views(rp@),
            ids@.len() == rp@.len(),
            idv.len() == ids@.len(),
            forall|j: int| 0 <= j < ids@.len() ==> (#[trigger] ids@[j]) == idv[j],
            agg@.len() == agg_upto(rv, idv, i as int).0.len(),
            forall|j: int| 0 <= j < agg@.len() ==> (#[trigger] agg@[j]).0@ == agg_upto(rv, idv, i as int).0[j].0
                && agg@[j].1 == agg_upto(rv, idv, i as int).0[j].1,
            buf@ == agg_upto(rv, idv, i as int).1,
            bsid == agg_upto(rv, idv, i as int).2,
        decreases rp@.len() - i,
    {
        let sid = ids[i];
        assert(rv[i as int] == rp@[i as int]@);
        if sid != 0 {
            if buf.len() > 0 && sid != bsid {
                agg.push((buf, bsid));
                buf = Vec::new();
                bsid = 0;
            }
            if buf.len() == 0 {
                buf = copy_range(&rp[i], 0, rp[i].len());
                assert(rp@[i as int]@.subrange(0, rp@[i as int]@.len() as int) =~= rp@[i as int]@);
                bsid = sid;
            } else {
                let merged = concat3(&buf, &rp[i]);
                let lm = crate::text::utf8_len_of(&merged);
                let lb = crate::text::utf8_len_of(&buf);
                if lm > 600 || lb >= 280 {
                    agg.push((buf, bsid));
                    buf = copy_range(&rp[i], 0, rp[i].len());
                    assert(rp@[i as int]@.subrange(0, rp@[i as int]@.len() as int) =~= rp@[i as int]@);
                    bsid = sid;
                } else {
                    buf = merged;
                }
            }
        }
        i += 1;
    }
    if buf.len() > 0 {
        agg.push((buf, bsid));
    }
    agg
}

/// The chars after which a sentence ends: `。！？.?!`.
pub open spec fn is_sentence_end(c: char) -> bool {
    c == '\u{3002}' || c == '\u{ff01}' || c == '\u{ff1f}' || c == '.' || c == '?' || c == '!'
}

/// Index of the first sentence end at or after `i`, or the length.
pub open spec fn sentence_end_from(s: Seq<char>, i: int) -> int
    decreases s.len() - i,
{
    if 0 <= i < s.len() && !is_sentence_end(s[i]) {
        sentence_end_from(s, i + 1)
    } else {
        i
    }
}

/// The pieces of `s[i..]` cut after each sentence end.
pub open spec fn sentence_pieces_from(s: Seq<char>, i: int) -> Seq<Seq<char>>
    decreases s.len() + 1 - i,
{
    if i < 0 || i > s.len() {
        Seq::empty()
    } else {
        let e = sentence_end_from(s, i);
        if e < i || e >= s.len() {
            seq![s.subrange(i, s.len() as int)]
        } else {
            seq![s.subrange(i, e + 1)] + sentence_pieces_from(s, e + 1)
        }
    }
}

/// The sentences of a text: its pieces cut after each sentence end, trimmed,
/// the empty ones left out.
pub open spec fn sentences(t: Seq<char>) -> Seq<Seq<char>> {
    sentence_pieces_from(t, 0).map_values(|p: Seq<char>| trim(p)).filter(|p: Seq<char>| p.len() > 0)
}

/// Sentences gathered so far: the closed groups and the open one. A sentence
/// joins the open group unless the group is not empty and the two together
/// pass 600 bytes.
pub open spec fn group_upto(ss: Seq<Seq<char>>, n: int) -> (Seq<Seq<char>>, Seq<char>)
    decreases n,
{
    if n <= 0 {
        (Seq::empty(), Seq::empty())
    } else {
        let (done, buf) = group_upto(ss, n - 1);
        let x = ss[n - 1];
        if buf.len() > 0 && crate::text::utf8_len(buf) + crate::text::utf8_len(x) > 600 {
            (done.push(buf), x)
        } else {
            (done, buf + x)
        }
    }
}

/// The sentences joined (without separators) into groups of at most 600
/// bytes, where one sentence alone is not longer.
pub open spec fn grouped(ss: Seq<Seq<char>>) -> Seq<Seq<char>> {
    let g = group_upto(ss, ss.len() as int);
    if g.1.len() > 0 {
        g.0.push(g.1)
    } else {
        g.0
    }
}

/// The id of part `k` (0-based) of paragraph `i`: `§i.k`, both 1-based.
pub open spec fn sub_id(i: int, k: int) -> Seq<char> {
    para_id(i) + seq!['.'] + crate::text::decimal((k + 1) as nat)
}

/// The paragraphs that grouped paragraph `i` gives: itself under `§i` when
/// it is at most 900 bytes or has at most one sentence; else its sentences
/// grouped, under `§i.1`, `§i.2`, ... (id, text, scene).
pub open spec fn para_entries(i: int, t: Seq<char>, sid: int) -> Seq<(Seq<char>, Seq<char>, int)> {
    if crate::text::utf8_len(t) <= 900 || sentences(t).len() <= 1 {
        seq![(para_id(i), t, sid)]
    } else {
        let sp = grouped(sentences(t));
        Seq::new(sp.len(), |k: int| (sub_id(i, k), sp[k], sid))
    }
}

pub open spec fn entries_upto(agg: Seq<(Seq<char>, int)>, n: int) -> Seq<(Seq<char>, Seq<char>, int)>
    decreases n,
{
    if n <= 0 {
        Seq::empty()
    } else {
        entries_upto(agg, n - 1) + para_entries(n - 1, agg[n - 1].0, agg[n - 1].1)
    }
}

/// The numbered paragraphs of a script: (id, text, scene).
pub open spec fn entries(s: Seq<char>) -> Seq<(Seq<char>, Seq<char>, int)> {
    entries_upto(aggregated(s), aggregated(s).len() as int)
}

pub open spec fn entries_view(v: Seq<(String, String, usize)>) -> Seq<(Seq<char>, Seq<char>, int)> {
    v.map_values(|e: (String, String, usize)| (e.0@, e.1@, e.2 as int))
}

proof fn lemma_sentence_end_from(s: Seq<char>, i: int)
    requires
        0 <= i <= s.len(),
    ensures
        i <= sentence_end_from(s, i) <= s.len(),
    decreases s.len() - i,
{
    if i < s.len() && !is_sentence_end(s[i]) {
        lemma_sentence_end_from(s, i + 1);
    }
}

/// The sentences of a text (`sentences`).
fn sentences_exec(c: &Vec<char>) -> (r: Vec<Vec<char>>)
    ensures
        views(r@) == sentences(c@),
{
    let ghost pieces = sentence_pieces_from(c@, 0);
    let ghost pred = |p: Seq<char>| p.len() > 0;
    let ghost tr = |p: Seq<char>| trim(p);
    let mut out: Vec<Vec<char>> = Vec::new();
    let ghost mut done: Seq<Seq<char>> = Seq::empty();
    let mut i: usize = 0;
    let mut finished = false;
    while !finished
        invariant
            i <= c@.len(),
            pred == (|p: Seq<char>| p.len() > 0),
            tr == (|p: Seq<char>| trim(p)),
            pieces == sentence_pieces_from(c@, 0),
            !finished ==> done + sentence_pieces_from(c@, i as int) == pieces,
            finished ==> done == pieces,
            views(out@) == done.map_values(tr).filter(pred),
        decreases c@.len() + 1 - i, if finished { 0int } else { 1int },
    {
        proof {
            lemma_sentence_end_from(c@, i as int);
        }
        let mut e = i;
        while e < c.len() && !(c[e] == '\u{3002}' || c[e] == '\u{ff01}' || c[e] == '\u{ff1f}' || c[e] == '.'
            || c[e] == '?' || c[e] == '!')
            invariant
                i <= e <= c@.len(),
                sentence_end_from(c@, e as int) == sentence_end_from(c@, i as int),
            decreases c@.len() - e,
        {
            e += 1;
        }
        let stop = if e < c.len() { e + 1 } else { e };
        let piece = trim_chars(&copy_range(c, i, stop));
        let ghost pv = c@.subrange(i as int, stop as int);
        proof {
            reveal_with_fuel(Seq::filter, 1);
            let d2 = done.push(pv);
            assert(d2.map_values(tr) =~= done.map_values(tr).push(trim(pv)));
            assert(d2.map_values(tr).drop_last() =~= done.map_values(tr));
        }
        if piece.len() > 0 {
            let ghost before = out@;
            out.push(piece);
            proof {
                lemma_views_push(before, out@.last());
                assert(before.push(out@.last()) =~= out@);
            }
        }
        proof {
            if e >= c@.len() {
                assert(sentence_pieces_from(c@, i as int) == seq![pv]);
                assert(done + seq![pv] =~= done.push(pv));
            } else {
                assert(sentence_pieces_from(c@, i as int) == seq![pv] + sentence_pieces_from(c@, e + 1));
                assert(done + (seq![pv] + sentence_pieces_from(c@, e + 1)) =~= done.push(pv) + sentence_pieces_from(c@, e + 1));
            }
            done = done.push(pv);
        }
        if e >= c.len() {
            finished = true;
        } else {
            i = e + 1;
        }
    }
    out
}

/// The sentences joined into groups (`grouped`).
fn group_exec(ss: &Vec<Vec<char>>) -> (r: Vec<Vec<char>>)
    ensures
        views(r@) == grouped(views(ss@)),
{
    let ghost sv = views(ss@);
    let mut done: Vec<Vec<char>> = Vec::new();
    let mut buf: Vec<char> = Vec::new();
    let mut n: usize = 0;
    while n < ss.len()
        invariant
            n <= ss@.len(),
            sv == views(ss@),
            views(done@) == group_upto(sv, n as int).0,
            buf@ == group_upto(sv, n as int).1,
        decreases ss@.len() - n,
    {
        let x = &ss[n];
        assert(sv[n as int] == x@);
        let lb = crate::text::utf8_len_of(&buf);
        let lx = crate::text::utf8_len_of(x);
        if buf.len() > 0 && (lx > 600 || lb > 600 - lx) {
            let ghost before = done@;
            done.push(buf);
            proof {
                lemma_views_push(before, done@.last());
                assert(before.push(done@.last()) =~= done@);
            }
            buf = copy_range(x, 0, x.len());
            assert(x@.subrange(0, x@.len() as int) =~= x@);
        } else {
            crate::text::append_chars(&mut buf, x);
        }
        n += 1;
    }
    assert(sv.len() == ss@.len());
    if buf.len() > 0 {
        let ghost before = done@;
        done.push(buf);
        proof {
            lemma_views_push(before, done@.last());
            assert(before.push(done@.last()) =~= done@);
        }
    }
    done
}

fn sub_id_exec(i: usize, k: usize) -> (r: String)
    requires
        i < usize::MAX,
        k < usize::MAX,
    ensures
        r@ == sub_id(i as int, k as int),
{
    let head = para_id_exec(i);
    let mut v = chars_of(head.as_str());
    v.push('.');
    crate::text::append_chars(&mut v, &crate::text::decimal_chars((k + 1) as u64));
    assert(v@ =~= sub_id(i as int, k as int));
    string_of(&v)
}

/// Adds the paragraphs that grouped paragraph `i` gives (`para_entries`).
fn push_entries(out: &mut Vec<(String, String, usize)>, i: usize, t: &Vec<char>, sid: usize)
    requires
        i < usize::MAX,
    ensures
        entries_view(final(out)@) == entries_view(old(out)@) + para_entries(i as int, t@, sid as int),
{
    let ghost o = entries_view(out@);
    let len = crate::text::utf8_len_of(t);
    let ss = if len <= 900 { Vec::new() } else { sentences_exec(t) };
    if len <= 900 || ss.len() <= 1 {
        out.push((para_id_exec(i), string_of(t), sid));
        assert(entries_view(out@) =~= o + para_entries(i as int, t@, sid as int));
        return;
    }
    let sp = group_exec(&ss);
    let ghost pe = para_entries(i as int, t@, sid as int);
    assert(pe.len() == sp@.len());
    let mut k: usize = 0;
    while k < sp.len()
        invariant
            k <= sp@.len(),
            i < usize::MAX,
            pe == para_entries(i as int, t@, sid as int),
            pe.len() == sp@.len(),
            forall|j: int| 0 <= j < pe.len() ==> #[trigger] pe[j] == (sub_id(i as int, j), sp@[j]@, sid as int),
            entries_view(out@) == o + pe.take(k as int),
        decreases sp@.len() - k,
    {
        let id = sub_id_exec(i, k);
        let text = string_of(&sp[k]);
        assert(pe[k as int] == (id@, text@, sid as int));
        let ghost before = out@;
        out.push((id, text, sid));
        assert(entries_view(out@) =~= entries_view(before).push(pe[k as int]));
        assert(pe.take(k + 1) =~= pe.take(k as int).push(pe[k as int]));
        assert(entries_view(out@) =~= o + pe.take(k + 1));
        k += 1;
    }
    assert(pe.take(k as int) =~= pe);
}

/// The numbered paragraphs of the grouped paragraphs (`entries_upto`).
fn entries_exec(agg: &Vec<(Vec<char>, usize)>, Ghost(ga): Ghost<Seq<(Seq<char>, int)>>) -> (r: Vec<(String, String, usize)>)
    requires
        agg@.len() == ga.len(),
        forall|m: int| 0 <= m < agg@.len() ==> (#[trigger] agg@[m]).0@ == ga[m].0 && agg@[m].1 == ga[m].1,
    ensures
        entries_view(r@) == entries_upto(ga, ga.len() as int),
{
    let mut out: Vec<(String, String, usize)> = Vec::new();
    let mut i: usize = 0;
    while i < agg.len()
        invariant
            i <= agg@.len(),
            agg@.len() == ga.len(),
            forall|m: int| 0 <= m < agg@.len() ==> (#[trigger] agg@[m]).0@ == ga[m].0 && agg@[m].1 == ga[m].1,
            entries_view(out@) == entries_upto(ga, i as int),
        decreases agg@.len() - i,
    {
        assert(agg@[i as int].0@ == ga[i as int].0);
        push_entries(&mut out, i, &agg[i].0, agg[i].1);
        i += 1;
    }
    out
}

pub struct SceneMeta {
    pub scene_id: usize,
    pub unit_count: usize,
    pub section_refs: Vec<String>,
}


pub open spec fn strings_view(v: Seq<String>) -> Seq<Seq<char>> {
    v.map_values(|x: String| x@)
}

/// What `split_script_into_paragraphs` gives for a script.
pub open spec fn split_spec(r: (Vec<ParagraphIndexItem>, Vec<SceneMeta>, usize), s: Seq<char>) -> bool {
    let es = entries(s);
    let ks = kept_scenes(s);
    &&& r.0@.len() == es.len()
    &&& (forall|i: int| 0 <= i < es.len() ==> (#[trigger] r.0@[i]).id@ == es[i].0 && r.0@[i].text@ == es[i].1
        && r.0@[i].facts is None)
    &&& r.1@.len() == ks.len()
    &&& (forall|j: int| 0 <= j < ks.len() ==> (#[trigger] r.1@[j]).scene_id == ks[j].0 && r.1@[j].unit_count == ks[j].1
        && strings_view(r.1@[j].section_refs@) == ks[j].2)
    &&& r.2 == units_sum(ks, ks.len() as int)
}

proof fn lemma_units_sum_push(ks: Seq<(int, int, Seq<Seq<char>>)>, x: (int, int, Seq<Seq<char>>), n: int)
    requires
        0 <= n <= ks.len(),
    ensures
        units_sum(ks.push(x), n) == units_sum(ks, n),
    decreases n,
{
    if n > 0 {
        lemma_units_sum_push(ks, x, n - 1);
        assert(ks.push(x)[n - 1] == ks[n - 1]);
    }
}

fn para_id_exec(i: usize) -> (r: String)
    requires
        i < usize::MAX,
    ensures
        r@ == para_id(i as int),
{
    proof {
        reveal_strlit("\u{a7}");
    }
    assert("\u{a7}"@ =~= seq!['\u{a7}']);
    crate::text::prefixed_number("\u{a7}", i + 1)
}

/// The scenes that keep paragraphs, and the units they add up to.
fn kept_pass(
    sc: &Vec<(usize, usize)>,
    agg: &Vec<(String, String, usize)>,
    Ghost(scs): Ghost<Seq<(int, int)>>,
    Ghost(ga): Ghost<Seq<(Seq<char>, Seq<char>, int)>>,
) -> (r: (Vec<SceneMeta>, u128))
    requires
        sc@.len() == scs.len(),
        forall|m: int| 0 <= m < sc@.len() ==> (#[trigger] sc@[m]).0 == scs[m].0 && sc@[m].1 == scs[m].1,
        entries_view(agg@) == ga,
    ensures
        r.0@.len() == kept_scenes_upto(scs, ga, scs.len() as int).len(),
        forall|m: int| 0 <= m < r.0@.len() ==> (#[trigger] r.0@[m]).scene_id == kept_scenes_upto(scs, ga, scs.len() as int)[m].0
            && r.0@[m].unit_count == kept_scenes_upto(scs, ga, scs.len() as int)[m].1
            && strings_view(r.0@[m].section_refs@) == kept_scenes_upto(scs, ga, scs.len() as int)[m].2,
        r.1 == units_sum(kept_scenes_upto(scs, ga, scs.len() as int), r.0@.len() as int),
{
    let mut scenes: Vec<SceneMeta> = Vec::new();
    let mut total: u128 = 0;
    let mut j: usize = 0;
    while j < sc.len()
        invariant
            j <= sc@.len(),
            sc@.len() == scs.len(),
            forall|m: int| 0 <= m < sc@.len() ==> (#[trigger] sc@[m]).0 == scs[m].0 && sc@[m].1 == scs[m].1,
            entries_view(agg@) == ga,
            scenes@.len() == kept_scenes_upto(scs, ga, j as int).len(),
            forall|m: int| 0 <= m < scenes@.len() ==> (#[trigger] scenes@[m]).scene_id == kept_scenes_upto(scs, ga, j as int)[m].0
                && scenes@[m].unit_count == kept_scenes_upto(scs, ga, j as int)[m].1
                && strings_view(scenes@[m].section_refs@) == kept_scenes_upto(scs, ga, j as int)[m].2,
            total == units_sum(kept_scenes_upto(scs, ga, j as int), scenes@.len() as int),
            total <= usize::MAX * (j as int),
        decreases sc@.len() - j,
    {
        let sid = sc[j].0;
        let mut first = true;
        let mut k: usize = 0;
        while k < j
            invariant
                k <= j < sc@.len(),
                sc@.len() == scs.len(),
                forall|m: int| 0 <= m < sc@.len() ==> (#[trigger] sc@[m]).0 == scs[m].0 && sc@[m].1 == scs[m].1,
                sid == scs[j as int].0,
                first <==> forall|m: int| 0 <= m < k ==> #[trigger] scs[m].0 != scs[j as int].0,
            decreases j - k,
        {
            if sc[k].0 == sid {
                first = false;
            }
            k += 1;
        }
        assert(first == first_of_number(scs, j as int));
        let mut refs: Vec<String> = Vec::new();
        if first {
            let mut m: usize = 0;
            while m < agg.len()
                invariant
                    m <= agg@.len(),
                    entries_view(agg@) == ga,
                    strings_view(refs@) == refs_upto(ga, sid as int, m as int),
                decreases agg@.len() - m,
            {
                assert(ga[m as int] == (agg@[m as int].0@, agg@[m as int].1@, agg@[m as int].2 as int));
                if agg[m].2 == sid {
                    let ghost before = refs@;
                    refs.push(agg[m].0.clone());
                    assert(strings_view(refs@) =~= strings_view(before).push(ga[m as int].0));
                }
                m += 1;
            }
        } else {
            assert(strings_view(refs@) =~= Seq::<Seq<char>>::empty());
        }
        assert(strings_view(refs@) == scene_refs(scs, ga, j as int));
        proof {
            lemma_units_sum_push(kept_scenes_upto(scs, ga, j as int), (scs[j as int].0, scs[j as int].1, strings_view(refs@)), scenes@.len() as int);
        }
        if refs.len() > 0 {
            let u = sc[j].1;
            scenes.push(SceneMeta { scene_id: sid, unit_count: u, section_refs: refs });
            total = total + u as u128;
        }
        j += 1;
    }
    (scenes, total)
}

/// `split_script_into_paragraphs`: the script cut into numbered paragraphs of
/// about 280 bytes grouped by scene (a group over 900 bytes cut at sentence
/// ends into parts of at most 600 bytes), the scenes that have paragraphs
/// with their unit counts and paragraph ids, and the total of units.
pub fn split_script_into_paragraphs(script_body: &str) -> (r: (Vec<ParagraphIndexItem>, Vec<SceneMeta>, usize))
    requires
        split_readable(script_body@),
    ensures
        split_spec(r, script_body@),
{
    let c = chars_of(script_body);
    let rp = raw_paras_exec(&c);
    let ghost rv = views(rp@);
    let (sc, ids) = scenes_pass(&rp, Ghost(c@));
    let ghost scs = scenes_upto(rv, rv.len() as int).0;
    let ghost idv = scenes_upto(rv, rv.len() as int).1;
    let agg = aggregate(&rp, &ids, Ghost(idv));
    let ghost ga = aggregated(c@);
    assert(agg@.len() == ga.len());
    let es = entries_exec(&agg, Ghost(ga));
    let ghost ge = entries(c@);
    let mut paragraphs: Vec<ParagraphIndexItem> = Vec::new();
    let mut i: usize = 0;
    while i < es.len()
        invariant
            i <= es@.len(),
            entries_view(es@) == ge,
            paragraphs@.len() == i,
            forall|j: int| 0 <= j < i ==> (#[trigger] paragraphs@[j]).id@ == ge[j].0 && paragraphs@[j].text@ == ge[j].1
                && paragraphs@[j].facts is None,
        decreases es@.len() - i,
    {
        assert(ge[i as int] == (es@[i as int].0@, es@[i as int].1@, es@[i as int].2 as int));
        paragraphs.push(ParagraphIndexItem { id: es[i].0.clone(), text: es[i].1.clone(), facts: None });
        i += 1;
    }
    let ghost ks = kept_scenes(c@);
    let (scenes, total) = kept_pass(&sc, &es, Ghost(scs), Ghost(ge));
    proof {
        assert(ks == kept_scenes_upto(scs, ge, scs.len() as int));
    }
    (paragraphs, scenes, total as usize)
}


/// The text of the paragraph `id` names (its last one with that id).
pub open spec fn para_text(ps: Seq<ParagraphIndexItem>, id: Seq<char>) -> Option<Seq<char>>
    decreases ps.len(),
{
    if ps.len() == 0 {
        None
    } else if ps.last().id@ == id {
        Some(ps.last().text@)
    } else {
        para_text(ps.drop_last(), id)
    }
}

/// The non-empty texts of the paragraphs the first `n` references name.
pub open spec fn fragment_parts(ps: Seq<ParagraphIndexItem>, refs: Seq<Seq<char>>, n: int) -> Seq<Seq<char>>
    decreases n,
{
    if n <= 0 {
        Seq::empty()
    } else {
        let p = fragment_parts(ps, refs, n - 1);
        match para_text(ps, refs[n - 1]) {
            Some(t) => if t.len() > 0 { p.push(t) } else { p },
            None => p,
        }
    }
}

/// The script a unit covers: the texts of its paragraphs, blank-line separated.
pub open spec fn spec_fragment(ps: Seq<ParagraphIndexItem>, refs: Seq<Seq<char>>) -> Seq<char> {
    crate::text::join_with(fragment_parts(ps, refs, refs.len() as int), para_sep())
}

fn para_text_exec(ps: &[ParagraphIndexItem], id: &str) -> (r: Option<String>)
    ensures
        crate::blocks::opt_view(r) == para_text(ps@, id@),
{
    let mut i = ps.len();
    assert(ps@.take(i as int) =~= ps@);
    while i > 0
        invariant
            i <= ps@.len(),
            para_text(ps@, id@) == para_text(ps@.take(i as int), id@),
        decreases i,
    {
        assert(ps@.take(i as int).drop_last() =~= ps@.take(i - 1));
        if crate::text::str_eq(ps[i - 1].id.as_str(), id) {
            return Some(ps[i - 1].text.clone());
        }
        i -= 1;
    }
    None
}

/// `extract_script_fragment`: the script a unit covers.
pub fn extract_script_fragment(paragraphs: &[ParagraphIndexItem], unit: &crate::v5_parser::V5UnitPlan) -> (r: String)
    ensures
        r@ == spec_fragment(paragraphs@, strings_view(unit.section_refs@)),
{
    let refs = &unit.section_refs;
    let ghost rv = strings_view(refs@);
    let mut parts: Vec<String> = Vec::new();
    let mut k: usize = 0;
    while k < refs.len()
        invariant
            k <= refs@.len(),
            rv == strings_view(refs@),
            strings_view(parts@) == fragment_parts(paragraphs@, rv, k as int),
        decreases refs@.len() - k,
    {
        match para_text_exec(paragraphs, refs[k].as_str()) {
            Some(t) => {
                if !t.as_str().is_empty() {
                    let ghost before = parts@;
                    parts.push(t);
                    assert(strings_view(parts@) =~= strings_view(before).push(parts@.last()@));
                }
            },
            None => {},
        }
        k += 1;
    }
    proof {
        reveal_strlit("\n\n");
    }
    assert("\n\n"@ =~= para_sep());
    crate::text::join_strings(&parts, "\n\n")
}

/// The script the analysis reads when the script has no scene headers: one
/// scene over the whole film, of the task's length.
pub open spec fn whole_film_script(script: Seq<char>, secs: int) -> Seq<char> {
    "\u{3010}\u{573a}\u{666f}1\u{ff1a}\u{5168}\u{7247}\u{3011}\u{ff08}\u{7ea6}"@ + crate::text::decimal(secs as nat)
        + "\u{79d2}\u{ff09}\n\n"@ + script
}

/// The script the analysis works on: the script when it has scenes, else the
/// whole-film wrapping of it.
pub open spec fn working_script(script: Seq<char>, duration: Seq<char>) -> Seq<char> {
    if kept_scenes(script).len() > 0 {
        script
    } else {
        whole_film_script(script, spec_init_duration(duration))
    }
}

pub struct PhaseAdPlan {
    pub working_script: String,
    pub paragraphs: Vec<ParagraphIndexItem>,
    pub scenes: Vec<SceneMeta>,
    pub total_units: usize,
}

/// The paragraphs and scenes the analysis phase sends with the script: those
/// of the script, or of its whole-film wrapping when it has no scenes.
pub fn plan_phase_ad(script_body: &str, duration: &str) -> (r: PhaseAdPlan)
    requires
        split_readable(script_body@),
        kept_scenes(script_body@).len() == 0 ==> init_duration_fits(duration@)
            && split_readable(whole_film_script(script_body@, spec_init_duration(duration@))),
    ensures
        r.working_script@ == working_script(script_body@, duration@),
        split_spec((r.paragraphs, r.scenes, r.total_units), r.working_script@),
{
    let (p, sc, tu) = split_script_into_paragraphs(script_body);
    if sc.len() > 0 {
        return PhaseAdPlan { working_script: script_body.to_string(), paragraphs: p, scenes: sc, total_units: tu };
    }
    let secs = parse_init_duration_to_sec(duration);
    let mut w = chars_of("\u{3010}\u{573a}\u{666f}1\u{ff1a}\u{5168}\u{7247}\u{3011}\u{ff08}\u{7ea6}");
    crate::text::append_chars(&mut w, &crate::text::decimal_chars(secs as u64));
    crate::text::append_chars(&mut w, &chars_of("\u{79d2}\u{ff09}\n\n"));
    crate::text::append_chars(&mut w, &chars_of(script_body));
    let ws = string_of(&w);
    let (p2, sc2, tu2) = split_script_into_paragraphs(ws.as_str());
    PhaseAdPlan { working_script: ws, paragraphs: p2, scenes: sc2, total_units: tu2 }
}

/// The message when the analysis names no units: what the splitting found,
/// and the start of the script when it found no paragraphs.
pub open spec fn phase_ad_failure(script: Seq<char>, n_paras: int, n_scenes: int, total_units: int) -> Seq<char> {
    let len = crate::text::utf8_len(script);
    let head = if n_paras == 0 {
        "\u{26a0} \u{5207}\u{6bb5}\u{4e3a}\u{7a7a}! \u{68c0}\u{67e5}\u{5267}\u{672c}\u{683c}\u{5f0f}\u{662f}\u{5426}\u{542b}\u{573a}\u{666f}\u{5934}\u{6807}\u{6ce8}\n\u{5267}\u{672c}\u{524d}200\u{5b57}:\n"@
            + crate::text::byte_prefix(script, if len < 200 { len } else { 200 })
    } else {
        "\u{5207}\u{6bb5}\u{6b63}\u{5e38}\u{4f46} LLM \u{8fd4}\u{56de} 0 UNIT blocks"@
    };
    "Phase A-D \u{5206}\u{6790}\u{5931}\u{8d25}:\n[\u{5207}\u{6bb5}\u{8bca}\u{65ad}] script_body="@ + crate::text::decimal(len as nat)
        + "\u{5b57} \u{2192} \u{5207}\u{51fa} "@ + crate::text::decimal(n_paras as nat) + " \u{6bb5}, "@
        + crate::text::decimal(n_scenes as nat) + " \u{573a}, totalUnits="@ + crate::text::decimal(total_units as nat) + "\n"@ + head
}

/// `run_phase_ad`'s check of the analysis: it must name units.
pub fn check_phase_ad(analysis: &crate::v5_parser::V5Analysis, script_body: &str, plan: &PhaseAdPlan) -> (r: Result<(), String>)
    ensures
        analysis.units@.len() > 0 ==> r is Ok,
        analysis.units@.len() == 0 ==> (r matches Err(m) && m@ == phase_ad_failure(script_body@,
            plan.paragraphs@.len() as int, plan.scenes@.len() as int, plan.total_units as int)),
{
    if analysis.units.len() > 0 {
        return Ok(());
    }
    let c = chars_of(script_body);
    let len = crate::text::utf8_len_of(&c);
    let mut m = chars_of("Phase A-D \u{5206}\u{6790}\u{5931}\u{8d25}:\n[\u{5207}\u{6bb5}\u{8bca}\u{65ad}] script_body=");
    crate::text::append_chars(&mut m, &crate::text::decimal_chars_u128(len));
    crate::text::append_chars(&mut m, &chars_of("\u{5b57} \u{2192} \u{5207}\u{51fa} "));
    crate::text::append_chars(&mut m, &crate::text::decimal_chars(plan.paragraphs.len() as u64));
    crate::text::append_chars(&mut m, &chars_of(" \u{6bb5}, "));
    crate::text::append_chars(&mut m, &crate::text::decimal_chars(plan.scenes.len() as u64));
    crate::text::append_chars(&mut m, &chars_of(" \u{573a}, totalUnits="));
    crate::text::append_chars(&mut m, &crate::text::decimal_chars(plan.total_units as u64));
    crate::text::append_chars(&mut m, &chars_of("\n"));
    if plan.paragraphs.len() == 0 {
        crate::text::append_chars(&mut m, &chars_of("\u{26a0} \u{5207}\u{6bb5}\u{4e3a}\u{7a7a}! \u{68c0}\u{67e5}\u{5267}\u{672c}\u{683c}\u{5f0f}\u{662f}\u{5426}\u{542b}\u{573a}\u{666f}\u{5934}\u{6807}\u{6ce8}\n\u{5267}\u{672c}\u{524d}200\u{5b57}:\n"));
        let b: u128 = if len < 200 { len } else { 200 };
        crate::text::append_chars(&mut m, &crate::text::byte_prefix_chars(&c, b));
    } else {
        crate::text::append_chars(&mut m, &chars_of("\u{5207}\u{6bb5}\u{6b63}\u{5e38}\u{4f46} LLM \u{8fd4}\u{56de} 0 UNIT blocks"));
    }
    Err(string_of(&m))
}


/// Position of the first unit numbered `idx` at or after `i`, or -1.
pub open spec fn unit_pos_from(us: Seq<crate::v5_parser::V5UnitPlan>, idx: int, i: int) -> int
    decreases us.len() - i,
{
    if i < 0 || i >= us.len() {
        -1
    } else if us[i].index == idx {
        i
    } else {
        unit_pos_from(us, idx, i + 1)
    }
}

/// What the unit before unit `idx` planned as its exit state (empty for the
/// first unit or when there is none).
pub open spec fn previous_exit(us: Seq<crate::v5_parser::V5UnitPlan>, idx: int) -> Seq<char> {
    let q = unit_pos_from(us, idx - 1, 0);
    if idx > 1 && 0 <= q < us.len() {
        us[q].planned_exit_state@
    } else {
        Seq::empty()
    }
}

pub open spec fn missing_unit_message(idx: int, n: int) -> Seq<char> {
    "\u{5355}\u{5143} #"@ + crate::text::decimal(idx as nat) + " \u{4e0d}\u{5b58}\u{5728} (\u{5206}\u{6790}\u{91cc}\u{53ea}\u{6709} "@
        + crate::text::decimal(n as nat) + " \u{4e2a}\u{5355}\u{5143})."@
}

proof fn lemma_unit_pos(us: Seq<crate::v5_parser::V5UnitPlan>, idx: int, i: int)
    requires
        0 <= i,
    ensures
        unit_pos_from(us, idx, i) == -1 || (i <= unit_pos_from(us, idx, i) < us.len()),
    decreases us.len() - i,
{
    if i < us.len() && us[i].index != idx {
        lemma_unit_pos(us, idx, i + 1);
    }
}

fn unit_pos(us: &Vec<crate::v5_parser::V5UnitPlan>, idx: usize) -> (r: Option<usize>)
    ensures
        match r {
            Some(p) => unit_pos_from(us@, idx as int, 0) == p && p < us@.len(),
            None => unit_pos_from(us@, idx as int, 0) == -1,
        },
{
    let mut i: usize = 0;
    while i < us.len()
        invariant
            i <= us@.len(),
            unit_pos_from(us@, idx as int, 0) == unit_pos_from(us@, idx as int, i as int),
        decreases us@.len() - i,
    {
        if us[i].index == idx {
            return Some(i);
        }
        i += 1;
    }
    None
}

/// The unit a generation request is for (its position among the analysis'
/// units) and the exit state the unit before it planned; or the message that
/// no unit has that number.
pub fn plan_unit(analysis: &crate::v5_parser::V5Analysis, unit_index: usize) -> (r: Result<(usize, String), String>)
    ensures
        ({
            let us = analysis.units@;
            let p = unit_pos_from(us, unit_index as int, 0);
            if p == -1 {
                r matches Err(m) && m@ == missing_unit_message(unit_index as int, us.len() as int)
            } else {
                r matches Ok(v) && v.0 == p && v.1@ == previous_exit(us, unit_index as int)
            }
        }),
{
    let us = &analysis.units;
    match unit_pos(us, unit_index) {
        None => {
            let mut m = chars_of("\u{5355}\u{5143} #");
            crate::text::append_chars(&mut m, &crate::text::decimal_chars(unit_index as u64));
            crate::text::append_chars(&mut m, &chars_of(" \u{4e0d}\u{5b58}\u{5728} (\u{5206}\u{6790}\u{91cc}\u{53ea}\u{6709} "));
            crate::text::append_chars(&mut m, &crate::text::decimal_chars(us.len() as u64));
            crate::text::append_chars(&mut m, &chars_of(" \u{4e2a}\u{5355}\u{5143})."));
            Err(string_of(&m))
        },
        Some(p) => {
            let prev = if unit_index > 1 {
                match unit_pos(us, unit_index - 1) {
                    Some(q) => us[q].planned_exit_state.clone(),
                    None => String::new(),
                }
            } else {
                String::new()
            };
            Ok((p, prev))
        },
    }
}

/// How a unit's generation ends.
pub enum UnitOutcome {
    Failed { copy_area: String, note_area: crate::dual_region::NoteArea, message: String },
    Done { copy_area: String, note_area: crate::dual_region::NoteArea },
}

pub open spec fn empty_note(n: crate::dual_region::NoteArea) -> bool {
    &&& n.traceback@.len() == 0
    &&& n.self_check_report.entries@.len() == 0
    &&& n.next_unit_hint is None
}

pub open spec fn short_copy_message(copy_len: int, text: Seq<char>) -> Seq<char> {
    let preview = if crate::text::utf8_len(text) > 500 { crate::text::byte_prefix(text, 500) } else { text };
    "LLM \u{4ea7}\u{51fa}\u{5f02}\u{5e38}: COPY \u{533a}\u{5b57}\u{6570} "@ + crate::text::decimal(copy_len as nat)
        + " < 200. \u{539f}\u{59cb}\u{524d} 500 \u{5b57}:\n"@ + preview
}

/// The unit's text can be read: its regions can be cut out.
pub open spec fn unit_text_readable(text: Seq<char>) -> bool {
    crate::text::trim(text).len() > 0 ==> crate::dual_region::dual_readable(text)
}

/// The outcome of a unit from the model's text: failed when the text is blank
/// or its COPY region is under 200 bytes, done otherwise, with the regions
/// read from the text.
pub fn unit_outcome(full_text: &str) -> (r: UnitOutcome)
    requires
        unit_text_readable(full_text@),
    ensures
        crate::text::trim(full_text@).len() == 0 ==> (r matches UnitOutcome::Failed { copy_area, note_area, message }
            && copy_area@.len() == 0 && empty_note(note_area) && message@ == "LLM \u{8fd4}\u{56de}\u{7a7a}, \u{8bf7}\u{91cd}\u{8bd5}"@),
        crate::text::trim(full_text@).len() > 0 ==> ({
            let copy = crate::dual_region::spec_copy_area(full_text@);
            match r {
                UnitOutcome::Failed { copy_area, note_area, message } => {
                    &&& crate::text::utf8_len(copy) < 200
                    &&& copy_area@ == copy
                    &&& crate::dual_region::dual_spec(crate::dual_region::DualRegion { copy_area, note_area }, full_text@)
                    &&& message@ == short_copy_message(crate::text::utf8_len(copy), full_text@)
                },
                UnitOutcome::Done { copy_area, note_area } => {
                    &&& crate::text::utf8_len(copy) >= 200
                    &&& crate::dual_region::dual_spec(crate::dual_region::DualRegion { copy_area, note_area }, full_text@)
                },
            }
        }),
{
    let c = chars_of(full_text);
    let t = crate::text::trim_chars(&c);
    if t.len() == 0 {
        let note = crate::dual_region::NoteArea {
            traceback: String::new(),
            self_check_report: crate::strmap::StrMap::new(),
            next_unit_hint: None,
        };
        return UnitOutcome::Failed { copy_area: String::new(), note_area: note, message: "LLM \u{8fd4}\u{56de}\u{7a7a}, \u{8bf7}\u{91cd}\u{8bd5}".to_string() };
    }
    let d = crate::dual_region::parse_dual_region(full_text);
    let copy_len = crate::text::utf8_len_of(&chars_of(d.copy_area.as_str()));
    if copy_len < 200 {
        let mut m = chars_of("LLM \u{4ea7}\u{51fa}\u{5f02}\u{5e38}: COPY \u{533a}\u{5b57}\u{6570} ");
        crate::text::append_chars(&mut m, &crate::text::decimal_chars_u128(copy_len));
        crate::text::append_chars(&mut m, &chars_of(" < 200. \u{539f}\u{59cb}\u{524d} 500 \u{5b57}:\n"));
        let total = crate::text::utf8_len_of(&c);
        if total > 500 {
            crate::text::append_chars(&mut m, &crate::text::byte_prefix_chars(&c, 500));
        } else {
            crate::text::append_chars(&mut m, &c);
        }
        let crate::dual_region::DualRegion { copy_area, note_area } = d;
        UnitOutcome::Failed { copy_area, note_area, message: string_of(&m) }
    } else {
        let crate::dual_region::DualRegion { copy_area, note_area } = d;
        UnitOutcome::Done { copy_area, note_area }
    }
}


// ---------------------------------------------------------------------------
// Whether a text can be read
// ---------------------------------------------------------------------------

fn scene_secs_fit_exec(s: &[char]) -> (r: bool)
    ensures
        r == scene_secs_fit(s@),
{
    let range = first_range_exec(s);
    let mut wide = false;
    match range {
        Some((a, b)) => {
            if a > usize::MAX as u128 || b > usize::MAX as u128 {
                return false;
            }
            wide = b > a;
        },
        None => {},
    }
    if wide {
        return true;
    }
    match first_min_sec_exec(s) {
        Some(v) => v <= usize::MAX as u128,
        None => match first_minutes_exec(s) {
            Some(v) => v <= usize::MAX as u128,
            None => true,
        },
    }
}

fn header_fits_exec(s: &[char]) -> (r: bool)
    ensures
        r == header_fits(s@),
{
    if bracket_num_exec(s).is_none() && heading_num_exec(s).is_none() && plain_num_exec(s).is_none() {
        return true;
    }
    scene_secs_fit_exec(s)
}

fn initial_headers_ok(c: &Vec<char>) -> (r: bool)
    ensures
        r == initial_headers_fit(c@),
{
    let ps = split_blank(c);
    let ghost pv = views(ps@);
    let mut i: usize = 0;
    while i < ps.len()
        invariant
            i <= ps@.len(),
            pv == views(ps@),
            pv == initial_paras(c@),
            forall|k: int| 0 <= k < i ==> header_fits(first_line(#[trigger] pv[k])),
        decreases ps@.len() - i,
    {
        assert(pv[i as int] == ps@[i as int]@);
        let fl = first_line_exec(&ps[i]);
        if !header_fits_exec(&fl) {
            assert(!header_fits(first_line(pv[i as int])));
            return false;
        }
        i += 1;
    }
    true
}

fn raw_headers_ok(rp: &Vec<Vec<char>>, Ghost(s): Ghost<Seq<char>>) -> (r: bool)
    requires
        views(rp@) == raw_paras(s),
    ensures
        r == ((forall|i: int| 0 <= i < raw_paras(s).len() ==> header_fits(first_line(#[trigger] raw_paras(s)[i])))
            && (forall|i: int| 0 <= i < raw_paras(s).len() ==> ((#[trigger] spec_scene_header(first_line(raw_paras(s)[i]))) matches Some(h)
                ==> h.1 <= 0x20_0000_0000_0000))),
{
    let ghost rv = views(rp@);
    let mut i: usize = 0;
    while i < rp.len()
        invariant
            i <= rp@.len(),
            rv == views(rp@),
            rv == raw_paras(s),
            forall|k: int| 0 <= k < i ==> header_fits(first_line(#[trigger] rv[k])),
            forall|k: int| 0 <= k < i ==> ((#[trigger] spec_scene_header(first_line(rv[k]))) matches Some(h) ==> h.1 <= 0x20_0000_0000_0000),
        decreases rp@.len() - i,
    {
        assert(rv[i as int] == rp@[i as int]@);
        let fl = first_line_exec(&rp[i]);
        if !header_fits_exec(&fl) {
            assert(!header_fits(first_line(rv[i as int])));
            return false;
        }
        match try_parse_scene_header(string_of(&fl).as_str()) {
            Some(h) => {
                if h.secs as u128 > 0x20_0000_0000_0000u128 {
                    assert(spec_scene_header(first_line(rv[i as int])) == Some((h.scene_num as int, h.secs as int)));
                    return false;
                }
            },
            None => {},
        }
        i += 1;
    }
    true
}

/// Whether a script can be split into paragraphs (`split_readable`).
pub fn split_text_readable(script_body: &str) -> (r: bool)
    ensures
        r == split_readable(script_body@),
{
    let c = chars_of(script_body);
    if !initial_headers_ok(&c) {
        return false;
    }
    let rp = raw_paras_exec(&c);
    let ghost rv = views(rp@);
    if !raw_headers_ok(&rp, Ghost(c@)) {
        return false;
    }
    assert(headers_fit(c@));
    let (sc, ids) = scenes_pass(&rp, Ghost(c@));
    let ghost scs = scenes_upto(rv, rv.len() as int).0;
    let ghost idv = scenes_upto(rv, rv.len() as int).1;
    let agg = aggregate(&rp, &ids, Ghost(idv));
    let ghost ga = aggregated(c@);
    assert(agg@.len() == ga.len());
    let es = entries_exec(&agg, Ghost(ga));
    let ghost ge = entries(c@);
    let (_scenes, total) = kept_pass(&sc, &es, Ghost(scs), Ghost(ge));
    proof {
        assert(kept_scenes(c@) == kept_scenes_upto(scs, ge, scs.len() as int));
    }
    total <= usize::MAX as u128
}

/// Whether the length of a project's duration text fits (`init_duration_fits`).
pub fn init_duration_text_fits(duration: &str) -> (r: bool)
    ensures
        r == init_duration_fits(duration@),
{
    let s = chars_of(duration);
    match first_init_min_sec(&s) {
        Some(v) => v <= usize::MAX as u128,
        None => match first_init_min(&s) {
            Some(v) => v <= usize::MAX as u128,
            None => true,
        },
    }
}

/// Whether the analysis phase can plan a script (the requirement of
/// `plan_phase_ad`).
pub fn phase_ad_readable(script_body: &str, duration: &str) -> (r: bool)
    ensures
        r == (split_readable(script_body@) && (kept_scenes(script_body@).len() == 0 ==> init_duration_fits(duration@)
            && split_readable(whole_film_script(script_body@, spec_init_duration(duration@))))),
{
    if !split_text_readable(script_body) {
        return false;
    }
    let (_p, sc, _tu) = split_script_into_paragraphs(script_body);
    if sc.len() > 0 {
        return true;
    }
    if !init_duration_text_fits(duration) {
        return false;
    }
    let secs = parse_init_duration_to_sec(duration);
    let mut w = chars_of("\u{3010}\u{573a}\u{666f}1\u{ff1a}\u{5168}\u{7247}\u{3011}\u{ff08}\u{7ea6}");
    crate::text::append_chars(&mut w, &crate::text::decimal_chars(secs as u64));
    crate::text::append_chars(&mut w, &chars_of("\u{79d2}\u{ff09}\n\n"));
    crate::text::append_chars(&mut w, &chars_of(script_body));
    let ws = string_of(&w);
    split_text_readable(ws.as_str())
}

/// Whether a unit's text can be read (`unit_text_readable`).
pub fn unit_text_ok(full_text: &str) -> (r: bool)
    ensures
        r == unit_text_readable(full_text@),
{
    let c = chars_of(full_text);
    let t = crate::text::trim_chars(&c);
    if t.len() == 0 {
        return true;
    }
    crate::dual_region::dual_text_readable(full_text)
}


// ---------------------------------------------------------------------------
// What a unit request carries
// ---------------------------------------------------------------------------

/// The members of an object without those named `k`.
pub open spec fn without_member(fs: Seq<(Seq<char>, JsonV)>, k: Seq<char>) -> Seq<(Seq<char>, JsonV)>
    decreases fs.len(),
{
    if fs.len() == 0 {
        fs
    } else {
        let r = without_member(fs.drop_last(), k);
        if fs.last().0 == k {
            r
        } else {
            r.push(fs.last())
        }
    }
}

/// An asset as the storyboard reads it: without its `id` and `aiPrompt`, and
/// with its reference `r` (a null asset becomes an object of that alone).
pub open spec fn tagged_asset(data: JsonV, r: Seq<char>) -> JsonV {
    match data {
        JsonV::Object(fs) => JsonV::Object(crate::prompt_generation::set_member(
            without_member(without_member(fs, "id"@), "aiPrompt"@),
            "ref"@,
            JsonV::Str(r),
        )),
        _ => JsonV::Object(seq![("ref"@, JsonV::Str(r))]),
    }
}

/// The stored assets of type `ty` whose data reads as JSON, each tagged with
/// `prefix` and its number among them.
pub open spec fn tagged_items(assets: Seq<(Seq<char>, Option<JsonV>)>, ty: Seq<char>, prefix: Seq<char>) -> Seq<JsonV>
    decreases assets.len(),
{
    if assets.len() == 0 {
        Seq::empty()
    } else {
        let rest = tagged_items(assets.drop_last(), ty, prefix);
        let last = assets.last();
        if last.0 == ty && last.1 is Some {
            rest.push(tagged_asset(last.1->0, prefix + crate::text::decimal((rest.len() + 1) as nat)))
        } else {
            rest
        }
    }
}

/// Every asset of a kind the storyboard lists can take its reference (one
/// that is neither an object nor null cannot, and setting one on it panics).
pub open spec fn assets_taggable(assets: Seq<(Seq<char>, Option<JsonV>)>) -> bool {
    forall|i: int| 0 <= i < assets.len() ==> (#[trigger] assets[i]).1 is Some && (assets[i].0 == "character"@
        || assets[i].0 == "scene"@ || assets[i].0 == "prop"@) ==> crate::prompt_generation::numberable(assets[i].1->0)
}

/// `load_assets_json`: an empty object without assets, else the characters,
/// props and scenes, tagged `@C`, `@P` and `@S` in order.
pub open spec fn storyboard_assets_view(assets: Seq<(Seq<char>, Option<JsonV>)>) -> JsonV {
    if assets.len() == 0 {
        JsonV::Object(Seq::empty())
    } else {
        JsonV::Object(
            seq![
                ("characters"@, JsonV::Array(tagged_items(assets, "character"@, "@C"@))),
                ("props"@, JsonV::Array(tagged_items(assets, "prop"@, "@P"@))),
                ("scenes"@, JsonV::Array(tagged_items(assets, "scene"@, "@S"@))),
            ],
        )
    }
}

proof fn lemma_fields_push(v: Seq<(String, Json)>, x: (String, Json))
    ensures
        crate::prompt_generation::fields_view(v.push(x)) == crate::prompt_generation::fields_view(v).push((x.0@, x.1@)),
{
    assert(crate::prompt_generation::fields_view(v.push(x)) =~= crate::prompt_generation::fields_view(v).push((x.0@, x.1@)));
}

fn without_member_exec(fs: Vec<(String, Json)>, k: &str) -> (r: Vec<(String, Json)>)
    ensures
        crate::prompt_generation::fields_view(r@) == without_member(crate::prompt_generation::fields_view(fs@), k@),
{
    let ghost fv = crate::prompt_generation::fields_view(fs@);
    let mut out: Vec<(String, Json)> = Vec::new();
    let mut i: usize = 0;
    while i < fs.len()
        invariant
            i <= fs@.len(),
            fv == crate::prompt_generation::fields_view(fs@),
            crate::prompt_generation::fields_view(out@) == without_member(fv.take(i as int), k@),
        decreases fs@.len() - i,
    {
        assert(fv.take(i + 1).drop_last() =~= fv.take(i as int));
        assert(fv.take(i + 1).last() == fv[i as int]);
        if !crate::text::str_eq(fs[i].0.as_str(), k) {
            let name = fs[i].0.clone();
            let value = fs[i].1.clone();
            assert(fv[i as int] == (name@, value@));
            proof {
                lemma_fields_push(out@, (name, value));
            }
            out.push((name, value));
        }
        i += 1;
    }
    assert(fv.take(i as int) =~= fv);
    out
}

fn tagged_asset_exec(data: &Json, r: String) -> (t: Json)
    requires
        crate::prompt_generation::numberable(data@),
    ensures
        t@ == tagged_asset(data@, r@),
{
    let ghost rv = r@;
    match data.clone() {
        Json::Object(fs) => {
            proof {
                crate::prompt_generation::lemma_fields_view(fs);
            }
            let a = without_member_exec(fs, "id");
            let b = without_member_exec(a, "aiPrompt");
            let c = crate::prompt_generation::set_member_exec(b, "ref", Json::Str(r));
            proof {
                crate::prompt_generation::lemma_fields_view(c);
            }
            Json::Object(c)
        },
        _ => {
            let f: Vec<(String, Json)> = vec![("ref".to_string(), Json::Str(r))];
            proof {
                crate::prompt_generation::lemma_fields_view(f);
            }
            assert(crate::prompt_generation::fields_view(f@) =~= seq![("ref"@, JsonV::Str(rv))]);
            Json::Object(f)
        },
    }
}

fn push_tagged(out: &mut Vec<Json>, ty: &str, want: &str, prefix: &str, data: &Option<Json>)
    requires
        ty@ == want@ && data is Some ==> crate::prompt_generation::numberable(data->0@),
        old(out)@.len() < usize::MAX,
    ensures
        final(out)@.len() <= old(out)@.len() + 1,
        crate::prompt_generation::views(final(out)@) == if ty@ == want@ && data is Some {
            crate::prompt_generation::views(old(out)@).push(tagged_asset(data->0@, prefix@ + crate::text::decimal((old(out)@.len() + 1) as nat)))
        } else {
            crate::prompt_generation::views(old(out)@)
        },
{
    if crate::text::str_eq(ty, want) {
        match data {
            Some(d) => {
                let ghost before = crate::prompt_generation::views(out@);
                let mut name = chars_of(prefix);
                crate::text::append_chars(&mut name, &crate::text::decimal_chars((out.len() + 1) as u64));
                let t = tagged_asset_exec(d, string_of(&name));
                out.push(t);
                assert(crate::prompt_generation::views(out@) =~= before.push(
                    tagged_asset(d@, prefix@ + crate::text::decimal((before.len() + 1) as nat)),
                ));
            },
            None => {},
        }
    }
}

/// `load_assets_json` on the stored assets: each asset's type and its data
/// read as JSON (`None` where it is no JSON).
pub fn storyboard_assets(assets: &Vec<(String, Option<Json>)>) -> (r: Json)
    requires
        assets_taggable(crate::prompt_generation::stored_assets_view(assets@)),
    ensures
        r@ == storyboard_assets_view(crate::prompt_generation::stored_assets_view(assets@)),
{
    let ghost av = crate::prompt_generation::stored_assets_view(assets@);
    if assets.len() == 0 {
        let empty: Vec<(String, Json)> = Vec::new();
        proof {
            crate::json::lemma_object_view(empty);
        }
        let r = Json::Object(empty);
        assert(r@->Object_0 =~= Seq::<(Seq<char>, JsonV)>::empty());
        return r;
    }
    let mut chars: Vec<Json> = Vec::new();
    let mut scenes: Vec<Json> = Vec::new();
    let mut props: Vec<Json> = Vec::new();
    let mut i: usize = 0;
    while i < assets.len()
        invariant
            i <= assets@.len(),
            av == crate::prompt_generation::stored_assets_view(assets@),
            assets_taggable(av),
            chars@.len() <= i,
            scenes@.len() <= i,
            props@.len() <= i,
            crate::prompt_generation::views(chars@) == tagged_items(av.take(i as int), "character"@, "@C"@),
            crate::prompt_generation::views(scenes@) == tagged_items(av.take(i as int), "scene"@, "@S"@),
            crate::prompt_generation::views(props@) == tagged_items(av.take(i as int), "prop"@, "@P"@),
        decreases assets@.len() - i,
    {
        assert(av.take(i + 1).drop_last() =~= av.take(i as int));
        assert(av.take(i + 1).last() == av[i as int]);
        assert(av[i as int] == (assets@[i as int].0@, crate::prompt_generation::owned_view(assets@[i as int].1)));
        push_tagged(&mut chars, assets[i].0.as_str(), "character", "@C", &assets[i].1);
        push_tagged(&mut scenes, assets[i].0.as_str(), "scene", "@S", &assets[i].1);
        push_tagged(&mut props, assets[i].0.as_str(), "prop", "@P", &assets[i].1);
        i += 1;
    }
    assert(av.take(i as int) =~= av);
    proof {
        crate::json::lemma_array_view(chars);
        crate::json::lemma_array_view(props);
        crate::json::lemma_array_view(scenes);
    }
    let ca = Json::Array(chars);
    let pa = Json::Array(props);
    let sa = Json::Array(scenes);
    assert(ca@->Array_0 =~= tagged_items(av, "character"@, "@C"@));
    assert(pa@->Array_0 =~= tagged_items(av, "prop"@, "@P"@));
    assert(sa@->Array_0 =~= tagged_items(av, "scene"@, "@S"@));
    let fields: Vec<(String, Json)> = vec![
        ("characters".to_string(), ca),
        ("props".to_string(), pa),
        ("scenes".to_string(), sa),
    ];
    proof {
        crate::json::lemma_object_view(fields);
    }
    let r = Json::Object(fields);
    assert(r@->Object_0 =~= storyboard_assets_view(av)->Object_0);
    r
}

/// Whether the stored assets can be tagged (`assets_taggable`).
pub fn assets_tag_ok(assets: &Vec<(String, Option<Json>)>) -> (r: bool)
    ensures
        r == assets_taggable(crate::prompt_generation::stored_assets_view(assets@)),
{
    let ghost av = crate::prompt_generation::stored_assets_view(assets@);
    let mut i: usize = 0;
    while i < assets.len()
        invariant
            i <= assets@.len(),
            av == crate::prompt_generation::stored_assets_view(assets@),
            forall|j: int| 0 <= j < i ==> (#[trigger] av[j]).1 is Some && (av[j].0 == "character"@ || av[j].0 == "scene"@
                || av[j].0 == "prop"@) ==> crate::prompt_generation::numberable(av[j].1->0),
        decreases assets@.len() - i,
    {
        assert(av[i as int] == (assets@[i as int].0@, crate::prompt_generation::owned_view(assets@[i as int].1)));
        let ty = assets[i].0.as_str();
        let kind = crate::text::str_eq(ty, "character") || crate::text::str_eq(ty, "scene") || crate::text::str_eq(ty, "prop");
        match &assets[i].1 {
            Some(d) => {
                if kind {
                    let ok = match d {
                        Json::Object(_) => true,
                        Json::Null => true,
                        _ => false,
                    };
                    if !ok {
                        assert(!crate::prompt_generation::numberable(av[i as int].1->0));
                        return false;
                    }
                }
            },
            None => {},
        }
        i += 1;
    }
    true
}

/// The paragraphs a unit refers to, by position (those whose id it lists).
pub open spec fn relevant_upto(ps: Seq<ParagraphIndexItem>, refs: Seq<Seq<char>>, n: int) -> Seq<int>
    decreases n,
{
    if n <= 0 {
        Seq::empty()
    } else if refs.contains(ps[n - 1].id@) {
        relevant_upto(ps, refs, n - 1).push(n - 1)
    } else {
        relevant_upto(ps, refs, n - 1)
    }
}

/// The positions of the paragraphs a unit refers to, in order.
pub fn relevant_paragraphs(paragraphs: &Vec<ParagraphIndexItem>, unit: &crate::v5_parser::V5UnitPlan) -> (r: Vec<usize>)
    ensures
        r@.map_values(|i: usize| i as int) == relevant_upto(paragraphs@, strings_view(unit.section_refs@), paragraphs@.len() as int),
{
    let ghost rv = strings_view(unit.section_refs@);
    let mut out: Vec<usize> = Vec::new();
    let mut i: usize = 0;
    while i < paragraphs.len()
        invariant
            i <= paragraphs@.len(),
            rv == strings_view(unit.section_refs@),
            out@.map_values(|j: usize| j as int) == relevant_upto(paragraphs@, rv, i as int),
        decreases paragraphs@.len() - i,
    {
        let mut found = false;
        let mut k: usize = 0;
        while k < unit.section_refs.len()
            invariant
                k <= unit.section_refs@.len(),
                rv == strings_view(unit.section_refs@),
                i < paragraphs@.len(),
                found <==> exists|j: int| 0 <= j < k && #[trigger] rv[j] == paragraphs@[i as int].id@,
            decreases unit.section_refs@.len() - k,
        {
            if crate::text::str_eq(unit.section_refs[k].as_str(), paragraphs[i].id.as_str()) {
                assert(rv[k as int] == paragraphs@[i as int].id@);
                found = true;
            }
            k += 1;
        }
        proof {
            if found {
                let j = choose|j: int| 0 <= j < k && #[trigger] rv[j] == paragraphs@[i as int].id@;
                assert(rv.contains(paragraphs@[i as int].id@));
            } else {
                assert(!rv.contains(paragraphs@[i as int].id@));
            }
        }
        if found {
            let ghost before = out@;
            out.push(i);
            assert(out@.map_values(|j: usize| j as int) =~= before.map_values(|j: usize| j as int).push(i as int));
        }
        i += 1;
    }
    out
}

} // verus!
