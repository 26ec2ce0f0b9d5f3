//! Character-level text primitives shared by every parser of the library.
//! Text is handled as sequences of Unicode scalar values (`char`).
use vstd::prelude::*;

verus! {

/// Unicode `White_Space`, the set that `char::is_whitespace` and `str::trim` use.
pub open spec fn is_ws(c: char) -> bool {
    ||| ('\u{9}' <= c && c <= '\u{d}')
    ||| c == ' '
    ||| c == '\u{85}'
    ||| c == '\u{a0}'
    ||| c == '\u{1680}'
    ||| ('\u{2000}' <= c && c <= '\u{200a}')
    ||| c == '\u{2028}'
    ||| c == '\u{2029}'
    ||| c == '\u{202f}'
    ||| c == '\u{205f}'
    ||| c == '\u{3000}'
}

pub fn is_whitespace(c: char) -> (r: bool)
    ensures
        r == is_ws(c),
{
    ('\u{9}' <= c && c <= '\u{d}') || c == ' ' || c == '\u{85}' || c == '\u{a0}' || c
        == '\u{1680}' || ('\u{2000}' <= c && c <= '\u{200a}') || c == '\u{2028}' || c
        == '\u{2029}' || c == '\u{202f}' || c == '\u{205f}' || c == '\u{3000}'
}

/// First index at or after `i` that does not hold white space.
pub open spec fn lead_from(s: Seq<char>, i: int) -> int
    decreases s.len() - i,
{
    if 0 <= i < s.len() && is_ws(s[i]) {
        lead_from(s, i + 1)
    } else {
        i
    }
}

/// Index just after the last non-white-space char at or before `j`.
pub open spec fn trail_from(s: Seq<char>, j: int) -> int
    decreases j,
{
    if 0 < j <= s.len() && is_ws(s[j - 1]) {
        trail_from(s, j - 1)
    } else {
        j
    }
}

pub open spec fn trim_start(s: Seq<char>) -> Seq<char> {
    s.subrange(lead_from(s, 0), s.len() as int)
}

pub open spec fn trim_end(s: Seq<char>) -> Seq<char> {
    s.subrange(0, trail_from(s, s.len() as int))
}

/// `str::trim`: white space removed at both ends.
pub open spec fn trim(s: Seq<char>) -> Seq<char> {
    trim_end(trim_start(s))
}

pub proof fn lemma_lead_from_bounds(s: Seq<char>, i: int)
    requires
        0 <= i <= s.len(),
    ensures
        i <= lead_from(s, i) <= s.len(),
        forall|k: int| i <= k < lead_from(s, i) ==> is_ws(s[k]),
        lead_from(s, i) < s.len() ==> !is_ws(s[lead_from(s, i)]),
    decreases s.len() - i,
{
    if i < s.len() && is_ws(s[i]) {
        lemma_lead_from_bounds(s, i + 1);
    }
}

/// A text that starts and ends with no white space is its own trim.
pub proof fn lemma_trim_unchanged(t: Seq<char>)
    requires
        t.len() > 0,
        !is_ws(t[0]),
        !is_ws(t[t.len() - 1]),
    ensures
        trim(t) == t,
{
    assert(lead_from(t, 0) == 0);
    assert(trim_start(t) =~= t);
    assert(trail_from(t, t.len() as int) == t.len());
    assert(trim_end(t) =~= t);
}

/// Each char of a trimmed text is a char of the text, in order from its first
/// non-white-space char.
pub proof fn lemma_trim_index(p: Seq<char>)
    ensures
        forall|j: int| 0 <= j < trim(p).len() ==> 0 <= lead_from(p, 0) + j < p.len() && #[trigger] trim(p)[j]
            == p[lead_from(p, 0) + j],
{
    lemma_lead_from_bounds(p, 0);
    let t = trim_start(p);
    lemma_trail_from_bounds(t, t.len() as int);
}

pub proof fn lemma_trail_from_bounds(s: Seq<char>, j: int)
    requires
        0 <= j <= s.len(),
    ensures
        0 <= trail_from(s, j) <= j,
        forall|k: int| trail_from(s, j) <= k < j ==> is_ws(s[k]),
        trail_from(s, j) > 0 ==> !is_ws(s[trail_from(s, j) - 1]),
    decreases j,
{
    if 0 < j && is_ws(s[j - 1]) {
        lemma_trail_from_bounds(s, j - 1);
    }
}

/// Copy of `s[a..b]`.
pub fn copy_range(s: &[char], a: usize, b: usize) -> (r: Vec<char>)
    requires
        a <= b <= s@.len(),
    ensures
        r@ == s@.subrange(a as int, b as int),
{
    let mut r: Vec<char> = Vec::new();
    let mut k = a;
    while k < b
        invariant
            a <= k <= b <= s@.len(),
            r@ == s@.subrange(a as int, k as int),
        decreases b - k,
    {
        r.push(s[k]);
        assert(s@.subrange(a as int, k + 1) =~= s@.subrange(a as int, k as int).push(s@[k as int]));
        k += 1;
    }
    r
}

pub fn lead_index(s: &[char], i: usize) -> (r: usize)
    requires
        i <= s@.len(),
    ensures
        r == lead_from(s@, i as int),
{
    let mut k = i;
    while k < s.len() && is_whitespace(s[k])
        invariant
            i <= k <= s@.len(),
            lead_from(s@, k as int) == lead_from(s@, i as int),
        decreases s@.len() - k,
    {
        k += 1;
    }
    k
}

pub fn trail_index(s: &[char], j: usize) -> (r: usize)
    requires
        j <= s@.len(),
    ensures
        r == trail_from(s@, j as int),
{
    let mut k = j;
    while k > 0 && is_whitespace(s[k - 1])
        invariant
            k <= j <= s@.len(),
            trail_from(s@, k as int) == trail_from(s@, j as int),
        decreases k,
    {
        k -= 1;
    }
    k
}

pub fn trim_chars(s: &[char]) -> (r: Vec<char>)
    ensures
        r@ == trim(s@),
{
    let a = lead_index(s, 0);
    proof {
        lemma_lead_from_bounds(s@, 0);
    }
    let t = copy_range(s, a, s.len());
    let b = trail_index(&t, t.len());
    proof {
        lemma_trail_from_bounds(t@, t@.len() as int);
    }
    copy_range(&t, 0, b)
}

/// The chars of a string slice.
pub fn chars_of(s: &str) -> (r: Vec<char>)
    ensures
        r@ == s@,
{
    let mut r: Vec<char> = Vec::new();
    for c in it: s.chars()
        invariant
            r@ == it.seq().take(it.index() as int),
            it.seq() == s@,
    {
        r.push(c);
    }
    r
}

} // verus!

verus! {

/// A `String` holding exactly the given chars.
#[verifier::external_body]
pub(crate) fn string_of(v: &[char]) -> (r: String)
    ensures
        r@ == v@,
{
    v.iter().collect()
}

pub open spec fn is_digit(c: char) -> bool {
    '0' <= c && c <= '9'
}

/// `\s` of the pattern language the project writes its grammars in: ASCII space.
pub open spec fn is_ascii_space(c: char) -> bool {
    c == '\t' || c == '\n' || c == '\u{b}' || c == '\u{c}' || c == '\r' || c == ' '
}

pub fn is_ascii_digit(c: char) -> (r: bool)
    ensures
        r == is_digit(c),
{
    '0' <= c && c <= '9'
}

pub fn is_ascii_space_char(c: char) -> (r: bool)
    ensures
        r == is_ascii_space(c),
{
    c == '\t' || c == '\n' || c == '\u{b}' || c == '\u{c}' || c == '\r' || c == ' '
}

/// End of the run of ASCII digits that starts at `i`.
pub open spec fn digits_end(s: Seq<char>, i: int) -> int
    decreases s.len() - i,
{
    if 0 <= i < s.len() && is_digit(s[i]) {
        digits_end(s, i + 1)
    } else {
        i
    }
}

/// End of the run of ASCII space that starts at `i`.
pub open spec fn spaces_end(s: Seq<char>, i: int) -> int
    decreases s.len() - i,
{
    if 0 <= i < s.len() && is_ascii_space(s[i]) {
        spaces_end(s, i + 1)
    } else {
        i
    }
}

pub proof fn lemma_digits_end(s: Seq<char>, i: int)
    requires
        0 <= i <= s.len(),
    ensures
        i <= digits_end(s, i) <= s.len(),
        forall|k: int| i <= k < digits_end(s, i) ==> is_digit(#[trigger] s[k]),
        digits_end(s, i) < s.len() ==> !is_digit(s[digits_end(s, i)]),
    decreases s.len() - i,
{
    if i < s.len() && is_digit(s[i]) {
        lemma_digits_end(s, i + 1);
    }
}

pub proof fn lemma_spaces_end(s: Seq<char>, i: int)
    requires
        0 <= i <= s.len(),
    ensures
        i <= spaces_end(s, i) <= s.len(),
        spaces_end(s, i) < s.len() ==> !is_ascii_space(s[spaces_end(s, i)]),
    decreases s.len() - i,
{
    if i < s.len() && is_ascii_space(s[i]) {
        lemma_spaces_end(s, i + 1);
    }
}

pub fn digits_end_index(s: &[char], i: usize) -> (r: usize)
    requires
        i <= s@.len(),
    ensures
        r == digits_end(s@, i as int),
        i <= r <= s@.len(),
{
    proof {
        lemma_digits_end(s@, i as int);
    }
    let mut k = i;
    while k < s.len() && is_ascii_digit(s[k])
        invariant
            i <= k <= s@.len(),
            digits_end(s@, k as int) == digits_end(s@, i as int),
        decreases s@.len() - k,
    {
        k += 1;
    }
    k
}

pub fn spaces_end_index(s: &[char], i: usize) -> (r: usize)
    requires
        i <= s@.len(),
    ensures
        r == spaces_end(s@, i as int),
        i <= r <= s@.len(),
{
    proof {
        lemma_spaces_end(s@, i as int);
    }
    let mut k = i;
    while k < s.len() && is_ascii_space_char(s[k])
        invariant
            i <= k <= s@.len(),
            spaces_end(s@, k as int) == spaces_end(s@, i as int),
        decreases s@.len() - k,
    {
        k += 1;
    }
    k
}

/// Decimal value of the digits `s[a..b]`.
pub open spec fn digits_value(s: Seq<char>, a: int, b: int) -> int
    decreases b - a,
{
    if b <= a {
        0
    } else {
        digits_value(s, a, b - 1) * 10 + (s[b - 1] as int - '0' as int)
    }
}

/// Value of the digits `s[a..b]` when it is at most `cap`.
pub fn digits_value_capped(s: &[char], a: usize, b: usize, cap: u64) -> (r: Option<u64>)
    requires
        a <= b <= s@.len(),
        forall|k: int| a <= k < b ==> is_digit(#[trigger] s@[k]),
    ensures
        digits_value(s@, a as int, b as int) >= 0,
        r == (if digits_value(s@, a as int, b as int) <= cap {
            Some(digits_value(s@, a as int, b as int) as u64)
        } else {
            None::<u64>
        }),
{
    let mut v: u64 = 0;
    let mut over = false;
    let mut k = a;
    while k < b
        invariant
            a <= k <= b <= s@.len(),
            forall|j: int| a <= j < b ==> is_digit(#[trigger] s@[j]),
            digits_value(s@, a as int, k as int) >= 0,
            over <==> digits_value(s@, a as int, k as int) > cap,
            !over ==> v == digits_value(s@, a as int, k as int),
        decreases b - k,
    {
        let c = s[k];
        assert(is_digit(s@[k as int]));
        let d = (c as u32 - '0' as u32) as u64;
        assert(d == s@[k as int] as int - '0' as int);
        assert(0 <= d <= 9);
        if !over {
            if d > cap || v > (cap - d) / 10 {
                over = true;
                assert(v * 10 + d > cap) by (nonlinear_arith)
                    requires d > cap || v > (cap - d) / 10, v >= 0, d >= 0;
            } else {
                assert(v * 10 + d <= cap) by (nonlinear_arith)
                    requires d <= cap, v <= (cap - d) / 10;
                v = v * 10 + d;
            }
        } else {
            let ghost dv = digits_value(s@, a as int, k as int);
            assert(dv * 10 + d > cap) by (nonlinear_arith)
                requires dv > cap, d >= 0;
        }
        k += 1;
    }
    if over {
        None
    } else {
        Some(v)
    }
}

} // verus!

verus! {

pub fn chars_eq(a: &[char], b: &[char]) -> (r: bool)
    ensures
        r == (a@ == b@),
{
    if a.len() != b.len() {
        return false;
    }
    let mut i: usize = 0;
    while i < a.len()
        invariant
            a@.len() == b@.len(),
            i <= a@.len(),
            forall|k: int| 0 <= k < i ==> a@[k] == b@[k],
        decreases a@.len() - i,
    {
        if a[i] != b[i] {
            return false;
        }
        i += 1;
    }
    assert(a@ =~= b@);
    true
}

/// `a == b` on string slices.
pub fn str_eq(a: &str, b: &str) -> (r: bool)
    ensures
        r == (a@ == b@),
{
    let x = chars_of(a);
    let y = chars_of(b);
    chars_eq(&x, &y)
}

pub open spec fn digit_char(d: int) -> char {
    (d + '0' as int) as char
}

/// Decimal text of a `u8` (what `to_string` gives).
pub open spec fn u8_decimal(n: u8) -> Seq<char> {
    if n >= 100 {
        seq![digit_char(n as int / 100), digit_char((n as int / 10) % 10), digit_char(n as int % 10)]
    } else if n >= 10 {
        seq![digit_char(n as int / 10), digit_char(n as int % 10)]
    } else {
        seq![digit_char(n as int)]
    }
}

fn digit(d: u8) -> (c: char)
    requires
        d < 10,
    ensures
        c == digit_char(d as int),
{
    (d + 48) as char
}

pub fn u8_to_string(n: u8) -> (r: String)
    ensures
        r@ == u8_decimal(n),
{
    let mut v: Vec<char> = Vec::new();
    if n >= 100 {
        v.push(digit(n / 100));
        v.push(digit((n / 10) % 10));
        v.push(digit(n % 10));
    } else if n >= 10 {
        v.push(digit(n / 10));
        v.push(digit(n % 10));
    } else {
        v.push(digit(n));
    }
    assert(v@ =~= u8_decimal(n));
    string_of(&v)
}

pub open spec fn hex_char(d: int) -> char {
    if d < 10 {
        (d + '0' as int) as char
    } else {
        (d - 10 + 'a' as int) as char
    }
}

/// Lower-case hexadecimal of `v`, zero-padded to at least `w` digits
/// (what `{:0w$x}` writes).
pub open spec fn hex_padded(v: nat, w: nat) -> Seq<char>
    decreases v + w,
{
    if v == 0 && w == 0 {
        Seq::empty()
    } else {
        hex_padded(v / 16, if w > 0 {
            (w - 1) as nat
        } else {
            0
        }) + seq![hex_char((v % 16) as int)]
    }
}

pub fn hex_padded_string(v: u64, w: u64) -> (r: Vec<char>)
    ensures
        r@ == hex_padded(v as nat, w as nat),
    decreases v + w,
{
    if v == 0 && w == 0 {
        Vec::new()
    } else {
        let mut r = hex_padded_string(v / 16, if w > 0 {
            w - 1
        } else {
            0
        });
        let d = v % 16;
        let c = if d < 10 {
            ((d as u8) + 48) as char
        } else {
            ((d as u8) - 10 + 97) as char
        };
        r.push(c);
        r
    }
}

} // verus!

verus! {

/// Index of the first `'\n'` at or after `i`, or the length.
pub open spec fn nl_from(s: Seq<char>, i: int) -> int
    decreases s.len() - i,
{
    if i < 0 || i >= s.len() {
        s.len() as int
    } else if s[i] == '\n' {
        i
    } else {
        nl_from(s, i + 1)
    }
}

pub proof fn lemma_nl_from(s: Seq<char>, i: int)
    requires
        0 <= i <= s.len(),
    ensures
        i <= nl_from(s, i) <= s.len(),
        nl_from(s, i) < s.len() ==> s[nl_from(s, i)] == '\n',
        forall|k: int| i <= k < nl_from(s, i) ==> s[k] != '\n',
    decreases s.len() - i,
{
    if i < s.len() && s[i] != '\n' {
        lemma_nl_from(s, i + 1);
    }
}

/// The line that starts at `i` and ends at `e`: a `'\r'` before a `'\n'` is dropped.
pub open spec fn line_at(s: Seq<char>, i: int, e: int) -> Seq<char> {
    let raw = s.subrange(i, e);
    if e < s.len() && raw.len() > 0 && raw.last() == '\r' {
        raw.drop_last()
    } else {
        raw
    }
}

/// The lines of `s` from index `i` on, as `str::lines` gives them.
pub open spec fn lines_from(s: Seq<char>, i: int) -> Seq<Seq<char>>
    decreases s.len() + 1 - i,
{
    if i < 0 || i >= s.len() {
        Seq::empty()
    } else {
        let e = nl_from(s, i);
        if e < i || e > s.len() {
            Seq::empty()
        } else {
            seq![line_at(s, i, e)] + lines_from(s, e + 1)
        }
    }
}

/// `str::lines`: the text split at `'\n'` (a `'\r'` before it dropped), with no
/// line after a final `'\n'`.
pub open spec fn spec_lines(s: Seq<char>) -> Seq<Seq<char>> {
    lines_from(s, 0)
}

pub fn lines(s: &[char]) -> (r: Vec<Vec<char>>)
    ensures
        r@.map_values(|l: Vec<char>| l@) == spec_lines(s@),
{
    let mut out: Vec<Vec<char>> = Vec::new();
    let mut i: usize = 0;
    while i < s.len()
        invariant
            i <= s@.len(),
            out@.map_values(|l: Vec<char>| l@) + lines_from(s@, i as int) == spec_lines(s@),
        decreases s@.len() - i,
    {
        proof {
            lemma_nl_from(s@, i as int);
        }
        let mut e = i;
        while e < s.len() && s[e] != '\n'
            invariant
                i <= e <= s@.len(),
                nl_from(s@, e as int) == nl_from(s@, i as int),
            decreases s@.len() - e,
        {
            e += 1;
        }
        let end = if e < s.len() && e > i && s[e - 1] == '\r' {
            e - 1
        } else {
            e
        };
        let line = copy_range(s, i, end);
        assert(line@ =~= line_at(s@, i as int, e as int));
        let ghost before = out@.map_values(|l: Vec<char>| l@);
        out.push(line);
        assert(out@.map_values(|l: Vec<char>| l@) =~= before.push(line@));
        assert(lines_from(s@, i as int) == seq![line@] + lines_from(s@, e + 1));
        assert(before + lines_from(s@, i as int) =~= before.push(line@) + lines_from(s@, e + 1));
        if e >= s.len() {
            assert(lines_from(s@, e + 1) =~= Seq::<Seq<char>>::empty());
            assert(out@.map_values(|l: Vec<char>| l@) + lines_from(s@, s@.len() as int) =~= out@.map_values(
                |l: Vec<char>| l@,
            ) + lines_from(s@, e + 1));
            i = s.len();
        } else {
            i = e + 1;
        }
    }
    assert(lines_from(s@, i as int) =~= Seq::<Seq<char>>::empty());
    assert(out@.map_values(|l: Vec<char>| l@) + lines_from(s@, i as int) =~= out@.map_values(
        |l: Vec<char>| l@,
    ));
    out
}

/// The lines joined with `'\n'` between them.
pub open spec fn join_nl(ls: Seq<Seq<char>>) -> Seq<char>
    decreases ls.len(),
{
    if ls.len() == 0 {
        Seq::empty()
    } else if ls.len() == 1 {
        ls[0]
    } else {
        join_nl(ls.drop_last()) + seq!['\n'] + ls.last()
    }
}

pub fn append_chars(out: &mut Vec<char>, x: &[char])
    ensures
        final(out)@ == old(out)@ + x@,
{
    let ghost o = out@;
    let mut i: usize = 0;
    while i < x.len()
        invariant
            i <= x@.len(),
            out@ == o + x@.take(i as int),
        decreases x@.len() - i,
    {
        out.push(x[i]);
        assert(x@.take(i + 1) =~= x@.take(i as int).push(x@[i as int]));
        assert(o + x@.take(i + 1) =~= (o + x@.take(i as int)).push(x@[i as int]));
        i += 1;
    }
    assert(x@.take(i as int) =~= x@);
}

/// The lines `ls[a..b]` joined with `'\n'`.
pub fn join_lines(ls: &Vec<Vec<char>>, a: usize, b: usize) -> (r: Vec<char>)
    requires
        a <= b <= ls@.len(),
    ensures
        r@ == join_nl(ls@.subrange(a as int, b as int).map_values(|l: Vec<char>| l@)),
{
    let mut out: Vec<char> = Vec::new();
    let mut k = a;
    while k < b
        invariant
            a <= k <= b <= ls@.len(),
            out@ == join_nl(ls@.subrange(a as int, k as int).map_values(|l: Vec<char>| l@)),
        decreases b - k,
    {
        let ghost prev = ls@.subrange(a as int, k as int).map_values(|l: Vec<char>| l@);
        let ghost next = ls@.subrange(a as int, k + 1).map_values(|l: Vec<char>| l@);
        assert(next.drop_last() =~= prev);
        assert(next.last() == ls@[k as int]@);
        if k > a {
            out.push('\n');
        } else {
            assert(next.len() == 1);
        }
        append_chars(&mut out, &ls[k]);
        k += 1;
    }
    out
}

} // verus!

verus! {

/// What `str::to_uppercase` gives for a string (Unicode case mapping).
pub uninterp spec fn str_upper(s: Seq<char>) -> Seq<char>;

/// What `str::to_lowercase` gives for a string (Unicode case mapping).
pub uninterp spec fn str_lower(s: Seq<char>) -> Seq<char>;

/// `str::to_uppercase`: the Unicode upper case of the text.
#[verifier::external_body]
pub(crate) fn to_uppercase(s: &str) -> (r: String)
    ensures
        r@ == str_upper(s@),
{
    s.to_uppercase()
}

/// `str::to_lowercase`: the Unicode lower case of the text.
#[verifier::external_body]
pub(crate) fn to_lowercase(s: &str) -> (r: String)
    ensures
        r@ == str_lower(s@),
{
    s.to_lowercase()
}

/// What `str::parse::<u32>` accepts: an optional `+`, then one or more ASCII
/// digits whose value fits `u32`.
pub open spec fn spec_parse_u32(s: Seq<char>) -> Option<int> {
    let a: int = if s.len() > 0 && s[0] == '+' { 1 } else { 0 };
    if a < s.len() && digits_end(s, a) == s.len() && digits_value(s, a, s.len() as int) <= 0xffff_ffff {
        Some(digits_value(s, a, s.len() as int))
    } else {
        None
    }
}

/// What `str::parse::<usize>` accepts: an optional `+`, then one or more ASCII
/// digits whose value fits `usize`.
pub open spec fn spec_parse_usize(s: Seq<char>) -> Option<int> {
    let a: int = if s.len() > 0 && s[0] == '+' { 1 } else { 0 };
    if a < s.len() && digits_end(s, a) == s.len() && digits_value(s, a, s.len() as int) <= usize::MAX {
        Some(digits_value(s, a, s.len() as int))
    } else {
        None
    }
}

pub fn parse_u32(s: &[char]) -> (r: Option<u32>)
    ensures
        match r {
            Some(v) => spec_parse_u32(s@) == Some(v as int),
            None => spec_parse_u32(s@) is None,
        },
{
    let a: usize = if s.len() > 0 && s[0] == '+' { 1 } else { 0 };
    if a >= s.len() {
        return None;
    }
    let e = digits_end_index(s, a);
    if e != s.len() {
        return None;
    }
    proof {
        lemma_digits_end(s@, a as int);
    }
    match digits_value_capped(s, a, e, 0xffff_ffff) {
        Some(v) => Some(v as u32),
        None => None,
    }
}

pub fn parse_usize(s: &[char]) -> (r: Option<usize>)
    ensures
        match r {
            Some(v) => spec_parse_usize(s@) == Some(v as int),
            None => spec_parse_usize(s@) is None,
        },
{
    let a: usize = if s.len() > 0 && s[0] == '+' { 1 } else { 0 };
    if a >= s.len() {
        return None;
    }
    let e = digits_end_index(s, a);
    if e != s.len() {
        return None;
    }
    proof {
        lemma_digits_end(s@, a as int);
    }
    match digits_value_capped(s, a, e, usize::MAX as u64) {
        Some(v) => Some(v as usize),
        None => None,
    }
}

} // verus!


verus! {

/// Decimal text of a natural number.
pub open spec fn decimal(n: nat) -> Seq<char>
    decreases n,
{
    if n < 10 {
        seq![digit_char(n as int)]
    } else {
        decimal(n / 10) + seq![digit_char((n % 10) as int)]
    }
}

pub fn decimal_chars(n: u64) -> (r: Vec<char>)
    ensures
        r@ == decimal(n as nat),
    decreases n,
{
    if n < 10 {
        let mut v: Vec<char> = Vec::new();
        v.push(((n as u8) + 48) as char);
        assert(v@ =~= decimal(n as nat));
        v
    } else {
        let mut v = decimal_chars(n / 10);
        v.push((((n % 10) as u8) + 48) as char);
        v
    }
}

/// `to_string` of a `usize`.
pub fn usize_to_string(n: usize) -> (r: String)
    ensures
        r@ == decimal(n as nat),
{
    string_of(&decimal_chars(n as u64))
}

/// `prefix` followed by the decimal text of `n` (what `format!("{}{}", prefix, n)` writes).
pub fn prefixed_number(prefix: &str, n: usize) -> (r: String)
    ensures
        r@ == prefix@ + decimal(n as nat),
{
    let mut v = chars_of(prefix);
    let d = decimal_chars(n as u64);
    append_chars(&mut v, &d);
    string_of(&v)
}

} // verus!

verus! {

/// `p` occurs in `s` at `i`.
pub open spec fn occurs_at(s: Seq<char>, p: Seq<char>, i: int) -> bool {
    0 <= i && i + p.len() <= s.len() && s.subrange(i, i + p.len()) == p
}

/// `str::contains` with a string pattern.
pub open spec fn has_sub(s: Seq<char>, p: Seq<char>) -> bool {
    exists|i: int| #[trigger] occurs_at(s, p, i)
}

/// Whether `p` occurs in `s` at `i`.
pub fn occurs_at_exec(s: &[char], p: &[char], i: usize) -> (r: bool)
    ensures
        r == occurs_at(s@, p@, i as int),
{
    if i > s.len() || p.len() > s.len() - i {
        return false;
    }
    let mut k: usize = 0;
    while k < p.len()
        invariant
            i + p@.len() <= s@.len(),
            s@.len() <= usize::MAX,
            k <= p@.len(),
            forall|j: int| 0 <= j < k ==> s@[i + j] == p@[j],
        decreases p@.len() - k,
    {
        if s[i + k] != p[k] {
            assert(s@.subrange(i as int, i + p@.len())[k as int] != p@[k as int]);
            return false;
        }
        k += 1;
    }
    assert(s@.subrange(i as int, i + p@.len()) =~= p@);
    true
}

/// `s.contains(p)`.
pub fn contains_str(s: &str, p: &str) -> (r: bool)
    ensures
        r == has_sub(s@, p@),
{
    let a = chars_of(s);
    let b = chars_of(p);
    let mut i: usize = 0;
    while i <= a.len()
        invariant
            a@ == s@,
            b@ == p@,
            i <= a@.len() + 1,
            forall|j: int| 0 <= j < i ==> !occurs_at(s@, p@, j),
        decreases a@.len() + 1 - i,
    {
        if occurs_at_exec(&a, &b, i) {
            return true;
        }
        if i == a.len() {
            assert forall|j: int| #[trigger] occurs_at(s@, p@, j) implies false by {
                assert(j <= a@.len());
            }
            return false;
        }
        i += 1;
    }
    false
}

} // verus!

verus! {

/// The texts joined with `sep` between them.
pub open spec fn join_with(ls: Seq<Seq<char>>, sep: Seq<char>) -> Seq<char>
    decreases ls.len(),
{
    if ls.len() == 0 {
        Seq::empty()
    } else if ls.len() == 1 {
        ls[0]
    } else {
        join_with(ls.drop_last(), sep) + sep + ls.last()
    }
}

/// `[String]::join`.
pub fn join_strings(v: &Vec<String>, sep: &str) -> (r: String)
    ensures
        r@ == join_with(v@.map_values(|s: String| s@), sep@),
{
    let sc = chars_of(sep);
    let mut out: Vec<char> = Vec::new();
    let mut k: usize = 0;
    while k < v.len()
        invariant
            k <= v@.len(),
            sc@ == sep@,
            out@ == join_with(v@.take(k as int).map_values(|s: String| s@), sep@),
        decreases v@.len() - k,
    {
        let ghost prev = v@.take(k as int).map_values(|s: String| s@);
        let ghost next = v@.take(k + 1).map_values(|s: String| s@);
        assert(next.drop_last() =~= prev);
        assert(next.last() == v@[k as int]@);
        if k > 0 {
            append_chars(&mut out, &sc);
        } else {
            assert(next.len() == 1);
        }
        append_chars(&mut out, &chars_of(v[k].as_str()));
        k += 1;
    }
    assert(v@.take(k as int) =~= v@);
    string_of(&out)
}

} // verus!

verus! {

/// The number of bytes of a char in UTF-8.
pub open spec fn char_width(c: char) -> int {
    if (c as u32) <= 0x7F {
        1
    } else if (c as u32) <= 0x7FF {
        2
    } else if (c as u32) <= 0xFFFF {
        3
    } else {
        4
    }
}

/// The number of bytes of a text in UTF-8 (what `str::len` counts).
pub open spec fn utf8_len(s: Seq<char>) -> int
    decreases s.len(),
{
    if s.len() == 0 {
        0
    } else {
        char_width(s[0]) + utf8_len(s.drop_first())
    }
}

pub proof fn lemma_utf8_len_concat(a: Seq<char>, b: Seq<char>)
    ensures
        utf8_len(a + b) == utf8_len(a) + utf8_len(b),
    decreases a.len(),
{
    if a.len() > 0 {
        assert((a + b).drop_first() =~= a.drop_first() + b);
        lemma_utf8_len_concat(a.drop_first(), b);
    } else {
        assert(a + b =~= b);
    }
}

pub proof fn lemma_utf8_len_nonneg(a: Seq<char>)
    ensures
        utf8_len(a) >= a.len(),
    decreases a.len(),
{
    if a.len() > 0 {
        lemma_utf8_len_nonneg(a.drop_first());
    }
}

fn char_width_exec(c: char) -> (r: u128)
    ensures
        r == char_width(c),
{
    if (c as u32) <= 0x7F {
        1
    } else if (c as u32) <= 0x7FF {
        2
    } else if (c as u32) <= 0xFFFF {
        3
    } else {
        4
    }
}

/// The UTF-8 length of a char sequence.
pub fn utf8_len_of(v: &[char]) -> (r: u128)
    ensures
        r == utf8_len(v@),
{
    let mut total: u128 = 0;
    let mut k = v.len();
    assert(v@.skip(k as int) =~= Seq::<char>::empty());
    while k > 0
        invariant
            k <= v@.len(),
            v@.len() <= usize::MAX,
            total == utf8_len(v@.skip(k as int)),
            total <= 4 * (v@.len() - k),
        decreases k,
    {
        let ghost t = v@.skip(k - 1);
        assert(t.drop_first() =~= v@.skip(k as int));
        assert(t[0] == v@[k - 1]);
        total = total + char_width_exec(v[k - 1]);
        k -= 1;
    }
    assert(v@.skip(0) =~= v@);
    total
}

} // verus!

verus! {

/// How many leading chars fit in `b` bytes.
pub open spec fn chars_within(s: Seq<char>, b: int) -> int
    decreases s.len(),
{
    if s.len() == 0 || char_width(s[0]) > b {
        0
    } else {
        1 + chars_within(s.drop_first(), b - char_width(s[0]))
    }
}

/// The leading chars of a text that fit in `b` bytes (`&s[..b]` when `b` is
/// a char boundary).
pub open spec fn byte_prefix(s: Seq<char>, b: int) -> Seq<char> {
    s.take(chars_within(s, b))
}

/// `b` falls on a char boundary of the text.
pub open spec fn byte_boundary(s: Seq<char>, b: int) -> bool {
    utf8_len(byte_prefix(s, b)) == b
}

pub proof fn lemma_chars_within(s: Seq<char>, b: int)
    ensures
        0 <= chars_within(s, b) <= s.len(),
    decreases s.len(),
{
    if s.len() > 0 && char_width(s[0]) <= b {
        lemma_chars_within(s.drop_first(), b - char_width(s[0]));
    }
}

/// The leading chars of a text that fit in `b` bytes.
pub fn byte_prefix_chars(s: &[char], b: u128) -> (r: Vec<char>)
    ensures
        r@ == byte_prefix(s@, b as int),
{
    proof {
        lemma_chars_within(s@, b as int);
    }
    let mut k: usize = 0;
    let mut left: u128 = b;
    assert(s@.skip(0) =~= s@);
    while k < s.len() && char_width_exec(s[k]) <= left
        invariant
            k <= s@.len(),
            left <= b,
            chars_within(s@, b as int) == k + chars_within(s@.skip(k as int), left as int),
        decreases s@.len() - k,
    {
        let ghost t = s@.skip(k as int);
        assert(t[0] == s@[k as int]);
        assert(t.drop_first() =~= s@.skip(k + 1));
        left = left - char_width_exec(s[k]);
        k += 1;
    }
    proof {
        let t = s@.skip(k as int);
        if k < s@.len() {
            assert(t[0] == s@[k as int]);
        }
    }
    copy_range(s, 0, k)
}

/// How many trailing chars fit in `b` bytes.
pub open spec fn chars_within_back(s: Seq<char>, b: int) -> int
    decreases s.len(),
{
    if s.len() == 0 || char_width(s.last()) > b {
        0
    } else {
        1 + chars_within_back(s.drop_last(), b - char_width(s.last()))
    }
}

/// The trailing chars of a text that fit in `b` bytes: its last `b` bytes,
/// cut at the char boundary at or after the cut.
pub open spec fn byte_suffix(s: Seq<char>, b: int) -> Seq<char> {
    s.skip(s.len() - chars_within_back(s, b))
}

pub proof fn lemma_chars_within_back(s: Seq<char>, b: int)
    ensures
        0 <= chars_within_back(s, b) <= s.len(),
    decreases s.len(),
{
    if s.len() > 0 && char_width(s.last()) <= b {
        lemma_chars_within_back(s.drop_last(), b - char_width(s.last()));
    }
}

/// The trailing chars of a text that fit in `b` bytes.
pub fn byte_suffix_chars(s: &[char], b: u128) -> (r: Vec<char>)
    ensures
        r@ == byte_suffix(s@, b as int),
{
    proof {
        lemma_chars_within_back(s@, b as int);
    }
    let mut k: usize = s.len();
    let mut left: u128 = b;
    assert(s@.take(s@.len() as int) =~= s@);
    while k > 0 && char_width_exec(s[k - 1]) <= left
        invariant
            k <= s@.len(),
            left <= b,
            chars_within_back(s@, b as int) == (s@.len() - k) + chars_within_back(s@.take(k as int), left as int),
        decreases k,
    {
        let ghost t = s@.take(k as int);
        assert(t.last() == s@[k - 1]);
        assert(t.drop_last() =~= s@.take(k - 1));
        left = left - char_width_exec(s[k - 1]);
        k -= 1;
    }
    proof {
        let t = s@.take(k as int);
        if k > 0 {
            assert(t.last() == s@[k - 1]);
        }
    }
    copy_range(s, k, s.len())
}

pub fn decimal_chars_u128(n: u128) -> (r: Vec<char>)
    ensures
        r@ == decimal(n as nat),
    decreases n,
{
    if n < 10 {
        let mut v: Vec<char> = Vec::new();
        v.push(((n as u8) + 48) as char);
        assert(v@ =~= decimal(n as nat));
        v
    } else {
        let mut v = decimal_chars_u128(n / 10);
        v.push((((n % 10) as u8) + 48) as char);
        v
    }
}

} // verus!

verus! {

/// `str::trim_start_matches` with a string pattern: every leading copy of `p`
/// taken off.
pub open spec fn strip_leading(s: Seq<char>, p: Seq<char>) -> Seq<char>
    decreases s.len(),
{
    if p.len() > 0 && occurs_at(s, p, 0) {
        strip_leading(s.skip(p.len() as int), p)
    } else {
        s
    }
}

/// `str::trim_end_matches` with a string pattern: every trailing copy of `p`
/// taken off.
pub open spec fn strip_trailing(s: Seq<char>, p: Seq<char>) -> Seq<char>
    decreases s.len(),
{
    if p.len() > 0 && occurs_at(s, p, s.len() - p.len()) {
        strip_trailing(s.take(s.len() - p.len()), p)
    } else {
        s
    }
}

pub fn strip_leading_chars(s: &[char], p: &[char]) -> (r: Vec<char>)
    ensures
        r@ == strip_leading(s@, p@),
{
    let mut a: usize = 0;
    assert(s@.skip(0) =~= s@);
    while p.len() > 0 && p.len() <= s.len() - a && occurs_at_exec(s, p, a)
        invariant
            a <= s@.len(),
            strip_leading(s@.skip(a as int), p@) == strip_leading(s@, p@),
        decreases s@.len() - a,
    {
        proof {
            let t = s@.skip(a as int);
            assert(t.subrange(0, p@.len() as int) =~= s@.subrange(a as int, a + p@.len()));
            assert(t.skip(p@.len() as int) =~= s@.skip(a + p@.len()));
        }
        a = a + p.len();
    }
    proof {
        let t = s@.skip(a as int);
        if p@.len() > 0 && occurs_at(t, p@, 0) {
            assert(t.subrange(0, p@.len() as int) =~= s@.subrange(a as int, a + p@.len()));
        }
    }
    copy_range(s, a, s.len())
}

pub fn strip_trailing_chars(s: &[char], p: &[char]) -> (r: Vec<char>)
    ensures
        r@ == strip_trailing(s@, p@),
{
    let mut b: usize = s.len();
    assert(s@.take(b as int) =~= s@);
    while p.len() > 0 && p.len() <= b && occurs_at_exec(s, p, b - p.len())
        invariant
            b <= s@.len(),
            strip_trailing(s@.take(b as int), p@) == strip_trailing(s@, p@),
        decreases b,
    {
        proof {
            let t = s@.take(b as int);
            let q = b - p@.len();
            assert(t.subrange(q, q + p@.len()) =~= s@.subrange(q, q + p@.len()));
            assert(t.take(q) =~= s@.take(q));
        }
        b = b - p.len();
    }
    proof {
        let t = s@.take(b as int);
        if p@.len() > 0 && occurs_at(t, p@, t.len() - p@.len()) {
            let q = b - p@.len();
            assert(t.subrange(q, q + p@.len()) =~= s@.subrange(q, q + p@.len()));
        }
    }
    copy_range(s, 0, b)
}

/// The first position at or after `i` that holds `c`, or -1.
pub open spec fn find_char(s: Seq<char>, c: char, i: int) -> int
    decreases s.len() - i,
{
    if i < 0 || i >= s.len() {
        -1
    } else if s[i] == c {
        i
    } else {
        find_char(s, c, i + 1)
    }
}

/// The last position before `j` that holds `c`, or -1.
pub open spec fn rfind_char(s: Seq<char>, c: char, j: int) -> int
    decreases j,
{
    if j <= 0 || j > s.len() {
        -1
    } else if s[j - 1] == c {
        j - 1
    } else {
        rfind_char(s, c, j - 1)
    }
}

pub proof fn lemma_find_char(s: Seq<char>, c: char, i: int)
    requires
        0 <= i,
    ensures
        find_char(s, c, i) == -1 || (i <= find_char(s, c, i) < s.len() && s[find_char(s, c, i)]
            == c),
        forall|k: int|
            i <= k < s.len() && (find_char(s, c, i) == -1 || k < find_char(s, c, i)) ==> s[k] != c,
    decreases s.len() - i,
{
    if i < s.len() && s[i] != c {
        lemma_find_char(s, c, i + 1);
    }
}

pub proof fn lemma_rfind_char(s: Seq<char>, c: char, j: int)
    requires
        j <= s.len(),
    ensures
        rfind_char(s, c, j) == -1 || (0 <= rfind_char(s, c, j) < j && s[rfind_char(s, c, j)] == c),
        forall|k: int| rfind_char(s, c, j) < k < j && 0 <= k ==> s[k] != c,
    decreases j,
{
    if j > 0 && s[j - 1] != c {
        lemma_rfind_char(s, c, j - 1);
    }
}

/// `str::find` with a char pattern, as a char position.
pub fn find_char_exec(s: &[char], c: char) -> (r: Option<usize>)
    ensures
        r is None <==> find_char(s@, c, 0) == -1,
        r is Some ==> r->0 == find_char(s@, c, 0),
{
    let mut i: usize = 0;
    while i < s.len()
        invariant
            i <= s@.len(),
            find_char(s@, c, 0) == find_char(s@, c, i as int),
        decreases s@.len() - i,
    {
        if s[i] == c {
            return Some(i);
        }
        i += 1;
    }
    None
}

/// `str::rfind` with a char pattern, as a char position.
pub fn rfind_char_exec(s: &[char], c: char) -> (r: Option<usize>)
    ensures
        r is None <==> rfind_char(s@, c, s@.len() as int) == -1,
        r is Some ==> r->0 == rfind_char(s@, c, s@.len() as int),
{
    let mut j: usize = s.len();
    while j > 0
        invariant
            j <= s@.len(),
            rfind_char(s@, c, s@.len() as int) == rfind_char(s@, c, j as int),
        decreases j,
    {
        if s[j - 1] == c {
            return Some(j - 1);
        }
        j -= 1;
    }
    None
}

} // verus!

verus! {

/// Whether byte offset `b` of a text falls on a char boundary
/// (`str::is_char_boundary`, for offsets within the text).
pub fn is_byte_boundary(s: &str, b: u128) -> (r: bool)
    ensures
        r == byte_boundary(s@, b as int),
{
    let c = chars_of(s);
    let p = byte_prefix_chars(&c, b);
    utf8_len_of(&p) == b
}

} // verus!
