//! Reading the analysis and unit outputs of the video planning phases: typed
//! `## TYPE ID` blocks of `key: value` lines, and the two-region unit text.
use vstd::prelude::*;
use crate::blocks::{hashes_end, header_parts, lemma_hashes_end, parse_header};
use crate::json::Json;
use crate::model_text::line_start;
use crate::text::{
    chars_of, copy_range, is_ascii_space, is_ascii_space_char, lines, spaces_end, spaces_end_index,
    lemma_spaces_end, spec_lines, string_of, trim, trim_chars,
};

verus! {

/// End of the run of non-space (ASCII sense) chars that starts at `i`.
pub open spec fn nonspace_end(s: Seq<char>, i: int) -> int
    decreases s.len() - i,
{
    if 0 <= i < s.len() && !is_ascii_space(s[i]) {
        nonspace_end(s, i + 1)
    } else {
        i
    }
}

/// The end of the block header that starts at `p`, or -1: at a line start,
/// two or more `#`, ASCII space (which may run over line breaks), a run of
/// non-space chars (the type), and the rest of that line (the id).
pub open spec fn header_end_at(s: Seq<char>, p: int) -> int {
    if line_start(s, p) && p + 1 < s.len() && s[p] == '#' && s[p + 1] == '#' {
        let h = hashes_end(s, p);
        let w = spaces_end(s, h);
        if h < w < s.len() {
            crate::text::nl_from(s, nonspace_end(s, w))
        } else {
            -1
        }
    } else {
        -1
    }
}

/// The headers found from `i` on, left to right and not overlapping, as
/// (start, end) pairs.
pub open spec fn headers_from(s: Seq<char>, i: int) -> Seq<(int, int)>
    decreases s.len() - i,
{
    if i < 0 || i >= s.len() {
        Seq::empty()
    } else if i < header_end_at(s, i) <= s.len() {
        seq![(i, header_end_at(s, i))] + headers_from(s, header_end_at(s, i))
    } else {
        headers_from(s, i + 1)
    }
}

/// A line's key and value: split at its first `:` or `：`, both sides trimmed,
/// the key not empty; blank lines and lines starting with `---` give none.
pub open spec fn pair_of(l: Seq<char>) -> Option<(Seq<char>, Seq<char>)> {
    let t = trim(l);
    let c = sep_index(t, 0);
    if t.len() == 0 || crate::blocks::starts_with3(t, '-', '-', '-') || c >= t.len() {
        None
    } else {
        let key = trim(t.subrange(0, c));
        let value = trim(t.subrange(c + 1, t.len() as int));
        if key.len() == 0 {
            None
        } else {
            Some((key, value))
        }
    }
}

pub open spec fn is_colon(c: char) -> bool {
    c == ':' || c == '\u{ff1a}'
}

/// Index of the first `:` or `：` at or after `i`, or the length.
pub open spec fn sep_index(s: Seq<char>, i: int) -> int
    decreases s.len() - i,
{
    if 0 <= i < s.len() && !is_colon(s[i]) {
        sep_index(s, i + 1)
    } else {
        i
    }
}

/// The pairs of the first `n` lines, in order.
pub open spec fn pairs_upto(ls: Seq<Seq<char>>, n: int) -> Seq<(Seq<char>, Seq<char>)>
    decreases n,
{
    if n <= 0 {
        Seq::empty()
    } else {
        let p = pairs_upto(ls, n - 1);
        match pair_of(ls[n - 1]) {
            Some(kv) => p.push(kv),
            None => p,
        }
    }
}

/// The value of `k`: that of its last pair.
pub open spec fn pairs_get(ps: Seq<(Seq<char>, Seq<char>)>, k: Seq<char>) -> Option<Seq<char>>
    decreases ps.len(),
{
    if ps.len() == 0 {
        None
    } else if ps.last().0 == k {
        Some(ps.last().1)
    } else {
        pairs_get(ps.drop_last(), k)
    }
}

pub struct V5BlockV {
    pub type_str: Seq<char>,
    pub id: Seq<char>,
    pub body: Seq<char>,
    pub pairs: Seq<(Seq<char>, Seq<char>)>,
}

/// The block of header `k`: its type and id, and the pairs of the lines of
/// its trimmed body, which runs to the next header.
pub open spec fn block_at(s: Seq<char>, hs: Seq<(int, int)>, k: int) -> V5BlockV {
    let end = if k + 1 < hs.len() { hs[k + 1].0 } else { s.len() as int };
    let body = trim(s.subrange(hs[k].1, end));
    let hp = header_parts(s.subrange(hs[k].0, hs[k].1));
    V5BlockV {
        type_str: hp.0,
        id: hp.1,
        body,
        pairs: pairs_upto(spec_lines(body), spec_lines(body).len() as int),
    }
}

pub open spec fn spec_v5_blocks(s: Seq<char>) -> Seq<V5BlockV> {
    let hs = headers_from(s, 0);
    Seq::new(hs.len(), |k: int| block_at(s, hs, k))
}

pub struct TypedBlock {
    pub type_str: String,
    pub id: String,
    pub pairs: Vec<(String, String)>,
}

pub open spec fn pairs_view(v: Seq<(String, String)>) -> Seq<(Seq<char>, Seq<char>)> {
    v.map_values(|e: (String, String)| (e.0@, e.1@))
}

pub open spec fn typed_block_matches(b: TypedBlock, v: V5BlockV) -> bool {
    &&& b.type_str@ == v.type_str
    &&& b.id@ == v.id
    &&& pairs_view(b.pairs@) == v.pairs
}

proof fn lemma_nonspace_end(s: Seq<char>, i: int)
    requires
        0 <= i <= s.len(),
    ensures
        i <= nonspace_end(s, i) <= s.len(),
    decreases s.len() - i,
{
    if i < s.len() && !is_ascii_space(s[i]) {
        lemma_nonspace_end(s, i + 1);
    }
}

proof fn lemma_sep_index(s: Seq<char>, i: int)
    requires
        0 <= i <= s.len(),
    ensures
        i <= sep_index(s, i) <= s.len(),
        sep_index(s, i) < s.len() ==> is_colon(s[sep_index(s, i)]),
    decreases s.len() - i,
{
    if i < s.len() && !is_colon(s[i]) {
        lemma_sep_index(s, i + 1);
    }
}

fn header_end_exec(s: &[char], p: usize) -> (r: Option<usize>)
    requires
        p <= s@.len(),
    ensures
        match r {
            Some(e) => header_end_at(s@, p as int) == e && p < e <= s@.len(),
            None => !(p < header_end_at(s@, p as int) <= s@.len()),
        },
{
    let n = s.len();
    if !(p == 0 || s[p - 1] == '\n') {
        return None;
    }
    if !(p < n && n - p >= 2 && s[p] == '#' && s[p + 1] == '#') {
        return None;
    }
    proof {
        lemma_hashes_end(s@, p as int);
    }
    let mut h = p;
    while h < n && s[h] == '#'
        invariant
            p <= h <= s@.len(),
            n == s@.len(),
            hashes_end(s@, h as int) == hashes_end(s@, p as int),
        decreases s@.len() - h,
    {
        h += 1;
    }
    proof {
        lemma_spaces_end(s@, h as int);
    }
    let w = spaces_end_index(s, h);
    if !(h < w && w < n) {
        return None;
    }
    proof {
        lemma_nonspace_end(s@, w as int);
    }
    let mut e = w;
    while e < n && !is_ascii_space_char(s[e])
        invariant
            w <= e <= s@.len(),
            n == s@.len(),
            nonspace_end(s@, e as int) == nonspace_end(s@, w as int),
        decreases s@.len() - e,
    {
        e += 1;
    }
    proof {
        crate::text::lemma_nl_from(s@, e as int);
    }
    let ghost t = e as int;
    while e < n && s[e] != '\n'
        invariant
            t <= e <= s@.len(),
            n == s@.len(),
            crate::text::nl_from(s@, e as int) == crate::text::nl_from(s@, t),
        decreases s@.len() - e,
    {
        e += 1;
    }
    Some(e)
}

fn find_headers(s: &[char]) -> (r: Vec<(usize, usize)>)
    ensures
        r@.len() == headers_from(s@, 0).len(),
        forall|k: int| 0 <= k < r@.len() ==> (#[trigger] r@[k]).0 == headers_from(s@, 0)[k].0 && r@[k].1 == headers_from(s@, 0)[k].1,
{
    let mut out: Vec<(usize, usize)> = Vec::new();
    let ghost mut got: Seq<(int, int)> = Seq::empty();
    let mut i: usize = 0;
    while i < s.len()
        invariant
            i <= s@.len(),
            got + headers_from(s@, i as int) == headers_from(s@, 0),
            out@.len() == got.len(),
            forall|k: int| 0 <= k < out@.len() ==> (#[trigger] out@[k]).0 == got[k].0 && out@[k].1 == got[k].1,
        decreases s@.len() - i,
    {
        match header_end_exec(s, i) {
            Some(e) => {
                proof {
                    assert(got + headers_from(s@, i as int) =~= got.push((i as int, e as int)) + headers_from(s@, e as int));
                    got = got.push((i as int, e as int));
                }
                out.push((i, e));
                i = e;
            },
            None => {
                i += 1;
            },
        }
    }
    assert(got =~= headers_from(s@, 0));
    out
}

fn sep_index_exec(t: &[char]) -> (r: usize)
    ensures
        r == sep_index(t@, 0),
        r <= t@.len(),
{
    proof {
        lemma_sep_index(t@, 0);
    }
    let mut k: usize = 0;
    while k < t.len() && !(t[k] == ':' || t[k] == '\u{ff1a}')
        invariant
            k <= t@.len(),
            sep_index(t@, k as int) == sep_index(t@, 0),
        decreases t@.len() - k,
    {
        k += 1;
    }
    k
}

fn pair_of_exec(l: &[char]) -> (r: Option<(String, String)>)
    ensures
        match r {
            Some(e) => pair_of(l@) == Some((e.0@, e.1@)),
            None => pair_of(l@) is None,
        },
{
    let t = trim_chars(l);
    let c = sep_index_exec(&t);
    if t.len() == 0 || (t.len() >= 3 && t[0] == '-' && t[1] == '-' && t[2] == '-') || c >= t.len() {
        return None;
    }
    let key = trim_chars(&copy_range(&t, 0, c));
    let value = trim_chars(&copy_range(&t, c + 1, t.len()));
    if key.len() == 0 {
        return None;
    }
    Some((string_of(&key), string_of(&value)))
}

fn block_of(s: &[char], hs: &Vec<(usize, usize)>, k: usize, Ghost(g): Ghost<Seq<(int, int)>>) -> (r: TypedBlock)
    requires
        g == headers_from(s@, 0),
        hs@.len() == g.len(),
        forall|j: int| 0 <= j < hs@.len() ==> (#[trigger] hs@[j]).0 == g[j].0 && hs@[j].1 == g[j].1,
        k < hs@.len(),
    ensures
        typed_block_matches(r, block_at(s@, g, k as int)),
{
    proof {
        lemma_headers_sorted(s@, 0);
    }
    let (start, hend) = hs[k];
    let end = if k < hs.len() - 1 { hs[k + 1].0 } else { s.len() };
    assert(start <= hend <= end <= s@.len());
    let header = copy_range(s, start, hend);
    let (tn, id) = parse_header(&header);
    let body = trim_chars(&copy_range(s, hend, end));
    let ls = lines(&body);
    let ghost bv = block_at(s@, g, k as int);
    let ghost lv = ls@.map_values(|l: Vec<char>| l@);
    assert(bv.body == body@);
    let mut pairs: Vec<(String, String)> = Vec::new();
    let mut i: usize = 0;
    while i < ls.len()
        invariant
            i <= ls@.len(),
            lv == ls@.map_values(|l: Vec<char>| l@),
            lv == spec_lines(bv.body),
            pairs_view(pairs@) == pairs_upto(lv, i as int),
        decreases ls@.len() - i,
    {
        match pair_of_exec(&ls[i]) {
            Some(e) => {
                let ghost before = pairs@;
                pairs.push(e);
                assert(pairs_view(pairs@) =~= pairs_view(before).push((e.0@, e.1@)));
            },
            None => {},
        }
        i += 1;
    }
    TypedBlock { type_str: string_of(&tn), id: string_of(&id), pairs }
}

proof fn lemma_headers_sorted(s: Seq<char>, i: int)
    requires
        0 <= i,
    ensures
        forall|k: int| 0 <= k < headers_from(s, i).len() ==> i <= (#[trigger] headers_from(s, i)[k]).0 < headers_from(s, i)[k].1 <= s.len(),
        forall|k: int| 0 <= k < headers_from(s, i).len() - 1 ==> (#[trigger] headers_from(s, i)[k]).1 <= headers_from(s, i)[k + 1].0,
    decreases s.len() - i,
{
    if i < s.len() {
        if i < header_end_at(s, i) <= s.len() {
            let e = header_end_at(s, i);
            lemma_headers_sorted(s, e);
            let rest = headers_from(s, e);
            assert(headers_from(s, i) == seq![(i, e)] + rest);
            assert forall|k: int| 0 <= k < headers_from(s, i).len() - 1 implies (#[trigger] headers_from(s, i)[k]).1 <= headers_from(s, i)[k + 1].0 by {
                if k > 0 {
                    assert(headers_from(s, i)[k] == rest[k - 1]);
                    assert(headers_from(s, i)[k + 1] == rest[k]);
                } else {
                    assert(headers_from(s, i)[1] == rest[0]);
                }
            }
            assert forall|k: int| 0 <= k < headers_from(s, i).len() implies i <= (#[trigger] headers_from(s, i)[k]).0 < headers_from(s, i)[k].1 <= s.len() by {
                if k > 0 {
                    assert(headers_from(s, i)[k] == rest[k - 1]);
                }
            }
        } else {
            lemma_headers_sorted(s, i + 1);
            assert(headers_from(s, i) == headers_from(s, i + 1));
        }
    } else {
        assert(headers_from(s, i).len() == 0);
    }
}

/// `parse_typed_blocks` of the planning output: one block per header.
pub fn parse_v5_blocks(markdown: &str) -> (r: Vec<TypedBlock>)
    ensures
        r@.len() == spec_v5_blocks(markdown@).len(),
        forall|k: int| 0 <= k < r@.len() ==> typed_block_matches(#[trigger] r@[k], spec_v5_blocks(markdown@)[k]),
{
    let s = chars_of(markdown);
    let hs = find_headers(&s);
    let ghost g = headers_from(s@, 0);
    let mut out: Vec<TypedBlock> = Vec::new();
    let mut k: usize = 0;
    while k < hs.len()
        invariant
            s@ == markdown@,
            g == headers_from(s@, 0),
            hs@.len() == g.len(),
            forall|j: int| 0 <= j < hs@.len() ==> (#[trigger] hs@[j]).0 == g[j].0 && hs@[j].1 == g[j].1,
            k <= hs@.len(),
            out@.len() == k,
            forall|j: int| 0 <= j < k ==> typed_block_matches(#[trigger] out@[j], spec_v5_blocks(markdown@)[j]),
        decreases hs@.len() - k,
    {
        assert(spec_v5_blocks(markdown@)[k as int] == block_at(s@, g, k as int));
        let b = block_of(&s, &hs, k, Ghost(g));
        out.push(b);
        k += 1;
    }
    out
}


/// `parse_int_safe` of the planning output: the trimmed text read as a
/// `usize`, or `fallback`.
pub open spec fn int_or(s: Seq<char>, fallback: int) -> int {
    match crate::text::spec_parse_usize(trim(s)) {
        Some(n) => n,
        None => fallback,
    }
}

pub fn parse_int_safe(s: &str, fallback: usize) -> (r: usize)
    ensures
        r == int_or(s@, fallback as int),
{
    let t = trim_chars(&chars_of(s));
    match crate::text::parse_usize(&t) {
        Some(n) => n,
        None => fallback,
    }
}

/// A separator of section references: a comma or semicolon (either width),
/// or white space.
pub open spec fn is_ref_sep(c: char) -> bool {
    c == ',' || c == '\u{ff0c}' || c == ';' || c == '\u{ff1b}' || crate::text::is_ws(c)
}

/// Index of the first separator at or after `i`, or the length.
pub open spec fn ref_sep_from(s: Seq<char>, i: int) -> int
    decreases s.len() - i,
{
    if 0 <= i < s.len() && !is_ref_sep(s[i]) {
        ref_sep_from(s, i + 1)
    } else {
        i
    }
}

/// The pieces of `s[i..]` between separators.
pub open spec fn ref_pieces_from(s: Seq<char>, i: int) -> Seq<Seq<char>>
    decreases s.len() + 1 - i,
{
    if i < 0 || i > s.len() {
        Seq::empty()
    } else {
        let e = ref_sep_from(s, i);
        if e < i || e >= s.len() {
            seq![s.subrange(i, s.len() as int)]
        } else {
            seq![s.subrange(i, e)] + ref_pieces_from(s, e + 1)
        }
    }
}

/// The section references of a text: its non-empty trimmed pieces.
pub open spec fn spec_section_refs(s: Seq<char>) -> Seq<Seq<char>> {
    if s.len() == 0 {
        Seq::empty()
    } else {
        ref_pieces_from(s, 0).map_values(|p: Seq<char>| trim(p)).filter(|p: Seq<char>| p.len() > 0)
    }
}

proof fn lemma_ref_sep_from(s: Seq<char>, i: int)
    requires
        0 <= i <= s.len(),
    ensures
        i <= ref_sep_from(s, i) <= s.len(),
    decreases s.len() - i,
{
    if i < s.len() && !is_ref_sep(s[i]) {
        lemma_ref_sep_from(s, i + 1);
    }
}

proof fn lemma_ref_gap(s: Seq<char>, i: int)
    requires
        0 <= i <= s.len(),
    ensures
        forall|k: int| i <= k < ref_sep_from(s, i) ==> !is_ref_sep(#[trigger] s[k]),
    decreases s.len() - i,
{
    if i < s.len() && !is_ref_sep(s[i]) {
        lemma_ref_gap(s, i + 1);
    }
}

proof fn lemma_ref_pieces_no_sep(s: Seq<char>, i: int)
    requires
        0 <= i <= s.len(),
    ensures
        forall|m: int, j: int| 0 <= m < ref_pieces_from(s, i).len() && 0 <= j < ref_pieces_from(s, i)[m].len()
            ==> !is_ref_sep(#[trigger] ref_pieces_from(s, i)[m][j]),
    decreases s.len() + 1 - i,
{
    let e = ref_sep_from(s, i);
    lemma_ref_sep_from(s, i);
    lemma_ref_gap(s, i);
    let head = s.subrange(i, e);
    if e >= s.len() {
        assert forall|m: int, j: int| 0 <= m < ref_pieces_from(s, i).len() && 0 <= j < ref_pieces_from(s, i)[m].len()
            implies !is_ref_sep(#[trigger] ref_pieces_from(s, i)[m][j]) by {
            assert(ref_pieces_from(s, i)[m] == head);
            assert(head[j] == s[i + j]);
        }
    } else {
        lemma_ref_pieces_no_sep(s, e + 1);
        let rest = ref_pieces_from(s, e + 1);
        assert(ref_pieces_from(s, i) == seq![head] + rest);
        assert forall|m: int, j: int| 0 <= m < ref_pieces_from(s, i).len() && 0 <= j < ref_pieces_from(s, i)[m].len()
            implies !is_ref_sep(#[trigger] ref_pieces_from(s, i)[m][j]) by {
            if m == 0 {
                assert(ref_pieces_from(s, i)[m] == head);
                assert(head[j] == s[i + j]);
            } else {
                assert(ref_pieces_from(s, i)[m] == rest[m - 1]);
            }
        }
    }
}

/// Law: a section reference never holds a separator: every `,`, `，`, `;`,
/// `；`, space, tab and line break of the text splits it, and each reference
/// is non-empty.
pub proof fn law_section_refs_hold_no_separator(s: Seq<char>)
    ensures
        forall|k: int, j: int| 0 <= k < spec_section_refs(s).len() && 0 <= j < spec_section_refs(s)[k].len() ==> {
            let c = #[trigger] spec_section_refs(s)[k][j];
            c != ',' && c != '\u{ff0c}' && c != ';' && c != '\u{ff1b}' && c != ' ' && c != '\t' && c != '\n'
        },
        forall|k: int| 0 <= k < spec_section_refs(s).len() ==> (#[trigger] spec_section_refs(s)[k]).len() > 0,
{
    broadcast use vstd::seq_lib::group_filter_ensures;
    if s.len() > 0 {
        let pieces = ref_pieces_from(s, 0);
        let tr = |p: Seq<char>| trim(p);
        let pred = |p: Seq<char>| p.len() > 0;
        let mapped = pieces.map_values(tr);
        lemma_ref_pieces_no_sep(s, 0);
        assert(spec_section_refs(s) == mapped.filter(pred));
        assert forall|k: int, j: int| 0 <= k < spec_section_refs(s).len() && 0 <= j < spec_section_refs(s)[k].len() implies {
            let c = #[trigger] spec_section_refs(s)[k][j];
            c != ',' && c != '\u{ff0c}' && c != ';' && c != '\u{ff1b}' && c != ' ' && c != '\t' && c != '\n'
        } by {
            let x = spec_section_refs(s)[k];
            assert(mapped.filter(pred)[k] == x);
            assert(mapped.filter(pred).contains(x));
            mapped.lemma_filter_contains_rev(pred, x);
            let m = choose|m: int| 0 <= m < mapped.len() && mapped[m] == x;
            let p = pieces[m];
            assert(x == trim(p));
            crate::text::lemma_trim_index(p);
            let q = crate::text::lead_from(p, 0) + j;
            assert(x[j] == p[q]);
            assert(!is_ref_sep(pieces[m][q]));
        }
    }
}

pub open spec fn strings_view(v: Seq<String>) -> Seq<Seq<char>> {
    v.map_values(|s: String| s@)
}

pub fn parse_section_refs(s: &str) -> (r: Vec<String>)
    ensures
        strings_view(r@) == spec_section_refs(s@),
{
    let c = chars_of(s);
    let mut out: Vec<String> = Vec::new();
    if c.len() == 0 {
        return out;
    }
    let ghost pieces = ref_pieces_from(c@, 0);
    let ghost pred = |p: Seq<char>| p.len() > 0;
    let ghost tr = |p: Seq<char>| trim(p);
    let ghost mut done: Seq<Seq<char>> = Seq::empty();
    let mut i: usize = 0;
    let mut finished = false;
    while !finished
        invariant
            c@ == s@,
            i <= c@.len(),
            pred == (|p: Seq<char>| p.len() > 0),
            tr == (|p: Seq<char>| trim(p)),
            pieces == ref_pieces_from(c@, 0),
            !finished ==> done + ref_pieces_from(c@, i as int) == pieces,
            finished ==> done == pieces,
            strings_view(out@) == done.map_values(tr).filter(pred),
        decreases c@.len() + 1 - i, if finished { 0int } else { 1int },
    {
        proof {
            lemma_ref_sep_from(c@, i as int);
        }
        let mut e = i;
        while e < c.len() && !(c[e] == ',' || c[e] == '\u{ff0c}' || c[e] == ';' || c[e] == '\u{ff1b}' || crate::text::is_whitespace(c[e]))
            invariant
                i <= e <= c@.len(),
                ref_sep_from(c@, e as int) == ref_sep_from(c@, i as int),
            decreases c@.len() - e,
        {
            e += 1;
        }
        let piece = trim_chars(&copy_range(&c, i, e));
        let ghost pv = c@.subrange(i as int, e as int);
        proof {
            reveal_with_fuel(Seq::filter, 1);
            let d2 = done.push(pv);
            assert(d2.map_values(tr) =~= done.map_values(tr).push(trim(pv)));
            assert(d2.map_values(tr).drop_last() =~= done.map_values(tr));
        }
        if piece.len() > 0 {
            let ghost before = out@;
            out.push(string_of(&piece));
            assert(strings_view(out@) =~= strings_view(before).push(piece@));
        }
        proof {
            if e >= c@.len() {
                assert(ref_pieces_from(c@, i as int) == seq![pv]);
                assert(done + seq![pv] =~= done.push(pv));
            } else {
                assert(ref_pieces_from(c@, i as int) == seq![pv] + ref_pieces_from(c@, e + 1));
                assert(done + (seq![pv] + ref_pieces_from(c@, e + 1)) =~= done.push(pv) + ref_pieces_from(c@, e + 1));
            }
            done = done.push(pv);
        }
        if e >= c.len() {
            finished = true;
        } else {
            i = e + 1;
        }
    }
    out
}

/// The scene types a unit may have; anything else is `文戏`.
pub open spec fn scene_type_ok(t: Seq<char>) -> bool {
    t == "\u{6587}\u{620f}"@ || t == "\u{5feb}\u{8282}\u{594f}\u{6587}\u{620f}"@ || t == "\u{6b66}\u{620f}"@
        || t == "\u{73af}\u{5883}\u{620f}"@ || t == "\u{52a8}\u{4f5c}\u{975e}\u{6b66}\u{620f}"@
}

pub open spec fn spec_scene_type(s: Seq<char>) -> Seq<char> {
    if scene_type_ok(trim(s)) {
        trim(s)
    } else {
        "\u{6587}\u{620f}"@
    }
}

/// Law: the five scene types 文戏, 快节奏文戏, 武戏, 环境戏 and 动作非武戏 are
/// each kept as given, with or without surrounding white space; every result
/// is one of the five; and any other text becomes 文戏.
pub proof fn law_scene_types_kept(s: Seq<char>)
    ensures
        spec_scene_type("\u{6587}\u{620f}"@) == "\u{6587}\u{620f}"@,
        spec_scene_type("\u{5feb}\u{8282}\u{594f}\u{6587}\u{620f}"@) == "\u{5feb}\u{8282}\u{594f}\u{6587}\u{620f}"@,
        spec_scene_type("\u{6b66}\u{620f}"@) == "\u{6b66}\u{620f}"@,
        spec_scene_type("\u{73af}\u{5883}\u{620f}"@) == "\u{73af}\u{5883}\u{620f}"@,
        spec_scene_type("\u{52a8}\u{4f5c}\u{975e}\u{6b66}\u{620f}"@) == "\u{52a8}\u{4f5c}\u{975e}\u{6b66}\u{620f}"@,
        ({
            let t = trim(s);
            let known = t == "\u{6587}\u{620f}"@ || t == "\u{5feb}\u{8282}\u{594f}\u{6587}\u{620f}"@ || t
                == "\u{6b66}\u{620f}"@ || t == "\u{73af}\u{5883}\u{620f}"@ || t
                == "\u{52a8}\u{4f5c}\u{975e}\u{6b66}\u{620f}"@;
            &&& known ==> spec_scene_type(s) == t
            &&& !known ==> spec_scene_type(s) == "\u{6587}\u{620f}"@
        }),
{
    reveal_strlit("\u{6587}\u{620f}");
    reveal_strlit("\u{5feb}\u{8282}\u{594f}\u{6587}\u{620f}");
    reveal_strlit("\u{6b66}\u{620f}");
    reveal_strlit("\u{73af}\u{5883}\u{620f}");
    reveal_strlit("\u{52a8}\u{4f5c}\u{975e}\u{6b66}\u{620f}");
    crate::text::lemma_trim_unchanged("\u{6587}\u{620f}"@);
    crate::text::lemma_trim_unchanged("\u{5feb}\u{8282}\u{594f}\u{6587}\u{620f}"@);
    crate::text::lemma_trim_unchanged("\u{6b66}\u{620f}"@);
    crate::text::lemma_trim_unchanged("\u{73af}\u{5883}\u{620f}"@);
    crate::text::lemma_trim_unchanged("\u{52a8}\u{4f5c}\u{975e}\u{6b66}\u{620f}"@);
}

pub fn normalize_scene_type(s: &str) -> (r: String)
    ensures
        r@ == spec_scene_type(s@),
{
    let t = string_of(&trim_chars(&chars_of(s)));
    let ts = t.as_str();
    if crate::text::str_eq(ts, "\u{6587}\u{620f}") || crate::text::str_eq(ts, "\u{5feb}\u{8282}\u{594f}\u{6587}\u{620f}")
        || crate::text::str_eq(ts, "\u{6b66}\u{620f}") || crate::text::str_eq(ts, "\u{73af}\u{5883}\u{620f}")
        || crate::text::str_eq(ts, "\u{52a8}\u{4f5c}\u{975e}\u{6b66}\u{620f}") {
        t
    } else {
        "\u{6587}\u{620f}".to_string()
    }
}

/// The value of `a`, else of `b`.
pub open spec fn get2(ps: Seq<(Seq<char>, Seq<char>)>, a: Seq<char>, b: Seq<char>) -> Option<Seq<char>> {
    match pairs_get(ps, a) {
        Some(x) => Some(x),
        None => pairs_get(ps, b),
    }
}

pub open spec fn text_or(o: Option<Seq<char>>, d: Seq<char>) -> Seq<char> {
    match o {
        Some(x) => x,
        None => d,
    }
}

fn lookup(ps: &Vec<(String, String)>, k: &str) -> (r: Option<String>)
    ensures
        crate::blocks::opt_view(r) == pairs_get(pairs_view(ps@), k@),
{
    let mut i = ps.len();
    assert(pairs_view(ps@).take(i as int) =~= pairs_view(ps@));
    while i > 0
        invariant
            i <= ps@.len(),
            pairs_get(pairs_view(ps@), k@) == pairs_get(pairs_view(ps@).take(i as int), k@),
        decreases i,
    {
        let ghost t = pairs_view(ps@).take(i as int);
        assert(t.drop_last() =~= pairs_view(ps@).take(i - 1));
        if crate::text::str_eq(ps[i - 1].0.as_str(), k) {
            return Some(ps[i - 1].1.clone());
        }
        i -= 1;
    }
    None
}

fn lookup2(ps: &Vec<(String, String)>, a: &str, b: &str) -> (r: Option<String>)
    ensures
        crate::blocks::opt_view(r) == get2(pairs_view(ps@), a@, b@),
{
    match lookup(ps, a) {
        Some(x) => Some(x),
        None => lookup(ps, b),
    }
}

fn text_of(o: Option<String>, d: &str) -> (r: String)
    ensures
        r@ == text_or(crate::blocks::opt_view(o), d@),
{
    match o {
        Some(x) => x,
        None => d.to_string(),
    }
}

/// `a` equals `b` up to ASCII case, `b` being in lower case.
pub open spec fn ic_eq(a: Seq<char>, b: Seq<char>) -> bool {
    a.len() == b.len() && forall|i: int| 0 <= i < a.len() ==> a[i] == b[i] || a[i] == upper_of(b[i])
}

/// The upper-case ASCII letter of a lower-case one (other chars: themselves).
pub open spec fn upper_of(c: char) -> char {
    if c == 'a' { 'A' } else if c == 'b' { 'B' } else if c == 'c' { 'C' } else if c == 'd' { 'D' }
    else if c == 'e' { 'E' } else if c == 'f' { 'F' } else if c == 'g' { 'G' } else if c == 'h' { 'H' }
    else if c == 'i' { 'I' } else if c == 'j' { 'J' } else if c == 'k' { 'K' } else if c == 'l' { 'L' }
    else if c == 'm' { 'M' } else if c == 'n' { 'N' } else if c == 'o' { 'O' } else if c == 'p' { 'P' }
    else if c == 'q' { 'Q' } else if c == 'r' { 'R' } else if c == 's' { 'S' } else if c == 't' { 'T' }
    else if c == 'u' { 'U' } else if c == 'v' { 'V' } else if c == 'w' { 'W' } else if c == 'x' { 'X' }
    else if c == 'y' { 'Y' } else if c == 'z' { 'Z' }
    else { c }
}

fn upper_of_exec(c: char) -> (r: char)
    ensures
        r == upper_of(c),
{
    if c == 'a' { 'A' } else if c == 'b' { 'B' } else if c == 'c' { 'C' } else if c == 'd' { 'D' }
    else if c == 'e' { 'E' } else if c == 'f' { 'F' } else if c == 'g' { 'G' } else if c == 'h' { 'H' }
    else if c == 'i' { 'I' } else if c == 'j' { 'J' } else if c == 'k' { 'K' } else if c == 'l' { 'L' }
    else if c == 'm' { 'M' } else if c == 'n' { 'N' } else if c == 'o' { 'O' } else if c == 'p' { 'P' }
    else if c == 'q' { 'Q' } else if c == 'r' { 'R' } else if c == 's' { 'S' } else if c == 't' { 'T' }
    else if c == 'u' { 'U' } else if c == 'v' { 'V' } else if c == 'w' { 'W' } else if c == 'x' { 'X' }
    else if c == 'y' { 'Y' } else if c == 'z' { 'Z' }
    else { c }
}

fn ic_eq_exec(a: &str, b: &str) -> (r: bool)
    ensures
        r == ic_eq(a@, b@),
{
    let x = chars_of(a);
    let y = chars_of(b);
    if x.len() != y.len() {
        return false;
    }
    let mut i: usize = 0;
    while i < x.len()
        invariant
            x@ == a@,
            y@ == b@,
            x@.len() == y@.len(),
            i <= x@.len(),
            forall|k: int| 0 <= k < i ==> x@[k] == y@[k] || x@[k] == upper_of(y@[k]),
        decreases x@.len() - i,
    {
        if !(x[i] == y[i] || x[i] == upper_of_exec(y[i])) {
            return false;
        }
        i += 1;
    }
    true
}

/// The fact a paragraph key names (`人物`/`character`, `动作`/`action`,
/// `台词`/`dialogue`, `道具`/`prop`, `场景`/`scene`, `情绪`/`emotion`, up to
/// ASCII case).
pub open spec fn fact_name(k: Seq<char>) -> Option<Seq<char>> {
    if ic_eq(k, "\u{4eba}\u{7269}"@) || ic_eq(k, "character"@) {
        Some("character"@)
    } else if ic_eq(k, "\u{52a8}\u{4f5c}"@) || ic_eq(k, "action"@) {
        Some("action"@)
    } else if ic_eq(k, "\u{53f0}\u{8bcd}"@) || ic_eq(k, "dialogue"@) {
        Some("dialogue"@)
    } else if ic_eq(k, "\u{9053}\u{5177}"@) || ic_eq(k, "prop"@) {
        Some("prop"@)
    } else if ic_eq(k, "\u{573a}\u{666f}"@) || ic_eq(k, "scene"@) {
        Some("scene"@)
    } else if ic_eq(k, "\u{60c5}\u{7eea}"@) || ic_eq(k, "emotion"@) {
        Some("emotion"@)
    } else {
        None
    }
}

/// The value a paragraph gives a fact: that of its last pair naming it.
pub open spec fn fact_value(ps: Seq<(Seq<char>, Seq<char>)>, t: Seq<char>) -> Option<Seq<char>>
    decreases ps.len(),
{
    if ps.len() == 0 {
        None
    } else if fact_name(ps.last().0) == Some(t) {
        Some(ps.last().1)
    } else {
        fact_value(ps.drop_last(), t)
    }
}

/// The facts of a paragraph, by fact name in sorted order.
pub open spec fn fact_names() -> Seq<Seq<char>> {
    seq!["action"@, "character"@, "dialogue"@, "emotion"@, "prop"@, "scene"@]
}

pub open spec fn facts_upto(ps: Seq<(Seq<char>, Seq<char>)>, n: int) -> Seq<(Seq<char>, Seq<char>)>
    decreases n,
{
    if n <= 0 {
        Seq::empty()
    } else {
        let p = facts_upto(ps, n - 1);
        match fact_value(ps, fact_names()[n - 1]) {
            Some(v) => p.push((fact_names()[n - 1], v)),
            None => p,
        }
    }
}

pub open spec fn spec_facts(ps: Seq<(Seq<char>, Seq<char>)>) -> Seq<(Seq<char>, Seq<char>)> {
    facts_upto(ps, 6)
}

/// A JSON object whose members are the given strings.
pub open spec fn is_string_object(j: Json, fs: Seq<(Seq<char>, Seq<char>)>) -> bool {
    match j {
        Json::Object(es) => es@.len() == fs.len() && forall|i: int| 0 <= i < fs.len() ==> {
            &&& (#[trigger] es@[i]).0@ == fs[i].0
            &&& es@[i].1 matches Json::Str(x) && x@ == fs[i].1
        },
        _ => false,
    }
}

fn fact_name_exec(k: &str) -> (r: Option<&'static str>)
    ensures
        match r {
            Some(t) => fact_name(k@) == Some(t@),
            None => fact_name(k@) is None,
        },
{
    if ic_eq_exec(k, "\u{4eba}\u{7269}") || ic_eq_exec(k, "character") {
        Some("character")
    } else if ic_eq_exec(k, "\u{52a8}\u{4f5c}") || ic_eq_exec(k, "action") {
        Some("action")
    } else if ic_eq_exec(k, "\u{53f0}\u{8bcd}") || ic_eq_exec(k, "dialogue") {
        Some("dialogue")
    } else if ic_eq_exec(k, "\u{9053}\u{5177}") || ic_eq_exec(k, "prop") {
        Some("prop")
    } else if ic_eq_exec(k, "\u{573a}\u{666f}") || ic_eq_exec(k, "scene") {
        Some("scene")
    } else if ic_eq_exec(k, "\u{60c5}\u{7eea}") || ic_eq_exec(k, "emotion") {
        Some("emotion")
    } else {
        None
    }
}

fn fact_value_exec(ps: &Vec<(String, String)>, t: &str) -> (r: Option<String>)
    ensures
        crate::blocks::opt_view(r) == fact_value(pairs_view(ps@), t@),
{
    let mut i = ps.len();
    assert(pairs_view(ps@).take(i as int) =~= pairs_view(ps@));
    while i > 0
        invariant
            i <= ps@.len(),
            fact_value(pairs_view(ps@), t@) == fact_value(pairs_view(ps@).take(i as int), t@),
        decreases i,
    {
        let ghost tk = pairs_view(ps@).take(i as int);
        assert(tk.drop_last() =~= pairs_view(ps@).take(i - 1));
        match fact_name_exec(ps[i - 1].0.as_str()) {
            Some(name) => {
                if crate::text::str_eq(name, t) {
                    return Some(ps[i - 1].1.clone());
                }
            },
            None => {},
        }
        i -= 1;
    }
    None
}

/// The facts object of a paragraph block.
fn facts_of(ps: &Vec<(String, String)>) -> (r: Json)
    ensures
        is_string_object(r, spec_facts(pairs_view(ps@))),
{
    let names: Vec<&str> = vec!["action", "character", "dialogue", "emotion", "prop", "scene"];
    assert(names@.map_values(|n: &str| n@) =~= fact_names());
    let mut es: Vec<(String, Json)> = Vec::new();
    let mut n: usize = 0;
    while n < 6
        invariant
            n <= 6,
            names@.len() == 6,
            names@.map_values(|n: &str| n@) == fact_names(),
            es@.len() == facts_upto(pairs_view(ps@), n as int).len(),
            forall|i: int| 0 <= i < es@.len() ==> {
                &&& (#[trigger] es@[i]).0@ == facts_upto(pairs_view(ps@), n as int)[i].0
                &&& es@[i].1 matches Json::Str(x) && x@ == facts_upto(pairs_view(ps@), n as int)[i].1
            },
        decreases 6 - n,
    {
        assert(names@[n as int]@ == fact_names()[n as int]);
        match fact_value_exec(ps, names[n]) {
            Some(v) => {
                es.push((names[n].to_string(), Json::Str(v)));
            },
            None => {},
        }
        n += 1;
    }
    Json::Object(es)
}

pub struct ParagraphFact {
    pub id: String,
    pub facts: Json,
}

pub struct Peak {
    pub section_id: String,
    pub kind: String,
    pub original_ref: String,
}

pub struct Buffer {
    pub section_id: String,
    pub reason: String,
}

pub struct Subtext {
    pub section_id: String,
    pub description: String,
}

pub struct EmotionMap {
    pub peaks: Vec<Peak>,
    pub buffers: Vec<Buffer>,
    pub subtexts: Vec<Subtext>,
}

pub struct V5UnitPlan {
    pub index: usize,
    pub section_refs: Vec<String>,
    pub duration_sec: usize,
    pub scene_type: String,
    pub sub_shot_count: usize,
    pub summary: String,
    pub planned_entry_state: String,
    pub planned_exit_state: String,
    pub scene_id: Option<usize>,
}

pub struct V5Analysis {
    pub paragraph_facts: Vec<ParagraphFact>,
    pub structure_type: String,
    pub emotion_map: EmotionMap,
    pub units: Vec<V5UnitPlan>,
    pub total_sec: usize,
    pub total_units: usize,
    pub warnings: Vec<String>,
}

pub struct ParagraphIndexItem {
    pub id: String,
    pub text: String,
    pub facts: Option<Json>,
}


/// The blocks of a type, in order.
pub open spec fn of_type(bs: Seq<V5BlockV>, t: Seq<char>) -> Seq<V5BlockV> {
    bs.filter(|b: V5BlockV| b.type_str == t)
}

pub open spec fn fact_matches(f: ParagraphFact, v: V5BlockV, i: int) -> bool {
    &&& f.id@ == v.id
    &&& is_string_object(f.facts, spec_facts(v.pairs))
}

pub open spec fn peak_matches(p: Peak, v: V5BlockV, i: int) -> bool {
    &&& p.section_id@ == v.id
    &&& p.kind@ == text_or(get2(v.pairs, "kind"@, "\u{7c7b}\u{578b}"@), "\u{5176}\u{4ed6}"@)
    &&& p.original_ref@ == text_or(get2(v.pairs, "originalRef"@, "\u{539f}\u{6587}\u{5f15}\u{7528}"@), Seq::empty())
}

pub open spec fn buffer_matches(p: Buffer, v: V5BlockV, i: int) -> bool {
    &&& p.section_id@ == v.id
    &&& p.reason@ == text_or(get2(v.pairs, "reason"@, "\u{539f}\u{56e0}"@), Seq::empty())
}

pub open spec fn subtext_matches(p: Subtext, v: V5BlockV, i: int) -> bool {
    &&& p.section_id@ == v.id
    &&& p.description@ == text_or(get2(v.pairs, "description"@, "\u{63cf}\u{8ff0}"@), Seq::empty())
}

/// The scene number a unit names, when it reads as a number.
pub open spec fn unit_scene_id(v: V5BlockV) -> Option<int> {
    match get2(v.pairs, "sceneId"@, "\u{573a}\u{53f7}"@) {
        Some(x) => crate::text::spec_parse_usize(x),
        None => None,
    }
}

pub open spec fn opt_int(o: Option<usize>) -> Option<int> {
    match o {
        Some(n) => Some(n as int),
        None => None,
    }
}

pub open spec fn unit_matches(u: V5UnitPlan, v: V5BlockV, i: int) -> bool {
    let f = |a: Seq<char>, b: Seq<char>| text_or(get2(v.pairs, a, b), Seq::empty());
    &&& u.index == int_or(v.id, i + 1)
    &&& strings_view(u.section_refs@) == spec_section_refs(f("sectionRefs"@, "\u{6bb5}\u{53f7}\u{5f15}\u{7528}"@))
    &&& u.duration_sec == int_or(f("durationSec"@, "\u{65f6}\u{957f}\u{79d2}"@), 13)
    &&& u.scene_type@ == spec_scene_type(f("sceneType"@, "\u{573a}\u{666f}\u{7c7b}\u{578b}"@))
    &&& u.sub_shot_count == int_or(f("subShotCount"@, "\u{5206}\u{955c}\u{6570}"@), 3)
    &&& u.summary@ == f("summary"@, "\u{6458}\u{8981}"@)
    &&& u.planned_entry_state@ == f("plannedEntryState"@, "\u{8d77}\u{5e45}\u{951a}\u{70b9}"@)
    &&& u.planned_exit_state@ == f("plannedExitState"@, "\u{843d}\u{5e45}\u{951a}\u{70b9}"@)
    &&& opt_int(u.scene_id) == unit_scene_id(v)
}

fn fact_of(b: &TypedBlock, i: usize, Ghost(v): Ghost<V5BlockV>) -> (r: ParagraphFact)
    requires
        typed_block_matches(*b, v),
    ensures
        fact_matches(r, v, i as int),
{
    ParagraphFact { id: b.id.clone(), facts: facts_of(&b.pairs) }
}

fn peak_of(b: &TypedBlock, i: usize, Ghost(v): Ghost<V5BlockV>) -> (r: Peak)
    requires
        typed_block_matches(*b, v),
    ensures
        peak_matches(r, v, i as int),
{
    proof {
        reveal_strlit("");
    }
    assert(""@ =~= Seq::<char>::empty());
    Peak {
        section_id: b.id.clone(),
        kind: text_of(lookup2(&b.pairs, "kind", "\u{7c7b}\u{578b}"), "\u{5176}\u{4ed6}"),
        original_ref: text_of(lookup2(&b.pairs, "originalRef", "\u{539f}\u{6587}\u{5f15}\u{7528}"), ""),
    }
}

fn buffer_of(b: &TypedBlock, i: usize, Ghost(v): Ghost<V5BlockV>) -> (r: Buffer)
    requires
        typed_block_matches(*b, v),
    ensures
        buffer_matches(r, v, i as int),
{
    proof {
        reveal_strlit("");
    }
    assert(""@ =~= Seq::<char>::empty());
    Buffer { section_id: b.id.clone(), reason: text_of(lookup2(&b.pairs, "reason", "\u{539f}\u{56e0}"), "") }
}

fn subtext_of(b: &TypedBlock, i: usize, Ghost(v): Ghost<V5BlockV>) -> (r: Subtext)
    requires
        typed_block_matches(*b, v),
    ensures
        subtext_matches(r, v, i as int),
{
    proof {
        reveal_strlit("");
    }
    assert(""@ =~= Seq::<char>::empty());
    Subtext { section_id: b.id.clone(), description: text_of(lookup2(&b.pairs, "description", "\u{63cf}\u{8ff0}"), "") }
}

fn unit_of(b: &TypedBlock, i: usize, Ghost(v): Ghost<V5BlockV>) -> (r: V5UnitPlan)
    requires
        typed_block_matches(*b, v),
        i < usize::MAX,
    ensures
        unit_matches(r, v, i as int),
{
    proof {
        reveal_strlit("");
    }
    assert(""@ =~= Seq::<char>::empty());
    let refs = text_of(lookup2(&b.pairs, "sectionRefs", "\u{6bb5}\u{53f7}\u{5f15}\u{7528}"), "");
    let dur = text_of(lookup2(&b.pairs, "durationSec", "\u{65f6}\u{957f}\u{79d2}"), "");
    let st = text_of(lookup2(&b.pairs, "sceneType", "\u{573a}\u{666f}\u{7c7b}\u{578b}"), "");
    let ssc = text_of(lookup2(&b.pairs, "subShotCount", "\u{5206}\u{955c}\u{6570}"), "");
    let scene_id = match lookup2(&b.pairs, "sceneId", "\u{573a}\u{53f7}") {
        Some(x) => crate::text::parse_usize(&chars_of(x.as_str())),
        None => None,
    };
    V5UnitPlan {
        index: parse_int_safe(b.id.as_str(), i + 1),
        section_refs: parse_section_refs(refs.as_str()),
        duration_sec: parse_int_safe(dur.as_str(), 13),
        scene_type: normalize_scene_type(st.as_str()),
        sub_shot_count: parse_int_safe(ssc.as_str(), 3),
        summary: text_of(lookup2(&b.pairs, "summary", "\u{6458}\u{8981}"), ""),
        planned_entry_state: text_of(lookup2(&b.pairs, "plannedEntryState", "\u{8d77}\u{5e45}\u{951a}\u{70b9}"), ""),
        planned_exit_state: text_of(lookup2(&b.pairs, "plannedExitState", "\u{843d}\u{5e45}\u{951a}\u{70b9}"), ""),
        scene_id,
    }
}

/// The warnings an analysis carries: a missing META block, no UNIT or PARA
/// blocks, and a declared unit count that differs from the actual one.
pub open spec fn spec_warnings(no_meta: bool, n_units: int, no_para: bool, declared: int) -> Seq<Seq<char>> {
    let w1: Seq<Seq<char>> = if no_meta { seq!["META block \u{7f3a}\u{5931} \u{b7} \u{7528}\u{9ed8}\u{8ba4}\u{503c}"@] } else { Seq::empty() };
    let w2: Seq<Seq<char>> = if n_units == 0 { seq!["0 UNIT blocks \u{b7} \u{5f02}\u{5e38}"@] } else { Seq::empty() };
    let w3: Seq<Seq<char>> = if no_para { seq!["0 PARA blocks \u{b7} \u{5f02}\u{5e38} (\u{6bb5}\u{843d}\u{6807}\u{6ce8}\u{4e3a}\u{7a7a})"@] } else { Seq::empty() };
    let w4: Seq<Seq<char>> = if n_units > 0 && declared > 0 && declared != n_units {
        seq!["totalUnits="@ + crate::text::decimal(declared as nat) + " \u{4f46}\u{5b9e}\u{9645} "@
            + crate::text::decimal(n_units as nat) + " \u{4e2a} UNIT \u{b7} \u{7528}\u{5b9e}\u{9645}\u{6570}"@]
    } else {
        Seq::empty()
    };
    w1 + w2 + w3 + w4
}

/// What the analysis of a planning output is.
pub open spec fn v5_analysis_spec(r: V5Analysis, md: Seq<char>) -> bool {
    let bs = spec_v5_blocks(md);
    let metas = of_type(bs, "META"@);
    let paras = of_type(bs, "PARA"@);
    let peaks = of_type(bs, "PEAK"@);
    let buffers = of_type(bs, "BUFFER"@);
    let subtexts = of_type(bs, "SUBTEXT"@);
    let units = of_type(bs, "UNIT"@);
    let meta = if metas.len() > 0 { metas[0].pairs } else { Seq::empty() };
    let declared = match get2(meta, "totalUnits"@, "\u{603b}\u{5355}\u{5143}\u{6570}"@) {
        Some(x) => int_or(x, units.len() as int),
        None => 0,
    };
    &&& r.structure_type@ == text_or(get2(meta, "structureType"@, "\u{7ed3}\u{6784}\u{7c7b}\u{578b}"@), "linear"@)
    &&& r.total_sec == (match get2(meta, "totalSec"@, "\u{603b}\u{65f6}\u{957f}"@) {
        Some(x) => int_or(x, 0),
        None => 0,
    })
    &&& r.paragraph_facts@.len() == paras.len()
    &&& (forall|i: int| 0 <= i < paras.len() ==> fact_matches(#[trigger] r.paragraph_facts@[i], paras[i], i))
    &&& r.emotion_map.peaks@.len() == peaks.len()
    &&& (forall|i: int| 0 <= i < peaks.len() ==> peak_matches(#[trigger] r.emotion_map.peaks@[i], peaks[i], i))
    &&& r.emotion_map.buffers@.len() == buffers.len()
    &&& (forall|i: int| 0 <= i < buffers.len() ==> buffer_matches(#[trigger] r.emotion_map.buffers@[i], buffers[i], i))
    &&& r.emotion_map.subtexts@.len() == subtexts.len()
    &&& (forall|i: int| 0 <= i < subtexts.len() ==> subtext_matches(#[trigger] r.emotion_map.subtexts@[i], subtexts[i], i))
    &&& r.units@.len() == units.len()
    &&& (forall|i: int| 0 <= i < units.len() ==> unit_matches(#[trigger] r.units@[i], units[i], i))
    &&& r.total_units == (if units.len() == 0 { declared } else { units.len() as int })
    &&& strings_view(r.warnings@) == spec_warnings(metas.len() == 0, units.len() as int, paras.len() == 0, declared)
}

fn first_of_type(blocks: &Vec<TypedBlock>, t: &str, Ghost(bs): Ghost<Seq<V5BlockV>>) -> (r: Option<usize>)
    requires
        blocks@.len() == bs.len(),
        forall|i: int| 0 <= i < bs.len() ==> typed_block_matches(#[trigger] blocks@[i], bs[i]),
    ensures
        match r {
            Some(i) => i < bs.len() && of_type(bs, t@).len() > 0 && of_type(bs, t@)[0] == bs[i as int],
            None => of_type(bs, t@).len() == 0,
        },
{
    let ghost pred = |b: V5BlockV| b.type_str == t@;
    let mut k: usize = 0;
    while k < blocks.len()
        invariant
            k <= blocks@.len(),
            blocks@.len() == bs.len(),
            pred == (|b: V5BlockV| b.type_str == t@),
            forall|i: int| 0 <= i < bs.len() ==> typed_block_matches(#[trigger] blocks@[i], bs[i]),
            bs.take(k as int).filter(pred).len() == 0,
        decreases blocks@.len() - k,
    {
        proof {
            reveal_with_fuel(Seq::filter, 1);
            assert(bs.take(k + 1).drop_last() =~= bs.take(k as int));
        }
        assert(typed_block_matches(blocks@[k as int], bs[k as int]));
        if crate::text::str_eq(blocks[k].type_str.as_str(), t) {
            proof {
                crate::blocks::lemma_filter_prefix(bs, pred, k + 1);
                assert(bs.take(k + 1).filter(pred) == seq![bs[k as int]]);
                assert(of_type(bs, t@) == bs.filter(pred));
                assert(bs.take(k + 1).filter(pred)[0] == bs.filter(pred)[0]);
            }
            return Some(k);
        }
        k += 1;
    }
    assert(bs.take(k as int) =~= bs);
    assert(of_type(bs, t@) == bs.filter(pred));
    None
}

/// `parse_v5_analysis`: the analysis (structure, paragraph facts, emotion
/// map, unit plans) read from the analysis phase's markdown.
pub fn parse_v5_analysis(markdown: &str) -> (r: V5Analysis)
    ensures
        v5_analysis_spec(r, markdown@),
{
    let blocks = parse_v5_blocks(markdown);
    let ghost bs = spec_v5_blocks(markdown@);
    let mut paragraph_facts: Vec<ParagraphFact> = Vec::new();
    {
        let ghost pred = |b: V5BlockV| b.type_str == "PARA"@;
        let mut k: usize = 0;
        while k < blocks.len()
            invariant
                k <= blocks@.len(),
                blocks@.len() == bs.len(),
                pred == (|b: V5BlockV| b.type_str == "PARA"@),
                forall|i: int| 0 <= i < bs.len() ==> typed_block_matches(#[trigger] blocks@[i], bs[i]),
                paragraph_facts@.len() == bs.take(k as int).filter(pred).len(),
                paragraph_facts@.len() <= k,
                forall|i: int| 0 <= i < paragraph_facts@.len() ==> fact_matches(#[trigger] paragraph_facts@[i], bs.take(k as int).filter(pred)[i], i),
            decreases blocks@.len() - k,
        {
            proof {
                reveal_with_fuel(Seq::filter, 1);
                assert(bs.take(k + 1).drop_last() =~= bs.take(k as int));
                assert(bs.take(k + 1).last() == bs[k as int]);
            }
            let b = &blocks[k];
            let ghost v = bs[k as int];
            assert(typed_block_matches(*b, v));
            if crate::text::str_eq(b.type_str.as_str(), "PARA") {
                let i = paragraph_facts.len();
                let o = fact_of(b, i, Ghost(v));
                paragraph_facts.push(o);
            }
            k += 1;
        }
        assert(bs.take(k as int) =~= bs);
    }
    let mut peaks: Vec<Peak> = Vec::new();
    {
        let ghost pred = |b: V5BlockV| b.type_str == "PEAK"@;
        let mut k: usize = 0;
        while k < blocks.len()
            invariant
                k <= blocks@.len(),
                blocks@.len() == bs.len(),
                pred == (|b: V5BlockV| b.type_str == "PEAK"@),
                forall|i: int| 0 <= i < bs.len() ==> typed_block_matches(#[trigger] blocks@[i], bs[i]),
                peaks@.len() == bs.take(k as int).filter(pred).len(),
                peaks@.len() <= k,
                forall|i: int| 0 <= i < peaks@.len() ==> peak_matches(#[trigger] peaks@[i], bs.take(k as int).filter(pred)[i], i),
            decreases blocks@.len() - k,
        {
            proof {
                reveal_with_fuel(Seq::filter, 1);
                assert(bs.take(k + 1).drop_last() =~= bs.take(k as int));
                assert(bs.take(k + 1).last() == bs[k as int]);
            }
            let b = &blocks[k];
            let ghost v = bs[k as int];
            assert(typed_block_matches(*b, v));
            if crate::text::str_eq(b.type_str.as_str(), "PEAK") {
                let i = peaks.len();
                let o = peak_of(b, i, Ghost(v));
                peaks.push(o);
            }
            k += 1;
        }
        assert(bs.take(k as int) =~= bs);
    }
    let mut buffers: Vec<Buffer> = Vec::new();
    {
        let ghost pred = |b: V5BlockV| b.type_str == "BUFFER"@;
        let mut k: usize = 0;
        while k < blocks.len()
            invariant
                k <= blocks@.len(),
                blocks@.len() == bs.len(),
                pred == (|b: V5BlockV| b.type_str == "BUFFER"@),
                forall|i: int| 0 <= i < bs.len() ==> typed_block_matches(#[trigger] blocks@[i], bs[i]),
                buffers@.len() == bs.take(k as int).filter(pred).len(),
                buffers@.len() <= k,
                forall|i: int| 0 <= i < buffers@.len() ==> buffer_matches(#[trigger] buffers@[i], bs.take(k as int).filter(pred)[i], i),
            decreases blocks@.len() - k,
        {
            proof {
                reveal_with_fuel(Seq::filter, 1);
                assert(bs.take(k + 1).drop_last() =~= bs.take(k as int));
                assert(bs.take(k + 1).last() == bs[k as int]);
            }
            let b = &blocks[k];
            let ghost v = bs[k as int];
            assert(typed_block_matches(*b, v));
            if crate::text::str_eq(b.type_str.as_str(), "BUFFER") {
                let i = buffers.len();
                let o = buffer_of(b, i, Ghost(v));
                buffers.push(o);
            }
            k += 1;
        }
        assert(bs.take(k as int) =~= bs);
    }
    let mut subtexts: Vec<Subtext> = Vec::new();
    {
        let ghost pred = |b: V5BlockV| b.type_str == "SUBTEXT"@;
        let mut k: usize = 0;
        while k < blocks.len()
            invariant
                k <= blocks@.len(),
                blocks@.len() == bs.len(),
                pred == (|b: V5BlockV| b.type_str == "SUBTEXT"@),
                forall|i: int| 0 <= i < bs.len() ==> typed_block_matches(#[trigger] blocks@[i], bs[i]),
                subtexts@.len() == bs.take(k as int).filter(pred).len(),
                subtexts@.len() <= k,
                forall|i: int| 0 <= i < subtexts@.len() ==> subtext_matches(#[trigger] subtexts@[i], bs.take(k as int).filter(pred)[i], i),
            decreases blocks@.len() - k,
        {
            proof {
                reveal_with_fuel(Seq::filter, 1);
                assert(bs.take(k + 1).drop_last() =~= bs.take(k as int));
                assert(bs.take(k + 1).last() == bs[k as int]);
            }
            let b = &blocks[k];
            let ghost v = bs[k as int];
            assert(typed_block_matches(*b, v));
            if crate::text::str_eq(b.type_str.as_str(), "SUBTEXT") {
                let i = subtexts.len();
                let o = subtext_of(b, i, Ghost(v));
                subtexts.push(o);
            }
            k += 1;
        }
        assert(bs.take(k as int) =~= bs);
    }
    let mut units: Vec<V5UnitPlan> = Vec::new();
    {
        let ghost pred = |b: V5BlockV| b.type_str == "UNIT"@;
        let mut k: usize = 0;
        while k < blocks.len()
            invariant
                k <= blocks@.len(),
                blocks@.len() == bs.len(),
                pred == (|b: V5BlockV| b.type_str == "UNIT"@),
                forall|i: int| 0 <= i < bs.len() ==> typed_block_matches(#[trigger] blocks@[i], bs[i]),
                units@.len() == bs.take(k as int).filter(pred).len(),
                units@.len() <= k,
                forall|i: int| 0 <= i < units@.len() ==> unit_matches(#[trigger] units@[i], bs.take(k as int).filter(pred)[i], i),
            decreases blocks@.len() - k,
        {
            proof {
                reveal_with_fuel(Seq::filter, 1);
                assert(bs.take(k + 1).drop_last() =~= bs.take(k as int));
                assert(bs.take(k + 1).last() == bs[k as int]);
            }
            let b = &blocks[k];
            let ghost v = bs[k as int];
            assert(typed_block_matches(*b, v));
            if crate::text::str_eq(b.type_str.as_str(), "UNIT") {
                let i = units.len();
                let o = unit_of(b, i, Ghost(v));
                units.push(o);
            }
            k += 1;
        }
        assert(bs.take(k as int) =~= bs);
    }
    let meta_at = first_of_type(&blocks, "META", Ghost(bs));
    let empty: Vec<(String, String)> = Vec::new();
    let meta: &Vec<(String, String)> = match meta_at {
        Some(m) => {
            assert(typed_block_matches(blocks@[m as int], bs[m as int]));
            &blocks[m].pairs
        },
        None => &empty,
    };
    let ghost mv = if of_type(bs, "META"@).len() > 0 { of_type(bs, "META"@)[0].pairs } else { Seq::empty() };
    assert(pairs_view(meta@) == mv) by {
        if meta_at is None {
            assert(pairs_view(empty@) =~= Seq::<(Seq<char>, Seq<char>)>::empty());
        }
    }
    let structure_type = text_of(lookup2(meta, "structureType", "\u{7ed3}\u{6784}\u{7c7b}\u{578b}"), "linear");
    let total_sec = match lookup2(meta, "totalSec", "\u{603b}\u{65f6}\u{957f}") {
        Some(x) => parse_int_safe(x.as_str(), 0),
        None => 0,
    };
    let declared = match lookup2(meta, "totalUnits", "\u{603b}\u{5355}\u{5143}\u{6570}") {
        Some(x) => parse_int_safe(x.as_str(), units.len()),
        None => 0,
    };
    let mut warnings: Vec<String> = Vec::new();
    let ghost w0: Seq<Seq<char>> = Seq::empty();
    if meta_at.is_none() {
        warnings.push("META block \u{7f3a}\u{5931} \u{b7} \u{7528}\u{9ed8}\u{8ba4}\u{503c}".to_string());
    }
    if units.len() == 0 {
        warnings.push("0 UNIT blocks \u{b7} \u{5f02}\u{5e38}".to_string());
    }
    if paragraph_facts.len() == 0 {
        warnings.push("0 PARA blocks \u{b7} \u{5f02}\u{5e38} (\u{6bb5}\u{843d}\u{6807}\u{6ce8}\u{4e3a}\u{7a7a})".to_string());
    }
    if units.len() > 0 && declared > 0 && declared != units.len() {
        let mut msg = chars_of("totalUnits=");
        crate::text::append_chars(&mut msg, &crate::text::decimal_chars(declared as u64));
        crate::text::append_chars(&mut msg, &chars_of(" \u{4f46}\u{5b9e}\u{9645} "));
        crate::text::append_chars(&mut msg, &crate::text::decimal_chars(units.len() as u64));
        crate::text::append_chars(&mut msg, &chars_of(" \u{4e2a} UNIT \u{b7} \u{7528}\u{5b9e}\u{9645}\u{6570}"));
        warnings.push(string_of(&msg));
    }
    assert(strings_view(warnings@) =~= spec_warnings(meta_at is None, units@.len() as int, paragraph_facts@.len() == 0, declared as int));
    let total_units = if units.len() == 0 { declared } else { units.len() };
    V5Analysis {
        paragraph_facts,
        structure_type,
        emotion_map: EmotionMap { peaks, buffers, subtexts },
        units,
        total_sec,
        total_units,
        warnings,
    }
}

/// `merge_v5_analysis`: the analysis as it was parsed. (The paragraph index
/// sent by the caller, with the facts joined to it, is not part of the
/// result.)
pub fn merge_v5_analysis(parsed: V5Analysis, server_paragraph_index: Vec<ParagraphIndexItem>) -> (r: V5Analysis)
    ensures
        r == parsed,
{
    parsed
}

} // verus!
