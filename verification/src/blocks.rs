//! Splitting model output in markdown into typed blocks: a `## TYPE [ID]`
//! header, `key: value` lines, and after a `---` (or `—`) line a free body.
use vstd::prelude::*;
use crate::strmap::StrMap;
use crate::text::{
    chars_of, copy_range, is_ws, is_whitespace, join_lines, join_nl, lead_from, lead_index,
    lemma_lead_from_bounds, lines, spec_lines, string_of, trim, trim_chars,
};

verus! {

/// A header line: `## ` or `##` and a tab at its start.
pub open spec fn is_block_header(l: Seq<char>) -> bool {
    l.len() >= 3 && l[0] == '#' && l[1] == '#' && (l[2] == ' ' || l[2] == '\t')
}

/// Indices of the header lines among the first `n`: each starts a segment.
/// Lines before the first header belong to no segment.
pub open spec fn starts_upto(ls: Seq<Seq<char>>, n: int) -> Seq<int>
    decreases n,
{
    if n <= 0 {
        Seq::empty()
    } else {
        let p = starts_upto(ls, n - 1);
        if is_block_header(ls[n - 1]) {
            p.push(n - 1)
        } else {
            p
        }
    }
}

pub open spec fn seg_starts(ls: Seq<Seq<char>>) -> Seq<int> {
    starts_upto(ls, ls.len() as int)
}

/// End (exclusive) of segment `j`: the start of the next one, or the end.
pub open spec fn seg_end(ls: Seq<Seq<char>>, st: Seq<int>, j: int) -> int {
    if j + 1 < st.len() {
        st[j + 1]
    } else {
        ls.len() as int
    }
}

/// The trimmed text of each segment.
pub open spec fn seg_texts(ls: Seq<Seq<char>>) -> Seq<Seq<char>> {
    let st = seg_starts(ls);
    Seq::new(st.len(), |j: int| trim(join_nl(ls.subrange(st[j], seg_end(ls, st, j)))))
}

/// Index of the first `'#'`-free char at or after `i`.
pub open spec fn hashes_end(s: Seq<char>, i: int) -> int
    decreases s.len() - i,
{
    if 0 <= i < s.len() && s[i] == '#' {
        hashes_end(s, i + 1)
    } else {
        i
    }
}

/// Index of the first white-space char at or after `i`, or the length.
pub open spec fn ws_from(s: Seq<char>, i: int) -> int
    decreases s.len() - i,
{
    if 0 <= i < s.len() && !is_ws(s[i]) {
        ws_from(s, i + 1)
    } else {
        i
    }
}

/// The header without its leading `#`s, trimmed.
pub open spec fn header_core(h: Seq<char>) -> Seq<char> {
    trim(h.subrange(hashes_end(h, 0), h.len() as int))
}

/// Type and id of a header: the text up to the first white space, and the
/// trimmed rest after it.
pub open spec fn header_parts(h: Seq<char>) -> (Seq<char>, Seq<char>) {
    let c = header_core(h);
    let w = ws_from(c, 0);
    if w < c.len() {
        (c.subrange(0, w), trim(c.subrange(w + 1, c.len() as int)))
    } else {
        (c, Seq::empty())
    }
}

pub open spec fn starts_with3(t: Seq<char>, a: char, b: char, c: char) -> bool {
    t.len() >= 3 && t[0] == a && t[1] == b && t[2] == c
}

/// A line that ends the key-value part of a block: `---` or `—` at its start
/// once trimmed.
pub open spec fn is_body_separator(l: Seq<char>) -> bool {
    let t = trim(l);
    starts_with3(t, '-', '-', '-') || (t.len() >= 1 && t[0] == '\u{2014}')
}

/// Index of the first separator line at or after `i`, or the length.
pub open spec fn sep_from(ls: Seq<Seq<char>>, i: int) -> int
    decreases ls.len() - i,
{
    if 0 <= i < ls.len() && !is_body_separator(ls[i]) {
        sep_from(ls, i + 1)
    } else {
        i
    }
}

/// Index of the first char equal to `c` at or after `i`, or the length.
pub open spec fn char_from(s: Seq<char>, c: char, i: int) -> int
    decreases s.len() - i,
{
    if 0 <= i < s.len() && s[i] != c {
        char_from(s, c, i + 1)
    } else {
        i
    }
}

/// A key-value line is skipped: blank, or `---`, `===` or `—` at its start.
pub open spec fn kv_skipped(t: Seq<char>) -> bool {
    t.len() == 0 || starts_with3(t, '-', '-', '-') || starts_with3(t, '=', '=', '=') || t[0]
        == '\u{2014}'
}

/// Where a key-value line splits: its first `:`, or, when it has none, its
/// first full-width `：`.
pub open spec fn kv_split(t: Seq<char>) -> int {
    if char_from(t, ':', 0) < t.len() {
        char_from(t, ':', 0)
    } else {
        char_from(t, '\u{ff1a}', 0)
    }
}

/// The key and value a line gives: split at its first `:` (else its first
/// `：`), both sides trimmed, the key not empty.
pub open spec fn spec_kv(l: Seq<char>) -> Option<(Seq<char>, Seq<char>)> {
    let t = trim(l);
    let c = kv_split(t);
    if kv_skipped(t) || c >= t.len() {
        None
    } else {
        let key = trim(t.subrange(0, c));
        let value = trim(t.subrange(c + 1, t.len() as int));
        if key.len() == 0 {
            None
        } else {
            Some((key, value))
        }
    }
}

/// The value that the key-value lines give to `k`: that of its last line.
pub open spec fn fields_get(kv: Seq<Seq<char>>, k: Seq<char>) -> Option<Seq<char>>
    decreases kv.len(),
{
    if kv.len() == 0 {
        None
    } else {
        match spec_kv(kv.last()) {
            Some((key, value)) if key == k => Some(value),
            _ => fields_get(kv.drop_last(), k),
        }
    }
}

/// What a block is made of.
pub struct BlockV {
    pub type_str: Seq<char>,
    pub id: Seq<char>,
    pub kv: Seq<Seq<char>>,
    pub raw: Seq<char>,
    pub body: Seq<char>,
}

/// The block of a (non-empty, trimmed) segment text.
pub open spec fn spec_single_block(text: Seq<char>) -> BlockV {
    let ls = spec_lines(text);
    let hp = header_parts(trim(ls[0]));
    let rest = ls.subrange(1, ls.len() as int);
    let sep = sep_from(rest, 0);
    let body_lines = if sep < rest.len() {
        rest.subrange(sep + 1, rest.len() as int)
    } else {
        Seq::empty()
    };
    BlockV {
        type_str: hp.0,
        id: hp.1,
        kv: rest.subrange(0, sep),
        raw: text,
        body: trim(join_nl(body_lines)),
    }
}

/// The blocks of a markdown text, in order.
pub open spec fn spec_typed_blocks(md: Seq<char>) -> Seq<BlockV> {
    seg_texts(spec_lines(md)).filter(|t: Seq<char>| t.len() > 0).map_values(
        |t: Seq<char>| spec_single_block(t),
    )
}

/// A parsed markdown block: `## TYPE [ID]` followed by `key: value` lines.
pub struct Block {
    pub type_str: String,
    pub id: String,
    pub fields: StrMap<String>,
    pub raw: String,
    pub body: String,
}

pub open spec fn opt_view(o: Option<String>) -> Option<Seq<char>> {
    match o {
        Some(s) => Some(s@),
        None => None,
    }
}

/// The block holds what `v` describes.
pub open spec fn block_matches(b: Block, v: BlockV) -> bool {
    &&& b.type_str@ == v.type_str
    &&& b.id@ == v.id
    &&& b.raw@ == v.raw
    &&& b.body@ == v.body
    &&& forall|k: Seq<char>| #[trigger] opt_view(b.fields.get_spec(k)) == fields_get(v.kv, k)
}


pub proof fn lemma_hashes_end(s: Seq<char>, i: int)
    requires
        0 <= i <= s.len(),
    ensures
        i <= hashes_end(s, i) <= s.len(),
    decreases s.len() - i,
{
    if i < s.len() && s[i] == '#' {
        lemma_hashes_end(s, i + 1);
    }
}

proof fn lemma_ws_from(s: Seq<char>, i: int)
    requires
        0 <= i <= s.len(),
    ensures
        i <= ws_from(s, i) <= s.len(),
    decreases s.len() - i,
{
    if i < s.len() && !is_ws(s[i]) {
        lemma_ws_from(s, i + 1);
    }
}

pub proof fn lemma_char_from(s: Seq<char>, c: char, i: int)
    requires
        0 <= i <= s.len(),
    ensures
        i <= char_from(s, c, i) <= s.len(),
        char_from(s, c, i) < s.len() ==> s[char_from(s, c, i)] == c,
    decreases s.len() - i,
{
    if i < s.len() && s[i] != c {
        lemma_char_from(s, c, i + 1);
    }
}

proof fn lemma_sep_from(ls: Seq<Seq<char>>, i: int)
    requires
        0 <= i <= ls.len(),
    ensures
        i <= sep_from(ls, i) <= ls.len(),
    decreases ls.len() - i,
{
    if i < ls.len() && !is_body_separator(ls[i]) {
        lemma_sep_from(ls, i + 1);
    }
}

pub fn char_index(s: &[char], c: char, i: usize) -> (r: usize)
    requires
        i <= s@.len(),
    ensures
        r == char_from(s@, c, i as int),
        i <= r <= s@.len(),
{
    proof {
        lemma_char_from(s@, c, i as int);
    }
    let mut k = i;
    while k < s.len() && s[k] != c
        invariant
            i <= k <= s@.len(),
            char_from(s@, c, k as int) == char_from(s@, c, i as int),
        decreases s@.len() - k,
    {
        k += 1;
    }
    k
}

/// Type and id of a header line.
pub fn parse_header(h: &[char]) -> (r: (Vec<char>, Vec<char>))
    ensures
        r.0@ == header_parts(h@).0,
        r.1@ == header_parts(h@).1,
{
    proof {
        lemma_hashes_end(h@, 0);
    }
    let mut i: usize = 0;
    while i < h.len() && h[i] == '#'
        invariant
            i <= h@.len(),
            hashes_end(h@, i as int) == hashes_end(h@, 0),
        decreases h@.len() - i,
    {
        i += 1;
    }
    let c = trim_chars(&copy_range(h, i, h.len()));
    proof {
        lemma_ws_from(c@, 0);
    }
    let mut w: usize = 0;
    while w < c.len() && !is_whitespace(c[w])
        invariant
            w <= c@.len(),
            ws_from(c@, w as int) == ws_from(c@, 0),
        decreases c@.len() - w,
    {
        w += 1;
    }
    if w < c.len() {
        let t = copy_range(&c, 0, w);
        let id = trim_chars(&copy_range(&c, w + 1, c.len()));
        (t, id)
    } else {
        (c, Vec::new())
    }
}

fn starts3(t: &[char], a: char, b: char, c: char) -> (r: bool)
    ensures
        r == starts_with3(t@, a, b, c),
{
    t.len() >= 3 && t[0] == a && t[1] == b && t[2] == c
}

fn is_separator_line(l: &[char]) -> (r: bool)
    ensures
        r == is_body_separator(l@),
{
    let t = trim_chars(l);
    starts3(&t, '-', '-', '-') || (t.len() >= 1 && t[0] == '\u{2014}')
}

/// The key and value of a `key: value` line.
fn parse_kv_line(l: &[char]) -> (r: Option<(Vec<char>, Vec<char>)>)
    ensures
        match r {
            Some((k, v)) => spec_kv(l@) == Some((k@, v@)),
            None => spec_kv(l@) is None,
        },
{
    let t = trim_chars(l);
    if t.len() == 0 || starts3(&t, '-', '-', '-') || starts3(&t, '=', '=', '=') || t[0] == '\u{2014}' {
        return None;
    }
    let colon = char_index(&t, ':', 0);
    let c = if colon < t.len() { colon } else { char_index(&t, '\u{ff1a}', 0) };
    if c >= t.len() {
        return None;
    }
    let key = trim_chars(&copy_range(&t, 0, c));
    let value = trim_chars(&copy_range(&t, c + 1, t.len()));
    if key.len() == 0 {
        return None;
    }
    Some((key, value))
}

proof fn lemma_lines_nonempty(s: Seq<char>)
    requires
        s.len() > 0,
    ensures
        spec_lines(s).len() > 0,
{
    crate::text::lemma_nl_from(s, 0);
}

/// The block of a non-empty segment text.
fn parse_single_block(text: &[char]) -> (r: Block)
    requires
        text@.len() > 0,
    ensures
        block_matches(r, spec_single_block(text@)),
{
    let ls = lines(text);
    let ghost lv = ls@.map_values(|l: Vec<char>| l@);
    proof {
        lemma_lines_nonempty(text@);
    }
    assert(lv.len() > 0);
    let header = trim_chars(&ls[0]);
    assert(header@ == trim(lv[0]));
    let (type_str, id) = parse_header(&header);
    let ghost rest = lv.subrange(1, lv.len() as int);
    proof {
        lemma_sep_from(rest, 0);
    }
    let mut sep: usize = 1;
    while sep < ls.len() && !is_separator_line(&ls[sep])
        invariant
            1 <= sep <= ls@.len(),
            lv == ls@.map_values(|l: Vec<char>| l@),
            rest == lv.subrange(1, lv.len() as int),
            sep_from(rest, (sep - 1) as int) == sep_from(rest, 0),
        decreases ls@.len() - sep,
    {
        assert(rest[sep - 1] == ls@[sep as int]@);
        sep += 1;
    }
    let ghost sv = spec_single_block(text@);
    assert(sep - 1 == sep_from(rest, 0)) by {
        if sep < ls.len() {
            assert(rest[sep - 1] == ls@[sep as int]@);
        }
    }
    let mut fields: StrMap<String> = StrMap::new();
    let mut i: usize = 1;
    while i < sep
        invariant
            1 <= i <= sep <= ls@.len(),
            lv == ls@.map_values(|l: Vec<char>| l@),
            sv == spec_single_block(text@),
            sv.kv == rest.subrange(0, (sep - 1) as int),
            rest == lv.subrange(1, lv.len() as int),
            forall|k: Seq<char>| #[trigger] opt_view(fields.get_spec(k)) == fields_get(
                sv.kv.take((i - 1) as int),
                k,
            ),
        decreases sep - i,
    {
        assert(sv.kv[i - 1] == ls@[i as int]@);
        let kvr = parse_kv_line(&ls[i]);
        let ghost prev = fields;
        assert(sv.kv.take(i as int).drop_last() =~= sv.kv.take((i - 1) as int));
        assert(sv.kv.take(i as int).last() == ls@[i as int]@);
        match kvr {
            Some((k, v)) => {
                let ks = string_of(&k);
                let vs = string_of(&v);
                fields.insert(ks, vs);
                proof {
                    assert forall|k2: Seq<char>| #[trigger] opt_view(fields.get_spec(k2)) == fields_get(
                        sv.kv.take(i as int),
                        k2,
                    ) by {
                        if k2 != k@ {
                            assert(opt_view(prev.get_spec(k2)) == fields_get(sv.kv.take((i - 1) as int), k2));
                        }
                    }
                }
            },
            None => {
                proof {
                    assert forall|k2: Seq<char>| #[trigger] opt_view(fields.get_spec(k2)) == fields_get(
                        sv.kv.take(i as int),
                        k2,
                    ) by {
                        assert(opt_view(prev.get_spec(k2)) == fields_get(sv.kv.take((i - 1) as int), k2));
                    }
                }
            },
        }
        i += 1;
    }
    assert(sv.kv.take((sep - 1) as int) =~= sv.kv);
    let body = if sep < ls.len() {
        let j = join_lines(&ls, sep + 1, ls.len());
        assert(ls@.subrange(sep + 1, ls@.len() as int).map_values(|l: Vec<char>| l@) =~= rest.subrange(
            sep as int,
            rest.len() as int,
        ));
        trim_chars(&j)
    } else {
        assert(join_nl(Seq::<Seq<char>>::empty()) =~= Seq::<char>::empty());
        let e: Vec<char> = Vec::new();
        assert(trim(e@) =~= Seq::<char>::empty()) by {
            assert(e@.subrange(0, 0) =~= Seq::<char>::empty());
        }
        e
    };
    Block {
        type_str: string_of(&type_str),
        id: string_of(&id),
        fields,
        raw: string_of(text),
        body: string_of(&body),
    }
}


/// Filtering a prefix gives a prefix of the filtered sequence.
pub proof fn lemma_filter_prefix<A>(s: Seq<A>, p: spec_fn(A) -> bool, j: int)
    requires
        0 <= j <= s.len(),
    ensures
        s.take(j).filter(p).len() <= s.filter(p).len(),
        forall|k: int| 0 <= k < s.take(j).filter(p).len() ==> #[trigger] s.take(j).filter(p)[k]
            == s.filter(p)[k],
    decreases s.len(),
{
    reveal_with_fuel(Seq::filter, 1);
    if j < s.len() {
        let s2 = s.drop_last();
        assert(s.take(j) =~= s2.take(j));
        lemma_filter_prefix(s2, p, j);
        assert(s2 =~= s.drop_last());
        if p(s.last()) {
            assert(s.filter(p) == s2.filter(p).push(s.last()));
        } else {
            assert(s.filter(p) == s2.filter(p));
        }
    } else {
        assert(s.take(j) =~= s);
    }
}

proof fn lemma_starts_upto(ls: Seq<Seq<char>>, n: int)
    requires
        0 <= n <= ls.len(),
    ensures
        forall|k: int| 0 <= k < starts_upto(ls, n).len() ==> 0 <= #[trigger] starts_upto(ls, n)[k] < n,
        forall|k: int, m: int| 0 <= k < m < starts_upto(ls, n).len() ==> starts_upto(ls, n)[k] < starts_upto(ls, n)[m],
    decreases n,
{
    if n > 0 {
        lemma_starts_upto(ls, n - 1);
        let p = starts_upto(ls, n - 1);
        if is_block_header(ls[n - 1]) {
            let q = p.push(n - 1);
            assert(starts_upto(ls, n) == q);
            assert forall|k: int| 0 <= k < q.len() implies 0 <= #[trigger] q[k] < n by {
                if k < p.len() {
                    assert(q[k] == p[k]);
                }
            }
            assert forall|k: int, m: int| 0 <= k < m < q.len() implies q[k] < q[m] by {
                assert(q[k] == p[k]);
                if m < p.len() {
                    assert(q[m] == p[m]);
                }
            }
        }
    }
}

/// Parse markdown into typed blocks.
pub fn parse_typed_blocks(markdown: &str) -> (r: Vec<Block>)
    ensures
        r@.len() == spec_typed_blocks(markdown@).len(),
        forall|i: int| 0 <= i < r@.len() ==> block_matches(#[trigger] r@[i], spec_typed_blocks(markdown@)[i]),
{
    let s = chars_of(markdown);
    let ls = lines(&s);
    let ghost lv = ls@.map_values(|l: Vec<char>| l@);
    assert(lv == spec_lines(markdown@));
    let mut starts: Vec<usize> = Vec::new();
    let mut i: usize = 0;
    while i < ls.len()
        invariant
            i <= ls@.len(),
            lv == ls@.map_values(|l: Vec<char>| l@),
            starts@.len() == starts_upto(lv, i as int).len(),
            forall|k: int| 0 <= k < starts@.len() ==> #[trigger] starts@[k] as int == starts_upto(lv, i as int)[k],
        decreases ls@.len() - i,
    {
        let l = &ls[i];
        assert(l@ == lv[i as int]);
        if l.len() >= 3 && l[0] == '#' && l[1] == '#' && (l[2] == ' ' || l[2] == '\t') {
            starts.push(i);
        }
        i += 1;
    }
    let ghost st = seg_starts(lv);
    proof {
        lemma_starts_upto(lv, lv.len() as int);
    }
    let ghost texts = seg_texts(lv);
    let ghost pred = |t: Seq<char>| t.len() > 0;
    let mut out: Vec<Block> = Vec::new();
    let mut j: usize = 0;
    while j < starts.len()
        invariant
            j <= starts@.len(),
            lv == ls@.map_values(|l: Vec<char>| l@),
            lv == spec_lines(markdown@),
            st == seg_starts(lv),
            texts == seg_texts(lv),
            pred == (|t: Seq<char>| t.len() > 0),
            starts@.len() == st.len(),
            forall|k: int| 0 <= k < starts@.len() ==> #[trigger] starts@[k] as int == st[k],
            forall|k: int| 0 <= k < st.len() ==> 0 <= #[trigger] st[k] < lv.len(),
            forall|k: int, m: int| 0 <= k < m < st.len() ==> st[k] < st[m],
            out@.len() == texts.take(j as int).filter(pred).len(),
            forall|k: int| 0 <= k < out@.len() ==> block_matches(#[trigger] out@[k], spec_single_block(texts.take(j as int).filter(pred)[k])),
        decreases starts@.len() - j,
    {
        let a = starts[j];
        let b = if j + 1 < starts.len() { starts[j + 1] } else { ls.len() };
        assert(b as int == seg_end(lv, st, j as int));
        let joined = join_lines(&ls, a, b);
        assert(ls@.subrange(a as int, b as int).map_values(|l: Vec<char>| l@) =~= lv.subrange(a as int, b as int));
        let text = trim_chars(&joined);
        assert(text@ == texts[j as int]);
        proof {
            reveal_with_fuel(Seq::filter, 1);
            assert(texts.take(j + 1).drop_last() =~= texts.take(j as int));
            assert(texts.take(j + 1).last() == texts[j as int]);
        }
        if text.len() > 0 {
            proof {
                let f = texts.take(j + 1).filter(pred);
                assert(f == texts.take(j as int).filter(pred).push(text@));
                lemma_filter_prefix(texts, pred, j + 1);
                assert(texts.take(texts.len() as int) =~= texts);
                let idx = out@.len() as int;
                assert(f[idx] == text@);
                assert(texts.filter(pred)[idx] == text@);
                assert(spec_typed_blocks(markdown@)[idx] == spec_single_block(text@));
            }
            let blk = parse_single_block(&text);
            out.push(blk);
        }
        j += 1;
    }
    proof {
        assert(texts.take(j as int) =~= texts);
    }
    out
}

} // verus!
