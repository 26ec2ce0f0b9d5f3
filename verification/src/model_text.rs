//! Cleaning model output before it is read: code fences and `<think>` blocks
//! come out, and the text is trimmed.
use vstd::prelude::*;
use crate::text::{
    chars_of, string_of, trim, trim_chars, spaces_end, spaces_end_index, lemma_spaces_end,
    occurs_at, occurs_at_exec,
};

verus! {

/// A line starts at `p`: the text's start, or just after a `'\n'`.
pub open spec fn line_start(s: Seq<char>, p: int) -> bool {
    p == 0 || (0 < p <= s.len() && s[p - 1] == '\n')
}

/// A line ends at `p`: the text's end, or just before a `'\n'`.
pub open spec fn line_end(s: Seq<char>, p: int) -> bool {
    p == s.len() || (0 <= p < s.len() && s[p] == '\n')
}

/// The largest `e` in `lo..=hi` where a line ends, or -1.
pub open spec fn last_line_end(s: Seq<char>, lo: int, hi: int) -> int
    decreases hi - lo + 1,
{
    if hi < lo {
        -1
    } else if line_end(s, hi) {
        hi
    } else {
        last_line_end(s, lo, hi - 1)
    }
}

/// The end of the fence line that starts at `p`, or -1: optional space (which
/// may run over line breaks), three backticks, an optional `json`/`JSON` tag,
/// optional space, then a line end (the longest such run).
pub open spec fn fence_end(s: Seq<char>, p: int) -> int {
    let q = spaces_end(s, p);
    if !occurs_at(s, seq!['`', '`', '`'], q) {
        -1
    } else {
        let a = q + 3;
        let t = if occurs_at(s, seq!['j', 's', 'o', 'n'], a) || occurs_at(s, seq!['J', 'S', 'O', 'N'], a) {
            a + 4
        } else {
            a
        };
        last_line_end(s, t, spaces_end(s, t))
    }
}

/// The text from `i` on with every fence line taken out, scanning left to right.
pub open spec fn unfenced_from(s: Seq<char>, i: int) -> Seq<char>
    decreases s.len() - i,
{
    if i < 0 || i >= s.len() {
        Seq::empty()
    } else if line_start(s, i) && i < fence_end(s, i) <= s.len() {
        unfenced_from(s, fence_end(s, i))
    } else {
        seq![s[i]] + unfenced_from(s, i + 1)
    }
}

/// The text without its code-fence lines, trimmed.
pub open spec fn spec_strip_fences(s: Seq<char>) -> Seq<char> {
    trim(unfenced_from(s, 0))
}

proof fn lemma_last_line_end(s: Seq<char>, lo: int, hi: int)
    ensures
        last_line_end(s, lo, hi) == -1 || lo <= last_line_end(s, lo, hi) <= hi,
    decreases hi - lo + 1,
{
    if hi >= lo && !line_end(s, hi) {
        lemma_last_line_end(s, lo, hi - 1);
    }
}

fn is_line_end(s: &[char], p: usize) -> (r: bool)
    requires
        p <= s@.len(),
    ensures
        r == line_end(s@, p as int),
{
    p == s.len() || s[p] == '\n'
}

fn fence_end_exec(s: &[char], p: usize) -> (r: Option<usize>)
    requires
        p <= s@.len(),
    ensures
        match r {
            Some(e) => fence_end(s@, p as int) == e && p <= e <= s@.len(),
            None => fence_end(s@, p as int) == -1,
        },
{
    proof {
        lemma_spaces_end(s@, p as int);
    }
    let n = s.len();
    let q = spaces_end_index(s, p);
    let bt: Vec<char> = vec!['`', '`', '`'];
    assert(bt@ == seq!['`', '`', '`']);
    if !occurs_at_exec(s, &bt, q) {
        return None;
    }
    let a = q + 3;
    let j1: Vec<char> = vec!['j', 's', 'o', 'n'];
    let j2: Vec<char> = vec!['J', 'S', 'O', 'N'];
    assert(j1@ == seq!['j', 's', 'o', 'n']);
    assert(j2@ == seq!['J', 'S', 'O', 'N']);
    let t = if occurs_at_exec(s, &j1, a) || occurs_at_exec(s, &j2, a) { a + 4 } else { a };
    proof {
        lemma_spaces_end(s@, t as int);
    }
    let w = spaces_end_index(s, t);
    let mut e = w;
    loop
        invariant
            p <= t <= e <= w <= s@.len(),
            w == spaces_end(s@, t as int),
            fence_end(s@, p as int) == last_line_end(s@, t as int, e as int),
        decreases e - t,
    {
        if is_line_end(s, e) {
            return Some(e);
        }
        if e == t {
            assert(last_line_end(s@, t as int, t - 1) == -1);
            return None;
        }
        e -= 1;
    }
}

/// `strip_markdown_fences`: the lines that open or close a code fence
/// (optionally tagged `json`/`JSON`) are taken out, and the text trimmed.
pub fn strip_markdown_fences(s: &str) -> (r: String)
    ensures
        r@ == spec_strip_fences(s@),
{
    let c = chars_of(s);
    let mut out: Vec<char> = Vec::new();
    let mut i: usize = 0;
    while i < c.len()
        invariant
            c@ == s@,
            i <= c@.len(),
            out@ + unfenced_from(c@, i as int) == unfenced_from(c@, 0),
        decreases c@.len() - i,
    {
        let starts = i == 0 || c[i - 1] == '\n';
        let fe = if starts { fence_end_exec(&c, i) } else { None };
        match fe {
            Some(e) if e > i => {
                i = e;
            },
            _ => {
                let ghost before = out@;
                out.push(c[i]);
                assert(before + unfenced_from(c@, i as int) =~= out@ + unfenced_from(c@, i + 1));
                i += 1;
            },
        }
    }
    assert(out@ =~= unfenced_from(c@, 0));
    string_of(&trim_chars(&out))
}

/// Index of the first occurrence of `p` at or after `j`, or -1.
pub open spec fn first_occurrence(s: Seq<char>, p: Seq<char>, j: int) -> int
    decreases s.len() + 1 - j,
{
    if j < 0 || j > s.len() {
        -1
    } else if occurs_at(s, p, j) {
        j
    } else {
        first_occurrence(s, p, j + 1)
    }
}

pub open spec fn open_tag() -> Seq<char> {
    seq!['<', 't', 'h', 'i', 'n', 'k', '>']
}

pub open spec fn close_tag() -> Seq<char> {
    seq!['<', '/', 't', 'h', 'i', 'n', 'k', '>']
}

/// The text from `i` on with every `<think>`…`</think>` span (to the nearest
/// closing tag) taken out.
pub open spec fn unthought_from(s: Seq<char>, i: int) -> Seq<char>
    decreases s.len() - i,
{
    if i < 0 || i >= s.len() {
        Seq::empty()
    } else if occurs_at(s, open_tag(), i) && first_occurrence(s, close_tag(), i + 7) >= 0 {
        let c = first_occurrence(s, close_tag(), i + 7);
        if i < c + 8 <= s.len() {
            unthought_from(s, c + 8)
        } else {
            Seq::empty()
        }
    } else {
        seq![s[i]] + unthought_from(s, i + 1)
    }
}

/// The text without its `<think>` blocks, trimmed.
pub open spec fn spec_strip_think(s: Seq<char>) -> Seq<char> {
    trim(unthought_from(s, 0))
}

pub proof fn lemma_first_occurrence(s: Seq<char>, p: Seq<char>, j: int)
    requires
        0 <= j,
    ensures
        first_occurrence(s, p, j) == -1 || (j <= first_occurrence(s, p, j) && occurs_at(s, p, first_occurrence(s, p, j))),
    decreases s.len() + 1 - j,
{
    if j <= s.len() && !occurs_at(s, p, j) {
        lemma_first_occurrence(s, p, j + 1);
    }
}

pub fn first_occurrence_exec(s: &[char], p: &[char], j: usize) -> (r: Option<usize>)
    ensures
        match r {
            Some(k) => first_occurrence(s@, p@, j as int) == k,
            None => first_occurrence(s@, p@, j as int) == -1,
        },
{
    if j > s.len() {
        return None;
    }
    let mut k = j;
    loop
        invariant
            j <= k <= s@.len(),
            first_occurrence(s@, p@, j as int) == first_occurrence(s@, p@, k as int),
        decreases s@.len() - k,
    {
        if occurs_at_exec(s, p, k) {
            return Some(k);
        }
        if k == s.len() {
            assert(first_occurrence(s@, p@, k + 1) == -1);
            return None;
        }
        k += 1;
    }
}

/// `strip_think_blocks`: every `<think>`…`</think>` span comes out (each to
/// the nearest closing tag), and the text is trimmed.
pub fn strip_think_blocks(s: &str) -> (r: String)
    ensures
        r@ == spec_strip_think(s@),
{
    let c = chars_of(s);
    let open: Vec<char> = vec!['<', 't', 'h', 'i', 'n', 'k', '>'];
    let close: Vec<char> = vec!['<', '/', 't', 'h', 'i', 'n', 'k', '>'];
    assert(open@ == open_tag());
    assert(close@ == close_tag());
    let mut out: Vec<char> = Vec::new();
    let mut i: usize = 0;
    while i < c.len()
        invariant
            c@ == s@,
            open@ == open_tag(),
            close@ == close_tag(),
            i <= c@.len(),
            out@ + unthought_from(c@, i as int) == unthought_from(c@, 0),
        decreases c@.len() - i,
    {
        let mut skipped = false;
        if occurs_at_exec(&c, &open, i) {
            match first_occurrence_exec(&c, &close, i + 7) {
                Some(k) => {
                    proof {
                        lemma_first_occurrence(c@, close@, i + 7);
                    }
                    i = k + 8;
                    skipped = true;
                },
                None => {},
            }
        }
        if !skipped {
            let ghost before = out@;
            out.push(c[i]);
            assert(before + unthought_from(c@, i as int) =~= out@ + unthought_from(c@, i + 1));
            i += 1;
        }
    }
    assert(out@ =~= unthought_from(c@, 0));
    string_of(&trim_chars(&out))
}

} // verus!
