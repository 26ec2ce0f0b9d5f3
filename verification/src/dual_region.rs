//! Reading a unit's text in two regions: the COPY region (the prompt to copy)
//! and the NOTE region (traceback, self-check report, hint for the next unit),
//! each opened and closed by a `═══ … COPY 区 START/END` style marker line.
use vstd::prelude::*;
use crate::blocks::opt_view;
use crate::model_text::{last_line_end, line_end, line_start};
use crate::strmap::StrMap;
use crate::text::{
    chars_of, copy_range, digits_end, digits_end_index, has_sub, is_ascii_space, join_with,
    lemma_digits_end, lemma_spaces_end, lines, nl_from, occurs_at, occurs_at_exec, spaces_end,
    spaces_end_index, spec_lines, string_of, trim, trim_chars,
};
use crate::v5_parser::{ic_eq, pairs_get};

verus! {

/// `w` (lower case) stands at `i` of `s`, up to ASCII case.
pub open spec fn ic_at(s: Seq<char>, i: int, w: Seq<char>) -> bool {
    0 <= i && i + w.len() <= s.len() && ic_eq(s.subrange(i, i + w.len()), w)
}

/// What follows the marker's rule at `q`: an optional `emoji`, `word`, `区`
/// and `edge` (both words up to ASCII case), with optional ASCII space
/// before each of the last three.
pub open spec fn marker_tail(s: Seq<char>, q: int, emoji: char, word: Seq<char>, edge: Seq<char>) -> bool {
    let a = if 0 <= q < s.len() && s[q] == emoji { q + 1 } else { q };
    let w1 = spaces_end(s, a);
    let w2 = spaces_end(s, w1 + word.len());
    let w3 = spaces_end(s, w2 + 1);
    &&& 0 <= q <= s.len()
    &&& ic_at(s, w1, word)
    &&& 0 <= w2 < s.len()
    &&& s[w2] == '\u{533a}'
    &&& ic_at(s, w3, edge)
}

/// The marker's tail stands at `q` or later on the same line.
pub open spec fn tail_from(s: Seq<char>, q: int, emoji: char, word: Seq<char>, edge: Seq<char>) -> bool
    decreases s.len() - q,
{
    if q < 0 || q > s.len() {
        false
    } else if marker_tail(s, q, emoji, word, edge) {
        true
    } else if q < s.len() && s[q] != '\n' {
        tail_from(s, q + 1, emoji, word, edge)
    } else {
        false
    }
}

/// A marker starts at `p`: three `═` and, later on that line, its tail.
pub open spec fn marker_at(s: Seq<char>, p: int, emoji: char, word: Seq<char>, edge: Seq<char>) -> bool {
    &&& 0 <= p && p + 3 <= s.len()
    &&& s[p] == '\u{2550}' && s[p + 1] == '\u{2550}' && s[p + 2] == '\u{2550}'
    &&& tail_from(s, p + 3, emoji, word, edge)
}

/// Where the first marker starts at or after `i`, or -1.
pub open spec fn first_marker(s: Seq<char>, i: int, emoji: char, word: Seq<char>, edge: Seq<char>) -> int
    decreases s.len() + 1 - i,
{
    if i < 0 || i > s.len() {
        -1
    } else if marker_at(s, i, emoji, word, edge) {
        i
    } else {
        first_marker(s, i + 1, emoji, word, edge)
    }
}

pub open spec fn copy_emoji() -> char {
    '\u{1f4cb}'
}

pub open spec fn note_emoji() -> char {
    '\u{1f4dd}'
}

/// End of the run of `═` that starts at `i`.
pub open spec fn rule_end(s: Seq<char>, i: int) -> int
    decreases s.len() - i,
{
    if 0 <= i < s.len() && s[i] == '\u{2550}' {
        rule_end(s, i + 1)
    } else {
        i
    }
}

/// The end of the rule line that starts at `p`, or -1: at a line start, a run
/// of `═`, optional space (which may run over line breaks) and a line end.
pub open spec fn rule_line_end(s: Seq<char>, p: int) -> int {
    if line_start(s, p) && 0 <= p < s.len() && s[p] == '\u{2550}' {
        let h = rule_end(s, p);
        last_line_end(s, h, spaces_end(s, h))
    } else {
        -1
    }
}

/// The text from `i` on with its rule lines taken out.
pub open spec fn unruled_from(s: Seq<char>, i: int) -> Seq<char>
    decreases s.len() - i,
{
    if i < 0 || i >= s.len() {
        Seq::empty()
    } else if i < rule_line_end(s, i) <= s.len() {
        unruled_from(s, rule_line_end(s, i))
    } else {
        seq![s[i]] + unruled_from(s, i + 1)
    }
}

/// A region's text: the lines between its markers, trimmed, without rule
/// lines, trimmed again.
pub open spec fn region_text(s: Seq<char>, start: int, end: int) -> Seq<char> {
    let inner = trim(s.subrange(nl_from(s, start) + 1, end));
    trim(unruled_from(inner, 0))
}

/// A region can be cut out: when both markers are found in order, a line
/// break follows the opening one before the closing one starts.
pub open spec fn region_cuttable(s: Seq<char>, start: int, end: int) -> bool {
    start >= 0 && end > start ==> nl_from(s, start) < end
}

pub open spec fn copy_start(s: Seq<char>) -> int {
    first_marker(s, 0, copy_emoji(), "copy"@, "start"@)
}

pub open spec fn copy_end(s: Seq<char>) -> int {
    first_marker(s, 0, copy_emoji(), "copy"@, "end"@)
}

pub open spec fn note_start(s: Seq<char>) -> int {
    first_marker(s, 0, note_emoji(), "note"@, "start"@)
}

pub open spec fn note_end(s: Seq<char>) -> int {
    first_marker(s, 0, note_emoji(), "note"@, "end"@)
}

/// The COPY region: between the copy markers when both are found (empty when
/// they come in the wrong order), else the whole text trimmed.
pub open spec fn spec_copy_area(s: Seq<char>) -> Seq<char> {
    let cs = copy_start(s);
    let ce = copy_end(s);
    if cs >= 0 && ce >= 0 {
        if ce > cs {
            region_text(s, cs, ce)
        } else {
            Seq::empty()
        }
    } else {
        trim(s)
    }
}

/// The NOTE region: between the note markers when both are found in order.
pub open spec fn spec_note_raw(s: Seq<char>) -> Seq<char> {
    let ns = note_start(s);
    let ne = note_end(s);
    if ns >= 0 && ne > ns {
        region_text(s, ns, ne)
    } else {
        Seq::empty()
    }
}

pub open spec fn dual_readable(s: Seq<char>) -> bool {
    region_cuttable(s, copy_start(s), copy_end(s)) && region_cuttable(s, note_start(s), note_end(s))
}

/// A `## ` heading (the space optional) followed by one of `words` (lower
/// case, compared up to ASCII case).
pub open spec fn heading_of(t: Seq<char>, words: Seq<Seq<char>>) -> bool {
    t.len() >= 2 && t[0] == '#' && t[1] == '#' && exists|j: int| 0 <= j < words.len() && ic_at(t, spaces_end(t, 2), #[trigger] words[j])
}

pub open spec fn traceback_words() -> Seq<Seq<char>> {
    seq!["\u{6bb5}\u{53f7}\u{6eaf}\u{6e90}"@, "\u{6eaf}\u{6e90}"@]
}

pub open spec fn hint_words() -> Seq<Seq<char>> {
    seq!["\u{4e0b}\u{4e00}\u{5355}\u{5143}\u{8854}\u{63a5}\u{53c2}\u{8003}"@, "\u{8854}\u{63a5}\u{53c2}\u{8003}"@, "nextunithint"@, "next"@]
}

pub open spec fn selfcheck_words() -> Seq<Seq<char>> {
    seq!["\u{81ea}\u{68c0}\u{62a5}\u{544a}"@, "\u{81ea}\u{68c0}"@]
}

pub open spec fn is_item_sep(c: char) -> bool {
    c == ':' || c == '\u{ff1a}' || is_ascii_space(c)
}

/// End of the run of item separators that starts at `i`.
pub open spec fn item_sep_end(s: Seq<char>, i: int) -> int
    decreases s.len() - i,
{
    if 0 <= i < s.len() && is_item_sep(s[i]) {
        item_sep_end(s, i + 1)
    } else {
        i
    }
}

/// End of a check id `G12`, `G-3`, `G1.2` at the start of `t`, or -1.
pub open spec fn item_id_end(t: Seq<char>) -> int {
    if t.len() > 0 && t[0] == 'G' {
        let a: int = if t.len() > 1 && t[1] == '-' { 2 } else { 1 };
        let d = digits_end(t, a);
        if d > a {
            if d < t.len() && t[d] == '.' && digits_end(t, d + 1) > d + 1 {
                digits_end(t, d + 1)
            } else {
                d
            }
        } else {
            -1
        }
    } else {
        -1
    }
}

/// A self-check item line: a check id, separators, then the text of the
/// check (at least one char, the last separator if nothing else is left).
pub open spec fn check_item(t: Seq<char>) -> Option<(Seq<char>, Seq<char>)> {
    let g = item_id_end(t);
    if g < 0 {
        None
    } else {
        let r = item_sep_end(t, g);
        if r == g {
            None
        } else if r < t.len() {
            Some((t.subrange(0, g), t.subrange(r, t.len() as int)))
        } else if r - g >= 2 {
            Some((t.subrange(0, g), t.subrange(r - 1, t.len() as int)))
        } else {
            None
        }
    }
}

/// The status a check's text reports.
pub open spec fn check_status(v: Seq<char>) -> Seq<char> {
    if has_sub(v, seq!['\u{274c}']) || has_sub(v, "fail"@) || has_sub(v, "\u{5931}\u{8d25}"@) || has_sub(v, "\u{8fdd}\u{53cd}"@) {
        "fail"@
    } else if has_sub(v, seq!['\u{26a0}']) || has_sub(v, "warn"@) || has_sub(v, "\u{8b66}\u{544a}"@) {
        "warn"@
    } else {
        "pass"@
    }
}

/// Where the reading of the NOTE region stands after some lines.
pub struct NoteState {
    pub in_traceback: bool,
    pub in_hint: bool,
    pub traceback: Seq<Seq<char>>,
    pub hint: Seq<Seq<char>>,
    pub report: Seq<(Seq<char>, Seq<char>)>,
}

pub open spec fn note_step(st: NoteState, line: Seq<char>) -> NoteState {
    let t = trim(line);
    if heading_of(t, traceback_words()) {
        NoteState { in_traceback: true, in_hint: false, ..st }
    } else if heading_of(t, hint_words()) {
        NoteState { in_traceback: false, in_hint: true, ..st }
    } else if heading_of(t, selfcheck_words()) {
        NoteState { in_traceback: false, in_hint: false, ..st }
    } else if check_item(t) is Some {
        let (k, v) = check_item(t)->0;
        NoteState { report: st.report.push((k, check_status(trim(v)))), ..st }
    } else {
        NoteState {
            traceback: if st.in_traceback && t.len() > 0 { st.traceback.push(t) } else { st.traceback },
            hint: if st.in_hint && t.len() > 0 { st.hint.push(t) } else { st.hint },
            ..st
        }
    }
}

pub open spec fn note_upto(ls: Seq<Seq<char>>, n: int) -> NoteState
    decreases n,
{
    if n <= 0 {
        NoteState { in_traceback: false, in_hint: false, traceback: Seq::empty(), hint: Seq::empty(), report: Seq::empty() }
    } else {
        note_step(note_upto(ls, n - 1), ls[n - 1])
    }
}

pub open spec fn spec_note(raw: Seq<char>) -> NoteState {
    note_upto(spec_lines(raw), spec_lines(raw).len() as int)
}

pub open spec fn dot_sep() -> Seq<char> {
    seq![' ', '\u{b7}', ' ']
}

pub struct NoteArea {
    pub traceback: String,
    pub self_check_report: StrMap<String>,
    pub next_unit_hint: Option<String>,
}

pub struct DualRegion {
    pub copy_area: String,
    pub note_area: NoteArea,
}

/// What `parse_dual_region` gives for a text.
pub open spec fn dual_spec(r: DualRegion, s: Seq<char>) -> bool {
    let st = spec_note(spec_note_raw(s));
    let hint = join_with(st.hint, dot_sep());
    &&& r.copy_area@ == spec_copy_area(s)
    &&& r.note_area.traceback@ == join_with(st.traceback, dot_sep())
    &&& (forall|k: Seq<char>| #[trigger] opt_view(r.note_area.self_check_report.get_spec(k)) == pairs_get(st.report, k))
    &&& opt_view(r.note_area.next_unit_hint) == (if hint.len() == 0 { None } else { Some(hint) })
}


fn ic_at_exec(s: &[char], i: usize, w: &[char]) -> (r: bool)
    ensures
        r == ic_at(s@, i as int, w@),
{
    if i > s.len() || w.len() > s.len() - i {
        return false;
    }
    let mut k: usize = 0;
    while k < w.len()
        invariant
            i + w@.len() <= s@.len(),
            s@.len() <= usize::MAX,
            k <= w@.len(),
            forall|j: int| 0 <= j < k ==> s@[i + j] == w@[j] || s@[i + j] == crate::v5_parser::upper_of(w@[j]),
        decreases w@.len() - k,
    {
        if !(s[i + k] == w[k] || s[i + k] == upper_of_char(w[k])) {
            assert(s@.subrange(i as int, i + w@.len())[k as int] == s@[i + k]);
            return false;
        }
        k += 1;
    }
    assert forall|j: int| 0 <= j < w@.len() implies s@.subrange(i as int, i + w@.len())[j] == w@[j]
        || s@.subrange(i as int, i + w@.len())[j] == crate::v5_parser::upper_of(w@[j]) by {
        assert(s@.subrange(i as int, i + w@.len())[j] == s@[i + j]);
    }
    true
}

fn upper_of_char(c: char) -> (r: char)
    ensures
        r == crate::v5_parser::upper_of(c),
{
    if c == 'a' { 'A' } else if c == 'b' { 'B' } else if c == 'c' { 'C' } else if c == 'd' { 'D' }
    else if c == 'e' { 'E' } else if c == 'f' { 'F' } else if c == 'g' { 'G' } else if c == 'h' { 'H' }
    else if c == 'i' { 'I' } else if c == 'j' { 'J' } else if c == 'k' { 'K' } else if c == 'l' { 'L' }
    else if c == 'm' { 'M' } else if c == 'n' { 'N' } else if c == 'o' { 'O' } else if c == 'p' { 'P' }
    else if c == 'q' { 'Q' } else if c == 'r' { 'R' } else if c == 's' { 'S' } else if c == 't' { 'T' }
    else if c == 'u' { 'U' } else if c == 'v' { 'V' } else if c == 'w' { 'W' } else if c == 'x' { 'X' }
    else if c == 'y' { 'Y' } else if c == 'z' { 'Z' }
    else { c }
}

fn marker_tail_exec(s: &[char], q: usize, emoji: char, word: &[char], edge: &[char]) -> (r: bool)
    requires
        q <= s@.len(),
    ensures
        r == marker_tail(s@, q as int, emoji, word@, edge@),
{
    let n = s.len();
    let a = if q < n && s[q] == emoji { q + 1 } else { q };
    proof {
        lemma_spaces_end(s@, a as int);
    }
    let w1 = spaces_end_index(s, a);
    if !ic_at_exec(s, w1, word) {
        return false;
    }
    proof {
        lemma_spaces_end(s@, w1 + word@.len());
    }
    let w2 = spaces_end_index(s, w1 + word.len());
    if !(w2 < n && s[w2] == '\u{533a}') {
        return false;
    }
    proof {
        lemma_spaces_end(s@, w2 + 1);
    }
    let w3 = spaces_end_index(s, w2 + 1);
    ic_at_exec(s, w3, edge)
}

fn marker_at_exec(s: &[char], p: usize, emoji: char, word: &[char], edge: &[char]) -> (r: bool)
    requires
        p <= s@.len(),
    ensures
        r == marker_at(s@, p as int, emoji, word@, edge@),
{
    let n = s.len();
    if !(n - p >= 3 && s[p] == '\u{2550}' && s[p + 1] == '\u{2550}' && s[p + 2] == '\u{2550}') {
        return false;
    }
    let mut q = p + 3;
    loop
        invariant
            p + 3 <= q <= s@.len(),
            n == s@.len(),
            s@[p as int] == '\u{2550}' && s@[p + 1] == '\u{2550}' && s@[p + 2] == '\u{2550}',
            tail_from(s@, (p + 3) as int, emoji, word@, edge@) == tail_from(s@, q as int, emoji, word@, edge@),
        decreases s@.len() - q,
    {
        if marker_tail_exec(s, q, emoji, word, edge) {
            assert(tail_from(s@, q as int, emoji, word@, edge@));
            return true;
        }
        if q < n && s[q] != '\n' {
            q += 1;
        } else {
            return false;
        }
    }
}

fn first_marker_exec(s: &[char], emoji: char, word: &[char], edge: &[char]) -> (r: Option<usize>)
    ensures
        match r {
            Some(p) => first_marker(s@, 0, emoji, word@, edge@) == p && p <= s@.len(),
            None => first_marker(s@, 0, emoji, word@, edge@) == -1,
        },
{
    let mut i: usize = 0;
    loop
        invariant
            i <= s@.len(),
            first_marker(s@, 0, emoji, word@, edge@) == first_marker(s@, i as int, emoji, word@, edge@),
        decreases s@.len() - i,
    {
        if marker_at_exec(s, i, emoji, word, edge) {
            return Some(i);
        }
        if i == s.len() {
            assert(first_marker(s@, i + 1, emoji, word@, edge@) == -1);
            return None;
        }
        i += 1;
    }
}

proof fn lemma_rule_end(s: Seq<char>, i: int)
    requires
        0 <= i <= s.len(),
    ensures
        i <= rule_end(s, i) <= s.len(),
    decreases s.len() - i,
{
    if i < s.len() && s[i] == '\u{2550}' {
        lemma_rule_end(s, i + 1);
    }
}

fn rule_line_end_exec(s: &[char], p: usize) -> (r: Option<usize>)
    requires
        p <= s@.len(),
    ensures
        match r {
            Some(e) => rule_line_end(s@, p as int) == e && p < e <= s@.len(),
            None => !(p < rule_line_end(s@, p as int) <= s@.len()),
        },
{
    let n = s.len();
    if !((p == 0 || s[p - 1] == '\n') && p < n && s[p] == '\u{2550}') {
        return None;
    }
    proof {
        lemma_rule_end(s@, p as int);
    }
    let mut h = p;
    while h < n && s[h] == '\u{2550}'
        invariant
            p <= h <= s@.len(),
            n == s@.len(),
            rule_end(s@, h as int) == rule_end(s@, p as int),
        decreases s@.len() - h,
    {
        h += 1;
    }
    proof {
        lemma_spaces_end(s@, h as int);
    }
    let w = spaces_end_index(s, h);
    let mut e = w;
    loop
        invariant
            p < h <= e <= w <= s@.len(),
            n == s@.len(),
            rule_line_end(s@, p as int) == last_line_end(s@, h as int, e as int),
        decreases e - h,
    {
        if e == n || s[e] == '\n' {
            return Some(e);
        }
        if e == h {
            assert(last_line_end(s@, h as int, h - 1) == -1);
            return None;
        }
        e -= 1;
    }
}

/// The text without its rule lines.
fn unruled(c: &Vec<char>) -> (r: Vec<char>)
    ensures
        r@ == unruled_from(c@, 0),
{
    let mut out: Vec<char> = Vec::new();
    let mut i: usize = 0;
    while i < c.len()
        invariant
            i <= c@.len(),
            out@ + unruled_from(c@, i as int) == unruled_from(c@, 0),
        decreases c@.len() - i,
    {
        match rule_line_end_exec(c, i) {
            Some(e) => {
                i = e;
            },
            None => {
                let ghost before = out@;
                out.push(c[i]);
                assert(before + unruled_from(c@, i as int) =~= out@ + unruled_from(c@, i + 1));
                i += 1;
            },
        }
    }
    assert(out@ =~= unruled_from(c@, 0));
    out
}

fn region_text_exec(s: &Vec<char>, start: usize, end: usize) -> (r: String)
    requires
        start <= end <= s@.len(),
        nl_from(s@, start as int) < end,
    ensures
        r@ == region_text(s@, start as int, end as int),
{
    let mut n = start;
    while n < s.len() && s[n] != '\n'
        invariant
            start <= n <= s@.len(),
            nl_from(s@, n as int) == nl_from(s@, start as int),
        decreases s@.len() - n,
    {
        n += 1;
    }
    let inner = trim_chars(&copy_range(s, n + 1, end));
    string_of(&trim_chars(&unruled(&inner)))
}

fn heading_exec(t: &[char], words: &Vec<Vec<char>>, Ghost(ws): Ghost<Seq<Seq<char>>>) -> (r: bool)
    requires
        words@.len() == ws.len(),
        forall|j: int| 0 <= j < ws.len() ==> (#[trigger] words@[j])@ == ws[j],
    ensures
        r == heading_of(t@, ws),
{
    if !(t.len() >= 2 && t[0] == '#' && t[1] == '#') {
        return false;
    }
    proof {
        lemma_spaces_end(t@, 2);
    }
    let w = spaces_end_index(t, 2);
    let mut j: usize = 0;
    while j < words.len()
        invariant
            j <= words@.len(),
            words@.len() == ws.len(),
            forall|k: int| 0 <= k < ws.len() ==> (#[trigger] words@[k])@ == ws[k],
            w == spaces_end(t@, 2),
            t@.len() >= 2 && t@[0] == '#' && t@[1] == '#',
            forall|k: int| 0 <= k < j ==> !ic_at(t@, w as int, #[trigger] ws[k]),
        decreases words@.len() - j,
    {
        if ic_at_exec(t, w, &words[j]) {
            assert(ic_at(t@, spaces_end(t@, 2), ws[j as int]));
            assert(exists|k: int| 0 <= k < ws.len() && ic_at(t@, spaces_end(t@, 2), #[trigger] ws[k]));
            return true;
        }
        j += 1;
    }
    false
}

fn item_sep_end_exec(t: &[char], i: usize) -> (r: usize)
    requires
        i <= t@.len(),
    ensures
        r == item_sep_end(t@, i as int),
        i <= r <= t@.len(),
{
    proof {
        lemma_item_sep_end(t@, i as int);
    }
    let mut k = i;
    while k < t.len() && (t[k] == ':' || t[k] == '\u{ff1a}' || crate::text::is_ascii_space_char(t[k]))
        invariant
            i <= k <= t@.len(),
            item_sep_end(t@, k as int) == item_sep_end(t@, i as int),
        decreases t@.len() - k,
    {
        k += 1;
    }
    k
}

proof fn lemma_item_sep_end(s: Seq<char>, i: int)
    requires
        0 <= i <= s.len(),
    ensures
        i <= item_sep_end(s, i) <= s.len(),
    decreases s.len() - i,
{
    if i < s.len() && is_item_sep(s[i]) {
        lemma_item_sep_end(s, i + 1);
    }
}

fn check_item_exec(t: &[char]) -> (r: Option<(Vec<char>, Vec<char>)>)
    ensures
        match r {
            Some(kv) => check_item(t@) == Some((kv.0@, kv.1@)),
            None => check_item(t@) is None,
        },
{
    let n = t.len();
    if !(n > 0 && t[0] == 'G') {
        return None;
    }
    let a: usize = if n > 1 && t[1] == '-' { 2 } else { 1 };
    proof {
        lemma_digits_end(t@, a as int);
    }
    let d = digits_end_index(t, a);
    if d <= a {
        return None;
    }
    let g = if d < n && t[d] == '.' {
        proof {
            lemma_digits_end(t@, d + 1);
        }
        let d2 = digits_end_index(t, d + 1);
        if d2 > d + 1 { d2 } else { d }
    } else {
        d
    };
    let r = item_sep_end_exec(t, g);
    if r == g {
        return None;
    }
    if r < n {
        Some((copy_range(t, 0, g), copy_range(t, r, n)))
    } else if r - g >= 2 {
        Some((copy_range(t, 0, g), copy_range(t, r - 1, n)))
    } else {
        None
    }
}

fn check_status_exec(v: &str) -> (r: &'static str)
    ensures
        r@ == check_status(v@),
{
    proof {
        reveal_strlit("\u{274c}");
        reveal_strlit("\u{26a0}");
    }
    assert("\u{274c}"@ =~= seq!['\u{274c}']);
    assert("\u{26a0}"@ =~= seq!['\u{26a0}']);
    if crate::text::contains_str(v, "\u{274c}") || crate::text::contains_str(v, "fail")
        || crate::text::contains_str(v, "\u{5931}\u{8d25}") || crate::text::contains_str(v, "\u{8fdd}\u{53cd}") {
        "fail"
    } else if crate::text::contains_str(v, "\u{26a0}") || crate::text::contains_str(v, "warn")
        || crate::text::contains_str(v, "\u{8b66}\u{544a}") {
        "warn"
    } else {
        "pass"
    }
}

fn word_list(a: &str, b: &str) -> (r: Vec<Vec<char>>)
    ensures
        r@.len() == 2,
        r@[0]@ == a@,
        r@[1]@ == b@,
{
    let mut v: Vec<Vec<char>> = Vec::new();
    v.push(chars_of(a));
    v.push(chars_of(b));
    v
}

/// `parse_dual_region`: the COPY region, and what the NOTE region says: its
/// traceback lines and hint lines (each joined with ` · `) and the status of
/// each self-check item.
pub fn parse_dual_region(text: &str) -> (r: DualRegion)
    requires
        dual_readable(text@),
    ensures
        dual_spec(r, text@),
{
    let s = chars_of(text);
    let copy_w: Vec<char> = vec!['c', 'o', 'p', 'y'];
    let note_w: Vec<char> = vec!['n', 'o', 't', 'e'];
    let start_w: Vec<char> = vec!['s', 't', 'a', 'r', 't'];
    let end_w: Vec<char> = vec!['e', 'n', 'd'];
    proof {
        reveal_strlit("copy");
        reveal_strlit("note");
        reveal_strlit("start");
        reveal_strlit("end");
    }
    assert(copy_w@ =~= "copy"@);
    assert(note_w@ =~= "note"@);
    assert(start_w@ =~= "start"@);
    assert(end_w@ =~= "end"@);
    let cs = first_marker_exec(&s, '\u{1f4cb}', &copy_w, &start_w);
    let ce = first_marker_exec(&s, '\u{1f4cb}', &copy_w, &end_w);
    let ns = first_marker_exec(&s, '\u{1f4dd}', &note_w, &start_w);
    let ne = first_marker_exec(&s, '\u{1f4dd}', &note_w, &end_w);
    let copy_area = match (cs, ce) {
        (Some(a), Some(b)) => {
            if b > a {
                region_text_exec(&s, a, b)
            } else {
                String::new()
            }
        },
        _ => string_of(&trim_chars(&s)),
    };
    let note_raw = match (ns, ne) {
        (Some(a), Some(b)) => {
            if b > a {
                region_text_exec(&s, a, b)
            } else {
                String::new()
            }
        },
        _ => String::new(),
    };
    assert(note_raw@ == spec_note_raw(text@));
    let tb_words = word_list("\u{6bb5}\u{53f7}\u{6eaf}\u{6e90}", "\u{6eaf}\u{6e90}");
    assert(tb_words@[0]@ == traceback_words()[0] && tb_words@[1]@ == traceback_words()[1]);
    let mut hint_words_v = word_list("\u{4e0b}\u{4e00}\u{5355}\u{5143}\u{8854}\u{63a5}\u{53c2}\u{8003}", "\u{8854}\u{63a5}\u{53c2}\u{8003}");
    hint_words_v.push(chars_of("nextunithint"));
    hint_words_v.push(chars_of("next"));
    assert(forall|j: int| 0 <= j < 4 ==> (#[trigger] hint_words_v@[j])@ == hint_words()[j]);
    let sc_words = word_list("\u{81ea}\u{68c0}\u{62a5}\u{544a}", "\u{81ea}\u{68c0}");
    assert(sc_words@[0]@ == selfcheck_words()[0] && sc_words@[1]@ == selfcheck_words()[1]);
    let ls = lines(&chars_of(note_raw.as_str()));
    let ghost lv = ls@.map_values(|l: Vec<char>| l@);
    let mut in_tb = false;
    let mut in_nh = false;
    let mut tb: Vec<String> = Vec::new();
    let mut nh: Vec<String> = Vec::new();
    let mut report: StrMap<String> = StrMap::new();
    let ghost mut rp: Seq<(Seq<char>, Seq<char>)> = Seq::empty();
    let mut i: usize = 0;
    while i < ls.len()
        invariant
            i <= ls@.len(),
            lv == ls@.map_values(|l: Vec<char>| l@),
            lv == spec_lines(spec_note_raw(text@)),
            tb_words@.len() == 2,
            forall|j: int| 0 <= j < 2 ==> (#[trigger] tb_words@[j])@ == traceback_words()[j],
            hint_words_v@.len() == 4,
            forall|j: int| 0 <= j < 4 ==> (#[trigger] hint_words_v@[j])@ == hint_words()[j],
            sc_words@.len() == 2,
            forall|j: int| 0 <= j < 2 ==> (#[trigger] sc_words@[j])@ == selfcheck_words()[j],
            note_upto(lv, i as int).in_traceback == in_tb,
            note_upto(lv, i as int).in_hint == in_nh,
            note_upto(lv, i as int).traceback == tb@.map_values(|x: String| x@),
            note_upto(lv, i as int).hint == nh@.map_values(|x: String| x@),
            note_upto(lv, i as int).report == rp,
            forall|k: Seq<char>| #[trigger] opt_view(report.get_spec(k)) == pairs_get(rp, k),
        decreases ls@.len() - i,
    {
        let t = trim_chars(&ls[i]);
        assert(t@ == trim(lv[i as int]));
        if heading_exec(&t, &tb_words, Ghost(traceback_words())) {
            in_tb = true;
            in_nh = false;
        } else if heading_exec(&t, &hint_words_v, Ghost(hint_words())) {
            in_nh = true;
            in_tb = false;
        } else if heading_exec(&t, &sc_words, Ghost(selfcheck_words())) {
            in_tb = false;
            in_nh = false;
        } else {
            match check_item_exec(&t) {
                Some((k, v)) => {
                    let val = string_of(&trim_chars(&v));
                    let status = check_status_exec(val.as_str());
                    let ks = string_of(&k);
                    let ghost prev = report;
                    report.insert(ks, status.to_string());
                    proof {
                        let old_rp = rp;
                        rp = rp.push((k@, status@));
                        assert forall|k2: Seq<char>| #[trigger] opt_view(report.get_spec(k2)) == pairs_get(rp, k2) by {
                            assert(rp.drop_last() =~= old_rp);
                            if k2 != k@ {
                                assert(opt_view(prev.get_spec(k2)) == pairs_get(old_rp, k2));
                            }
                        }
                    }
                },
                None => {
                    if in_tb && t.len() > 0 {
                        let ghost before = tb@;
                        tb.push(string_of(&t));
                        assert(tb@.map_values(|x: String| x@) =~= before.map_values(|x: String| x@).push(t@));
                    }
                    if in_nh && t.len() > 0 {
                        let ghost before = nh@;
                        nh.push(string_of(&t));
                        assert(nh@.map_values(|x: String| x@) =~= before.map_values(|x: String| x@).push(t@));
                    }
                },
            }
        }
        i += 1;
    }
    let sep = " \u{b7} ";
    proof {
        reveal_strlit(" \u{b7} ");
    }
    assert(sep@ =~= dot_sep());
    let traceback = crate::text::join_strings(&tb, sep);
    let hint = crate::text::join_strings(&nh, sep);
    let next_unit_hint = if hint.as_str().is_empty() { None } else { Some(hint) };
    DualRegion {
        copy_area,
        note_area: NoteArea { traceback, self_check_report: report, next_unit_hint },
    }
}

} // verus!

verus! {

fn region_cuttable_exec(s: &Vec<char>, start: Option<usize>, end: Option<usize>, Ghost(a): Ghost<int>, Ghost(b): Ghost<int>) -> (r: bool)
    requires
        match start {
            Some(x) => a == x as int && x <= s@.len(),
            None => a == -1,
        },
        match end {
            Some(x) => b == x as int && x <= s@.len(),
            None => b == -1,
        },
    ensures
        r == region_cuttable(s@, a, b),
{
    match (start, end) {
        (Some(x), Some(y)) => {
            if y > x {
                proof {
                    crate::text::lemma_nl_from(s@, x as int);
                }
                let mut k = x;
                while k < s.len() && s[k] != '\n'
                    invariant
                        x <= k <= s@.len(),
                        nl_from(s@, k as int) == nl_from(s@, x as int),
                    decreases s@.len() - k,
                {
                    k += 1;
                }
                k < y
            } else {
                true
            }
        },
        _ => true,
    }
}

/// Whether both regions of a unit's output can be cut out (what
/// `parse_dual_region` needs).
pub fn dual_text_readable(text: &str) -> (r: bool)
    ensures
        r == dual_readable(text@),
{
    let s = chars_of(text);
    let copy_w: Vec<char> = vec!['c', 'o', 'p', 'y'];
    let note_w: Vec<char> = vec!['n', 'o', 't', 'e'];
    let start_w: Vec<char> = vec!['s', 't', 'a', 'r', 't'];
    let end_w: Vec<char> = vec!['e', 'n', 'd'];
    proof {
        reveal_strlit("copy");
        reveal_strlit("note");
        reveal_strlit("start");
        reveal_strlit("end");
    }
    assert(copy_w@ =~= "copy"@);
    assert(note_w@ =~= "note"@);
    assert(start_w@ =~= "start"@);
    assert(end_w@ =~= "end"@);
    let cs = first_marker_exec(&s, '\u{1f4cb}', &copy_w, &start_w);
    let ce = first_marker_exec(&s, '\u{1f4cb}', &copy_w, &end_w);
    let ns = first_marker_exec(&s, '\u{1f4dd}', &note_w, &start_w);
    let ne = first_marker_exec(&s, '\u{1f4dd}', &note_w, &end_w);
    region_cuttable_exec(&s, cs, ce, Ghost(copy_start(text@)), Ghost(copy_end(text@)))
        && region_cuttable_exec(&s, ns, ne, Ghost(note_start(text@)), Ghost(note_end(text@)))
}

} // verus!
