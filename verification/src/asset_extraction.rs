//! The characters, scenes and props of a script: the records made of what
//! the model lists, and the grammar that reads them off the script itself
//! when the model lists none.
use vstd::prelude::*;
use crate::json::{Json, JsonV, json_view, lemma_object_view};
use crate::prompt_generation::{jget, jstr, text_or, string_items, strings_view};
use crate::text::{
    chars_of, string_of, copy_range, trim, trim_chars, is_ascii_space, spaces_end, spaces_end_index,
    lemma_spaces_end, find_char, lemma_find_char, occurs_at, has_sub, contains_str, nl_from,
    lemma_nl_from,
};
use crate::auth::{is_uuid_text, new_uuid};

verus! {

// ---------------------------------------------------------------------------
// Characters named in the script: `**Name**（note）：`
// ---------------------------------------------------------------------------

pub open spec fn is_colon(c: char) -> bool {
    c == '\u{ff1a}' || c == ':'
}

/// The end of what may follow a bolded name: optional space, an optional
/// note in full-width brackets with the space before it, optional space, and
/// a colon; -1 when it does not follow at `q`.
pub open spec fn name_tail_end(s: Seq<char>, q: int) -> int {
    let w = spaces_end(s, q);
    if w < s.len() && is_colon(s[w]) {
        w + 1
    } else if w < s.len() && s[w] == '\u{ff08}' && find_char(s, '\u{ff09}', w + 1) != -1 && spaces_end(
        s,
        find_char(s, '\u{ff09}', w + 1) + 1,
    ) < s.len() && is_colon(s[spaces_end(s, find_char(s, '\u{ff09}', w + 1) + 1)]) {
        spaces_end(s, find_char(s, '\u{ff09}', w + 1) + 1) + 1
    } else {
        -1
    }
}

/// A bolded name of `n` chars (none a line break) starts at `p`, followed by
/// what `name_tail_end` accepts.
pub open spec fn name_fits(s: Seq<char>, p: int, n: int) -> bool {
    &&& 0 <= p
    &&& p + 4 + n <= s.len()
    &&& s[p] == '*' && s[p + 1] == '*'
    &&& forall|i: int| p + 2 <= i < p + 2 + n ==> s[i] != '\n'
    &&& s[p + 2 + n] == '*' && s[p + 3 + n] == '*'
    &&& name_tail_end(s, p + 4 + n) != -1
}

/// The length of the bolded name matched at `p`: the longest of at most `n`
/// chars that fits, 0 when none does.
pub open spec fn name_len_at(s: Seq<char>, p: int, n: int) -> int
    decreases n,
{
    if n <= 0 {
        0
    } else if name_fits(s, p, n) {
        n
    } else {
        name_len_at(s, p, n - 1)
    }
}

/// A match of the character pattern: where it starts, its name's length,
/// where it ends.
pub struct NameMatch {
    pub start: int,
    pub len: int,
    pub end: int,
}

/// The matches of the character pattern from `i` on, each searched from the
/// end of the one before, the leftmost first.
pub open spec fn name_matches_from(s: Seq<char>, i: int) -> Seq<NameMatch>
    decreases s.len() - i,
{
    if i < 0 || i >= s.len() {
        Seq::empty()
    } else if name_len_at(s, i, 8) > 0 {
        let n = name_len_at(s, i, 8);
        let e = name_tail_end(s, i + 4 + n);
        if e > i {
            seq![NameMatch { start: i, len: n, end: e }] + name_matches_from(s, e)
        } else {
            Seq::empty()
        }
    } else {
        name_matches_from(s, i + 1)
    }
}

/// The name of a match, trimmed.
pub open spec fn match_name(s: Seq<char>, m: NameMatch) -> Seq<char> {
    trim(s.subrange(m.start + 2, m.start + 2 + m.len))
}

pub open spec fn starts_with(s: Seq<char>, p: Seq<char>) -> bool {
    occurs_at(s, p, 0)
}

/// The names that are no characters: empty, or a scene or cast heading.
pub open spec fn not_a_character(name: Seq<char>) -> bool {
    name.len() == 0 || starts_with(name, "\u{573a}\u{666f}"@) || starts_with(
        name,
        "\u{51fa}\u{573a}"@,
    )
}

/// The text in the 100 bytes before char position `p`, cut at a char
/// boundary (from the text's start when there are fewer).
pub open spec fn window_before(s: Seq<char>, p: int) -> Seq<char> {
    crate::text::byte_suffix(s.take(p), 100)
}

/// The role the text before a name gives it.
pub open spec fn role_in(w: Seq<char>) -> Seq<char> {
    if has_sub(w, "\u{5973}\u{4e3b}"@) {
        "\u{5973}\u{4e3b}"@
    } else if has_sub(w, "\u{7537}\u{4e3b}"@) {
        "\u{7537}\u{4e3b}"@
    } else if has_sub(w, "\u{53cd}\u{6d3e}"@) {
        "\u{53cd}\u{6d3e}"@
    } else {
        Seq::empty()
    }
}

pub open spec fn name_listed(names: Seq<(Seq<char>, Seq<char>)>, name: Seq<char>) -> bool {
    exists|j: int| 0 <= j < names.len() && #[trigger] names[j].0 == name
}

/// The characters of matches `ms`, each name once, with its role.
pub open spec fn script_names(s: Seq<char>, ms: Seq<NameMatch>) -> Seq<(Seq<char>, Seq<char>)>
    decreases ms.len(),
{
    if ms.len() == 0 {
        Seq::empty()
    } else {
        let prev = script_names(s, ms.drop_last());
        let name = match_name(s, ms.last());
        if !not_a_character(name) && !name_listed(prev, name) {
            prev.push((name, role_in(window_before(s, ms.last().start))))
        } else {
            prev
        }
    }
}

/// Whether the last of the matches `ms` adds a character to those of the
/// matches before it.
pub open spec fn adds_name(s: Seq<char>, ms: Seq<NameMatch>) -> bool {
    ms.len() > 0 && !not_a_character(match_name(s, ms.last())) && !name_listed(
        script_names(s, ms.drop_last()),
        match_name(s, ms.last()),
    )
}

proof fn lemma_spaces_end_ok(s: Seq<char>, i: int)
    requires
        0 <= i <= s.len(),
    ensures
        i <= spaces_end(s, i) <= s.len(),
{
    lemma_spaces_end(s, i);
}

fn name_tail_end_exec(s: &[char], q: usize) -> (r: Option<usize>)
    requires
        q <= s@.len(),
    ensures
        match r {
            Some(e) => name_tail_end(s@, q as int) == e as int,
            None => name_tail_end(s@, q as int) == -1,
        },
        r is Some ==> r->0 > q,
{
    let w = spaces_end_index(s, q);
    if w < s.len() && (s[w] == '\u{ff1a}' || s[w] == ':') {
        return Some(w + 1);
    }
    if w < s.len() && s[w] == '\u{ff08}' {
        let ghost c0 = find_char(s@, '\u{ff09}', w + 1);
        proof {
            lemma_find_char(s@, '\u{ff09}', w + 1);
        }
        let mut c = w + 1;
        while c < s.len() && s[c] != '\u{ff09}'
            invariant
                w + 1 <= c <= s@.len(),
                find_char(s@, '\u{ff09}', c as int) == c0,
            decreases s@.len() - c,
        {
            c += 1;
        }
        if c < s.len() {
            let w2 = spaces_end_index(s, c + 1);
            if w2 < s.len() && (s[w2] == '\u{ff1a}' || s[w2] == ':') {
                return Some(w2 + 1);
            }
        }
    }
    None
}

fn name_fits_exec(s: &[char], p: usize, n: usize) -> (r: bool)
    requires
        1 <= n <= 8,
    ensures
        r == name_fits(s@, p as int, n as int),
{
    if p > s.len() || s.len() - p < 4 + n {
        return false;
    }
    if s[p] != '*' || s[p + 1] != '*' {
        return false;
    }
    let mut i = p + 2;
    let name_end = p + 2 + n;
    while i < name_end
        invariant
            name_end == p + 2 + n,
            p + 2 <= i <= p + 2 + n,
            p + 4 + n <= s@.len(),
            forall|k: int| p + 2 <= k < i ==> s@[k] != '\n',
        decreases p + 2 + n - i,
    {
        if s[i] == '\n' {
            return false;
        }
        i += 1;
    }
    if s[p + 2 + n] != '*' || s[p + 3 + n] != '*' {
        return false;
    }
    name_tail_end_exec(s, p + 4 + n).is_some()
}

proof fn lemma_name_len_at(s: Seq<char>, p: int, n: int)
    ensures
        0 <= name_len_at(s, p, n),
        n >= 0 ==> name_len_at(s, p, n) <= n,
        name_len_at(s, p, n) > 0 ==> name_fits(s, p, name_len_at(s, p, n)),
    decreases n,
{
    if n > 0 && !name_fits(s, p, n) {
        lemma_name_len_at(s, p, n - 1);
    }
}

fn name_len_exec(s: &[char], p: usize) -> (r: usize)
    ensures
        r == name_len_at(s@, p as int, 8),
        r <= 8,
{
    let mut n: usize = 8;
    while n > 0
        invariant
            n <= 8,
            name_len_at(s@, p as int, 8) == name_len_at(s@, p as int, n as int),
        decreases n,
    {
        if name_fits_exec(s, p, n) {
            return n;
        }
        n -= 1;
    }
    0
}

fn role_exec(s: &[char], p: usize) -> (r: String)
    requires
        p <= s@.len(),
    ensures
        r@ == role_in(window_before(s@, p as int)),
{
    let head = copy_range(s, 0, p);
    assert(s@.take(p as int) =~= head@);
    let w = crate::text::byte_suffix_chars(&head, 100);
    let ws = string_of(&w);
    if contains_str(ws.as_str(), "\u{5973}\u{4e3b}") {
        "\u{5973}\u{4e3b}".to_string()
    } else if contains_str(ws.as_str(), "\u{7537}\u{4e3b}") {
        "\u{7537}\u{4e3b}".to_string()
    } else if contains_str(ws.as_str(), "\u{53cd}\u{6d3e}") {
        "\u{53cd}\u{6d3e}".to_string()
    } else {
        String::new()
    }
}
fn name_listed_exec(names: &Vec<(String, String)>, name: &Vec<char>) -> (r: bool)
    ensures
        r == name_listed(names@.map_values(|e: (String, String)| (e.0@, e.1@)), name@),
{
    let ghost nv = names@.map_values(|e: (String, String)| (e.0@, e.1@));
    let mut j: usize = 0;
    while j < names.len()
        invariant
            j <= names@.len(),
            nv == names@.map_values(|e: (String, String)| (e.0@, e.1@)),
            forall|k: int| 0 <= k < j ==> nv[k].0 != name@,
        decreases names@.len() - j,
    {
        let c = chars_of(names[j].0.as_str());
        if crate::text::chars_eq(&c, name) {
            assert(nv[j as int].0 == name@);
            return true;
        }
        j += 1;
    }
    false
}

/// The characters the script names in bold before a colon, each once and
/// in order of first mention, with the role (女主, 男主 or 反派) that the 100
/// bytes before the first mention give it (empty when none).
pub fn script_character_names(script_body: &str) -> (r: Vec<(String, String)>)
    ensures
        r@.map_values(|e: (String, String)| (e.0@, e.1@)) == script_names(
            script_body@,
            name_matches_from(script_body@, 0),
        ),
{
    let s = chars_of(script_body);
    let ghost all = name_matches_from(s@, 0);
    let ghost mut done: Seq<NameMatch> = Seq::empty();
    let mut names: Vec<(String, String)> = Vec::new();
    let mut from: usize = 0;
    assert(all =~= done + name_matches_from(s@, 0));
    while from < s.len()
        invariant
            s@ == script_body@,
            all == name_matches_from(s@, 0),
            from <= s@.len(),
            all == done + name_matches_from(s@, from as int),
            names@.map_values(|e: (String, String)| (e.0@, e.1@)) == script_names(s@, done),
        decreases s@.len() - from,
    {
        let n = name_len_exec(&s, from);
        proof {
            lemma_name_len_at(s@, from as int, 8);
        }
        if n > 0 {
            let e = name_tail_end_exec(&s, from + 4 + n);
            match e {
                Some(end) => {
                    let ghost m = NameMatch { start: from as int, len: n as int, end: end as int };
                    proof {
                        assert(name_matches_from(s@, from as int) =~= seq![m] + name_matches_from(s@, end as int));
                        assert(all =~= done.push(m) + name_matches_from(s@, end as int));
                        assert(done.push(m).drop_last() =~= done);
                        assert(done.push(m).last() == m);
                    }
                    let raw = copy_range(&s, from + 2, from + 2 + n);
                    let name = trim_chars(&raw);
                    let skip = name.len() == 0 || (name.len() >= 2 && name[0] == '\u{573a}' && name[1]
                        == '\u{666f}') || (name.len() >= 2 && name[0] == '\u{51fa}' && name[1]
                        == '\u{573a}');
                    proof {
                        reveal_strlit("\u{573a}\u{666f}");
                        reveal_strlit("\u{51fa}\u{573a}");
                        assert("\u{573a}\u{666f}"@ =~= seq!['\u{573a}', '\u{666f}']);
                        assert("\u{51fa}\u{573a}"@ =~= seq!['\u{51fa}', '\u{573a}']);
                        assert(name@ == match_name(s@, m));
                        if name@.len() >= 2 {
                            assert(name@.subrange(0, 2) =~= seq![name@[0], name@[1]]);
                        }
                        assert(skip == not_a_character(name@));
                    }
                    if !skip && !name_listed_exec(&names, &name) {
                        let role = role_exec(&s, from);
                        let ghost before = names@;
                        names.push((string_of(&name), role));
                        proof {
                            assert(names@.map_values(|e: (String, String)| (e.0@, e.1@)) =~= before.map_values(
                                |e: (String, String)| (e.0@, e.1@),
                            ).push((match_name(s@, m), role_in(window_before(s@, m.start)))));
                        }
                    }
                    proof {
                        done = done.push(m);
                    }
                    from = end;
                },
                None => {
                    proof {
                        assert(false);
                    }
                    from = from + 1;
                },
            }
        } else {
            proof {
                assert(name_matches_from(s@, from as int) == name_matches_from(s@, from + 1));
            }
            from = from + 1;
        }
    }
    proof {
        assert(name_matches_from(s@, from as int) =~= Seq::<NameMatch>::empty());
        assert(all =~= done);
    }
    names
}

// ---------------------------------------------------------------------------
// Scenes named in the script: `**场景：** name`
// ---------------------------------------------------------------------------

/// The scene heading `**场景：**` (either colon) starts at `p`.
pub open spec fn scene_heading_at(s: Seq<char>, p: int) -> bool {
    &&& 0 <= p
    &&& p + 7 <= s.len()
    &&& s[p] == '*' && s[p + 1] == '*'
    &&& s[p + 2] == '\u{573a}' && s[p + 3] == '\u{666f}'
    &&& is_colon(s[p + 4])
    &&& s[p + 5] == '*' && s[p + 6] == '*'
}

/// The scene names the headings from `i` on give, in order: the rest of the
/// heading's line after the space that follows it (space that may run over
/// line breaks). A heading followed by nothing but space ends the search.
pub open spec fn scene_names_from(s: Seq<char>, i: int) -> Seq<Seq<char>>
    decreases s.len() - i,
{
    if i < 0 || i >= s.len() {
        Seq::empty()
    } else if scene_heading_at(s, i) {
        let q = spaces_end(s, i + 7);
        if q < s.len() && q <= nl_from(s, q) <= s.len() && nl_from(s, q) > i {
            seq![s.subrange(q, nl_from(s, q))] + scene_names_from(s, nl_from(s, q))
        } else {
            Seq::empty()
        }
    } else {
        scene_names_from(s, i + 1)
    }
}

/// The distinct non-empty trimmed scene names, in order of first mention.
pub open spec fn distinct_scenes(raw: Seq<Seq<char>>) -> Seq<Seq<char>>
    decreases raw.len(),
{
    if raw.len() == 0 {
        Seq::empty()
    } else {
        let prev = distinct_scenes(raw.drop_last());
        let t = trim(raw.last());
        if t.len() == 0 || prev.contains(t) {
            prev
        } else {
            prev.push(t)
        }
    }
}

pub open spec fn is_time_word_at(s: Seq<char>, q: int) -> int {
    if 0 <= q < s.len() && (s[q] == '\u{65e5}' || s[q] == '\u{591c}' || s[q] == '\u{6668}' || s[q]
        == '\u{5348}' || s[q] == '\u{665a}') {
        1
    } else if 0 <= q && q + 1 < s.len() && ((s[q] == '\u{9ec4}' && s[q + 1] == '\u{660f}') || (
    s[q] == '\u{508d}' && s[q + 1] == '\u{665a}')) {
        2
    } else {
        0
    }
}

/// The time of day a scene name gives after a middle dot (`·` or `・`) and
/// optional space: 日, 夜, 晨, 黄昏, 傍晚, 午 or 晚, the first such; empty
/// when there is none.
pub open spec fn time_of_day_from(s: Seq<char>, i: int) -> Seq<char>
    decreases s.len() - i,
{
    if i < 0 || i >= s.len() {
        Seq::empty()
    } else if (s[i] == '\u{b7}' || s[i] == '\u{30fb}') && is_time_word_at(s, spaces_end(s, i + 1))
        > 0 {
        s.subrange(
            spaces_end(s, i + 1),
            spaces_end(s, i + 1) + is_time_word_at(s, spaces_end(s, i + 1)),
        )
    } else {
        time_of_day_from(s, i + 1)
    }
}

/// The times of day a scene name can give after its middle dot.
pub open spec fn time_words() -> Seq<Seq<char>> {
    seq![
        seq!['\u{65e5}'],
        seq!['\u{591c}'],
        seq!['\u{6668}'],
        seq!['\u{9ec4}', '\u{660f}'],
        seq!['\u{508d}', '\u{665a}'],
        seq!['\u{5348}'],
        seq!['\u{665a}'],
    ]
}

proof fn lemma_tod_skip(s: Seq<char>, j: int, i: int)
    requires
        0 <= j <= i < s.len(),
        forall|k: int| 0 <= k < i ==> s[k] != '\u{b7}' && s[k] != '\u{30fb}',
    ensures
        time_of_day_from(s, j) == time_of_day_from(s, i),
    decreases i - j,
{
    if j < i {
        lemma_tod_skip(s, j + 1, i);
    }
}

/// Law: a scene name whose first middle dot (`·` or `・`) is followed, after
/// optional space, by 日, 夜, 晨, 黄昏, 傍晚, 午 or 晚 has that word as its
/// time of day.
pub proof fn law_time_of_day_after_dot(s: Seq<char>, i: int, w: int)
    requires
        0 <= i < s.len(),
        s[i] == '\u{b7}' || s[i] == '\u{30fb}',
        forall|k: int| 0 <= k < i ==> s[k] != '\u{b7}' && s[k] != '\u{30fb}',
        0 <= w < time_words().len(),
        occurs_at(s, time_words()[w], spaces_end(s, i + 1)),
    ensures
        time_of_day_from(s, 0) == time_words()[w],
{
    lemma_tod_skip(s, 0, i);
    let q = spaces_end(s, i + 1);
    let t = time_words()[w];
    assert(s.subrange(q, q + t.len()) == t);
    if w == 0 || w == 1 || w == 2 || w == 5 || w == 6 {
        assert(t.len() == 1);
        assert(s[q] == t[0]);
    } else {
        assert(t.len() == 2);
        assert(s[q] == t[0] && s[q + 1] == t[1]);
    }
    assert(is_time_word_at(s, q) == t.len());
    assert(s.subrange(q, q + is_time_word_at(s, q)) =~= t);
}

fn scene_heading_exec(s: &[char], p: usize) -> (r: bool)
    ensures
        r == scene_heading_at(s@, p as int),
{
    p <= s.len() && s.len() - p >= 7 && s[p] == '*' && s[p + 1] == '*' && s[p + 2] == '\u{573a}'
        && s[p + 3] == '\u{666f}' && (s[p + 4] == '\u{ff1a}' || s[p + 4] == ':') && s[p + 5] == '*'
        && s[p + 6] == '*'
}

fn nl_index(s: &[char], q: usize) -> (r: usize)
    requires
        q <= s@.len(),
    ensures
        r == nl_from(s@, q as int),
        q <= r <= s@.len(),
{
    proof {
        lemma_nl_from(s@, q as int);
    }
    let mut k = q;
    while k < s.len() && s[k] != '\n'
        invariant
            q <= k <= s@.len(),
            nl_from(s@, k as int) == nl_from(s@, q as int),
        decreases s@.len() - k,
    {
        k += 1;
    }
    k
}

fn scene_listed(seen: &Vec<Vec<char>>, t: &Vec<char>) -> (r: bool)
    ensures
        r == seen@.map_values(|v: Vec<char>| v@).contains(t@),
{
    let ghost sv = seen@.map_values(|v: Vec<char>| v@);
    let mut j: usize = 0;
    while j < seen.len()
        invariant
            j <= seen@.len(),
            sv == seen@.map_values(|v: Vec<char>| v@),
            forall|k: int| 0 <= k < j ==> sv[k] != t@,
        decreases seen@.len() - j,
    {
        if crate::text::chars_eq(&seen[j], t) {
            assert(sv[j as int] == t@);
            return true;
        }
        j += 1;
    }
    false
}

fn time_of_day_exec(s: &[char]) -> (r: Vec<char>)
    ensures
        r@ == time_of_day_from(s@, 0),
{
    let mut i: usize = 0;
    while i < s.len()
        invariant
            i <= s@.len(),
            time_of_day_from(s@, 0) == time_of_day_from(s@, i as int),
        decreases s@.len() - i,
    {
        if s[i] == '\u{b7}' || s[i] == '\u{30fb}' {
            let q = spaces_end_index(s, i + 1);
            let w: usize = if q < s.len() && (s[q] == '\u{65e5}' || s[q] == '\u{591c}' || s[q]
                == '\u{6668}' || s[q] == '\u{5348}' || s[q] == '\u{665a}') {
                1
            } else if q < s.len() && s.len() - q > 1 && ((s[q] == '\u{9ec4}' && s[q + 1] == '\u{660f}') || (s[q]
                == '\u{508d}' && s[q + 1] == '\u{665a}')) {
                2
            } else {
                0
            };
            if w > 0 {
                return copy_range(s, q, q + w);
            }
        }
        i += 1;
    }
    Vec::new()
}

/// The scenes the script heads with `**场景：**`: each distinct name once, in
/// order of first mention, with the time of day it gives.
pub fn script_scene_names(script_body: &str) -> (r: Vec<(String, String)>)
    ensures
        r@.map_values(|e: (String, String)| e.0@) == distinct_scenes(
            scene_names_from(script_body@, 0),
        ),
        forall|k: int|
            0 <= k < r@.len() ==> (#[trigger] r@[k]).1@ == time_of_day_from(r@[k].0@, 0),
{
    let s = chars_of(script_body);
    let ghost all = scene_names_from(s@, 0);
    let ghost mut done: Seq<Seq<char>> = Seq::empty();
    let mut seen: Vec<Vec<char>> = Vec::new();
    let mut out: Vec<(String, String)> = Vec::new();
    let mut from: usize = 0;
    assert(all =~= done + scene_names_from(s@, 0));
    while from < s.len()
        invariant
            s@ == script_body@,
            all == scene_names_from(s@, 0),
            from <= s@.len(),
            all == done + scene_names_from(s@, from as int),
            seen@.map_values(|v: Vec<char>| v@) == distinct_scenes(done),
            out@.map_values(|e: (String, String)| e.0@) == distinct_scenes(done),
            forall|k: int|
                0 <= k < out@.len() ==> (#[trigger] out@[k]).1@ == time_of_day_from(
                    out@[k].0@,
                    0,
                ),
        decreases s@.len() - from,
    {
        if scene_heading_exec(&s, from) {
            let q = spaces_end_index(&s, from + 7);
            if q < s.len() {
                let e = nl_index(&s, q);
                let ghost raw = s@.subrange(q as int, e as int);
                proof {
                    assert(e > from);
                    assert(scene_names_from(s@, from as int) =~= seq![raw] + scene_names_from(s@, e as int));
                    assert(all =~= done.push(raw) + scene_names_from(s@, e as int));
                    assert(done.push(raw).drop_last() =~= done);
                }
                let t = trim_chars(&copy_range(&s, q, e));
                if t.len() > 0 && !scene_listed(&seen, &t) {
                    let tod = time_of_day_exec(&t);
                    let ghost before_out = out@;
                    let ghost before_seen = seen@;
                    out.push((string_of(&t), string_of(&tod)));
                    seen.push(t);
                    proof {
                        assert(seen@.map_values(|v: Vec<char>| v@) =~= before_seen.map_values(
                            |v: Vec<char>| v@,
                        ).push(trim(raw)));
                        assert(out@.map_values(|e: (String, String)| e.0@) =~= before_out.map_values(
                            |e: (String, String)| e.0@,
                        ).push(trim(raw)));
                    }
                }
                proof {
                    done = done.push(raw);
                }
                from = e;
            } else {
                proof {
                    assert(scene_names_from(s@, from as int) =~= Seq::<Seq<char>>::empty());
                    assert(all =~= done);
                }
                return out;
            }
        } else {
            from = from + 1;
        }
    }
    proof {
        assert(scene_names_from(s@, from as int) =~= Seq::<Seq<char>>::empty());
        assert(all =~= done);
    }
    out
}

} // verus!

verus! {

// ---------------------------------------------------------------------------
// The asset records
// ---------------------------------------------------------------------------

/// A text member as a JSON string, `d` when it is missing or no string.
pub open spec fn str_or(o: Option<JsonV>, d: Seq<char>) -> JsonV {
    JsonV::Str(text_or(jstr(o), d))
}

pub open spec fn texts_json(ts: Seq<Seq<char>>) -> JsonV {
    JsonV::Array(ts.map_values(|t: Seq<char>| JsonV::Str(t)))
}

/// The aliases of a listed asset: the strings of its `aliases` list.
pub open spec fn aliases_of(raw: JsonV) -> JsonV {
    texts_json(string_items(jget(raw, "aliases"@)))
}

/// The record of a character the model listed, under id `id`.
pub open spec fn character_record_view(raw: JsonV, id: Seq<char>) -> JsonV {
    JsonV::Object(
        seq![
            ("aiPrompt"@, str_or(jget(raw, "aiPrompt"@), Seq::empty())),
            ("aliases"@, aliases_of(raw)),
            ("appearance"@, str_or(jget(raw, "appearance"@), Seq::empty())),
            ("clothing"@, str_or(jget(raw, "clothing"@), Seq::empty())),
            ("colorPalette"@, str_or(jget(raw, "colorPalette"@), Seq::empty())),
            ("id"@, JsonV::Str(id)),
            ("name"@, str_or(jget(raw, "name"@), "Unknown"@)),
            ("personality"@, str_or(jget(raw, "personality"@), Seq::empty())),
            ("role"@, str_or(jget(raw, "role"@), "Unknown"@)),
            ("visualAnchor"@, str_or(jget(raw, "visualAnchor"@), Seq::empty())),
        ],
    )
}

/// The record of a scene the model listed, under id `id`.
pub open spec fn scene_record_view(raw: JsonV, id: Seq<char>) -> JsonV {
    JsonV::Object(
        seq![
            ("aiPrompt"@, str_or(jget(raw, "aiPrompt"@), Seq::empty())),
            ("aliases"@, aliases_of(raw)),
            ("atmosphere"@, str_or(jget(raw, "atmosphere"@), Seq::empty())),
            ("colorTemperature"@, str_or(jget(raw, "colorTemperature"@), Seq::empty())),
            ("id"@, JsonV::Str(id)),
            ("landmarks"@, str_or(jget(raw, "landmarks"@), Seq::empty())),
            ("materials"@, str_or(jget(raw, "materials"@), Seq::empty())),
            ("name"@, str_or(jget(raw, "name"@), "Unknown"@)),
            ("timeOfDay"@, str_or(jget(raw, "timeOfDay"@), Seq::empty())),
            ("visualAnchor"@, str_or(jget(raw, "visualAnchor"@), Seq::empty())),
        ],
    )
}

/// The record of a prop the model listed, under id `id`.
pub open spec fn prop_record_view(raw: JsonV, id: Seq<char>) -> JsonV {
    JsonV::Object(
        seq![
            ("aiPrompt"@, str_or(jget(raw, "aiPrompt"@), Seq::empty())),
            ("aliases"@, aliases_of(raw)),
            ("dramaticFunction"@, str_or(jget(raw, "dramaticFunction"@), Seq::empty())),
            ("form"@, str_or(jget(raw, "form"@), Seq::empty())),
            ("id"@, JsonV::Str(id)),
            ("material"@, str_or(jget(raw, "material"@), Seq::empty())),
            ("name"@, str_or(jget(raw, "name"@), "Unknown"@)),
            ("surfaceState"@, str_or(jget(raw, "surfaceState"@), Seq::empty())),
            ("visualAnchor"@, str_or(jget(raw, "visualAnchor"@), Seq::empty())),
        ],
    )
}

/// The record of a character read off the script.
pub open spec fn named_character_view(name: Seq<char>, role: Seq<char>, id: Seq<char>) -> JsonV {
    JsonV::Object(
        seq![
            ("aiPrompt"@, JsonV::Str(Seq::empty())),
            ("aliases"@, JsonV::Array(Seq::empty())),
            ("appearance"@, JsonV::Str(Seq::empty())),
            ("clothing"@, JsonV::Str(Seq::empty())),
            ("colorPalette"@, JsonV::Str(Seq::empty())),
            ("id"@, JsonV::Str(id)),
            ("name"@, JsonV::Str(name)),
            ("personality"@, JsonV::Str(Seq::empty())),
            ("role"@, JsonV::Str(role)),
            ("visualAnchor"@, JsonV::Str(Seq::empty())),
        ],
    )
}

/// The record of a scene read off the script.
pub open spec fn named_scene_view(name: Seq<char>, time_of_day: Seq<char>, id: Seq<char>) -> JsonV {
    JsonV::Object(
        seq![
            ("aiPrompt"@, JsonV::Str(Seq::empty())),
            ("aliases"@, JsonV::Array(Seq::empty())),
            ("atmosphere"@, JsonV::Str(Seq::empty())),
            ("colorTemperature"@, JsonV::Str(Seq::empty())),
            ("id"@, JsonV::Str(id)),
            ("landmarks"@, JsonV::Str(Seq::empty())),
            ("materials"@, JsonV::Str(Seq::empty())),
            ("name"@, JsonV::Str(name)),
            ("timeOfDay"@, JsonV::Str(time_of_day)),
            ("visualAnchor"@, JsonV::Str(Seq::empty())),
        ],
    )
}

fn text_member(raw: &Json, k: &str, d: &str) -> (r: Json)
    ensures
        r@ == str_or(jget(raw@, k@), d@),
{
    match crate::prompt_generation::json_str(crate::prompt_generation::json_get(raw, k)) {
        Some(t) => Json::Str(t),
        None => Json::Str(d.to_string()),
    }
}

fn texts_exec(ts: Vec<String>) -> (r: Json)
    ensures
        r@ == texts_json(strings_view(ts@)),
{
    let ghost tv = strings_view(ts@);
    let mut out: Vec<Json> = Vec::new();
    let mut i: usize = 0;
    while i < ts.len()
        invariant
            tv == strings_view(ts@),
            i <= ts@.len(),
            out@.len() == i,
            forall|k: int| 0 <= k < i ==> #[trigger] out@[k]@ == JsonV::Str(tv[k]),
        decreases ts@.len() - i,
    {
        out.push(Json::Str(ts[i].clone()));
        i += 1;
    }
    proof {
        crate::json::lemma_array_view(out);
    }
    let r = Json::Array(out);
    assert(tv.len() == ts@.len());
    assert forall|k: int| 0 <= k < tv.len() implies r@->Array_0[k] == texts_json(tv)->Array_0[k] by {
        assert(r@->Array_0[k] == out@[k]@);
    }
    assert(r@->Array_0 =~= texts_json(tv)->Array_0);
    r
}

fn aliases_exec(raw: &Json) -> (r: Json)
    ensures
        r@ == aliases_of(raw@),
{
    texts_exec(crate::prompt_generation::string_items_of(crate::prompt_generation::json_get(raw, "aliases")))
}

/// The record of a character the model listed, under id `id`.
pub fn character_record(raw: &Json, id: String) -> (r: Json)
    ensures
        r@ == character_record_view(raw@, id@),
{
    proof {
        reveal_strlit("");
        assert(""@ =~= Seq::<char>::empty());
    }
    let fields: Vec<(String, Json)> = vec![
        ("aiPrompt".to_string(), text_member(raw, "aiPrompt", "")),
        ("aliases".to_string(), aliases_exec(raw)),
        ("appearance".to_string(), text_member(raw, "appearance", "")),
        ("clothing".to_string(), text_member(raw, "clothing", "")),
        ("colorPalette".to_string(), text_member(raw, "colorPalette", "")),
        ("id".to_string(), Json::Str(id)),
        ("name".to_string(), text_member(raw, "name", "Unknown")),
        ("personality".to_string(), text_member(raw, "personality", "")),
        ("role".to_string(), text_member(raw, "role", "Unknown")),
        ("visualAnchor".to_string(), text_member(raw, "visualAnchor", "")),
    ];
    proof {
        lemma_object_view(fields);
    }
    let r = Json::Object(fields);
    assert(r@->Object_0 =~= character_record_view(raw@, id@)->Object_0);
    r
}

/// The record of a scene the model listed, under id `id`.
pub fn scene_record(raw: &Json, id: String) -> (r: Json)
    ensures
        r@ == scene_record_view(raw@, id@),
{
    proof {
        reveal_strlit("");
        assert(""@ =~= Seq::<char>::empty());
    }
    let fields: Vec<(String, Json)> = vec![
        ("aiPrompt".to_string(), text_member(raw, "aiPrompt", "")),
        ("aliases".to_string(), aliases_exec(raw)),
        ("atmosphere".to_string(), text_member(raw, "atmosphere", "")),
        ("colorTemperature".to_string(), text_member(raw, "colorTemperature", "")),
        ("id".to_string(), Json::Str(id)),
        ("landmarks".to_string(), text_member(raw, "landmarks", "")),
        ("materials".to_string(), text_member(raw, "materials", "")),
        ("name".to_string(), text_member(raw, "name", "Unknown")),
        ("timeOfDay".to_string(), text_member(raw, "timeOfDay", "")),
        ("visualAnchor".to_string(), text_member(raw, "visualAnchor", "")),
    ];
    proof {
        lemma_object_view(fields);
    }
    let r = Json::Object(fields);
    assert(r@->Object_0 =~= scene_record_view(raw@, id@)->Object_0);
    r
}

/// The record of a prop the model listed, under id `id`.
pub fn prop_record(raw: &Json, id: String) -> (r: Json)
    ensures
        r@ == prop_record_view(raw@, id@),
{
    proof {
        reveal_strlit("");
        assert(""@ =~= Seq::<char>::empty());
    }
    let fields: Vec<(String, Json)> = vec![
        ("aiPrompt".to_string(), text_member(raw, "aiPrompt", "")),
        ("aliases".to_string(), aliases_exec(raw)),
        ("dramaticFunction".to_string(), text_member(raw, "dramaticFunction", "")),
        ("form".to_string(), text_member(raw, "form", "")),
        ("id".to_string(), Json::Str(id)),
        ("material".to_string(), text_member(raw, "material", "")),
        ("name".to_string(), text_member(raw, "name", "Unknown")),
        ("surfaceState".to_string(), text_member(raw, "surfaceState", "")),
        ("visualAnchor".to_string(), text_member(raw, "visualAnchor", "")),
    ];
    proof {
        lemma_object_view(fields);
    }
    let r = Json::Object(fields);
    assert(r@->Object_0 =~= prop_record_view(raw@, id@)->Object_0);
    r
}

/// `j` is the record of listed character `raw` under some fresh id.
pub open spec fn is_character_record(j: JsonV, raw: JsonV) -> bool {
    exists|id: Seq<char>| is_uuid_text(id) && j == character_record_view(raw, id)
}

/// `j` is the record of listed scene `raw` under some fresh id.
pub open spec fn is_scene_record(j: JsonV, raw: JsonV) -> bool {
    exists|id: Seq<char>| is_uuid_text(id) && j == scene_record_view(raw, id)
}

/// `j` is the record of listed prop `raw` under some fresh id.
pub open spec fn is_prop_record(j: JsonV, raw: JsonV) -> bool {
    exists|id: Seq<char>| is_uuid_text(id) && j == prop_record_view(raw, id)
}

/// `normalize_character`: the record of a listed character under a fresh id.
pub fn normalize_character(raw: &Json) -> (r: Json)
    ensures
        is_character_record(r@, raw@),
{
    let id = new_uuid();
    let ghost idv = id@;
    character_record(raw, id)
}

/// `normalize_scene`: the record of a listed scene under a fresh id.
pub fn normalize_scene(raw: &Json) -> (r: Json)
    ensures
        is_scene_record(r@, raw@),
{
    let id = new_uuid();
    let ghost idv = id@;
    scene_record(raw, id)
}

/// `normalize_prop`: the record of a listed prop under a fresh id.
pub fn normalize_prop(raw: &Json) -> (r: Json)
    ensures
        is_prop_record(r@, raw@),
{
    let id = new_uuid();
    let ghost idv = id@;
    prop_record(raw, id)
}

/// The record of a character read off the script, under id `id`.
pub fn named_character_record(name: String, role: String, id: String) -> (r: Json)
    ensures
        r@ == named_character_view(name@, role@, id@),
{
    let none: Vec<Json> = Vec::new();
    proof {
        crate::json::lemma_array_view(none);
        assert(json_view(Json::Array(none))->Array_0 =~= Seq::<JsonV>::empty());
    }
    let fields: Vec<(String, Json)> = vec![
        ("aiPrompt".to_string(), Json::Str(String::new())),
        ("aliases".to_string(), Json::Array(none)),
        ("appearance".to_string(), Json::Str(String::new())),
        ("clothing".to_string(), Json::Str(String::new())),
        ("colorPalette".to_string(), Json::Str(String::new())),
        ("id".to_string(), Json::Str(id)),
        ("name".to_string(), Json::Str(name)),
        ("personality".to_string(), Json::Str(String::new())),
        ("role".to_string(), Json::Str(role)),
        ("visualAnchor".to_string(), Json::Str(String::new())),
    ];
    proof {
        lemma_object_view(fields);
    }
    let r = Json::Object(fields);
    assert(r@->Object_0 =~= named_character_view(name@, role@, id@)->Object_0);
    r
}

/// The record of a scene read off the script, under id `id`.
pub fn named_scene_record(name: String, time_of_day: String, id: String) -> (r: Json)
    ensures
        r@ == named_scene_view(name@, time_of_day@, id@),
{
    let none: Vec<Json> = Vec::new();
    proof {
        crate::json::lemma_array_view(none);
        assert(json_view(Json::Array(none))->Array_0 =~= Seq::<JsonV>::empty());
    }
    let fields: Vec<(String, Json)> = vec![
        ("aiPrompt".to_string(), Json::Str(String::new())),
        ("aliases".to_string(), Json::Array(none)),
        ("atmosphere".to_string(), Json::Str(String::new())),
        ("colorTemperature".to_string(), Json::Str(String::new())),
        ("id".to_string(), Json::Str(id)),
        ("landmarks".to_string(), Json::Str(String::new())),
        ("materials".to_string(), Json::Str(String::new())),
        ("name".to_string(), Json::Str(name)),
        ("timeOfDay".to_string(), Json::Str(time_of_day)),
        ("visualAnchor".to_string(), Json::Str(String::new())),
    ];
    proof {
        lemma_object_view(fields);
    }
    let r = Json::Object(fields);
    assert(r@->Object_0 =~= named_scene_view(name@, time_of_day@, id@)->Object_0);
    r
}

/// `j` is the record of a character read off the script, under some fresh id.
pub open spec fn is_named_character(j: JsonV, name: Seq<char>, role: Seq<char>) -> bool {
    exists|id: Seq<char>| is_uuid_text(id) && j == named_character_view(name, role, id)
}

/// `j` is the record of a scene read off the script, under some fresh id.
pub open spec fn is_named_scene(j: JsonV, name: Seq<char>) -> bool {
    exists|id: Seq<char>|
        is_uuid_text(id) && j == named_scene_view(name, time_of_day_from(name, 0), id)
}

/// `extract_characters_from_script`: the characters the script names, as
/// records, each under a fresh id.
pub fn extract_characters_from_script(script_body: &str) -> (r: Vec<Json>)
    ensures
        r@.len() == script_names(script_body@, name_matches_from(script_body@, 0)).len(),
        forall|k: int|
            0 <= k < r@.len() ==> is_named_character(
                (#[trigger] r@[k])@,
                script_names(script_body@, name_matches_from(script_body@, 0))[k].0,
                script_names(script_body@, name_matches_from(script_body@, 0))[k].1,
            ),
{
    let names = script_character_names(script_body);
    let ghost nv = script_names(script_body@, name_matches_from(script_body@, 0));
    assert(names@.map_values(|e: (String, String)| (e.0@, e.1@)) == nv);
    let mut out: Vec<Json> = Vec::new();
    let mut i: usize = 0;
    while i < names.len()
        invariant
            nv == names@.map_values(|e: (String, String)| (e.0@, e.1@)),
            i <= names@.len(),
            out@.len() == i,
            forall|k: int|
                0 <= k < i ==> is_named_character((#[trigger] out@[k])@, nv[k].0, nv[k].1),
        decreases names@.len() - i,
    {
        let id = new_uuid();
        let ghost idv = id@;
        out.push(named_character_record(names[i].0.clone(), names[i].1.clone(), id));
        assert(is_uuid_text(idv) && out@[i as int]@ == named_character_view(nv[i as int].0, nv[i as int].1, idv));
        i += 1;
    }
    out
}

/// `extract_scenes_from_script`: the scenes the script heads, as records,
/// each under a fresh id.
pub fn extract_scenes_from_script(script_body: &str) -> (r: Vec<Json>)
    ensures
        r@.len() == distinct_scenes(scene_names_from(script_body@, 0)).len(),
        forall|k: int|
            0 <= k < r@.len() ==> is_named_scene(
                (#[trigger] r@[k])@,
                distinct_scenes(scene_names_from(script_body@, 0))[k],
            ),
{
    let scenes = script_scene_names(script_body);
    let ghost names = distinct_scenes(scene_names_from(script_body@, 0));
    assert(scenes@.map_values(|e: (String, String)| e.0@) =~= names);
    let mut out: Vec<Json> = Vec::new();
    let mut i: usize = 0;
    while i < scenes.len()
        invariant
            scenes@.map_values(|e: (String, String)| e.0@) == names,
            forall|k: int| 0 <= k < scenes@.len() ==> (#[trigger] scenes@[k]).1@ == time_of_day_from(scenes@[k].0@, 0),
            i <= scenes@.len(),
            out@.len() == i,
            forall|k: int| 0 <= k < i ==> is_named_scene((#[trigger] out@[k])@, names[k]),
        decreases scenes@.len() - i,
    {
        assert(names[i as int] == scenes@[i as int].0@);
        let id = new_uuid();
        let ghost idv = id@;
        out.push(named_scene_record(scenes[i].0.clone(), scenes[i].1.clone(), id));
        assert(is_uuid_text(idv) && out@[i as int]@ == named_scene_view(names[i as int], time_of_day_from(names[i as int], 0), idv));
        i += 1;
    }
    out
}

} // verus!

verus! {

/// The first member value that is a non-empty list, from member `i` on.
pub open spec fn first_nonempty_array(fs: Seq<(Seq<char>, JsonV)>, i: int) -> Option<Seq<JsonV>>
    decreases fs.len() - i,
{
    if i < 0 || i >= fs.len() {
        None
    } else {
        match fs[i].1 {
            JsonV::Array(items) => if items.len() > 0 {
                Some(items)
            } else {
                first_nonempty_array(fs, i + 1)
            },
            _ => first_nonempty_array(fs, i + 1),
        }
    }
}

/// The list a parsed reply gives: the reply itself when it is a list, else
/// the first of its member values that is a non-empty list.
pub open spec fn reply_array(v: JsonV) -> Option<Seq<JsonV>> {
    match v {
        JsonV::Array(items) => Some(items),
        JsonV::Object(fs) => first_nonempty_array(fs, 0),
        _ => None,
    }
}

fn clone_items(items: &Vec<Json>) -> (r: Vec<Json>)
    ensures
        crate::prompt_generation::views(r@) == crate::prompt_generation::views(items@),
{
    let mut out: Vec<Json> = Vec::new();
    let mut k: usize = 0;
    while k < items.len()
        invariant
            k <= items@.len(),
            out@.len() == k,
            forall|j: int| 0 <= j < k ==> (#[trigger] out@[j])@ == items@[j]@,
        decreases items@.len() - k,
    {
        out.push(items[k].clone());
        k += 1;
    }
    assert(crate::prompt_generation::views(out@) =~= crate::prompt_generation::views(items@));
    out
}

/// The list `extract_json_array` takes from a reply that parsed.
pub fn array_in_reply(v: &Json) -> (r: Option<Vec<Json>>)
    ensures
        match r {
            Some(items) => reply_array(v@) == Some(crate::prompt_generation::views(items@)),
            None => reply_array(v@) is None,
        },
{
    match v {
        Json::Array(items) => {
            proof {
                crate::json::lemma_array_view(*items);
                assert(v@->Array_0 =~= crate::prompt_generation::views(items@));
            }
            Some(clone_items(items))
        },
        Json::Object(fields) => {
            proof {
                lemma_object_view(*fields);
            }
            let ghost fs = v@->Object_0;
            let mut i: usize = 0;
            while i < fields.len()
                invariant
                    *v == Json::Object(*fields),
                    fs == v@->Object_0,
                    fs.len() == fields@.len(),
                    forall|k: int| 0 <= k < fields@.len() ==> #[trigger] fs[k] == (fields@[k].0@, fields@[k].1@),
                    i <= fields@.len(),
                    first_nonempty_array(fs, 0) == first_nonempty_array(fs, i as int),
                decreases fields@.len() - i,
            {
                match &fields[i].1 {
                    Json::Array(items) => {
                        if items.len() > 0 {
                            proof {
                                crate::json::lemma_array_view(*items);
                                assert(fs[i as int].1->Array_0 =~= crate::prompt_generation::views(items@));
                            }
                            return Some(clone_items(items));
                        }
                    },
                    _ => {},
                }
                i += 1;
            }
            None
        },
        _ => None,
    }
}

/// The model a run of asset extraction reports: with the note that the
/// script's own lists stood in for the model's when they did.
pub open spec fn extraction_model_text(model: Seq<char>, fallback_used: bool) -> Seq<char> {
    "workfisher-asset-extractor-v2 / "@ + model + if fallback_used {
        " / regex-fallback"@
    } else {
        Seq::empty()
    }
}

pub fn extraction_model(default_model: &str, fallback_used: bool) -> (r: String)
    ensures
        r@ == extraction_model_text(default_model@, fallback_used),
{
    let mut t = chars_of("workfisher-asset-extractor-v2 / ");
    crate::text::append_chars(&mut t, &chars_of(default_model));
    if fallback_used {
        crate::text::append_chars(&mut t, &chars_of(" / regex-fallback"));
    }
    assert(t@ =~= extraction_model_text(default_model@, fallback_used));
    string_of(&t)
}

/// The items the model listed (none when it gave no list).
pub open spec fn listed_items(o: Option<Vec<Json>>) -> Seq<JsonV> {
    match o {
        Some(v) => crate::prompt_generation::views(v@),
        None => Seq::empty(),
    }
}

/// The characters of `run_asset_extraction`: the records of those the model
/// listed, or, when it listed none, those the script names; and whether the
/// script's list was used (it was when it named any).
pub fn choose_characters(listed: Option<Vec<Json>>, script_body: &str) -> (r: (Vec<Json>, bool))
    ensures
        listed_items(listed).len() > 0 ==> {
            &&& !r.1
            &&& r.0@.len() == listed_items(listed).len()
            &&& forall|k: int|
                0 <= k < listed_items(listed).len() ==> is_character_record(
                    (#[trigger] r.0@[k])@,
                    listed_items(listed)[k],
                )
        },
        listed_items(listed).len() == 0 ==> {
            let names = script_names(script_body@, name_matches_from(script_body@, 0));
            &&& r.1 == (names.len() > 0)
            &&& r.0@.len() == names.len()
            &&& forall|k: int| 0 <= k < names.len() ==> is_named_character((#[trigger] r.0@[k])@, names[k].0, names[k].1)
        },
{
    match listed {
        Some(v) => {
            if v.len() > 0 {
                let mut out: Vec<Json> = Vec::new();
                let mut k: usize = 0;
                while k < v.len()
                    invariant
                        k <= v@.len(),
                        out@.len() == k,
                        forall|j: int| 0 <= j < k ==> is_character_record((#[trigger] out@[j])@, v@[j]@),
                    decreases v@.len() - k,
                {
                    out.push(normalize_character(&v[k]));
                    k += 1;
                }
                return (out, false);
            }
            let found = extract_characters_from_script(script_body);
            let used = found.len() > 0;
            (found, used)
        },
        None => {
            let found = extract_characters_from_script(script_body);
            let used = found.len() > 0;
            (found, used)
        },
    }
}

/// The scenes of `run_asset_extraction`: the records of those the model
/// listed, or, when it listed none, those the script heads; and whether the
/// script's list was used (it was when it headed any).
pub fn choose_scenes(listed: Option<Vec<Json>>, script_body: &str) -> (r: (Vec<Json>, bool))
    ensures
        listed_items(listed).len() > 0 ==> {
            &&& !r.1
            &&& r.0@.len() == listed_items(listed).len()
            &&& forall|k: int|
                0 <= k < listed_items(listed).len() ==> is_scene_record(
                    (#[trigger] r.0@[k])@,
                    listed_items(listed)[k],
                )
        },
        listed_items(listed).len() == 0 ==> {
            let names = distinct_scenes(scene_names_from(script_body@, 0));
            &&& r.1 == (names.len() > 0)
            &&& r.0@.len() == names.len()
            &&& forall|k: int| 0 <= k < names.len() ==> is_named_scene((#[trigger] r.0@[k])@, names[k])
        },
{
    match listed {
        Some(v) => {
            if v.len() > 0 {
                let mut out: Vec<Json> = Vec::new();
                let mut k: usize = 0;
                while k < v.len()
                    invariant
                        k <= v@.len(),
                        out@.len() == k,
                        forall|j: int| 0 <= j < k ==> is_scene_record((#[trigger] out@[j])@, v@[j]@),
                    decreases v@.len() - k,
                {
                    out.push(normalize_scene(&v[k]));
                    k += 1;
                }
                return (out, false);
            }
            let found = extract_scenes_from_script(script_body);
            let used = found.len() > 0;
            (found, used)
        },
        None => {
            let found = extract_scenes_from_script(script_body);
            let used = found.len() > 0;
            (found, used)
        },
    }
}

/// The props of `run_asset_extraction`: the records of those the model
/// listed (the script has no list of its own to fall back on).
pub fn choose_props(listed: Option<Vec<Json>>) -> (r: Vec<Json>)
    ensures
        r@.len() == listed_items(listed).len(),
        forall|k: int|
            0 <= k < r@.len() ==> is_prop_record((#[trigger] r@[k])@, listed_items(listed)[k]),
{
    let mut out: Vec<Json> = Vec::new();
    match listed {
        Some(v) => {
            let mut k: usize = 0;
            while k < v.len()
                invariant
                    k <= v@.len(),
                    out@.len() == k,
                    forall|j: int| 0 <= j < k ==> is_prop_record((#[trigger] out@[j])@, v@[j]@),
                decreases v@.len() - k,
            {
                out.push(normalize_prop(&v[k]));
                k += 1;
            }
        },
        None => {},
    }
    out
}

} // verus!
