//! The screenplay workflow over a project record: the operations the app
//! offers on a project, and the hand-over of a finished screenplay to a
//! script task.
use vstd::prelude::*;
use crate::crud::FinalizeScreenplayInput;
use crate::json::{Json, JsonV};
use crate::screenplay_store::{
    ProjectInit, ProjectRecord, VersionEntry, active_version_readable, spec_active_version, step_versions,
    same_version, step_key, all_activated_if, same_but_steps, opt_json_view, take_chars, unnamed_title,
};
use crate::seedance::{after_scene_word, first_match, numeral_end};
use crate::text::{chars_of, copy_range, digits_end, is_digit, spaces_end, string_of, trim, trim_chars};

verus! {

/// An imported scene header at `p`: `【场景 N：title】` then a bracketed note
/// `（…）`; where the match ends.
pub open spec fn import_header_at(s: Seq<char>, p: int) -> Option<int> {
    let i1 = spaces_end(s, p + 1);
    let j = if crate::text::occurs_at(s, crate::seedance::scene_word(), i1) { i1 + 2 } else if 0 <= i1 < s.len() && s[i1] == '\u{573a}' { i1 + 1 } else { -1 };
    let i2 = spaces_end(s, j);
    let ne = numeral_end(s, i2);
    let w = spaces_end(s, ne);
    let c = crate::blocks::char_from(s, '\u{3011}', w + 1);
    let t = spaces_end(s, c + 1);
    let q = close_paren_from(s, t + 1);
    if 0 <= p < s.len() && s[p] == '\u{3010}' && j >= 0 && ne > i2 && w < s.len() && crate::v5_parser::is_colon(s[w])
        && w + 1 < c < s.len() && t < s.len() && crate::seedance::is_open_paren(s[t]) && q < s.len() {
        Some(q + 1)
    } else {
        None
    }
}

/// Index of the first closing bracket at or after `i`, or the length.
pub open spec fn close_paren_from(s: Seq<char>, i: int) -> int
    decreases s.len() - i,
{
    if 0 <= i < s.len() && !crate::seedance::is_close_paren(s[i]) {
        close_paren_from(s, i + 1)
    } else {
        i
    }
}

/// The imported headers from `i` on, left to right, not overlapping: their
/// start positions.
pub open spec fn import_headers_from(s: Seq<char>, i: int) -> Seq<int>
    decreases s.len() - i,
{
    if i < 0 || i >= s.len() {
        Seq::empty()
    } else if import_header_at(s, i) is Some && i < import_header_at(s, i)->0 <= s.len() {
        seq![i] + import_headers_from(s, import_header_at(s, i)->0)
    } else {
        import_headers_from(s, i + 1)
    }
}


/// The number a header's bracketed note holds first, at `p`: its digits span.
pub open spec fn note_number_at(s: Seq<char>, p: int) -> Option<(int, int)> {
    let k = digit_or_close_from(s, p + 1);
    let d = digits_end(s, k);
    if 0 <= p < s.len() && crate::seedance::is_open_paren(s[p]) && k < s.len() && is_digit(s[k])
        && close_paren_from(s, d) < s.len() {
        Some((k, d))
    } else {
        None
    }
}

/// Index of the first digit or closing bracket at or after `i`, or the length.
pub open spec fn digit_or_close_from(s: Seq<char>, i: int) -> int
    decreases s.len() - i,
{
    if 0 <= i < s.len() && !is_digit(s[i]) && !crate::seedance::is_close_paren(s[i]) {
        digit_or_close_from(s, i + 1)
    } else {
        i
    }
}

/// The length label of an imported scene: `约 N 秒` with the first number of
/// the header's bracketed note, else `约 30 秒`.
pub open spec fn import_duration(header: Seq<char>) -> Seq<char> {
    match first_match(header, 0, |p: int| note_number_at(header, p)) {
        Some((a, b)) => "\u{7ea6} "@ + header.subrange(a, b) + " \u{79d2}"@,
        None => "\u{7ea6} 30 \u{79d2}"@,
    }
}

pub open spec fn mid() -> Seq<char> {
    "\u{4e2d}"@
}

/// A finalized scene: index, header, length label, both rhythms `中`, body.
pub open spec fn scene_json(index: int, header: Seq<char>, duration: Seq<char>, body: Seq<char>) -> JsonV {
    JsonV::Object(seq![
        ("body"@, JsonV::Str(body)),
        ("duration"@, JsonV::Str(duration)),
        ("emotionRhythm"@, JsonV::Str(mid())),
        ("header"@, JsonV::Str(header)),
        ("index"@, crate::json::num_json(index)),
        ("plotRhythm"@, JsonV::Str(mid())),
    ])
}

/// Scene `i` of an imported script with header starts `st`: the trimmed text
/// up to the next header, its first line the header, the rest the body.
pub open spec fn import_scene(s: Seq<char>, st: Seq<int>, i: int) -> JsonV {
    let end = if i + 1 < st.len() { st[i + 1] } else { s.len() as int };
    let block = trim(s.subrange(st[i], end));
    let header = crate::seedance::first_line(block);
    let body = trim(block.subrange(header.len() as int, block.len() as int));
    scene_json(i + 1, header, import_duration(header), body)
}

/// The scenes of an imported script: one per header when it has two or
/// more, else the whole script as one scene named after the file.
pub open spec fn import_scenes(init: ProjectInit, s: Seq<char>) -> Seq<JsonV> {
    let st = import_headers_from(s, 0);
    if st.len() >= 2 {
        Seq::new(st.len(), |i: int| import_scene(s, st, i))
    } else {
        let header = match init.imported_file_name {
            Some(n) => "\u{3010}\u{5bfc}\u{5165}\u{5267}\u{672c}\u{ff1a}"@ + n@ + "\u{3011}"@,
            None => "\u{3010}\u{5bfc}\u{5165}\u{5267}\u{672c}\u{3011}"@,
        };
        let duration = match init.duration {
            Some(d) => d@,
            None => "\u{672a}\u{77e5}"@,
        };
        seq![scene_json(1, header, duration, trim(s))]
    }
}

/// The name a finished screenplay's project gets: the project's name, else
/// the first 30 chars of its concept, else `未命名剧本`.
pub open spec fn finalized_name(init: ProjectInit) -> Seq<char> {
    match init.name {
        Some(n) => n@,
        None => match init.concept {
            Some(c) => take_chars(c@, 30),
            None => unnamed_title(),
        },
    }
}

pub open spec fn json_views(v: Seq<Json>) -> Seq<JsonV> {
    v.map_values(|j: Json| j@)
}

/// The scenes of a written screenplay: the `scenes` list of step 7's
/// structured output.
pub open spec fn written_scenes(rec: ProjectRecord) -> Result<Seq<JsonV>, Seq<char>> {
    match spec_active_version(rec, 7) {
        None => Err("Step 7 output not found"@),
        Some(v) => match v.structured {
            None => Err("Step 7 structured data missing"@),
            Some(j) => match crate::prompt_generation::jget(j@, "scenes"@) {
                Some(JsonV::Array(items)) => Ok(items),
                _ => Err("Step 7 scenes is not an array"@),
            },
        },
    }
}

/// What a finished screenplay hands to its script task, or why it cannot.
pub open spec fn finalize_spec(r: Result<FinalizeScreenplayInput, String>, rec: ProjectRecord) -> bool {
    let init = rec.init;
    let imported = crate::screenplay_store::is_import_path(init);
    let script = match init.imported_script { Some(x) => x@, None => Seq::empty() };
    let scenes: Result<Seq<JsonV>, Seq<char>> = if imported {
        if trim(script).len() == 0 { Err("Imported script is empty"@) } else { Ok(import_scenes(init, script)) }
    } else {
        written_scenes(rec)
    };
    match scenes {
        Err(e) => r matches Err(m) && m@ == e,
        Ok(sc) => r matches Ok(f) && {
            &&& json_views(f.scenes@) == sc
            &&& f.project_name@ == finalized_name(init)
            &&& f.duration@ == (match init.duration { Some(d) => d@, None => "2\u{5206}\u{949f}"@ })
            &&& f.concept == init.concept
            &&& f.linked_script_task_id == rec.linked_script_task_id
            &&& opt_json_view(f.doctor) == (match spec_active_version(rec, 8) {
                Some(v) => opt_json_view(v.structured),
                None => None,
            })
        },
    }
}


fn is_open_paren_c(c: char) -> (r: bool)
    ensures
        r == crate::seedance::is_open_paren(c),
{
    c == '(' || c == '\u{ff08}'
}

fn is_close_paren_c(c: char) -> (r: bool)
    ensures
        r == crate::seedance::is_close_paren(c),
{
    c == ')' || c == '\u{ff09}'
}

proof fn lemma_close_paren_from(s: Seq<char>, i: int)
    requires
        0 <= i <= s.len(),
    ensures
        i <= close_paren_from(s, i) <= s.len(),
    decreases s.len() - i,
{
    if i < s.len() && !crate::seedance::is_close_paren(s[i]) {
        lemma_close_paren_from(s, i + 1);
    }
}

fn close_paren_index(s: &[char], i: usize) -> (r: usize)
    requires
        i <= s@.len(),
    ensures
        r == close_paren_from(s@, i as int),
        i <= r <= s@.len(),
{
    proof {
        lemma_close_paren_from(s@, i as int);
    }
    let mut k = i;
    while k < s.len() && !is_close_paren_c(s[k])
        invariant
            i <= k <= s@.len(),
            close_paren_from(s@, k as int) == close_paren_from(s@, i as int),
        decreases s@.len() - k,
    {
        k += 1;
    }
    k
}

fn spaces_at(s: &[char], i: usize) -> (r: usize)
    requires
        i <= s@.len(),
    ensures
        r == spaces_end(s@, i as int),
        i <= r <= s@.len(),
{
    proof {
        crate::text::lemma_spaces_end(s@, i as int);
    }
    crate::text::spaces_end_index(s, i)
}

fn import_header_at_exec(s: &[char], p: usize) -> (r: Option<usize>)
    requires
        p <= s@.len(),
    ensures
        match r {
            Some(e) => import_header_at(s@, p as int) == Some(e as int) && p < e <= s@.len(),
            None => !(import_header_at(s@, p as int) is Some && p < import_header_at(s@, p as int)->0 <= s@.len()),
        },
{
    let n = s.len();
    if !(p < n && s[p] == '\u{3010}') {
        return None;
    }
    let i1 = spaces_at(s, p + 1);
    let w2: Vec<char> = vec!['\u{573a}', '\u{666f}'];
    assert(w2@ == crate::seedance::scene_word());
    let j = if crate::text::occurs_at_exec(s, &w2, i1) {
        i1 + 2
    } else if i1 < n && s[i1] == '\u{573a}' {
        i1 + 1
    } else {
        return None;
    };
    let i2 = spaces_at(s, j);
    proof {
        crate::seedance::lemma_numeral_end(s@, i2 as int);
    }
    let mut ne = i2;
    while ne < n && crate::seedance::is_numeral_exec(s[ne])
        invariant
            i2 <= ne <= s@.len(),
            n == s@.len(),
            numeral_end(s@, ne as int) == numeral_end(s@, i2 as int),
        decreases s@.len() - ne,
    {
        ne += 1;
    }
    if ne <= i2 {
        return None;
    }
    let w = spaces_at(s, ne);
    if !(w < n && (s[w] == ':' || s[w] == '\u{ff1a}')) {
        return None;
    }
    proof {
        crate::blocks::lemma_char_from(s@, '\u{3011}', w + 1);
    }
    let c = crate::blocks::char_index(s, '\u{3011}', w + 1);
    if !(w + 1 < c && c < n) {
        return None;
    }
    let t = spaces_at(s, c + 1);
    if !(t < n && is_open_paren_c(s[t])) {
        return None;
    }
    let q = close_paren_index(s, t + 1);
    if q < n {
        Some(q + 1)
    } else {
        None
    }
}

fn import_headers(s: &[char]) -> (r: Vec<usize>)
    ensures
        r@.len() == import_headers_from(s@, 0).len(),
        forall|k: int| 0 <= k < r@.len() ==> (#[trigger] r@[k]) as int == import_headers_from(s@, 0)[k],
{
    let mut out: Vec<usize> = Vec::new();
    let ghost mut got: Seq<int> = Seq::empty();
    let mut i: usize = 0;
    while i < s.len()
        invariant
            i <= s@.len(),
            got + import_headers_from(s@, i as int) == import_headers_from(s@, 0),
            out@.len() == got.len(),
            forall|k: int| 0 <= k < out@.len() ==> (#[trigger] out@[k]) as int == got[k],
        decreases s@.len() - i,
    {
        match import_header_at_exec(s, i) {
            Some(e) => {
                proof {
                    assert(got + import_headers_from(s@, i as int) =~= got.push(i as int) + import_headers_from(s@, e as int));
                    got = got.push(i as int);
                }
                out.push(i);
                i = e;
            },
            None => {
                i += 1;
            },
        }
    }
    assert(got =~= import_headers_from(s@, 0));
    out
}

proof fn lemma_import_headers_sorted(s: Seq<char>, i: int)
    requires
        0 <= i,
    ensures
        forall|k: int| 0 <= k < import_headers_from(s, i).len() ==> i <= (#[trigger] import_headers_from(s, i)[k]) < s.len(),
        forall|k: int| 0 <= k < import_headers_from(s, i).len() - 1 ==> (#[trigger] import_headers_from(s, i)[k]) < import_headers_from(s, i)[k + 1],
    decreases s.len() - i,
{
    if i < s.len() {
        if import_header_at(s, i) is Some && i < import_header_at(s, i)->0 <= s.len() {
            let e = import_header_at(s, i)->0;
            lemma_import_headers_sorted(s, e);
            let rest = import_headers_from(s, e);
            assert(import_headers_from(s, i) == seq![i] + rest);
            assert forall|k: int| 0 <= k < import_headers_from(s, i).len() - 1 implies (#[trigger] import_headers_from(s, i)[k]) < import_headers_from(s, i)[k + 1] by {
                if k > 0 {
                    assert(import_headers_from(s, i)[k] == rest[k - 1]);
                    assert(import_headers_from(s, i)[k + 1] == rest[k]);
                } else {
                    assert(import_headers_from(s, i)[1] == rest[0]);
                }
            }
            assert forall|k: int| 0 <= k < import_headers_from(s, i).len() implies i <= (#[trigger] import_headers_from(s, i)[k]) < s.len() by {
                if k > 0 {
                    assert(import_headers_from(s, i)[k] == rest[k - 1]);
                }
            }
        } else {
            lemma_import_headers_sorted(s, i + 1);
            assert(import_headers_from(s, i) == import_headers_from(s, i + 1));
        }
    } else {
        assert(import_headers_from(s, i).len() == 0);
    }
}

proof fn lemma_digit_or_close(s: Seq<char>, i: int)
    requires
        0 <= i <= s.len(),
    ensures
        i <= digit_or_close_from(s, i) <= s.len(),
    decreases s.len() - i,
{
    if i < s.len() && !is_digit(s[i]) && !crate::seedance::is_close_paren(s[i]) {
        lemma_digit_or_close(s, i + 1);
    }
}

fn note_number_at_exec(s: &[char], p: usize) -> (r: Option<(usize, usize)>)
    requires
        p <= s@.len(),
    ensures
        match r {
            Some(v) => note_number_at(s@, p as int) == Some((v.0 as int, v.1 as int)) && v.0 <= v.1 <= s@.len(),
            None => note_number_at(s@, p as int) is None,
        },
{
    let n = s.len();
    if !(p < n && is_open_paren_c(s[p])) {
        return None;
    }
    proof {
        lemma_digit_or_close(s@, p + 1);
    }
    let mut k = p + 1;
    while k < n && !('0' <= s[k] && s[k] <= '9') && !is_close_paren_c(s[k])
        invariant
            p + 1 <= k <= s@.len(),
            n == s@.len(),
            digit_or_close_from(s@, k as int) == digit_or_close_from(s@, p + 1),
        decreases s@.len() - k,
    {
        k += 1;
    }
    if !(k < n && '0' <= s[k] && s[k] <= '9') {
        return None;
    }
    proof {
        crate::text::lemma_digits_end(s@, k as int);
    }
    let d = crate::text::digits_end_index(s, k);
    if close_paren_index(s, d) < n {
        Some((k, d))
    } else {
        None
    }
}

fn first_note_number(h: &Vec<char>) -> (r: Option<(usize, usize)>)
    ensures
        match r {
            Some(v) => first_match(h@, 0, |p: int| note_number_at(h@, p)) == Some((v.0 as int, v.1 as int)) && v.0 <= v.1 <= h@.len(),
            None => first_match(h@, 0, |p: int| note_number_at(h@, p)) is None,
        },
{
    let ghost f = |p: int| note_number_at(h@, p);
    let mut p: usize = 0;
    loop
        invariant
            p <= h@.len(),
            f == (|p: int| note_number_at(h@, p)),
            first_match(h@, 0, f) == first_match(h@, p as int, f),
        decreases h@.len() - p,
    {
        match note_number_at_exec(h, p) {
            Some(v) => {
                return Some(v);
            },
            None => {},
        }
        if p == h.len() {
            assert(first_match(h@, p + 1, f) is None);
            return None;
        }
        p += 1;
    }
}

fn import_duration_exec(h: &Vec<char>) -> (r: Vec<char>)
    ensures
        r@ == import_duration(h@),
{
    match first_note_number(h) {
        Some((a, b)) => {
            let mut out = chars_of("\u{7ea6} ");
            crate::text::append_chars(&mut out, &copy_range(h, a, b));
            crate::text::append_chars(&mut out, &chars_of(" \u{79d2}"));
            out
        },
        None => chars_of("\u{7ea6} 30 \u{79d2}"),
    }
}

fn scene_json_exec(index: usize, header: String, duration: String, body: String) -> (r: Json)
    ensures
        r@ == scene_json(index as int, header@, duration@, body@),
{
    let fields: Vec<(String, Json)> = vec![
        ("body".to_string(), Json::Str(body)),
        ("duration".to_string(), Json::Str(duration)),
        ("emotionRhythm".to_string(), Json::Str("\u{4e2d}".to_string())),
        ("header".to_string(), Json::Str(header)),
        ("index".to_string(), crate::json::usize_json(index)),
        ("plotRhythm".to_string(), Json::Str("\u{4e2d}".to_string())),
    ];
    let r = Json::Object(fields);
    proof {
        crate::json::lemma_object_view(fields);
        assert(r@->Object_0 =~= scene_json(index as int, header@, duration@, body@)->Object_0);
    }
    r
}


fn import_scene_exec(c: &Vec<char>, st: &Vec<usize>, i: usize, Ghost(g): Ghost<Seq<int>>) -> (r: Json)
    requires
        g == import_headers_from(c@, 0),
        st@.len() == g.len(),
        forall|k: int| 0 <= k < st@.len() ==> (#[trigger] st@[k]) as int == g[k],
        i < st@.len(),
        st@.len() <= usize::MAX,
    ensures
        r@ == import_scene(c@, g, i as int),
{
    proof {
        lemma_import_headers_sorted(c@, 0);
    }
    let start = st[i];
    let end = if i < st.len() - 1 { st[i + 1] } else { c.len() };
    let block = trim_chars(&copy_range(c, start, end));
    let ls = crate::text::lines(&block);
    let header: Vec<char> = if ls.len() > 0 {
        assert(ls@[0]@ == crate::text::spec_lines(block@)[0]);
        copy_range(&ls[0], 0, ls[0].len())
    } else {
        Vec::new()
    };
    assert(header@ == crate::seedance::first_line(block@)) by {
        if ls@.len() > 0 {
            assert(ls@[0]@.subrange(0, ls@[0]@.len() as int) =~= ls@[0]@);
        }
    }
    proof {
        lemma_first_line_prefix(block@);
    }
    let body = trim_chars(&copy_range(&block, header.len(), block.len()));
    let dur = import_duration_exec(&header);
    scene_json_exec(i + 1, string_of(&header), string_of(&dur), string_of(&body))
}

proof fn lemma_first_line_prefix(b: Seq<char>)
    ensures
        crate::seedance::first_line(b).len() <= b.len(),
{
    if b.len() > 0 {
        crate::text::lemma_nl_from(b, 0);
        assert(crate::text::spec_lines(b) == seq![crate::text::line_at(b, 0, crate::text::nl_from(b, 0))]
            + crate::text::lines_from(b, crate::text::nl_from(b, 0) + 1));
    }
}

fn import_scenes_exec(init: &ProjectInit, script: &String) -> (r: Vec<Json>)
    ensures
        json_views(r@) == import_scenes(*init, script@),
{
    let c = chars_of(script.as_str());
    let st = import_headers(&c);
    let ghost g = import_headers_from(c@, 0);
    if st.len() >= 2 {
        proof {
            lemma_import_headers_sorted(c@, 0);
        }
        let mut out: Vec<Json> = Vec::new();
        let mut i: usize = 0;
        while i < st.len()
            invariant
                i <= st@.len(),
                g == import_headers_from(c@, 0),
                st@.len() == g.len(),
                forall|k: int| 0 <= k < st@.len() ==> (#[trigger] st@[k]) as int == g[k],
                out@.len() == i,
                forall|k: int| 0 <= k < i ==> (#[trigger] out@[k])@ == import_scene(c@, g, k),
            decreases st@.len() - i,
        {
            out.push(import_scene_exec(&c, &st, i, Ghost(g)));
            i += 1;
        }
        assert(json_views(out@) =~= Seq::new(g.len(), |k: int| import_scene(c@, g, k)));
        out
    } else {
        let header = match &init.imported_file_name {
            Some(n) => {
                let mut h = chars_of("\u{3010}\u{5bfc}\u{5165}\u{5267}\u{672c}\u{ff1a}");
                crate::text::append_chars(&mut h, &chars_of(n.as_str()));
                crate::text::append_chars(&mut h, &chars_of("\u{3011}"));
                string_of(&h)
            },
            None => "\u{3010}\u{5bfc}\u{5165}\u{5267}\u{672c}\u{3011}".to_string(),
        };
        let duration = match &init.duration {
            Some(d) => d.clone(),
            None => "\u{672a}\u{77e5}".to_string(),
        };
        let body = string_of(&trim_chars(&c));
        let mut out: Vec<Json> = Vec::new();
        out.push(scene_json_exec(1, header, duration, body));
        assert(json_views(out@) =~= seq![out@[0]@]);
        out
    }
}

fn clone_opt_json(o: &Option<Json>) -> (r: Option<Json>)
    ensures
        opt_json_view(r) == opt_json_view(*o),
{
    match o {
        Some(j) => Some(j.clone()),
        None => None,
    }
}

/// `finalize_to_script_task`: what a finished screenplay hands to its script
/// task: the scenes (cut from the imported script, or step 7's), the
/// project's name, length and concept, step 8's review, and the task it is
/// already linked to.
pub fn finalize_to_script_task(rec: &ProjectRecord) -> (r: Result<FinalizeScreenplayInput, String>)
    requires
        active_version_readable(*rec, 8),
        !crate::screenplay_store::is_import_path(rec.init) ==> active_version_readable(*rec, 7),
    ensures
        finalize_spec(r, *rec),
{
    let init = &rec.init;
    proof {
        reveal_strlit("import");
    }
    assert("import"@ =~= seq!['i', 'm', 'p', 'o', 'r', 't']);
    let imported = match &init.path {
        Some(p) => crate::text::str_eq(p.as_str(), "import"),
        None => false,
    };
    let scenes: Vec<Json> = if imported {
        let script = match &init.imported_script {
            Some(x) => x.clone(),
            None => String::new(),
        };
        if trim_chars(&chars_of(script.as_str())).len() == 0 {
            return Err("Imported script is empty".to_string());
        }
        import_scenes_exec(init, &script)
    } else {
        let step7 = match crate::screenplay_store::get_active_version(rec, 7) {
            Some(v) => v,
            None => {
                return Err("Step 7 output not found".to_string());
            },
        };
        let structured = match step7.structured {
            Some(j) => j,
            None => {
                return Err("Step 7 structured data missing".to_string());
            },
        };
        match crate::prompt_generation::json_get(&structured, "scenes") {
            Some(Json::Array(items)) => {
                proof {
                    crate::json::lemma_array_view(*items);
                }
                let mut out: Vec<Json> = Vec::new();
                let mut i: usize = 0;
                while i < items.len()
                    invariant
                        i <= items@.len(),
                        out@.len() == i,
                        forall|k: int| 0 <= k < i ==> (#[trigger] out@[k])@ == items@[k]@,
                    decreases items@.len() - i,
                {
                    out.push(items[i].clone());
                    i += 1;
                }
                assert(json_views(out@) =~= json_views(items@));
                assert(json_views(items@) =~= crate::json::json_view(Json::Array(*items))->Array_0);
                out
            },
            _ => {
                return Err("Step 7 scenes is not an array".to_string());
            },
        }
    };
    let doctor = match crate::screenplay_store::get_active_version(rec, 8) {
        Some(v) => clone_opt_json(&v.structured),
        None => None,
    };
    let project_name = match &init.name {
        Some(n) => n.clone(),
        None => match &init.concept {
            Some(c) => string_of(&crate::screenplay_store::take_prefix(&chars_of(c.as_str()), 30)),
            None => {
                proof {
                    reveal_strlit("\u{672a}\u{547d}\u{540d}\u{5267}\u{672c}");
                }
                let u = "\u{672a}\u{547d}\u{540d}\u{5267}\u{672c}".to_string();
                assert(u@ =~= unnamed_title());
                u
            },
        },
    };
    let duration = match &init.duration {
        Some(d) => d.clone(),
        None => "2\u{5206}\u{949f}".to_string(),
    };
    Ok(FinalizeScreenplayInput {
        project_name,
        duration,
        concept: init.concept.clone(),
        scenes,
        doctor,
        linked_script_task_id: rec.linked_script_task_id.clone(),
    })
}


/// `create_project`: a new project record for `init`, named as
/// `created_name` says, at step 8 for an imported script and 1 otherwise.
pub fn create_project(init: ProjectInit) -> (r: ProjectRecord)
    ensures
        r.init.name is Some,
        r.init.name->0@ == crate::screenplay_store::created_name(init),
        r.init == (ProjectInit { name: r.init.name, ..init }),
        r.current_step == (if crate::screenplay_store::is_import_path(init) { 8u8 } else { 1u8 }),
        r.done_steps@ == seq![0u8],
        r.steps.entries@.len() == 0,
        r.checkpoints.entries@.len() == 0,
        r.linked_script_task_id is None,
{
    ProjectRecord::create(init)
}

/// `rename_project`: the project takes `new_name`, trimmed.
pub fn rename_project(rec: &mut ProjectRecord, new_name: &str)
    ensures
        final(rec).init.name is Some,
        final(rec).init.name->0@ == trim(new_name@),
        final(rec).init == (ProjectInit { name: final(rec).init.name, ..old(rec).init }),
        final(rec).steps == old(rec).steps,
        final(rec).done_steps == old(rec).done_steps,
        final(rec).current_step == old(rec).current_step,
{
    crate::screenplay_store::rename_project(rec, new_name)
}

/// `get_checkpoint`: the checkpoint stored for `trigger`.
pub fn get_checkpoint(rec: &ProjectRecord, trigger: &str) -> (r: Option<String>)
    ensures
        r == rec.checkpoints.get_spec(trigger@),
{
    crate::screenplay_store::get_checkpoint(rec, trigger)
}

/// `approve_step`: the step is done, and the project moves to `next_step`
/// (at most 9) or to the step after it (at most 9).
pub fn approve_step(rec: &mut ProjectRecord, step_number: u8, next_step: Option<u8>)
    requires
        next_step is Some || step_number < 255,
    ensures
        final(rec).done_steps@ == (if old(rec).done_steps@.contains(step_number) {
            old(rec).done_steps@
        } else {
            old(rec).done_steps@.push(step_number)
        }),
        final(rec).current_step == (match next_step {
            Some(n) => if n > 9 { 9 } else { n },
            None => if step_number + 1 > 9 { 9 } else { (step_number + 1) as u8 },
        }),
        final(rec).steps == old(rec).steps,
        final(rec).init == old(rec).init,
{
    crate::screenplay_store::approve_step(rec, step_number, next_step)
}

/// `rollback_to`: the project goes back to `target_step`; only earlier steps
/// stay done.
pub fn rollback_to(rec: &mut ProjectRecord, target_step: u8)
    ensures
        final(rec).done_steps@ == old(rec).done_steps@.filter(|n: u8| n < target_step),
        final(rec).current_step == target_step,
        final(rec).steps == old(rec).steps,
        final(rec).init == old(rec).init,
{
    crate::screenplay_store::rollback_to(rec, target_step)
}

/// `list_versions`: copies of the versions of a step.
pub fn list_versions(rec: &ProjectRecord, step_number: u8) -> (r: Vec<VersionEntry>)
    ensures
        r@.len() == step_versions(*rec, step_number).len(),
        forall|i: int| 0 <= i < r@.len() ==> same_version(#[trigger] r@[i], step_versions(*rec, step_number)[i]),
{
    crate::screenplay_store::list_versions(rec, step_number)
}

/// `restore_version`: the version `version_id` becomes the one the step
/// shows (the only active one).
pub fn restore_version(rec: &mut ProjectRecord, step_number: u8, version_id: &str)
    ensures
        same_but_steps(*final(rec), *old(rec)),
        step_versions(*final(rec), step_number) == all_activated_if(step_versions(*old(rec), step_number), version_id@),
        forall|k: Seq<char>| k != step_key(step_number) ==> #[trigger] final(rec).steps.get_spec(k)
            == old(rec).steps.get_spec(k),
{
    crate::screenplay_store::set_active_version(rec, step_number, version_id)
}

/// `set_step_selection`: records or clears the selection of a step.
pub fn set_step_selection(rec: &mut ProjectRecord, step_number: u8, selection_id: Option<String>)
    ensures
        final(rec).selections.get_spec(step_key(step_number)) == selection_id,
        forall|k: Seq<char>| k != step_key(step_number) ==> #[trigger] final(rec).selections.get_spec(k)
            == old(rec).selections.get_spec(k),
        final(rec).steps == old(rec).steps,
{
    crate::screenplay_store::set_step_selection(rec, step_number, selection_id)
}

} // verus!
