//! The storyboard outline and the shots of the prompt generation phase, read
//! from the JSON the model returns.
use vstd::prelude::*;
use crate::json::{Json, JsonV, json_view, lemma_array_view, lemma_object_view};
use crate::json::{num_json, usize_json};
use crate::text::{chars_of, string_of, append_chars, decimal, decimal_chars, trim, trim_chars, strip_leading, strip_trailing, strip_leading_chars, strip_trailing_chars, find_char, rfind_char, find_char_exec, rfind_char_exec, lemma_find_char, lemma_rfind_char, copy_range, usize_to_string};

verus! {

/// The value of member `k` of an object (its first member of that name);
/// none for anything that is not an object.
pub open spec fn jget(v: JsonV, k: Seq<char>) -> Option<JsonV> {
    match v {
        JsonV::Object(fs) => member_from(fs, k, 0),
        _ => None,
    }
}

pub open spec fn member_from(fs: Seq<(Seq<char>, JsonV)>, k: Seq<char>, i: int) -> Option<JsonV>
    decreases fs.len() - i,
{
    if i < 0 || i >= fs.len() {
        None
    } else if fs[i].0 == k {
        Some(fs[i].1)
    } else {
        member_from(fs, k, i + 1)
    }
}

/// `a`, or `b` when `a` is none.
pub open spec fn either(a: Option<JsonV>, b: Option<JsonV>) -> Option<JsonV> {
    if a is Some {
        a
    } else {
        b
    }
}

/// The text of a string value.
pub open spec fn jstr(o: Option<JsonV>) -> Option<Seq<char>> {
    match o {
        Some(JsonV::Str(s)) => Some(s),
        _ => None,
    }
}

pub open spec fn text_or(o: Option<Seq<char>>, d: Seq<char>) -> Seq<char> {
    match o {
        Some(x) => x,
        None => d,
    }
}

/// Member `k` of member `a`.
pub open spec fn jget2(v: JsonV, a: Seq<char>, k: Seq<char>) -> Option<JsonV> {
    match jget(v, a) {
        Some(x) => jget(x, k),
        None => None,
    }
}

pub open spec fn opt_json_view(o: Option<&Json>) -> Option<JsonV> {
    match o {
        Some(j) => Some(j@),
        None => None,
    }
}

/// `Value::get` with a member name.
pub fn json_get<'a>(j: &'a Json, k: &str) -> (r: Option<&'a Json>)
    ensures
        opt_json_view(r) == jget(j@, k@),
{
    match j {
        Json::Object(fs) => {
            proof {
                lemma_object_view(*fs);
            }
            let ghost fv = j@->Object_0;
            let mut i: usize = 0;
            while i < fs.len()
                invariant
                    i <= fs@.len(),
                    *j == Json::Object(*fs),
                    fv == json_view(*j)->Object_0,
                    json_view(*j) is Object,
                    fv.len() == fs@.len(),
                    forall|m: int| 0 <= m < fs@.len() ==> #[trigger] fv[m] == (fs@[m].0@, json_view(fs@[m].1)),
                    member_from(fv, k@, 0) == member_from(fv, k@, i as int),
                decreases fs@.len() - i,
            {
                assert(fv[i as int] == (fs@[i as int].0@, json_view(fs@[i as int].1)));
                if crate::text::str_eq(fs[i].0.as_str(), k) {
                    return Some(&fs[i].1);
                }
                i += 1;
            }
            None
        },
        _ => None,
    }
}

/// `Value::as_str`.
pub fn json_str(o: Option<&Json>) -> (r: Option<String>)
    ensures
        crate::blocks::opt_view(r) == jstr(opt_json_view(o)),
{
    match o {
        Some(Json::Str(s)) => Some(s.clone()),
        _ => None,
    }
}

fn first_of<'a>(a: Option<&'a Json>, b: Option<&'a Json>) -> (r: Option<&'a Json>)
    ensures
        opt_json_view(r) == either(opt_json_view(a), opt_json_view(b)),
{
    match a {
        Some(x) => Some(x),
        None => b,
    }
}

fn json_get2<'a>(j: &'a Json, a: &str, k: &str) -> (r: Option<&'a Json>)
    ensures
        opt_json_view(r) == jget2(j@, a@, k@),
{
    match json_get(j, a) {
        Some(x) => json_get(x, k),
        None => None,
    }
}

fn text_of(o: Option<String>, d: &str) -> (r: String)
    ensures
        r@ == text_or(crate::blocks::opt_view(o), d@),
{
    match o {
        Some(x) => x,
        None => d.to_string(),
    }
}

/// The character as serde_json writes it inside a string.
pub open spec fn escaped_char(c: char) -> Seq<char> {
    if c == '"' {
        seq!['\\', '"']
    } else if c == '\\' {
        seq!['\\', '\\']
    } else if c == '\n' {
        seq!['\\', 'n']
    } else if c == '\r' {
        seq!['\\', 'r']
    } else if c == '\t' {
        seq!['\\', 't']
    } else if c == '\u{8}' {
        seq!['\\', 'b']
    } else if c == '\u{c}' {
        seq!['\\', 'f']
    } else if (c as u32) < 0x20 {
        seq!['\\', 'u', '0', '0', crate::text::hex_char((c as int) / 16), crate::text::hex_char((c as int) % 16)]
    } else {
        seq![c]
    }
}

pub open spec fn escaped_upto(s: Seq<char>, n: int) -> Seq<char>
    decreases n,
{
    if n <= 0 {
        Seq::empty()
    } else {
        escaped_upto(s, n - 1) + escaped_char(s[n - 1])
    }
}

/// A string as a JSON string literal.
pub open spec fn quoted(s: Seq<char>) -> Seq<char> {
    seq!['"'] + escaped_upto(s, s.len() as int) + seq!['"']
}

/// Decimal text of an integer, with a `-` when negative.
pub open spec fn signed_decimal(i: int) -> Seq<char> {
    if i < 0 {
        seq!['-'] + decimal((-i) as nat)
    } else {
        decimal(i as nat)
    }
}

/// The compact JSON text of a value, as `Value::to_string` writes it.
pub open spec fn json_text(v: JsonV) -> Seq<char>
    decreases v,
{
    match v {
        JsonV::Null => "null"@,
        JsonV::Bool(b) => if b { "true"@ } else { "false"@ },
        JsonV::Int(i) => signed_decimal(i),
        JsonV::UInt(u) => decimal(u as nat),
        JsonV::Float(t) => t,
        JsonV::Str(s) => quoted(s),
        JsonV::Array(items) => seq!['['] + items_text(items, items.len() as int) + seq![']'],
        JsonV::Object(fs) => seq!['{'] + members_text(fs, fs.len() as int) + seq!['}'],
    }
}

pub open spec fn items_text(items: Seq<JsonV>, n: int) -> Seq<char>
    decreases items, n,
{
    if n <= 0 || n > items.len() {
        Seq::empty()
    } else if n == 1 {
        json_text(items[0])
    } else {
        items_text(items, n - 1) + seq![','] + json_text(items[n - 1])
    }
}

pub open spec fn members_text(fs: Seq<(Seq<char>, JsonV)>, n: int) -> Seq<char>
    decreases fs, n,
{
    if n <= 0 || n > fs.len() {
        Seq::empty()
    } else if n == 1 {
        quoted(fs[0].0) + seq![':'] + json_text(fs[0].1)
    } else {
        members_text(fs, n - 1) + seq![','] + quoted(fs[n - 1].0) + seq![':'] + json_text(fs[n - 1].1)
    }
}


fn hex_digit(d: u32) -> (r: char)
    requires
        d < 16,
    ensures
        r == crate::text::hex_char(d as int),
{
    if d < 10 {
        ((d as u8) + 48) as char
    } else {
        ((d as u8) - 10 + 97) as char
    }
}

fn push_escaped(out: &mut Vec<char>, c: char)
    ensures
        final(out)@ == old(out)@ + escaped_char(c),
{
    let ghost o = out@;
    if c == '"' {
        out.push('\\');
        out.push('"');
    } else if c == '\\' {
        out.push('\\');
        out.push('\\');
    } else if c == '\n' {
        out.push('\\');
        out.push('n');
    } else if c == '\r' {
        out.push('\\');
        out.push('r');
    } else if c == '\t' {
        out.push('\\');
        out.push('t');
    } else if c == '\u{8}' {
        out.push('\\');
        out.push('b');
    } else if c == '\u{c}' {
        out.push('\\');
        out.push('f');
    } else if (c as u32) < 0x20 {
        let v = c as u32;
        out.push('\\');
        out.push('u');
        out.push('0');
        out.push('0');
        out.push(hex_digit(v / 16));
        out.push(hex_digit(v % 16));
    } else {
        out.push(c);
    }
    assert(out@ =~= o + escaped_char(c));
}

fn push_quoted(out: &mut Vec<char>, s: &str)
    ensures
        final(out)@ == old(out)@ + quoted(s@),
{
    let ghost o = out@;
    let c = chars_of(s);
    out.push('"');
    let mut i: usize = 0;
    while i < c.len()
        invariant
            i <= c@.len(),
            c@ == s@,
            out@ == o + seq!['"'] + escaped_upto(s@, i as int),
        decreases c@.len() - i,
    {
        push_escaped(out, c[i]);
        i += 1;
    }
    out.push('"');
    assert(out@ =~= o + quoted(s@));
}

fn push_json_text(out: &mut Vec<char>, j: &Json)
    ensures
        final(out)@ == old(out)@ + json_text(j@),
    decreases j,
{
    let ghost o = out@;
    match j {
        Json::Null => {
            proof {
                reveal_strlit("null");
            }
            append_chars(out, &chars_of("null"));
        },
        Json::Bool(b) => {
            proof {
                reveal_strlit("true");
                reveal_strlit("false");
            }
            if *b {
                append_chars(out, &chars_of("true"));
            } else {
                append_chars(out, &chars_of("false"));
            }
        },
        Json::Int(i) => {
            if *i < 0 {
                let m: u64 = if *i == i64::MIN { 9223372036854775808u64 } else { (-*i) as u64 };
                out.push('-');
                append_chars(out, &decimal_chars(m));
                assert(out@ =~= o + signed_decimal(*i as int));
            } else {
                append_chars(out, &decimal_chars(*i as u64));
            }
        },
        Json::UInt(u) => {
            append_chars(out, &decimal_chars(*u));
        },
        Json::Float(t) => {
            append_chars(out, &chars_of(t.as_str()));
        },
        Json::Str(t) => {
            push_quoted(out, t.as_str());
        },
        Json::Array(items) => {
            proof {
                lemma_array_view(*items);
            }
            let ghost iv = j@->Array_0;
            out.push('[');
            let mut k: usize = 0;
            while k < items.len()
                invariant
                    k <= items@.len(),
                    *j == Json::Array(*items),
                    iv == json_view(*j)->Array_0,
                    iv.len() == items@.len(),
                    forall|m: int| 0 <= m < items@.len() ==> #[trigger] iv[m] == json_view(items@[m]),
                    out@ == o + seq!['['] + items_text(iv, k as int),
                decreases items@.len() - k,
            {
                proof {
                    assert(decreases_to!(*j => (*j)->Array_0));
                    assert((*j)->Array_0 == *items);
                    assert(decreases_to!(*items => items[k as int]));
                }
                if k > 0 {
                    out.push(',');
                }
                push_json_text(out, &items[k]);
                assert(iv[k as int] == items@[k as int]@);
                k += 1;
            }
            out.push(']');
            assert(out@ =~= o + json_text(j@));
        },
        Json::Object(fs) => {
            proof {
                lemma_object_view(*fs);
            }
            let ghost fv = j@->Object_0;
            out.push('{');
            let mut k: usize = 0;
            while k < fs.len()
                invariant
                    k <= fs@.len(),
                    *j == Json::Object(*fs),
                    fv == json_view(*j)->Object_0,
                    fv.len() == fs@.len(),
                    forall|m: int| 0 <= m < fs@.len() ==> #[trigger] fv[m] == (fs@[m].0@, json_view(fs@[m].1)),
                    out@ == o + seq!['{'] + members_text(fv, k as int),
                decreases fs@.len() - k,
            {
                proof {
                    assert(decreases_to!(*j => (*j)->Object_0));
                    assert((*j)->Object_0 == *fs);
                    assert(decreases_to!(*fs => fs[k as int]));
                    assert(decreases_to!(fs[k as int] => fs[k as int].1));
                }
                if k > 0 {
                    out.push(',');
                }
                push_quoted(out, fs[k].0.as_str());
                out.push(':');
                push_json_text(out, &fs[k].1);
                assert(fv[k as int] == (fs@[k as int].0@, fs@[k as int].1@));
                k += 1;
            }
            out.push('}');
            assert(out@ =~= o + json_text(j@));
        },
    }
}

/// `Value::to_string`: the compact JSON text of a value.
pub fn json_to_text(j: &Json) -> (r: String)
    ensures
        r@ == json_text(j@),
{
    let mut out: Vec<char> = Vec::new();
    push_json_text(&mut out, j);
    assert(out@ =~= json_text(j@));
    string_of(&out)
}


pub struct OutlineShot {
    pub index: usize,
    pub title: String,
    pub script_content: String,
    pub shot_type: String,
    pub key_beats: Vec<String>,
}

pub struct Outline {
    pub core_conflict: String,
    pub protagonist_motivation: String,
    pub information_gain: String,
    pub five_acts: Vec<String>,
    pub scene_quality: String,
    pub total_shots: usize,
    pub shots: Vec<OutlineShot>,
}

pub open spec fn strings_view(v: Seq<String>) -> Seq<Seq<char>> {
    v.map_values(|s: String| s@)
}

/// The text of a string value, or empty.
pub open spec fn as_text(o: Option<JsonV>) -> Seq<char> {
    text_or(jstr(o), Seq::empty())
}

/// The analysis part of an outline: the first of `step03`, `step0_3`,
/// `step03Enhancement`, `analysis`, else the whole value.
pub open spec fn step03_of(p: JsonV) -> JsonV {
    match either(jget(p, "step03"@), either(jget(p, "step0_3"@), either(jget(p, "step03Enhancement"@), jget(p, "analysis"@)))) {
        Some(x) => x,
        None => p,
    }
}

/// The text of an act: a string as it is, an object by its `description`,
/// `content`, `text` or `act`, anything else as JSON text.
pub open spec fn act_text(a: JsonV) -> Seq<char> {
    match a {
        JsonV::Str(s) => s,
        JsonV::Object(_) => as_text(either(jget(a, "description"@), either(jget(a, "content"@), either(jget(a, "text"@), jget(a, "act"@))))),
        _ => json_text(a),
    }
}

pub open spec fn acts_source(p: JsonV) -> Option<JsonV> {
    either(jget(p, "fiveActs"@), either(jget(p, "acts"@), either(jget(p, "eventChain"@), either(jget(p, "step00EventChain"@),
    either(jget2(p, "step0"@, "acts"@), either(jget2(p, "step0"@, "fiveActs"@), either(jget2(p, "step00"@, "acts"@),
    either(jget(p, "step0"@), jget(p, "step00"@)))))))))
}

pub open spec fn spec_five_acts(p: JsonV) -> Seq<Seq<char>> {
    match acts_source(p) {
        Some(JsonV::Array(items)) => items.map_values(|a: JsonV| act_text(a)),
        _ => Seq::empty(),
    }
}

pub open spec fn shots_source(p: JsonV) -> Option<JsonV> {
    either(jget(p, "shots"@), either(jget(p, "segments"@), either(jget(p, "shotList"@), either(jget(p, "step08ShotList"@),
    either(jget(p, "step08Shots"@), either(jget2(p, "step08"@, "shots"@), either(jget2(p, "step08"@, "segments"@), jget(p, "step08"@))))))))
}

/// A list that looks like shots: not empty, its first item having a title,
/// summary, script or content.
pub open spec fn looks_like_shots(v: JsonV) -> bool {
    match v {
        JsonV::Array(items) => items.len() > 0 && (jget(items[0], "title"@) is Some || jget(items[0], "summary"@) is Some
            || jget(items[0], "scriptContent"@) is Some || jget(items[0], "script"@) is Some || jget(items[0], "content"@) is Some),
        _ => false,
    }
}

/// The first member value from `i` on that looks like shots.
pub open spec fn shots_fallback_from(fs: Seq<(Seq<char>, JsonV)>, i: int) -> Seq<JsonV>
    decreases fs.len() - i,
{
    if i < 0 || i >= fs.len() {
        Seq::empty()
    } else if looks_like_shots(fs[i].1) {
        fs[i].1->Array_0
    } else {
        shots_fallback_from(fs, i + 1)
    }
}

/// The shots of an outline: the first list under a shot key when it is not
/// empty, else the first member that looks like shots.
pub open spec fn spec_raw_shots(p: JsonV) -> Seq<JsonV> {
    match shots_source(p) {
        Some(JsonV::Array(items)) if items.len() > 0 => items,
        _ => match p {
            JsonV::Object(fs) => shots_fallback_from(fs, 0),
            _ => Seq::empty(),
        },
    }
}

/// `Value::as_i64`.
pub open spec fn as_i64(o: Option<JsonV>) -> Option<int> {
    match o {
        Some(JsonV::Int(i)) => Some(i),
        Some(JsonV::UInt(u)) => if u <= i64::MAX { Some(u) } else { None },
        _ => None,
    }
}

/// The strings of a list, in order (other items skipped).
pub open spec fn strings_upto(items: Seq<JsonV>, n: int) -> Seq<Seq<char>>
    decreases n,
{
    if n <= 0 {
        Seq::empty()
    } else {
        match items[n - 1] {
            JsonV::Str(s) => strings_upto(items, n - 1).push(s),
            _ => strings_upto(items, n - 1),
        }
    }
}

pub open spec fn string_items(o: Option<JsonV>) -> Seq<Seq<char>> {
    match o {
        Some(JsonV::Array(items)) => strings_upto(items, items.len() as int),
        _ => Seq::empty(),
    }
}

pub open spec fn shot_matches(o: OutlineShot, s: JsonV, i: int) -> bool {
    &&& o.index == (match as_i64(jget(s, "index"@)) {
        Some(v) => ((v as i64) as usize) as int,
        None => ((i as i64) as usize) as int,
    })
    &&& o.title@ == as_text(either(jget(s, "title"@), either(jget(s, "summary"@), jget(s, "description"@))))
    &&& o.script_content@ == as_text(either(jget(s, "scriptContent"@), either(jget(s, "script"@), either(jget(s, "excerpt"@), jget(s, "content"@)))))
    &&& o.shot_type@ == text_or(jstr(either(jget(s, "shotType"@), jget(s, "type"@))), "D"@)
    &&& strings_view(o.key_beats@) == string_items(either(jget(s, "keyBeats"@), jget(s, "beats"@)))
}

/// What `parse_outline_from_json` gives for a value: the outline, or the
/// error that no shot list was found.
pub open spec fn outline_spec(r: Result<Outline, String>, p: JsonV) -> bool {
    let a = step03_of(p);
    let shots = spec_raw_shots(p);
    if shots.len() == 0 {
        r matches Err(e) && e@ == "\u{5927}\u{7eb2}\u{751f}\u{6210}\u{5931}\u{8d25}\u{ff1a}\u{672a}\u{627e}\u{5230}\u{5206}\u{955c}\u{5217}\u{8868}"@
    } else {
        &&& r is Ok
        &&& r->Ok_0.core_conflict@ == as_text(either(jget(a, "coreConflict"@), jget(p, "coreConflict"@)))
        &&& r->Ok_0.protagonist_motivation@ == as_text(either(jget(a, "protagonistMotivation"@), either(jget(a, "protagonistArc"@),
            either(jget(a, "motivation"@), either(jget(p, "protagonistMotivation"@), jget(p, "protagonistArc"@))))))
        &&& r->Ok_0.information_gain@ == as_text(either(jget(a, "informationGain"@), either(jget(a, "infoReveal"@),
            either(jget(a, "infoGain"@), either(jget(a, "informationIncrement"@), either(jget(p, "informationGain"@),
            either(jget(p, "infoReveal"@), jget(p, "informationIncrement"@))))))))
        &&& strings_view(r->Ok_0.five_acts@) == spec_five_acts(p)
        &&& r->Ok_0.scene_quality@ == text_or(jstr(either(jget(p, "sceneQuality"@), either(jget(p, "quality"@), jget(a, "sceneQuality"@)))),
            "\u{7535}\u{5f71}\u{611f}\u{ff0c}\u{53e4}\u{98ce}\u{5199}\u{5b9e}\u{ff0c}8k\u{8d85}\u{9ad8}\u{6e05}"@)
        &&& r->Ok_0.shots@.len() == shots.len()
        &&& r->Ok_0.total_shots == shots.len()
        &&& forall|i: int| 0 <= i < shots.len() ==> shot_matches(#[trigger] r->Ok_0.shots@[i], shots[i], i)
    }
}

pub fn as_text_of(o: Option<&Json>) -> (r: String)
    ensures
        r@ == as_text(opt_json_view(o)),
{
    proof {
        reveal_strlit("");
    }
    text_of(json_str(o), "")
}

fn as_array<'a>(o: Option<&'a Json>) -> (r: Option<&'a Vec<Json>>)
    ensures
        match r {
            Some(items) => opt_json_view(o) == Some(JsonV::Array(items@.map_values(|j: Json| j@))),
            None => !(opt_json_view(o) matches Some(JsonV::Array(_))),
        },
{
    match o {
        Some(Json::Array(items)) => {
            proof {
                lemma_array_view(*items);
                assert(json_view(Json::Array(*items))->Array_0 =~= items@.map_values(|j: Json| j@));
            }
            Some(items)
        },
        _ => None,
    }
}

pub fn string_items_of(o: Option<&Json>) -> (r: Vec<String>)
    ensures
        strings_view(r@) == string_items(opt_json_view(o)),
{
    let mut out: Vec<String> = Vec::new();
    match as_array(o) {
        Some(items) => {
            let ghost iv = items@.map_values(|j: Json| j@);
            let mut k: usize = 0;
            while k < items.len()
                invariant
                    k <= items@.len(),
                    iv == items@.map_values(|j: Json| j@),
                    strings_view(out@) == strings_upto(iv, k as int),
                decreases items@.len() - k,
            {
                match &items[k] {
                    Json::Str(t) => {
                        let ghost before = out@;
                        out.push(t.clone());
                        assert(strings_view(out@) =~= strings_view(before).push(t@));
                    },
                    _ => {},
                }
                k += 1;
            }
        },
        None => {},
    }
    out
}

fn act_text_exec(a: &Json) -> (r: String)
    ensures
        r@ == act_text(a@),
{
    match a {
        Json::Str(t) => t.clone(),
        Json::Object(_) => {
            let v = first_of(json_get(a, "description"), first_of(json_get(a, "content"), first_of(json_get(a, "text"), json_get(a, "act"))));
            as_text_of(v)
        },
        _ => json_to_text(a),
    }
}

fn shot_of(s: &Json, i: usize) -> (r: OutlineShot)
    ensures
        shot_matches(r, s@, i as int),
{
    let index = match json_get(s, "index") {
        Some(Json::Int(v)) => *v as usize,
        Some(Json::UInt(u)) => {
            if *u <= 9223372036854775807u64 {
                (*u as i64) as usize
            } else {
                (i as i64) as usize
            }
        },
        _ => (i as i64) as usize,
    };
    proof {
        reveal_strlit("D");
    }
    OutlineShot {
        index,
        title: as_text_of(first_of(json_get(s, "title"), first_of(json_get(s, "summary"), json_get(s, "description")))),
        script_content: as_text_of(first_of(json_get(s, "scriptContent"), first_of(json_get(s, "script"), first_of(json_get(s, "excerpt"), json_get(s, "content"))))),
        shot_type: text_of(json_str(first_of(json_get(s, "shotType"), json_get(s, "type"))), "D"),
        key_beats: string_items_of(first_of(json_get(s, "keyBeats"), json_get(s, "beats"))),
    }
}

fn looks_like_shots_exec(v: &Json) -> (r: bool)
    ensures
        r == looks_like_shots(v@),
{
    match v {
        Json::Array(items) => {
            proof {
                lemma_array_view(*items);
            }
            if items.len() == 0 {
                return false;
            }
            let f = &items[0];
            json_get(f, "title").is_some() || json_get(f, "summary").is_some() || json_get(f, "scriptContent").is_some()
                || json_get(f, "script").is_some() || json_get(f, "content").is_some()
        },
        _ => false,
    }
}

fn raw_shots<'a>(p: &'a Json) -> (r: Option<&'a Vec<Json>>)
    ensures
        match r {
            Some(items) => items@.map_values(|j: Json| j@) == spec_raw_shots(p@),
            None => spec_raw_shots(p@).len() == 0,
        },
{
    let step08 = json_get(p, "step08");
    let src = first_of(json_get(p, "shots"), first_of(json_get(p, "segments"), first_of(json_get(p, "shotList"),
        first_of(json_get(p, "step08ShotList"), first_of(json_get(p, "step08Shots"), first_of(json_get2(p, "step08", "shots"),
        first_of(json_get2(p, "step08", "segments"), step08)))))));
    assert(opt_json_view(src) == shots_source(p@));
    match as_array(src) {
        Some(items) => {
            if items.len() > 0 {
                return Some(items);
            }
        },
        None => {},
    }
    match p {
        Json::Object(fs) => {
            proof {
                lemma_object_view(*fs);
            }
            let ghost fv = p@->Object_0;
            assert(spec_raw_shots(p@) == shots_fallback_from(fv, 0));
            let mut i: usize = 0;
            while i < fs.len()
                invariant
                    i <= fs@.len(),
                    spec_raw_shots(p@) == shots_fallback_from(fv, 0),
                    *p == Json::Object(*fs),
                    fv == json_view(*p)->Object_0,
                    fv.len() == fs@.len(),
                    forall|m: int| 0 <= m < fs@.len() ==> #[trigger] fv[m] == (fs@[m].0@, json_view(fs@[m].1)),
                    shots_fallback_from(fv, 0) == shots_fallback_from(fv, i as int),
                decreases fs@.len() - i,
            {
                assert(fv[i as int] == (fs@[i as int].0@, json_view(fs@[i as int].1)));
                if looks_like_shots_exec(&fs[i].1) {
                    match &fs[i].1 {
                        Json::Array(items) => {
                            proof {
                                lemma_array_view(*items);
                                assert(json_view(Json::Array(*items))->Array_0 =~= items@.map_values(|j: Json| j@));
                            }
                            return Some(items);
                        },
                        _ => {},
                    }
                }
                i += 1;
            }
            None
        },
        _ => None,
    }
}

/// `parse_outline_from_json`: the outline (story analysis, acts and shots)
/// read from the model's JSON, or an error when it holds no shot list.
pub fn parse_outline_from_json(parsed: &Json, _script_body: &str) -> (r: Result<Outline, String>)
    ensures
        outline_spec(r, parsed@),
{
    let p = parsed;
    let a: &Json = match first_of(json_get(p, "step03"), first_of(json_get(p, "step0_3"), first_of(json_get(p, "step03Enhancement"), json_get(p, "analysis")))) {
        Some(x) => x,
        None => p,
    };
    assert(a@ == step03_of(p@));
    let shots_src = raw_shots(p);
    let items = match shots_src {
        Some(items) => {
            if items.len() == 0 {
                return Err("\u{5927}\u{7eb2}\u{751f}\u{6210}\u{5931}\u{8d25}\u{ff1a}\u{672a}\u{627e}\u{5230}\u{5206}\u{955c}\u{5217}\u{8868}".to_string());
            }
            items
        },
        None => {
            return Err("\u{5927}\u{7eb2}\u{751f}\u{6210}\u{5931}\u{8d25}\u{ff1a}\u{672a}\u{627e}\u{5230}\u{5206}\u{955c}\u{5217}\u{8868}".to_string());
        },
    };
    let core_conflict = as_text_of(first_of(json_get(a, "coreConflict"), json_get(p, "coreConflict")));
    let protagonist_motivation = as_text_of(first_of(json_get(a, "protagonistMotivation"), first_of(json_get(a, "protagonistArc"),
        first_of(json_get(a, "motivation"), first_of(json_get(p, "protagonistMotivation"), json_get(p, "protagonistArc"))))));
    let information_gain = as_text_of(first_of(json_get(a, "informationGain"), first_of(json_get(a, "infoReveal"),
        first_of(json_get(a, "infoGain"), first_of(json_get(a, "informationIncrement"), first_of(json_get(p, "informationGain"),
        first_of(json_get(p, "infoReveal"), json_get(p, "informationIncrement"))))))));
    let acts_src = first_of(json_get(p, "fiveActs"), first_of(json_get(p, "acts"), first_of(json_get(p, "eventChain"),
        first_of(json_get(p, "step00EventChain"), first_of(json_get2(p, "step0", "acts"), first_of(json_get2(p, "step0", "fiveActs"),
        first_of(json_get2(p, "step00", "acts"), first_of(json_get(p, "step0"), json_get(p, "step00")))))))));
    assert(opt_json_view(acts_src) == acts_source(p@));
    let mut five_acts: Vec<String> = Vec::new();
    match as_array(acts_src) {
        Some(acts) => {
            let ghost av = acts@.map_values(|j: Json| j@);
            let mut k: usize = 0;
            while k < acts.len()
                invariant
                    k <= acts@.len(),
                    av == acts@.map_values(|j: Json| j@),
                    five_acts@.len() == k,
                    forall|m: int| 0 <= m < k ==> (#[trigger] five_acts@[m])@ == act_text(av[m]),
                decreases acts@.len() - k,
            {
                five_acts.push(act_text_exec(&acts[k]));
                k += 1;
            }
            assert(strings_view(five_acts@) =~= av.map_values(|a: JsonV| act_text(a)));
        },
        None => {
            assert(strings_view(five_acts@) =~= Seq::<Seq<char>>::empty());
        },
    }
    let ghost sv = items@.map_values(|j: Json| j@);
    let mut shots: Vec<OutlineShot> = Vec::new();
    let mut k: usize = 0;
    while k < items.len()
        invariant
            k <= items@.len(),
            sv == items@.map_values(|j: Json| j@),
            shots@.len() == k,
            forall|m: int| 0 <= m < k ==> shot_matches(#[trigger] shots@[m], sv[m], m),
        decreases items@.len() - k,
    {
        shots.push(shot_of(&items[k], k));
        k += 1;
    }
    let scene_quality = text_of(json_str(first_of(json_get(p, "sceneQuality"), first_of(json_get(p, "quality"), json_get(a, "sceneQuality")))),
        "\u{7535}\u{5f71}\u{611f}\u{ff0c}\u{53e4}\u{98ce}\u{5199}\u{5b9e}\u{ff0c}8k\u{8d85}\u{9ad8}\u{6e05}");
    let total_shots = shots.len();
    Ok(Outline { core_conflict, protagonist_motivation, information_gain, five_acts, scene_quality, total_shots, shots })
}


pub struct V2Shot {
    pub shot_number: usize,
    pub scene_index: usize,
    pub shot_type: String,
    pub title_bar: String,
    pub mount: String,
    pub camera: String,
    pub opening_frame: String,
    pub closing_frame: String,
    pub connection: String,
    pub transition: String,
    pub dual_anchor: String,
    pub main_prompt: String,
    pub compulsory_declaration: String,
    pub must_show: String,
    pub quality_route: String,
    pub imaging_style: String,
    pub quality_baseline: String,
    pub reference: String,
    pub micro_expressions: String,
    pub nail_lines: String,
    pub e15: String,
    pub asset_refs: Vec<String>,
}

/// The declaration a shot carries when the model gives none.
pub open spec fn compulsory_declaration_default() -> Seq<char> {
    "\u{3010}\u{5f3a}\u{5236}\u{58f0}\u{660e}\u{3011}\u{65e0}\u{80cc}\u{666f}\u{97f3}\u{4e50}\u{ff0c}\u{4ec5}\u{4fdd}\u{7559}\u{73af}\u{5883}\u{97f3}\u{4e0e}\u{4eba}\u{58f0}\u{ff1a}\u{753b}\u{9762}\u{7981}\u{5b57}\u{5e55}/\u{6587}\u{5b57}/\u{6c34}\u{5370}/Logo\u{ff1a}\u{7981}\u{6b62}\u{53ef}\u{8bfb}\u{6587}\u{5b57}\u{ff1a}\u{7981}\u{6b62}\u{8d85}\u{73b0}\u{5b9e}\u{5938}\u{5f20}\u{ff1a}\u{7981}\u{6b62}\u{65e0}\u{53cd}\u{4f5c}\u{7528}\u{529b}\u{52a8}\u{4f5c}"@
}

/// The quality floor a shot carries when the model gives none.
pub open spec fn quality_baseline_default() -> Seq<char> {
    "\u{3010}\u{753b}\u{8d28}\u{5e95}\u{7ebf}\u{3011}\u{9ad8}\u{5149}\u{4fdd}\u{7ed3}\u{6784}\u{3001}\u{6697}\u{90e8}\u{4e0d}\u{6b7b}\u{9ed1}\u{3001}\u{4e2d}\u{95f4}\u{8c03}\u{539a}\u{5b9e}\u{3001}\u{4e3b}\u{4f53}\u{8fb9}\u{7f18}\u{7a33}\u{5b9a}\u{3001}\u{4ecb}\u{8d28}\u{5206}\u{5c42}\u{6e05}\u{695a}"@
}

/// The shot a scene's raw JSON describes: each text member read as it is
/// (empty when missing or not a string), the declaration and quality floor
/// defaulted, and no connection for the first scene.
pub open spec fn v2_shot_matches(r: V2Shot, raw: JsonV, scene_index: int) -> bool {
    &&& r.shot_number == scene_index + 1
    &&& r.scene_index == scene_index
    &&& r.shot_type@ == as_text(jget(raw, "shotType"@))
    &&& r.title_bar@ == as_text(jget(raw, "titleBar"@))
    &&& r.mount@ == as_text(jget(raw, "mount"@))
    &&& r.camera@ == as_text(jget(raw, "camera"@))
    &&& r.opening_frame@ == as_text(jget(raw, "openingFrame"@))
    &&& r.closing_frame@ == as_text(jget(raw, "closingFrame"@))
    &&& r.transition@ == as_text(jget(raw, "transition"@))
    &&& r.dual_anchor@ == as_text(jget(raw, "dualAnchor"@))
    &&& r.main_prompt@ == as_text(jget(raw, "mainPrompt"@))
    &&& r.must_show@ == as_text(jget(raw, "mustShow"@))
    &&& r.quality_route@ == as_text(jget(raw, "qualityRoute"@))
    &&& r.imaging_style@ == as_text(jget(raw, "imagingStyle"@))
    &&& r.reference@ == as_text(jget(raw, "reference"@))
    &&& r.micro_expressions@ == as_text(jget(raw, "microExpressions"@))
    &&& r.nail_lines@ == as_text(jget(raw, "nailLines"@))
    &&& r.e15@ == as_text(jget(raw, "e15"@))
    &&& r.connection@ == (if scene_index == 0 { Seq::empty() } else { as_text(jget(raw, "connection"@)) })
    &&& r.compulsory_declaration@ == text_or(jstr(jget(raw, "compulsoryDeclaration"@)), compulsory_declaration_default())
    &&& r.quality_baseline@ == text_or(jstr(jget(raw, "qualityBaseline"@)), quality_baseline_default())
    &&& strings_view(r.asset_refs@) == string_items(jget(raw, "assetRefs"@))
}

/// `normalize_v2_shot`: a scene's shot read from the model's JSON.
pub fn normalize_v2_shot(raw: &Json, scene_index: usize) -> (r: V2Shot)
    requires
        scene_index < usize::MAX,
    ensures
        v2_shot_matches(r, raw@, scene_index as int),
{
    proof {
        reveal_strlit("\u{3010}\u{5f3a}\u{5236}\u{58f0}\u{660e}\u{3011}\u{65e0}\u{80cc}\u{666f}\u{97f3}\u{4e50}\u{ff0c}\u{4ec5}\u{4fdd}\u{7559}\u{73af}\u{5883}\u{97f3}\u{4e0e}\u{4eba}\u{58f0}\u{ff1a}\u{753b}\u{9762}\u{7981}\u{5b57}\u{5e55}/\u{6587}\u{5b57}/\u{6c34}\u{5370}/Logo\u{ff1a}\u{7981}\u{6b62}\u{53ef}\u{8bfb}\u{6587}\u{5b57}\u{ff1a}\u{7981}\u{6b62}\u{8d85}\u{73b0}\u{5b9e}\u{5938}\u{5f20}\u{ff1a}\u{7981}\u{6b62}\u{65e0}\u{53cd}\u{4f5c}\u{7528}\u{529b}\u{52a8}\u{4f5c}");
        reveal_strlit("\u{3010}\u{753b}\u{8d28}\u{5e95}\u{7ebf}\u{3011}\u{9ad8}\u{5149}\u{4fdd}\u{7ed3}\u{6784}\u{3001}\u{6697}\u{90e8}\u{4e0d}\u{6b7b}\u{9ed1}\u{3001}\u{4e2d}\u{95f4}\u{8c03}\u{539a}\u{5b9e}\u{3001}\u{4e3b}\u{4f53}\u{8fb9}\u{7f18}\u{7a33}\u{5b9a}\u{3001}\u{4ecb}\u{8d28}\u{5206}\u{5c42}\u{6e05}\u{695a}");
    }
    let connection = if scene_index == 0 {
        String::new()
    } else {
        as_text_of(json_get(raw, "connection"))
    };
    V2Shot {
        shot_number: scene_index + 1,
        scene_index,
        shot_type: as_text_of(json_get(raw, "shotType")),
        title_bar: as_text_of(json_get(raw, "titleBar")),
        mount: as_text_of(json_get(raw, "mount")),
        camera: as_text_of(json_get(raw, "camera")),
        opening_frame: as_text_of(json_get(raw, "openingFrame")),
        closing_frame: as_text_of(json_get(raw, "closingFrame")),
        transition: as_text_of(json_get(raw, "transition")),
        dual_anchor: as_text_of(json_get(raw, "dualAnchor")),
        main_prompt: as_text_of(json_get(raw, "mainPrompt")),
        must_show: as_text_of(json_get(raw, "mustShow")),
        quality_route: as_text_of(json_get(raw, "qualityRoute")),
        imaging_style: as_text_of(json_get(raw, "imagingStyle")),
        reference: as_text_of(json_get(raw, "reference")),
        micro_expressions: as_text_of(json_get(raw, "microExpressions")),
        nail_lines: as_text_of(json_get(raw, "nailLines")),
        e15: as_text_of(json_get(raw, "e15")),
        connection,
        compulsory_declaration: text_of(json_str(json_get(raw, "compulsoryDeclaration")), "\u{3010}\u{5f3a}\u{5236}\u{58f0}\u{660e}\u{3011}\u{65e0}\u{80cc}\u{666f}\u{97f3}\u{4e50}\u{ff0c}\u{4ec5}\u{4fdd}\u{7559}\u{73af}\u{5883}\u{97f3}\u{4e0e}\u{4eba}\u{58f0}\u{ff1a}\u{753b}\u{9762}\u{7981}\u{5b57}\u{5e55}/\u{6587}\u{5b57}/\u{6c34}\u{5370}/Logo\u{ff1a}\u{7981}\u{6b62}\u{53ef}\u{8bfb}\u{6587}\u{5b57}\u{ff1a}\u{7981}\u{6b62}\u{8d85}\u{73b0}\u{5b9e}\u{5938}\u{5f20}\u{ff1a}\u{7981}\u{6b62}\u{65e0}\u{53cd}\u{4f5c}\u{7528}\u{529b}\u{52a8}\u{4f5c}"),
        quality_baseline: text_of(json_str(json_get(raw, "qualityBaseline")), "\u{3010}\u{753b}\u{8d28}\u{5e95}\u{7ebf}\u{3011}\u{9ad8}\u{5149}\u{4fdd}\u{7ed3}\u{6784}\u{3001}\u{6697}\u{90e8}\u{4e0d}\u{6b7b}\u{9ed1}\u{3001}\u{4e2d}\u{95f4}\u{8c03}\u{539a}\u{5b9e}\u{3001}\u{4e3b}\u{4f53}\u{8fb9}\u{7f18}\u{7a33}\u{5b9a}\u{3001}\u{4ecb}\u{8d28}\u{5206}\u{5c42}\u{6e05}\u{695a}"),
        asset_refs: string_items_of(json_get(raw, "assetRefs")),
    }
}

/// Decimal text of `n`, zero-padded to two digits (`{:02}`).
pub open spec fn two_digits(n: nat) -> Seq<char> {
    if n < 10 {
        seq!['0'] + decimal(n)
    } else {
        decimal(n)
    }
}

/// The title bar of the stand-in shot of a scene.
pub open spec fn fallback_title_bar(n: nat) -> Seq<char> {
    "\u{3010}\u{5206}\u{955c}"@ + two_digits(n) + "\u{ff5c}15\u{79d2}\u{ff5c}\u{7c7b}\u{578b}\u{ff1a}D\u{ff5c}\u{65b9}\u{6848}\u{ff1a}T1\u{5efa}\u{7acb}\u{538b}\u{573a}\u{6a21}\u{677f}\u{ff5c}\u{6863}\u{4f4d}\u{ff1a}LITE\u{ff5c}\u{8282}\u{594f}\u{ff1a}\u{5efa}\u{7acb}\u{2192}\u{5c55}\u{5f00}\u{2192}\u{5b9a}\u{951a}\u{3011}"@
}

/// `r` is the stand-in shot of scene `scene_index`.
pub open spec fn is_fallback_shot(r: V2Shot, scene_index: int) -> bool {
    &&& r.shot_number == scene_index + 1
    &&& r.scene_index == scene_index
    &&& r.shot_type@ == "D"@
    &&& r.title_bar@ == fallback_title_bar((scene_index + 1) as nat)
    &&& r.mount@ == "\u{6302}\u{8f7d}\u{ff1a}@\u{573a}\u{666f}\u{ff1a}\u{5f85}\u{5b9a}"@
    &&& r.camera@ == "\u{76f8}\u{673a}\u{4f4d}\u{7f6e}\u{ff1a}\u{4e2d}\u{666f}\u{4f4d}\u{ff1b}\u{76f8}\u{673a}\u{671d}\u{5411}\u{ff1a}\u{6b63}\u{9762}\u{ff1b}\u{89d2}\u{8272}\u{671d}\u{5411}\u{ff1a}\u{9762}\u{5bf9}\u{955c}\u{5934}\u{ff1b}\u{6784}\u{56fe}\u{951a}\u{70b9}\u{ff1a}\u{4e3b}\u{4f53}\u{5c45}\u{4e2d}"@
    &&& r.opening_frame@ == "\u{955c}\u{5934}\u{5e73}\u{7a33}\u{63a8}\u{5165}\u{573a}\u{666f}"@
    &&& r.closing_frame@ == "\u{4e3b}\u{4f53}\u{5b9a}\u{683c}\u{5728}\u{753b}\u{9762}\u{4e2d}\u{592e}"@
    &&& r.connection@.len() == 0
    &&& r.transition@.len() == 0
    &&& r.dual_anchor@ == "9:16 \u{4e3b}\u{4f53}\u{4e0a}\u{4e0b}\u{5c45}\u{4e2d}\u{ff1b}16:9 \u{5de6}\u{53f3}\u{7559}\u{767d}\u{5e73}\u{8861}"@
    &&& r.main_prompt@ == "REAL_CG\u{ff0c}\u{7535}\u{5f71}\u{611f}\u{5199}\u{5b9e}\u{8d28}\u{611f}\u{3002}\u{ff08}\u{8bf7}\u{91cd}\u{65b0}\u{751f}\u{6210}\u{6b64}\u{955c}\u{ff09}"@
    &&& r.compulsory_declaration@ == compulsory_declaration_default()
    &&& r.must_show@ == "\u{5f85}\u{5b9a}"@
    &&& r.quality_route@ == "\u{81ea}\u{7136}\u{5149}\u{ff0c}\u{9ad8}\u{5bf9}\u{6bd4}\u{ff0c}\u{4e3b}\u{4f53}\u{6e05}\u{6670}"@
    &&& r.imaging_style@ == "\u{7a33}\u{5b9a}\u{4e2d}\u{666f}\u{ff0c}\u{4e0d}\u{6025}\u{4e0d}\u{8e81}"@
    &&& r.quality_baseline@ == quality_baseline_default()
    &&& r.reference@.len() == 0
    &&& r.micro_expressions@.len() == 0
    &&& r.nail_lines@.len() == 0
    &&& r.e15@.len() == 0
    &&& r.asset_refs@.len() == 0
}

/// `build_fallback_v2_shot`: the stand-in shot of a scene whose shot could
/// not be generated.
pub fn build_fallback_v2_shot(scene_index: usize) -> (r: V2Shot)
    requires
        scene_index < usize::MAX,
    ensures
        is_fallback_shot(r, scene_index as int),
{
    proof {
        reveal_strlit("\u{3010}\u{5206}\u{955c}");
        reveal_strlit("\u{3010}\u{753b}\u{8d28}\u{5e95}\u{7ebf}\u{3011}\u{9ad8}\u{5149}\u{4fdd}\u{7ed3}\u{6784}\u{3001}\u{6697}\u{90e8}\u{4e0d}\u{6b7b}\u{9ed1}\u{3001}\u{4e2d}\u{95f4}\u{8c03}\u{539a}\u{5b9e}\u{3001}\u{4e3b}\u{4f53}\u{8fb9}\u{7f18}\u{7a33}\u{5b9a}\u{3001}\u{4ecb}\u{8d28}\u{5206}\u{5c42}\u{6e05}\u{695a}");
    }
    let n = scene_index + 1;
    let mut t = chars_of("\u{3010}\u{5206}\u{955c}");
    if n < 10 {
        t.push('0');
    }
    append_chars(&mut t, &decimal_chars(n as u64));
    append_chars(&mut t, &chars_of("\u{ff5c}15\u{79d2}\u{ff5c}\u{7c7b}\u{578b}\u{ff1a}D\u{ff5c}\u{65b9}\u{6848}\u{ff1a}T1\u{5efa}\u{7acb}\u{538b}\u{573a}\u{6a21}\u{677f}\u{ff5c}\u{6863}\u{4f4d}\u{ff1a}LITE\u{ff5c}\u{8282}\u{594f}\u{ff1a}\u{5efa}\u{7acb}\u{2192}\u{5c55}\u{5f00}\u{2192}\u{5b9a}\u{951a}\u{3011}"));
    assert(t@ =~= fallback_title_bar(n as nat));
    V2Shot {
        shot_number: n,
        scene_index,
        shot_type: "D".to_string(),
        title_bar: string_of(&t),
        mount: "\u{6302}\u{8f7d}\u{ff1a}@\u{573a}\u{666f}\u{ff1a}\u{5f85}\u{5b9a}".to_string(),
        camera: "\u{76f8}\u{673a}\u{4f4d}\u{7f6e}\u{ff1a}\u{4e2d}\u{666f}\u{4f4d}\u{ff1b}\u{76f8}\u{673a}\u{671d}\u{5411}\u{ff1a}\u{6b63}\u{9762}\u{ff1b}\u{89d2}\u{8272}\u{671d}\u{5411}\u{ff1a}\u{9762}\u{5bf9}\u{955c}\u{5934}\u{ff1b}\u{6784}\u{56fe}\u{951a}\u{70b9}\u{ff1a}\u{4e3b}\u{4f53}\u{5c45}\u{4e2d}".to_string(),
        opening_frame: "\u{955c}\u{5934}\u{5e73}\u{7a33}\u{63a8}\u{5165}\u{573a}\u{666f}".to_string(),
        closing_frame: "\u{4e3b}\u{4f53}\u{5b9a}\u{683c}\u{5728}\u{753b}\u{9762}\u{4e2d}\u{592e}".to_string(),
        connection: String::new(),
        transition: String::new(),
        dual_anchor: "9:16 \u{4e3b}\u{4f53}\u{4e0a}\u{4e0b}\u{5c45}\u{4e2d}\u{ff1b}16:9 \u{5de6}\u{53f3}\u{7559}\u{767d}\u{5e73}\u{8861}".to_string(),
        main_prompt: "REAL_CG\u{ff0c}\u{7535}\u{5f71}\u{611f}\u{5199}\u{5b9e}\u{8d28}\u{611f}\u{3002}\u{ff08}\u{8bf7}\u{91cd}\u{65b0}\u{751f}\u{6210}\u{6b64}\u{955c}\u{ff09}".to_string(),
        compulsory_declaration: "\u{3010}\u{5f3a}\u{5236}\u{58f0}\u{660e}\u{3011}\u{65e0}\u{80cc}\u{666f}\u{97f3}\u{4e50}\u{ff0c}\u{4ec5}\u{4fdd}\u{7559}\u{73af}\u{5883}\u{97f3}\u{4e0e}\u{4eba}\u{58f0}\u{ff1a}\u{753b}\u{9762}\u{7981}\u{5b57}\u{5e55}/\u{6587}\u{5b57}/\u{6c34}\u{5370}/Logo\u{ff1a}\u{7981}\u{6b62}\u{53ef}\u{8bfb}\u{6587}\u{5b57}\u{ff1a}\u{7981}\u{6b62}\u{8d85}\u{73b0}\u{5b9e}\u{5938}\u{5f20}\u{ff1a}\u{7981}\u{6b62}\u{65e0}\u{53cd}\u{4f5c}\u{7528}\u{529b}\u{52a8}\u{4f5c}".to_string(),
        must_show: "\u{5f85}\u{5b9a}".to_string(),
        quality_route: "\u{81ea}\u{7136}\u{5149}\u{ff0c}\u{9ad8}\u{5bf9}\u{6bd4}\u{ff0c}\u{4e3b}\u{4f53}\u{6e05}\u{6670}".to_string(),
        imaging_style: "\u{7a33}\u{5b9a}\u{4e2d}\u{666f}\u{ff0c}\u{4e0d}\u{6025}\u{4e0d}\u{8e81}".to_string(),
        quality_baseline: "\u{3010}\u{753b}\u{8d28}\u{5e95}\u{7ebf}\u{3011}\u{9ad8}\u{5149}\u{4fdd}\u{7ed3}\u{6784}\u{3001}\u{6697}\u{90e8}\u{4e0d}\u{6b7b}\u{9ed1}\u{3001}\u{4e2d}\u{95f4}\u{8c03}\u{539a}\u{5b9e}\u{3001}\u{4e3b}\u{4f53}\u{8fb9}\u{7f18}\u{7a33}\u{5b9a}\u{3001}\u{4ecb}\u{8d28}\u{5206}\u{5c42}\u{6e05}\u{695a}".to_string(),
        reference: String::new(),
        micro_expressions: String::new(),
        nail_lines: String::new(),
        e15: String::new(),
        asset_refs: Vec::new(),
    }
}

} // verus!

verus! {

/// The model's reply for a scene: its shot when the reply is an object whose
/// `mainPrompt` is a string, the stand-in shot otherwise.
pub open spec fn reply_has_prompt(parsed: Option<JsonV>) -> bool {
    parsed is Some && jstr(jget(parsed->0, "mainPrompt"@)) is Some
}

/// The shot of scene `scene_index` made from the model's parsed reply.
pub fn shot_from_reply(parsed: Option<&Json>, scene_index: usize) -> (r: V2Shot)
    requires
        scene_index < usize::MAX,
    ensures
        reply_has_prompt(opt_json_view(parsed)) ==> v2_shot_matches(r, parsed->0@, scene_index as int),
        !reply_has_prompt(opt_json_view(parsed)) ==> is_fallback_shot(r, scene_index as int),
{
    match parsed {
        Some(v) => {
            if json_str(json_get(v, "mainPrompt")).is_some() {
                normalize_v2_shot(v, scene_index)
            } else {
                build_fallback_v2_shot(scene_index)
            }
        },
        None => build_fallback_v2_shot(scene_index),
    }
}

/// The test that keeps every shot of a scene other than `k`.
pub open spec fn other_scene(k: usize) -> spec_fn(V2Shot) -> bool {
    |g: V2Shot| g.scene_index != k
}

/// The first position at or after `i` of a shot of a scene later than `k`
/// (the length when there is none).
pub open spec fn place_after(t: Seq<V2Shot>, k: usize, i: int) -> int
    decreases t.len() - i,
{
    if i >= t.len() {
        t.len() as int
    } else if t[i].scene_index > k {
        i
    } else {
        place_after(t, k, i + 1)
    }
}

/// Shots sorted by scene, stably: each shot goes after every shot placed
/// before it whose scene is not later than its own.
pub open spec fn sort_by_scene(s: Seq<V2Shot>) -> Seq<V2Shot>
    decreases s.len(),
{
    if s.len() == 0 {
        s
    } else {
        let t = sort_by_scene(s.drop_last());
        t.insert(place_after(t, s.last().scene_index, 0), s.last())
    }
}

pub open spec fn sorted_by_scene(s: Seq<V2Shot>) -> bool {
    forall|i: int, j: int| 0 <= i <= j < s.len() ==> s[i].scene_index <= s[j].scene_index
}

/// A shot with its number set to `n`.
pub open spec fn numbered(g: V2Shot, n: int) -> V2Shot {
    V2Shot { shot_number: n as usize, ..g }
}

/// Shots numbered from 1 in order.
pub open spec fn renumbered(s: Seq<V2Shot>) -> Seq<V2Shot> {
    Seq::new(s.len(), |i: int| numbered(s[i], i + 1))
}

/// The stored shots after scene `group.scene_index` was generated anew: the
/// other scenes' shots and the new one, sorted by scene and numbered from 1.
pub open spec fn merged_shots(existing: Seq<V2Shot>, group: V2Shot) -> Seq<V2Shot> {
    renumbered(sort_by_scene(existing.filter(other_scene(group.scene_index)).push(group)))
}

proof fn lemma_place_after(t: Seq<V2Shot>, k: usize, i: int)
    requires
        0 <= i <= t.len(),
    ensures
        i <= place_after(t, k, i) <= t.len(),
        forall|j: int| i <= j < place_after(t, k, i) ==> t[j].scene_index <= k,
        place_after(t, k, i) < t.len() ==> t[place_after(t, k, i)].scene_index > k,
    decreases t.len() - i,
{
    if i < t.len() && t[i].scene_index <= k {
        lemma_place_after(t, k, i + 1);
    }
}

/// The shots of scene `k`.
pub open spec fn of_scene(k: usize) -> spec_fn(V2Shot) -> bool {
    |g: V2Shot| g.scene_index == k
}

/// Sorting by scene is stable: the shots of each scene keep their order.
pub proof fn lemma_sort_stable(s: Seq<V2Shot>, k: usize)
    ensures
        sort_by_scene(s).filter(of_scene(k)) == s.filter(of_scene(k)),
    decreases s.len(),
{
    if s.len() > 0 {
        let pred = of_scene(k);
        let t = sort_by_scene(s.drop_last());
        let x = s.last();
        let p = place_after(t, x.scene_index, 0);
        lemma_sort_stable(s.drop_last(), k);
        lemma_sort_by_scene(s.drop_last());
        lemma_place_after(t, x.scene_index, 0);
        let a = t.subrange(0, p);
        let b = t.subrange(p, t.len() as int);
        assert(t.insert(p, x) =~= (a + seq![x]) + b);
        assert(t =~= a + b);
        Seq::filter_distributes_over_add(a + seq![x], b, pred);
        Seq::filter_distributes_over_add(a, seq![x], pred);
        Seq::filter_distributes_over_add(a, b, pred);
        assert(s.drop_last().push(x) =~= s);
        s.drop_last().lemma_filter_push(x, pred);
        Seq::<V2Shot>::empty().lemma_filter_push(x, pred);
        assert(Seq::<V2Shot>::empty().push(x) =~= seq![x]);
        assert(Seq::<V2Shot>::empty().filter(pred) =~= Seq::<V2Shot>::empty()) by {
            reveal(Seq::filter);
        }
        if x.scene_index == k {
            assert forall|j: int| 0 <= j < b.len() implies !pred(#[trigger] b[j]) by {
                assert(b[j] == t[p + j]);
                assert(t[p].scene_index > x.scene_index);
                assert(t[p].scene_index <= t[p + j].scene_index);
            }
            b.lemma_all_neg_filter_empty(pred);
            assert(b.filter(pred) =~= Seq::<V2Shot>::empty());
            assert(a.filter(pred) + b.filter(pred) == a.filter(pred));
            assert((a.filter(pred) + seq![x]) + b.filter(pred) =~= a.filter(pred).push(x));
        } else {
            assert(seq![x].filter(pred) =~= Seq::<V2Shot>::empty());
            assert(a.filter(pred) + Seq::<V2Shot>::empty() =~= a.filter(pred));
        }
    }
}

/// Sorting by scene keeps the shots and orders them.
pub proof fn lemma_sort_by_scene(s: Seq<V2Shot>)
    ensures
        sort_by_scene(s).len() == s.len(),
        sorted_by_scene(sort_by_scene(s)),
        sort_by_scene(s).to_multiset() == s.to_multiset(),
    decreases s.len(),
{
    if s.len() > 0 {
        let t = sort_by_scene(s.drop_last());
        let x = s.last();
        let p = place_after(t, x.scene_index, 0);
        lemma_sort_by_scene(s.drop_last());
        lemma_place_after(t, x.scene_index, 0);
        let r = t.insert(p, x);
        assert forall|i: int, j: int| 0 <= i <= j < r.len() implies r[i].scene_index
            <= r[j].scene_index by {
            if i < p && j > p {
                assert(r[j] == t[j - 1]);
            }
        }
        vstd::seq_lib::to_multiset_insert(t, p, x);
        vstd::seq_lib::to_multiset_build(s.drop_last(), x);
        assert(s.drop_last().push(x) =~= s);
    }
}

fn place_after_exec(t: &Vec<V2Shot>, k: usize) -> (p: usize)
    ensures
        p == place_after(t@, k, 0),
        p <= t@.len(),
{
    proof {
        lemma_place_after(t@, k, 0);
    }
    let mut i: usize = 0;
    while i < t.len() && t[i].scene_index <= k
        invariant
            i <= t@.len(),
            place_after(t@, k, 0) == place_after(t@, k, i as int),
        decreases t@.len() - i,
    {
        i += 1;
    }
    i
}

/// The shots stored for a task after one scene's shot was generated anew: the
/// shots of the other scenes and the new one, sorted by scene (stably) and
/// numbered from 1.
pub fn merge_shots(existing: Vec<V2Shot>, group: V2Shot) -> (r: Vec<V2Shot>)
    requires
        existing@.len() < usize::MAX,
    ensures
        r@ == merged_shots(existing@, group),
{
    let k = group.scene_index;
    let ghost orig = existing@;
    let ghost keep = other_scene(k);
    let mut rest = existing;
    let mut sorted: Vec<V2Shot> = Vec::new();
    let n = rest.len();
    let mut i: usize = 0;
    proof {
        reveal(Seq::filter);
        assert(orig.take(0) =~= Seq::<V2Shot>::empty());
        assert(orig.skip(0) =~= orig);
    }
    while i < n
        invariant
            n == orig.len(),
            i <= n,
            keep == other_scene(k),
            rest@ == orig.skip(i as int),
            sorted@ == sort_by_scene(orig.take(i as int).filter(keep)),
        decreases n - i,
    {
        let x = rest.remove(0);
        proof {
            reveal(Seq::filter);
            assert(x == orig[i as int]);
            assert(rest@ =~= orig.skip(i + 1));
            let s = orig.take(i + 1);
            assert(s.drop_last() =~= orig.take(i as int));
            assert(s.last() == x);
        }
        if x.scene_index != k {
            let p = place_after_exec(&sorted, x.scene_index);
            proof {
                let f = orig.take(i + 1).filter(keep);
                assert(f == orig.take(i as int).filter(keep).push(x));
                assert(f.drop_last() =~= orig.take(i as int).filter(keep));
                assert(f.last() == x);
            }
            sorted.insert(p, x);
        }
        i += 1;
    }
    proof {
        assert(orig.take(n as int) =~= orig);
        let f = orig.filter(keep).push(group);
        assert(f.drop_last() =~= orig.filter(keep));
    }
    let p = place_after_exec(&sorted, k);
    sorted.insert(p, group);
    let ghost srt = sorted@;
    proof {
        orig.lemma_filter_len(keep);
        assert(srt == sort_by_scene(orig.filter(keep).push(group)));
        lemma_sort_by_scene(orig.filter(keep).push(group));
    }
    let total = sorted.len();
    let mut out: Vec<V2Shot> = Vec::new();
    let mut j: usize = 0;
    assert(srt.skip(0) =~= srt);
    while j < total
        invariant
            total == srt.len(),
            total <= usize::MAX,
            j <= total,
            sorted@ == srt.skip(j as int),
            out@ == renumbered(srt).take(j as int),
        decreases total - j,
    {
        let g = sorted.remove(0);
        proof {
            assert(g == srt[j as int]);
            assert(sorted@ =~= srt.skip(j + 1));
        }
        out.push(V2Shot { shot_number: j + 1, ..g });
        proof {
            assert(out@ =~= renumbered(srt).take(j + 1));
        }
        j += 1;
    }
    assert(out@ =~= renumbered(srt));
    out
}

/// Generating one scene's shot anew leaves exactly one shot for that scene,
/// the new one; keeps every shot of the other scenes; orders the shots by
/// scene, keeping the earlier order within a scene (the shots of each scene
/// come in the order they had, the new one last); and numbers them 1, 2, ...
pub proof fn law_regenerated_shot_replaces_its_scene(existing: Seq<V2Shot>, group: V2Shot)
    requires
        existing.len() < usize::MAX,
    ensures
        ({
            let others = existing.filter(other_scene(group.scene_index));
            let sorted = sort_by_scene(others.push(group));
            let r = merged_shots(existing, group);
            &&& r.len() == others.len() + 1
            &&& sorted.to_multiset() == others.to_multiset().insert(group)
            &&& forall|i: int| 0 <= i < r.len() ==> #[trigger] r[i] == numbered(sorted[i], i + 1)
            &&& forall|i: int| 0 <= i < r.len() ==> (#[trigger] r[i]).shot_number == i + 1
            &&& forall|i: int, j: int|
                0 <= i <= j < r.len() ==> r[i].scene_index <= r[j].scene_index
            &&& forall|k: usize| #[trigger] sorted.filter(of_scene(k)) == others.push(group).filter(of_scene(k))
            &&& exists|i: int| 0 <= i < r.len() && r[i] == numbered(group, i + 1)
            &&& forall|i: int|
                0 <= i < r.len() && (#[trigger] r[i]).scene_index == group.scene_index ==> r[i]
                    == numbered(group, i + 1)
        }),
{
    let k = group.scene_index;
    let others = existing.filter(other_scene(k));
    let all = others.push(group);
    let sorted = sort_by_scene(all);
    let r = merged_shots(existing, group);
    existing.lemma_filter_len(other_scene(k));
    lemma_sort_by_scene(all);
    assert forall|k2: usize| #[trigger] sorted.filter(of_scene(k2)) == all.filter(of_scene(k2)) by {
        lemma_sort_stable(all, k2);
    }
    vstd::seq_lib::to_multiset_build(others, group);
    assert forall|i: int| 0 <= i < r.len() && (#[trigger] r[i]).scene_index == k implies r[i]
        == numbered(group, i + 1) by {
        let g = sorted[i];
        vstd::seq_lib::to_multiset_contains(sorted, g);
        assert(sorted.contains(g));
        vstd::seq_lib::to_multiset_contains(all, g);
        if g != group {
            assert(others.to_multiset().count(g) > 0);
            vstd::seq_lib::to_multiset_contains(others, g);
            let m = choose|m: int| 0 <= m < others.len() && others[m] == g;
            existing.lemma_filter_pred(other_scene(k), m);
        }
    }
    vstd::seq_lib::to_multiset_contains(sorted, group);
    vstd::seq_lib::to_multiset_contains(all, group);
    assert(all[all.len() - 1] == group);
    let w = choose|w: int| 0 <= w < sorted.len() && sorted[w] == group;
    assert(r[w] == numbered(group, w + 1));
}

} // verus!

verus! {

/// What `extract_json` hands the JSON parser first: the reply trimmed, with
/// its leading "```json" and "```" runs and its trailing "```" run taken off.
pub open spec fn fence_stripped(t: Seq<char>) -> Seq<char> {
    trim(strip_trailing(trim(strip_leading(strip_leading(trim(t), "```json"@), "```"@)), "```"@))
}

/// The reply of the model with its code fences taken off (the text that
/// `extract_json` parses first).
pub fn strip_json_fences(text: &str) -> (r: String)
    ensures
        r@ == fence_stripped(text@),
{
    let t = trim_chars(&chars_of(text));
    let a = strip_leading_chars(&t, &chars_of("```json"));
    let b = strip_leading_chars(&a, &chars_of("```"));
    let c = trim_chars(&b);
    let d = strip_trailing_chars(&c, &chars_of("```"));
    string_of(&trim_chars(&d))
}

/// Slicing from the first `open` to the last `close` does not run backwards
/// (a backwards slice panics).
pub open spec fn span_in_order(s: Seq<char>, open: char, close: char) -> bool {
    find_char(s, open, 0) == -1 || rfind_char(s, close, s.len() as int) == -1 || find_char(
        s,
        open,
        0,
    ) <= rfind_char(s, close, s.len() as int) + 1
}

/// The text from the first `open` through the last `close`, when both occur.
pub open spec fn bracket_span(s: Seq<char>, open: char, close: char) -> Option<Seq<char>> {
    let a = find_char(s, open, 0);
    let b = rfind_char(s, close, s.len() as int);
    if a == -1 || b == -1 {
        None
    } else {
        Some(s.subrange(a, b + 1))
    }
}

/// Whether `bracket_slice` can cut the text (`span_in_order`).
pub fn span_ok(s: &str, open: char, close: char) -> (r: bool)
    ensures
        r == span_in_order(s@, open, close),
{
    let cs = chars_of(s);
    proof {
        lemma_find_char(s@, open, 0);
        lemma_rfind_char(s@, close, s@.len() as int);
    }
    match find_char_exec(&cs, open) {
        Some(a) => match rfind_char_exec(&cs, close) {
            Some(b) => a <= b + 1,
            None => true,
        },
        None => true,
    }
}

/// `&s[s.find(open)..=s.rfind(close)]`, the second text `extract_json` (with
/// braces) and `extract_json_array` (with brackets) try to parse.
pub fn bracket_slice(s: &str, open: char, close: char) -> (r: Option<String>)
    requires
        span_in_order(s@, open, close),
    ensures
        crate::blocks::opt_view(r) == bracket_span(s@, open, close),
{
    let cs = chars_of(s);
    proof {
        lemma_find_char(s@, open, 0);
        lemma_rfind_char(s@, close, s@.len() as int);
    }
    match find_char_exec(&cs, open) {
        Some(a) => match rfind_char_exec(&cs, close) {
            Some(b) => Some(string_of(&copy_range(&cs, a, b + 1))),
            None => None,
        },
        None => None,
    }
}

/// The last 200 bytes of a text (all of it when shorter), cut at a char
/// boundary.
pub open spec fn script_tail(s: Seq<char>) -> Seq<char> {
    crate::text::byte_suffix(s, 200)
}

/// What the model is told of the shot before the one it writes.
pub open spec fn previous_context_view(last: V2Shot, script: Seq<char>, quality: Seq<char>) -> JsonV {
    JsonV::Object(
        seq![
            ("lastClosingFrame"@, JsonV::Str(last.closing_frame@)),
            ("lastScriptTail"@, JsonV::Str(script_tail(script))),
            ("lastShotSummary"@, JsonV::Str(last.title_bar@)),
            ("lastTransition"@, JsonV::Str(last.transition@)),
            ("sceneQuality"@, JsonV::Str(quality)),
        ],
    )
}

/// `build_previous_context`: the link from the shot just written to the next.
pub fn build_previous_context(last_shot: &V2Shot, last_script_content: &str, scene_quality: &str) -> (r: Json)
    ensures
        r@ == previous_context_view(*last_shot, last_script_content@, scene_quality@),
{
    let cs = chars_of(last_script_content);
    let tail = crate::text::byte_suffix_chars(&cs, 200);
    let fields: Vec<(String, Json)> = vec![
        ("lastClosingFrame".to_string(), Json::Str(last_shot.closing_frame.clone())),
        ("lastScriptTail".to_string(), Json::Str(string_of(&tail))),
        ("lastShotSummary".to_string(), Json::Str(last_shot.title_bar.clone())),
        ("lastTransition".to_string(), Json::Str(last_shot.transition.clone())),
        ("sceneQuality".to_string(), Json::Str(scene_quality.to_string())),
    ];
    proof {
        lemma_object_view(fields);
    }
    let r = Json::Object(fields);
    assert(r@->Object_0 =~= previous_context_view(*last_shot, last_script_content@, scene_quality@)->Object_0);
    r
}

/// The message of a scene index past the last shot: the range named is 0 to
/// the last index, written `-1` when there are no shots.
pub open spec fn scene_range_message(i: nat, n: nat) -> Seq<char> {
    "\u{5206}\u{955c}\u{5e8f}\u{53f7} "@ + decimal(i) + " \u{8d85}\u{51fa}\u{8303}\u{56f4} (0-"@ + (if n > 0 {
        decimal((n - 1) as nat)
    } else {
        "-1"@
    }) + ")"@
}

/// The check `run_prompt_group_generation` makes of the scene it is asked for.
pub fn check_scene_index(scene_index: usize, shot_count: usize) -> (r: Result<(), String>)
    ensures
        r is Ok <==> scene_index < shot_count,
        r is Err ==> r->Err_0@ == scene_range_message(scene_index as nat, shot_count as nat),
{
    if scene_index < shot_count {
        return Ok(());
    }
    let mut t = chars_of("\u{5206}\u{955c}\u{5e8f}\u{53f7} ");
    append_chars(&mut t, &decimal_chars(scene_index as u64));
    append_chars(&mut t, &chars_of(" \u{8d85}\u{51fa}\u{8303}\u{56f4} (0-"));
    if shot_count > 0 {
        append_chars(&mut t, &decimal_chars((shot_count - 1) as u64));
    } else {
        proof {
            reveal_strlit("-1");
        }
        append_chars(&mut t, &chars_of("-1"));
    }
    append_chars(&mut t, &chars_of(")"));
    assert(t@ =~= scene_range_message(scene_index as nat, shot_count as nat));
    Err(string_of(&t))
}

} // verus!

verus! {

/// A value, or `null` when absent (how `json!` writes an `Option`).
pub open spec fn or_null(o: Option<JsonV>) -> JsonV {
    match o {
        Some(v) => v,
        None => JsonV::Null,
    }
}

/// The beats of a shot: `keyBeats`, else `beats`, else `null`.
pub open spec fn beats_of(s: JsonV) -> JsonV {
    or_null(either(jget(s, "keyBeats"@), jget(s, "beats"@)))
}

/// How a neighbouring shot is described to the model.
pub open spec fn brief_view(p: JsonV) -> JsonV {
    JsonV::Object(
        seq![
            ("keyBeats"@, beats_of(p)),
            ("shotType"@, JsonV::Str(as_text(jget(p, "shotType"@)))),
            ("title"@, JsonV::Str(as_text(jget(p, "title"@)))),
        ],
    )
}

/// The shot at `j`, described, or `null` when there is none.
pub open spec fn neighbour(shots: Seq<JsonV>, j: int) -> JsonV {
    if 0 <= j < shots.len() {
        brief_view(shots[j])
    } else {
        JsonV::Null
    }
}

/// How the shot to write is described to the model.
pub open spec fn current_view(s: JsonV, i: int, total: int) -> JsonV {
    JsonV::Object(
        seq![
            ("index"@, num_json(i)),
            ("keyBeats"@, beats_of(s)),
            ("scriptContent"@, JsonV::Str(as_text(jget(s, "scriptContent"@)))),
            ("shotType"@, JsonV::Str(text_or(jstr(jget(s, "shotType"@)), "D"@))),
            ("title"@, JsonV::Str(as_text(jget(s, "title"@)))),
            ("totalShots"@, num_json(total)),
        ],
    )
}

/// The story as the outline tells it.
pub open spec fn overview_view(o: JsonV) -> JsonV {
    JsonV::Object(
        seq![
            ("coreConflict"@, or_null(jget(o, "coreConflict"@))),
            ("fiveActs"@, or_null(jget(o, "fiveActs"@))),
            ("informationGain"@, or_null(jget(o, "informationGain"@))),
            ("protagonistMotivation"@, or_null(jget(o, "protagonistMotivation"@))),
            ("sceneQuality"@, or_null(jget(o, "sceneQuality"@))),
        ],
    )
}

pub open spec fn views(v: Seq<Json>) -> Seq<JsonV> {
    v.map_values(|j: Json| j@)
}

/// The request for the shot at `i` of the outline's shots: the assets, the
/// shot, its neighbours, the link from the shot before and the story.
pub open spec fn shot_request_view(
    outline: JsonV,
    shots: Seq<JsonV>,
    i: int,
    total: int,
    assets: JsonV,
    previous: Option<JsonV>,
) -> JsonV {
    JsonV::Object(
        seq![
            ("assets"@, assets),
            ("currentShot"@, current_view(shots[i], i, total)),
            ("nextShotBrief"@, neighbour(shots, i + 1)),
            ("previousContext"@, or_null(previous)),
            ("previousShotBrief"@, neighbour(shots, i - 1)),
            ("storyOverview"@, overview_view(outline)),
        ],
    )
}

/// The request to write a shot anew: that of `shot_request_view`, with the
/// review of the shot and the shot as it was.
pub open spec fn regeneration_request_view(
    outline: JsonV,
    shots: Seq<JsonV>,
    i: int,
    total: int,
    assets: JsonV,
    previous: Option<JsonV>,
    review_feedback: Option<JsonV>,
    original_seedance: Option<JsonV>,
) -> JsonV {
    JsonV::Object(
        seq![
            ("assets"@, assets),
            ("currentShot"@, current_view(shots[i], i, total)),
            ("nextShotBrief"@, neighbour(shots, i + 1)),
            ("originalSeedance"@, or_null(original_seedance)),
            ("previousContext"@, or_null(previous)),
            ("previousShotBrief"@, neighbour(shots, i - 1)),
            ("reviewFeedback"@, or_null(review_feedback)),
            ("storyOverview"@, overview_view(outline)),
        ],
    )
}

pub open spec fn owned_view(o: Option<Json>) -> Option<JsonV> {
    match o {
        Some(v) => Some(v@),
        None => None,
    }
}

fn or_null_exec(o: Option<&Json>) -> (r: Json)
    ensures
        r@ == or_null(opt_json_view(o)),
{
    match o {
        Some(v) => v.clone(),
        None => Json::Null,
    }
}

fn or_null_owned(o: Option<Json>) -> (r: Json)
    ensures
        r@ == or_null(owned_view(o)),
{
    match o {
        Some(v) => v,
        None => Json::Null,
    }
}

fn brief_exec(p: &Json) -> (r: Json)
    ensures
        r@ == brief_view(p@),
{
    let fields: Vec<(String, Json)> = vec![
        ("keyBeats".to_string(), or_null_exec(first_of(json_get(p, "keyBeats"), json_get(p, "beats")))),
        ("shotType".to_string(), Json::Str(as_text_of(json_get(p, "shotType")))),
        ("title".to_string(), Json::Str(as_text_of(json_get(p, "title")))),
    ];
    proof {
        lemma_object_view(fields);
    }
    let r = Json::Object(fields);
    assert(r@->Object_0 =~= brief_view(p@)->Object_0);
    r
}

fn neighbour_exec(shots: &Vec<Json>, j: usize) -> (r: Json)
    ensures
        r@ == neighbour(views(shots@), j as int),
{
    if j < shots.len() {
        brief_exec(&shots[j])
    } else {
        Json::Null
    }
}

fn current_exec(s: &Json, i: usize, total: usize) -> (r: Json)
    ensures
        r@ == current_view(s@, i as int, total as int),
{
    proof {
        reveal_strlit("D");
    }
    let fields: Vec<(String, Json)> = vec![
        ("index".to_string(), usize_json(i)),
        ("keyBeats".to_string(), or_null_exec(first_of(json_get(s, "keyBeats"), json_get(s, "beats")))),
        ("scriptContent".to_string(), Json::Str(as_text_of(json_get(s, "scriptContent")))),
        ("shotType".to_string(), Json::Str(text_of(json_str(json_get(s, "shotType")), "D"))),
        ("title".to_string(), Json::Str(as_text_of(json_get(s, "title")))),
        ("totalShots".to_string(), usize_json(total)),
    ];
    proof {
        lemma_object_view(fields);
    }
    let r = Json::Object(fields);
    assert(r@->Object_0 =~= current_view(s@, i as int, total as int)->Object_0);
    r
}

fn overview_exec(o: &Json) -> (r: Json)
    ensures
        r@ == overview_view(o@),
{
    let fields: Vec<(String, Json)> = vec![
        ("coreConflict".to_string(), or_null_exec(json_get(o, "coreConflict"))),
        ("fiveActs".to_string(), or_null_exec(json_get(o, "fiveActs"))),
        ("informationGain".to_string(), or_null_exec(json_get(o, "informationGain"))),
        ("protagonistMotivation".to_string(), or_null_exec(json_get(o, "protagonistMotivation"))),
        ("sceneQuality".to_string(), or_null_exec(json_get(o, "sceneQuality"))),
    ];
    proof {
        lemma_object_view(fields);
    }
    let r = Json::Object(fields);
    assert(r@->Object_0 =~= overview_view(o@)->Object_0);
    r
}

/// The request `run_prompt_generation` sends for the shot at `index`.
pub fn shot_request(
    outline: &Json,
    shots: &Vec<Json>,
    index: usize,
    total: usize,
    assets: Json,
    previous_context: Option<Json>,
) -> (r: Json)
    requires
        index < shots@.len(),
    ensures
        r@ == shot_request_view(
            outline@,
            views(shots@),
            index as int,
            total as int,
            assets@,
            owned_view(previous_context),
        ),
{
    let ghost pv = owned_view(previous_context);
    let ghost av = assets@;
    let after = if index < shots.len() - 1 {
        neighbour_exec(shots, index + 1)
    } else {
        Json::Null
    };
    let before = if index > 0 {
        neighbour_exec(shots, index - 1)
    } else {
        Json::Null
    };
    let fields: Vec<(String, Json)> = vec![
        ("assets".to_string(), assets),
        ("currentShot".to_string(), current_exec(&shots[index], index, total)),
        ("nextShotBrief".to_string(), after),
        ("previousContext".to_string(), or_null_owned(previous_context)),
        ("previousShotBrief".to_string(), before),
    ];
    let mut fields = fields;
    fields.push(("storyOverview".to_string(), overview_exec(outline)));
    proof {
        lemma_object_view(fields);
    }
    let r = Json::Object(fields);
    assert(r@->Object_0 =~= shot_request_view(
        outline@,
        views(shots@),
        index as int,
        total as int,
        av,
        pv,
    )->Object_0);
    r
}

/// The request `run_prompt_group_generation` sends to write the shot at
/// `index` anew.
pub fn regeneration_request(
    outline: &Json,
    shots: &Vec<Json>,
    index: usize,
    total: usize,
    assets: Json,
    previous_context: Option<Json>,
    review_feedback: Option<&Json>,
    original_seedance: Option<&Json>,
) -> (r: Json)
    requires
        index < shots@.len(),
    ensures
        r@ == regeneration_request_view(
            outline@,
            views(shots@),
            index as int,
            total as int,
            assets@,
            owned_view(previous_context),
            opt_json_view(review_feedback),
            opt_json_view(original_seedance),
        ),
{
    let ghost pv = owned_view(previous_context);
    let ghost av = assets@;
    let after = if index < shots.len() - 1 {
        neighbour_exec(shots, index + 1)
    } else {
        Json::Null
    };
    let before = if index > 0 {
        neighbour_exec(shots, index - 1)
    } else {
        Json::Null
    };
    let fields: Vec<(String, Json)> = vec![
        ("assets".to_string(), assets),
        ("currentShot".to_string(), current_exec(&shots[index], index, total)),
        ("nextShotBrief".to_string(), after),
        ("originalSeedance".to_string(), or_null_exec(original_seedance)),
        ("previousContext".to_string(), or_null_owned(previous_context)),
    ];
    let mut fields = fields;
    fields.push(("previousShotBrief".to_string(), before));
    fields.push(("reviewFeedback".to_string(), or_null_exec(review_feedback)));
    fields.push(("storyOverview".to_string(), overview_exec(outline)));
    proof {
        lemma_object_view(fields);
    }
    let r = Json::Object(fields);
    assert(r@->Object_0 =~= regeneration_request_view(
        outline@,
        views(shots@),
        index as int,
        total as int,
        av,
        pv,
        opt_json_view(review_feedback),
        opt_json_view(original_seedance),
    )->Object_0);
    r
}

/// `Value::as_i64` of an optional value.
pub fn json_as_i64(o: Option<&Json>) -> (r: Option<i64>)
    ensures
        match r {
            Some(v) => as_i64(opt_json_view(o)) == Some(v as int),
            None => as_i64(opt_json_view(o)) is None,
        },
{
    match o {
        Some(Json::Int(v)) => Some(*v),
        Some(Json::UInt(u)) => {
            if *u <= 9223372036854775807u64 {
                Some(*u as i64)
            } else {
                None
            }
        },
        _ => None,
    }
}

/// The shot count the requests give: the outline's `totalShots`, else the
/// number of its shots (`as usize` of an `i64`).
pub fn total_shots(outline: &Json, shot_count: usize) -> (r: usize)
    requires
        shot_count <= i64::MAX,
    ensures
        r == (match as_i64(jget(outline@, "totalShots"@)) {
            Some(v) => (v as i64) as usize,
            None => shot_count,
        }),
{
    match json_as_i64(json_get(outline, "totalShots")) {
        Some(v) => v as usize,
        None => shot_count,
    }
}


// ---------------------------------------------------------------------------
// The assets a shot request carries
// ---------------------------------------------------------------------------

/// The object of the given members of `data` (null for a missing one).
pub open spec fn picked(data: JsonV, keys: Seq<Seq<char>>) -> JsonV {
    JsonV::Object(keys.map_values(|k: Seq<char>| (k, or_null(jget(data, k)))))
}

/// The members a character asset is described by, in key order.
pub open spec fn character_keys() -> Seq<Seq<char>> {
    seq!["aliases"@, "appearance"@, "clothing"@, "colorPalette"@, "name"@, "personality"@, "role"@]
}

pub open spec fn scene_keys() -> Seq<Seq<char>> {
    seq!["aliases"@, "atmosphere"@, "colorTemperature"@, "landmarks"@, "materials"@, "name"@, "timeOfDay"@]
}

pub open spec fn prop_keys() -> Seq<Seq<char>> {
    seq!["aliases"@, "dramaticFunction"@, "form"@, "material"@, "name"@, "surfaceState"@]
}

/// The stored assets of type `ty` whose data reads as JSON, described by `keys`.
pub open spec fn asset_items(assets: Seq<(Seq<char>, Option<JsonV>)>, ty: Seq<char>, keys: Seq<Seq<char>>) -> Seq<JsonV>
    decreases assets.len(),
{
    if assets.len() == 0 {
        Seq::empty()
    } else {
        let rest = asset_items(assets.drop_last(), ty, keys);
        let last = assets.last();
        if last.0 == ty && last.1 is Some {
            rest.push(picked(last.1->0, keys))
        } else {
            rest
        }
    }
}

/// `build_assets_json`, from the stored assets (type, data read as JSON):
/// an empty object when there are none, else the characters, props and
/// scenes among them.
pub open spec fn assets_context_view(assets: Seq<(Seq<char>, Option<JsonV>)>) -> JsonV {
    if assets.len() == 0 {
        JsonV::Object(Seq::empty())
    } else {
        JsonV::Object(
            seq![
                ("characters"@, JsonV::Array(asset_items(assets, "character"@, character_keys()))),
                ("props"@, JsonV::Array(asset_items(assets, "prop"@, prop_keys()))),
                ("scenes"@, JsonV::Array(asset_items(assets, "scene"@, scene_keys()))),
            ],
        )
    }
}

pub open spec fn stored_assets_view(a: Seq<(String, Option<Json>)>) -> Seq<(Seq<char>, Option<JsonV>)> {
    a.map_values(|x: (String, Option<Json>)| (x.0@, owned_view(x.1)))
}

fn picked_exec(data: &Json, keys: &Vec<&str>) -> (r: Json)
    ensures
        r@ == picked(data@, keys@.map_values(|k: &str| k@)),
{
    let ghost ks = keys@.map_values(|k: &str| k@);
    let mut fields: Vec<(String, Json)> = Vec::new();
    let mut i: usize = 0;
    while i < keys.len()
        invariant
            i <= keys@.len(),
            ks == keys@.map_values(|k: &str| k@),
            fields@.len() == i,
            forall|j: int| 0 <= j < i ==> (#[trigger] fields@[j]).0@ == ks[j] && fields@[j].1@ == or_null(jget(data@, ks[j])),
        decreases keys@.len() - i,
    {
        let v = or_null_exec(json_get(data, keys[i]));
        fields.push((keys[i].to_string(), v));
        i += 1;
    }
    proof {
        lemma_object_view(fields);
    }
    let r = Json::Object(fields);
    assert(r@->Object_0 =~= picked(data@, ks)->Object_0);
    r
}

fn push_asset(
    out: &mut Vec<Json>,
    ty: &str,
    want: &str,
    data: &Option<Json>,
    keys: &Vec<&str>,
)
    ensures
        views(final(out)@) == if ty@ == want@ && data is Some {
            views(old(out)@).push(picked(owned_view(*data)->0, keys@.map_values(|k: &str| k@)))
        } else {
            views(old(out)@)
        },
{
    if crate::text::str_eq(ty, want) {
        match data {
            Some(d) => {
                let ghost before = views(out@);
                out.push(picked_exec(d, keys));
                assert(views(out@) =~= before.push(picked(d@, keys@.map_values(|k: &str| k@))));
            },
            None => {},
        }
    }
}

/// `build_assets_json` on the stored assets: each asset's type and its data
/// read as JSON (`None` where it is no JSON).
pub fn assets_context(assets: &Vec<(String, Option<Json>)>) -> (r: Json)
    ensures
        r@ == assets_context_view(stored_assets_view(assets@)),
{
    let ghost av = stored_assets_view(assets@);
    if assets.len() == 0 {
        let empty: Vec<(String, Json)> = Vec::new();
        proof {
            lemma_object_view(empty);
        }
        let r = Json::Object(empty);
        assert(r@->Object_0 =~= Seq::<(Seq<char>, JsonV)>::empty());
        return r;
    }
    let ck: Vec<&str> = vec!["aliases", "appearance", "clothing", "colorPalette", "name", "personality", "role"];
    let sk: Vec<&str> = vec!["aliases", "atmosphere", "colorTemperature", "landmarks", "materials", "name", "timeOfDay"];
    let pk: Vec<&str> = vec!["aliases", "dramaticFunction", "form", "material", "name", "surfaceState"];
    assert(ck@.map_values(|k: &str| k@) =~= character_keys());
    assert(sk@.map_values(|k: &str| k@) =~= scene_keys());
    assert(pk@.map_values(|k: &str| k@) =~= prop_keys());
    let mut chars: Vec<Json> = Vec::new();
    let mut scenes: Vec<Json> = Vec::new();
    let mut props: Vec<Json> = Vec::new();
    let mut i: usize = 0;
    while i < assets.len()
        invariant
            i <= assets@.len(),
            av == stored_assets_view(assets@),
            ck@.map_values(|k: &str| k@) == character_keys(),
            sk@.map_values(|k: &str| k@) == scene_keys(),
            pk@.map_values(|k: &str| k@) == prop_keys(),
            views(chars@) == asset_items(av.take(i as int), "character"@, character_keys()),
            views(scenes@) == asset_items(av.take(i as int), "scene"@, scene_keys()),
            views(props@) == asset_items(av.take(i as int), "prop"@, prop_keys()),
        decreases assets@.len() - i,
    {
        assert(av.take(i + 1).drop_last() =~= av.take(i as int));
        assert(av.take(i + 1).last() == av[i as int]);
        assert(av[i as int] == (assets@[i as int].0@, owned_view(assets@[i as int].1)));
        push_asset(&mut chars, assets[i].0.as_str(), "character", &assets[i].1, &ck);
        push_asset(&mut scenes, assets[i].0.as_str(), "scene", &assets[i].1, &sk);
        push_asset(&mut props, assets[i].0.as_str(), "prop", &assets[i].1, &pk);
        i += 1;
    }
    assert(av.take(i as int) =~= av);
    proof {
        lemma_array_view(chars);
        lemma_array_view(props);
        lemma_array_view(scenes);
    }
    let ca = Json::Array(chars);
    let pa = Json::Array(props);
    let sa = Json::Array(scenes);
    assert(ca@->Array_0 =~= asset_items(av, "character"@, character_keys()));
    assert(pa@->Array_0 =~= asset_items(av, "prop"@, prop_keys()));
    assert(sa@->Array_0 =~= asset_items(av, "scene"@, scene_keys()));
    let fields: Vec<(String, Json)> = vec![
        ("characters".to_string(), ca),
        ("props".to_string(), pa),
        ("scenes".to_string(), sa),
    ];
    proof {
        lemma_object_view(fields);
    }
    let r = Json::Object(fields);
    assert(r@->Object_0 =~= assets_context_view(av)->Object_0);
    r
}


// ---------------------------------------------------------------------------
// Confirming an outline: its shots numbered in order
// ---------------------------------------------------------------------------

/// `a` sorts before `b` (char by char, as object keys are kept).
pub open spec fn key_lt(a: Seq<char>, b: Seq<char>) -> bool
    decreases a.len(),
{
    if a.len() == 0 {
        b.len() > 0
    } else if b.len() == 0 {
        false
    } else if a[0] != b[0] {
        (a[0] as u32) < (b[0] as u32)
    } else {
        key_lt(a.drop_first(), b.drop_first())
    }
}

/// The first member at or after `i` named `k`, or -1.
pub open spec fn key_pos(fs: Seq<(Seq<char>, JsonV)>, k: Seq<char>, i: int) -> int
    decreases fs.len() - i,
{
    if i < 0 || i >= fs.len() {
        -1
    } else if fs[i].0 == k {
        i
    } else {
        key_pos(fs, k, i + 1)
    }
}

/// Where the run of members before `k` (in key order) ends, from `i`.
pub open spec fn lt_prefix(fs: Seq<(Seq<char>, JsonV)>, k: Seq<char>, i: int) -> int
    decreases fs.len() - i,
{
    if 0 <= i < fs.len() && key_lt(fs[i].0, k) {
        lt_prefix(fs, k, i + 1)
    } else {
        i
    }
}

/// `obj[k] = v` on an object's members: the member replaced where it is,
/// else added in key order.
pub open spec fn set_member(fs: Seq<(Seq<char>, JsonV)>, k: Seq<char>, v: JsonV) -> Seq<(Seq<char>, JsonV)> {
    let p = key_pos(fs, k, 0);
    if p >= 0 {
        fs.update(p, (k, v))
    } else {
        let q = lt_prefix(fs, k, 0);
        fs.take(q).push((k, v)) + fs.skip(q)
    }
}

/// A shot numbered `i`: its `index` set (a null shot becomes an object).
pub open spec fn reindexed_shot(s: JsonV, i: int) -> JsonV {
    match s {
        JsonV::Object(fs) => JsonV::Object(set_member(fs, "index"@, num_json(i))),
        _ => JsonV::Object(seq![("index"@, num_json(i))]),
    }
}

/// Every shot can be numbered (a shot that is neither an object nor null
/// cannot take a member, and setting one on it panics).
pub open spec fn shots_reindexable(o: JsonV) -> bool {
    match jget(o, "shots"@) {
        Some(JsonV::Array(a)) => forall|i: int| 0 <= i < a.len() ==> numberable(#[trigger] a[i]),
        _ => true,
    }
}

/// The outline `confirm_outline` stores: each shot's `index` its position,
/// and `totalShots` their number (an outline without a shot list unchanged).
pub open spec fn reindexed_outline(o: JsonV) -> JsonV {
    match o {
        JsonV::Object(fs) => match jget(o, "shots"@) {
            Some(JsonV::Array(a)) => {
                let a2 = Seq::new(a.len(), |i: int| reindexed_shot(a[i], i));
                JsonV::Object(set_member(set_member(fs, "shots"@, JsonV::Array(a2)), "totalShots"@, num_json(a.len() as int)))
            },
            _ => o,
        },
        _ => o,
    }
}

pub open spec fn fields_view(fs: Seq<(String, Json)>) -> Seq<(Seq<char>, JsonV)> {
    fs.map_values(|f: (String, Json)| (f.0@, f.1@))
}

pub(crate) proof fn lemma_fields_view(fs: Vec<(String, Json)>)
    ensures
        Json::Object(fs)@ == JsonV::Object(fields_view(fs@)),
{
    lemma_object_view(fs);
    assert(Json::Object(fs)@->Object_0 =~= fields_view(fs@));
}

fn key_lt_exec(a: &[char], b: &[char]) -> (r: bool)
    ensures
        r == key_lt(a@, b@),
{
    let mut i: usize = 0;
    assert(a@.skip(0) =~= a@);
    assert(b@.skip(0) =~= b@);
    while i < a.len() && i < b.len() && a[i] == b[i]
        invariant
            i <= a@.len(),
            i <= b@.len(),
            key_lt(a@, b@) == key_lt(a@.skip(i as int), b@.skip(i as int)),
        decreases a@.len() - i,
    {
        assert(a@.skip(i as int).drop_first() =~= a@.skip(i + 1));
        assert(b@.skip(i as int).drop_first() =~= b@.skip(i + 1));
        i += 1;
    }
    if i == a.len() {
        i < b.len()
    } else if i == b.len() {
        false
    } else {
        assert(a@.skip(i as int)[0] == a@[i as int]);
        assert(b@.skip(i as int)[0] == b@[i as int]);
        (a[i] as u32) < (b[i] as u32)
    }
}

pub(crate) fn set_member_exec(fs: Vec<(String, Json)>, k: &str, v: Json) -> (r: Vec<(String, Json)>)
    ensures
        fields_view(r@) == set_member(fields_view(fs@), k@, v@),
{
    let ghost fv = fields_view(fs@);
    let mut p: usize = 0;
    while p < fs.len()
        invariant
            p <= fs@.len(),
            fv == fields_view(fs@),
            key_pos(fv, k@, 0) == key_pos(fv, k@, p as int),
        decreases fs@.len() - p,
    {
        if crate::text::str_eq(fs[p].0.as_str(), k) {
            let ghost vv = v@;
            let mut out = fs;
            out.set(p, (k.to_string(), v));
            assert(fields_view(out@) =~= fv.update(p as int, (k@, vv)));
            return out;
        }
        p += 1;
    }
    let kc = chars_of(k);
    let mut q: usize = 0;
    while q < fs.len() && key_lt_exec(&chars_of(fs[q].0.as_str()), &kc)
        invariant
            q <= fs@.len(),
            fv == fields_view(fs@),
            kc@ == k@,
            lt_prefix(fv, k@, 0) == lt_prefix(fv, k@, q as int),
        decreases fs@.len() - q,
    {
        q += 1;
    }
    let ghost vv = v@;
    let mut out: Vec<(String, Json)> = Vec::new();
    let mut i: usize = 0;
    while i < q
        invariant
            i <= q <= fs@.len(),
            fv == fields_view(fs@),
            out@.len() == i,
            fields_view(out@) == fv.take(i as int),
        decreases q - i,
    {
        let name = fs[i].0.clone();
        let value = fs[i].1.clone();
        assert(fv[i as int] == (name@, value@));
        let ghost before = out@;
        out.push((name, value));
        assert forall|j: int| 0 <= j <= i implies #[trigger] fields_view(out@)[j] == fv.take(i + 1)[j] by {
            if j < i {
                assert(out@[j] == before[j]);
                assert(fields_view(before)[j] == fv.take(i as int)[j]);
            }
        }
        assert(fields_view(out@) =~= fv.take(i + 1));
        i += 1;
    }
    out.push((k.to_string(), v));
    assert(fields_view(out@) =~= fv.take(q as int).push((k@, vv)));
    while i < fs.len()
        invariant
            q <= i <= fs@.len(),
            fv == fields_view(fs@),
            out@.len() == i + 1,
            fields_view(out@) == fv.take(q as int).push((k@, vv)) + fv.subrange(q as int, i as int),
        decreases fs@.len() - i,
    {
        let name = fs[i].0.clone();
        let value = fs[i].1.clone();
        assert(fv[i as int] == (name@, value@));
        let ghost before = out@;
        let ghost prev = fv.take(q as int).push((k@, vv)) + fv.subrange(q as int, i as int);
        let ghost want = fv.take(q as int).push((k@, vv)) + fv.subrange(q as int, i + 1);
        out.push((name, value));
        assert forall|j: int| 0 <= j < out@.len() implies #[trigger] fields_view(out@)[j] == want[j] by {
            if j < out@.len() - 1 {
                assert(out@[j] == before[j]);
                assert(fields_view(before)[j] == prev[j]);
                assert(want[j] == prev[j]);
            } else {
                assert(want[j] == fv[i as int]);
            }
        }
        assert(fields_view(out@) =~= want);
        i += 1;
    }
    assert(fv.subrange(q as int, fs@.len() as int) =~= fv.skip(q as int));
    out
}


fn reindexed_shot_exec(s: &Json, i: usize) -> (r: Json)
    requires
        s@ is Object || s@ is Null,
    ensures
        r@ == reindexed_shot(s@, i as int),
{
    match s {
        Json::Object(fs) => {
            let copy = s.clone();
            match copy {
                Json::Object(cf) => {
                    proof {
                        lemma_fields_view(cf);
                    }
                    let f = set_member_exec(cf, "index", usize_json(i));
                    proof {
                        lemma_fields_view(f);
                    }
                    Json::Object(f)
                },
                _ => {
                    proof {
                        lemma_fields_view(*fs);
                    }
                    Json::Null
                },
            }
        },
        _ => {
            let f: Vec<(String, Json)> = vec![("index".to_string(), usize_json(i))];
            proof {
                lemma_fields_view(f);
            }
            let r = Json::Object(f);
            assert(fields_view(f@) =~= seq![("index"@, num_json(i as int))]);
            r
        },
    }
}

/// `confirm_outline`'s renumbering of the outline it stores.
pub fn reindex_outline(outline: Json) -> (r: Json)
    requires
        shots_reindexable(outline@),
    ensures
        r@ == reindexed_outline(outline@),
{
    let ghost o = outline@;
    let renumbered: Option<Vec<Json>> = match json_get(&outline, "shots") {
        Some(Json::Array(a)) => {
            proof {
                lemma_array_view(*a);
            }
            let ghost av = Json::Array(*a)@->Array_0;
            let mut a2: Vec<Json> = Vec::new();
            let mut k: usize = 0;
            while k < a.len()
                invariant
                    k <= a@.len(),
                    av.len() == a@.len(),
                    forall|j: int| 0 <= j < a@.len() ==> av[j] == (#[trigger] a@[j])@,
                    forall|j: int| 0 <= j < av.len() ==> (#[trigger] av[j] is Object || av[j] is Null),
                    a2@.len() == k,
                    forall|j: int| 0 <= j < k ==> (#[trigger] a2@[j])@ == reindexed_shot(av[j], j),
                decreases a@.len() - k,
            {
                assert(av[k as int] == a@[k as int]@);
                a2.push(reindexed_shot_exec(&a[k], k));
                k += 1;
            }
            Some(a2)
        },
        _ => None,
    };
    match renumbered {
        Some(a2) => match outline {
            Json::Object(fs) => {
                let n = a2.len();
                proof {
                    lemma_array_view(a2);
                    lemma_fields_view(fs);
                }
                let arr = Json::Array(a2);
                let ghost av = jget(o, "shots"@)->0->Array_0;
                assert(arr@->Array_0 =~= Seq::new(av.len(), |i: int| reindexed_shot(av[i], i)));
                let f1 = set_member_exec(fs, "shots", arr);
                let f2 = set_member_exec(f1, "totalShots", usize_json(n));
                proof {
                    lemma_fields_view(f2);
                }
                Json::Object(f2)
            },
            other => other,
        },
        None => outline,
    }
}


/// A shot can be numbered: it is an object or null.
pub open spec fn numberable(s: JsonV) -> bool {
    s is Object || s is Null
}

/// Whether an outline's shots can be numbered (`shots_reindexable`).
pub fn outline_reindexable(outline: &Json) -> (r: bool)
    ensures
        r == shots_reindexable(outline@),
{
    match json_get(outline, "shots") {
        Some(Json::Array(a)) => {
            proof {
                lemma_array_view(*a);
            }
            let ghost av = Json::Array(*a)@->Array_0;
            assert(jget(outline@, "shots"@) == Some(JsonV::Array(av)));
            let mut ok = true;
            let mut k: usize = 0;
            while k < a.len()
                invariant
                    k <= a@.len(),
                    av.len() == a@.len(),
                    forall|j: int| 0 <= j < a@.len() ==> av[j] == (#[trigger] a@[j])@,
                    ok == (forall|j: int| 0 <= j < k ==> numberable(#[trigger] av[j])),
                decreases a@.len() - k,
            {
                assert(av[k as int] == a@[k as int]@);
                let this = match &a[k] {
                    Json::Object(_) => true,
                    Json::Null => true,
                    _ => false,
                };
                assert(this == numberable(av[k as int]));
                proof {
                    if ok && this {
                        assert forall|j: int| 0 <= j < k + 1 implies numberable(#[trigger] av[j]) by {
                            if j < k {
                                assert(numberable(av[j]));
                            }
                        }
                    }
                }
                ok = ok && this;
                k += 1;
            }
            assert(ok == (forall|j: int| 0 <= j < av.len() ==> numberable(#[trigger] av[j])));
            ok
        },
        _ => true,
    }
}

} // verus!
