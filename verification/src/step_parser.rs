//! Reading the output of each screenplay step, written by the model either as
//! JSON or as typed markdown blocks, into structured results.
use vstd::prelude::*;
use crate::blocks::{Block, BlockV, block_matches, fields_get, opt_view, parse_typed_blocks, spec_typed_blocks};
use crate::strmap::StrMap;
use crate::json::Json;
use crate::model_text::{strip_markdown_fences, strip_think_blocks, spec_strip_fences, spec_strip_think};
use crate::text::{
    chars_of, copy_range, lines, spec_lines, string_of, str_eq, str_lower, str_upper, to_lowercase,
    to_uppercase, trim, trim_chars, spec_parse_u32, parse_u32,
};

verus! {

/// Type names compare equal once both are in upper case.
pub open spec fn type_matches(t: Seq<char>, target: Seq<char>) -> bool {
    str_upper(t) == str_upper(target)
}

pub fn is_type_match(type_str: &str, target: &str) -> (r: bool)
    ensures
        r == type_matches(type_str@, target@),
{
    let a = to_uppercase(type_str);
    let b = to_uppercase(target);
    a == b
}

/// A scene block: type `SCENE` in any case, or `场景`.
pub open spec fn scene_type(t: Seq<char>) -> bool {
    str_upper(t) == seq!['S', 'C', 'E', 'N', 'E'] || t == seq!['\u{573a}', '\u{666f}']
}

pub fn is_scene_block(type_str: &str) -> (r: bool)
    ensures
        r == scene_type(type_str@),
{
    let upper = to_uppercase(type_str);
    proof {
        reveal_strlit("SCENE");
        reveal_strlit("\u{573a}\u{666f}");
    }
    assert("SCENE"@ =~= seq!['S', 'C', 'E', 'N', 'E']);
    assert("\u{573a}\u{666f}"@ =~= seq!['\u{573a}', '\u{666f}']);
    str_eq(upper.as_str(), "SCENE") || str_eq(type_str, "\u{573a}\u{666f}")
}

/// The first of `keys` whose value (through `f`) is present and not empty.
pub open spec fn pick_field(f: spec_fn(Seq<char>) -> Option<Seq<char>>, keys: Seq<Seq<char>>) -> Option<Seq<char>>
    decreases keys.len(),
{
    if keys.len() == 0 {
        None
    } else {
        match f(keys[0]) {
            Some(v) if v.len() > 0 => Some(v),
            _ => pick_field(f, keys.drop_first()),
        }
    }
}

pub open spec fn keys_view(keys: Seq<&str>) -> Seq<Seq<char>> {
    keys.map_values(|k: &str| k@)
}

pub open spec fn map_lookup(m: StrMap<String>) -> spec_fn(Seq<char>) -> Option<Seq<char>> {
    |k: Seq<char>| opt_view(m.get_spec(k))
}

pub open spec fn kv_lookup(kv: Seq<Seq<char>>) -> spec_fn(Seq<char>) -> Option<Seq<char>> {
    |k: Seq<char>| fields_get(kv, k)
}

/// The value of the first of `keys` that the block gives a non-empty value.
pub open spec fn block_field(v: BlockV, keys: Seq<Seq<char>>) -> Option<Seq<char>> {
    pick_field(kv_lookup(v.kv), keys)
}

/// `block_field`, or empty when none.
pub open spec fn block_field_or_empty(v: BlockV, keys: Seq<Seq<char>>) -> Seq<char> {
    match block_field(v, keys) {
        Some(x) => x,
        None => Seq::empty(),
    }
}

/// `get_field_from_map_opt`: the first of `keys` with a non-empty value in the map.
pub fn get_field_from_map_opt(map: &StrMap<String>, keys: &[&str]) -> (r: Option<String>)
    ensures
        opt_view(r) == pick_field(map_lookup(*map), keys_view(keys@)),
{
    let mut i: usize = 0;
    assert(keys_view(keys@).skip(0) =~= keys_view(keys@));
    while i < keys.len()
        invariant
            i <= keys@.len(),
            pick_field(map_lookup(*map), keys_view(keys@)) == pick_field(
                map_lookup(*map),
                keys_view(keys@).skip(i as int),
            ),
        decreases keys@.len() - i,
    {
        let k = keys[i].to_string();
        let ghost rest = keys_view(keys@).skip(i as int);
        assert(rest[0] == k@);
        assert(rest.drop_first() =~= keys_view(keys@).skip(i + 1));
        match map.get(&k) {
            Some(v) => {
                if !v.as_str().is_empty() {
                    return Some(v.clone());
                }
            },
            None => {},
        }
        i += 1;
    }
    assert(keys_view(keys@).skip(i as int).len() == 0);
    None
}

/// `get_field_from_map`: as `get_field_from_map_opt`, empty when none.
pub fn get_field_from_map(map: &StrMap<String>, keys: &[&str]) -> (r: String)
    ensures
        r@ == (match pick_field(map_lookup(*map), keys_view(keys@)) {
            Some(x) => x,
            None => Seq::empty(),
        }),
{
    match get_field_from_map_opt(map, keys) {
        Some(v) => v,
        None => String::new(),
    }
}

pub proof fn lemma_block_lookup(b: Block, v: BlockV)
    requires
        block_matches(b, v),
    ensures
        map_lookup(b.fields) == kv_lookup(v.kv),
{
    assert(map_lookup(b.fields) =~= kv_lookup(v.kv));
}

pub fn get_field_opt(b: &Block, keys: &[&str]) -> (r: Option<String>)
    ensures
        opt_view(r) == pick_field(map_lookup(b.fields), keys_view(keys@)),
{
    get_field_from_map_opt(&b.fields, keys)
}

pub fn get_field(b: &Block, keys: &[&str]) -> (r: String)
    ensures
        r@ == (match pick_field(map_lookup(b.fields), keys_view(keys@)) {
            Some(x) => x,
            None => Seq::empty(),
        }),
{
    get_field_from_map(&b.fields, keys)
}


pub open spec fn is_bullet(c: char) -> bool {
    c == '-' || c == '*' || c == '\u{2022}' || c == '\u{b7}'
}

/// The item of a list line: the trimmed text after its bullet.
pub open spec fn list_item(l: Seq<char>) -> Option<Seq<char>> {
    let t = trim(l);
    if t.len() > 0 && is_bullet(t[0]) {
        Some(trim(t.subrange(1, t.len() as int)))
    } else {
        None
    }
}

/// The items of the bullet lines of the first `n` lines.
pub open spec fn list_items_upto(ls: Seq<Seq<char>>, n: int) -> Seq<Seq<char>>
    decreases n,
{
    if n <= 0 {
        Seq::empty()
    } else {
        let p = list_items_upto(ls, n - 1);
        match list_item(ls[n - 1]) {
            Some(x) => p.push(x),
            None => p,
        }
    }
}

/// The items of the bullet lines (`-`, `*`, `•`, `·`) of a body.
pub open spec fn spec_list(body: Seq<char>) -> Seq<Seq<char>> {
    list_items_upto(spec_lines(body), spec_lines(body).len() as int)
}

pub open spec fn strings_view(v: Seq<String>) -> Seq<Seq<char>> {
    v.map_values(|s: String| s@)
}

pub fn parse_list(body: &str) -> (r: Vec<String>)
    ensures
        strings_view(r@) == spec_list(body@),
{
    let ls = lines(&chars_of(body));
    let ghost lv = ls@.map_values(|l: Vec<char>| l@);
    let mut out: Vec<String> = Vec::new();
    let mut i: usize = 0;
    while i < ls.len()
        invariant
            i <= ls@.len(),
            lv == ls@.map_values(|l: Vec<char>| l@),
            lv == spec_lines(body@),
            strings_view(out@) == list_items_upto(lv, i as int),
        decreases ls@.len() - i,
    {
        let t = trim_chars(&ls[i]);
        assert(t@ == trim(lv[i as int]));
        if t.len() > 0 && (t[0] == '-' || t[0] == '*' || t[0] == '\u{2022}' || t[0] == '\u{b7}') {
            let item = trim_chars(&copy_range(&t, 1, t.len()));
            let ghost before = out@;
            out.push(string_of(&item));
            assert(strings_view(out@) =~= strings_view(before).push(item@));
        }
        i += 1;
    }
    out
}

pub open spec fn is_csv_sep(c: char) -> bool {
    c == ',' || c == '\u{ff0c}' || c == ';' || c == '\u{ff1b}'
}

/// Index of the first separator at or after `i`, or the length.
pub open spec fn csv_sep_from(s: Seq<char>, i: int) -> int
    decreases s.len() - i,
{
    if 0 <= i < s.len() && !is_csv_sep(s[i]) {
        csv_sep_from(s, i + 1)
    } else {
        i
    }
}

/// The pieces of `s[i..]` between separators (`str::split`): one more than
/// the separators.
pub open spec fn csv_pieces_from(s: Seq<char>, i: int) -> Seq<Seq<char>>
    decreases s.len() + 1 - i,
{
    if i < 0 || i > s.len() {
        Seq::empty()
    } else {
        let e = csv_sep_from(s, i);
        if e < i || e >= s.len() {
            seq![s.subrange(i, s.len() as int)]
        } else {
            seq![s.subrange(i, e)] + csv_pieces_from(s, e + 1)
        }
    }
}

/// The non-empty trimmed pieces of `s` split at `,` `，` `;` `；`.
pub open spec fn spec_csv(s: Seq<char>) -> Seq<Seq<char>> {
    csv_pieces_from(s, 0).map_values(|p: Seq<char>| trim(p)).filter(|p: Seq<char>| p.len() > 0)
}

proof fn lemma_csv_sep_from(s: Seq<char>, i: int)
    requires
        0 <= i <= s.len(),
    ensures
        i <= csv_sep_from(s, i) <= s.len(),
        csv_sep_from(s, i) < s.len() ==> is_csv_sep(s[csv_sep_from(s, i)]),
    decreases s.len() - i,
{
    if i < s.len() && !is_csv_sep(s[i]) {
        lemma_csv_sep_from(s, i + 1);
    }
}

proof fn lemma_csv_gap(s: Seq<char>, i: int)
    requires
        0 <= i <= s.len(),
    ensures
        forall|k: int| i <= k < csv_sep_from(s, i) ==> !is_csv_sep(#[trigger] s[k]),
    decreases s.len() - i,
{
    if i < s.len() && !is_csv_sep(s[i]) {
        lemma_csv_gap(s, i + 1);
    }
}

proof fn lemma_csv_pieces_no_sep(s: Seq<char>, i: int)
    requires
        0 <= i <= s.len(),
    ensures
        forall|m: int, j: int| 0 <= m < csv_pieces_from(s, i).len() && 0 <= j < csv_pieces_from(s, i)[m].len()
            ==> !is_csv_sep(#[trigger] csv_pieces_from(s, i)[m][j]),
    decreases s.len() + 1 - i,
{
    let e = csv_sep_from(s, i);
    lemma_csv_sep_from(s, i);
    lemma_csv_gap(s, i);
    let head = s.subrange(i, e);
    if e >= s.len() {
        assert forall|m: int, j: int| 0 <= m < csv_pieces_from(s, i).len() && 0 <= j < csv_pieces_from(s, i)[m].len()
            implies !is_csv_sep(#[trigger] csv_pieces_from(s, i)[m][j]) by {
            assert(csv_pieces_from(s, i)[m] == head);
            assert(head[j] == s[i + j]);
        }
    } else {
        lemma_csv_pieces_no_sep(s, e + 1);
        let rest = csv_pieces_from(s, e + 1);
        assert(csv_pieces_from(s, i) == seq![head] + rest);
        assert forall|m: int, j: int| 0 <= m < csv_pieces_from(s, i).len() && 0 <= j < csv_pieces_from(s, i)[m].len()
            implies !is_csv_sep(#[trigger] csv_pieces_from(s, i)[m][j]) by {
            if m == 0 {
                assert(csv_pieces_from(s, i)[m] == head);
                assert(head[j] == s[i + j]);
            } else {
                assert(csv_pieces_from(s, i)[m] == rest[m - 1]);
            }
        }
    }
}

/// Law: an item of a comma-separated list never holds a separator: every
/// `,`, `，`, `;` and `；` of the text splits it, and each item is non-empty.
pub proof fn law_csv_items_hold_no_separator(s: Seq<char>)
    ensures
        forall|k: int, j: int| 0 <= k < spec_csv(s).len() && 0 <= j < spec_csv(s)[k].len() ==> {
            let c = #[trigger] spec_csv(s)[k][j];
            c != ',' && c != '\u{ff0c}' && c != ';' && c != '\u{ff1b}'
        },
        forall|k: int| 0 <= k < spec_csv(s).len() ==> (#[trigger] spec_csv(s)[k]).len() > 0,
{
    broadcast use vstd::seq_lib::group_filter_ensures;
    let pieces = csv_pieces_from(s, 0);
    let tr = |p: Seq<char>| trim(p);
    let pred = |p: Seq<char>| p.len() > 0;
    let mapped = pieces.map_values(tr);
    lemma_csv_pieces_no_sep(s, 0);
    assert(spec_csv(s) == mapped.filter(pred));
    assert forall|k: int, j: int| 0 <= k < spec_csv(s).len() && 0 <= j < spec_csv(s)[k].len() implies {
        let c = #[trigger] spec_csv(s)[k][j];
        c != ',' && c != '\u{ff0c}' && c != ';' && c != '\u{ff1b}'
    } by {
        let x = spec_csv(s)[k];
        assert(mapped.filter(pred)[k] == x);
        assert(mapped.filter(pred).contains(x));
        mapped.lemma_filter_contains_rev(pred, x);
        assert(mapped.contains(x));
        let m = choose|m: int| 0 <= m < mapped.len() && mapped[m] == x;
        let p = pieces[m];
        assert(x == trim(p));
        crate::text::lemma_trim_index(p);
        let q = crate::text::lead_from(p, 0) + j;
        assert(x[j] == p[q]);
        assert(!is_csv_sep(pieces[m][q]));
    }
}

pub fn parse_csv(s: &str) -> (r: Vec<String>)
    ensures
        strings_view(r@) == spec_csv(s@),
{
    let c = chars_of(s);
    let ghost pieces = csv_pieces_from(c@, 0);
    let ghost pred = |p: Seq<char>| p.len() > 0;
    let ghost tr = |p: Seq<char>| trim(p);
    let mut out: Vec<String> = Vec::new();
    let ghost mut done: Seq<Seq<char>> = Seq::empty();
    let mut i: usize = 0;
    let mut finished = false;
    while !finished
        invariant
            i <= c@.len(),
            pred == (|p: Seq<char>| p.len() > 0),
            tr == (|p: Seq<char>| trim(p)),
            pieces == csv_pieces_from(c@, 0),
            !finished ==> done + csv_pieces_from(c@, i as int) == pieces,
            finished ==> done == pieces,
            strings_view(out@) == done.map_values(tr).filter(pred),
        decreases c@.len() + 1 - i, if finished { 0int } else { 1int },
    {
        proof {
            lemma_csv_sep_from(c@, i as int);
        }
        let mut e = i;
        while e < c.len() && !(c[e] == ',' || c[e] == '\u{ff0c}' || c[e] == ';' || c[e] == '\u{ff1b}')
            invariant
                i <= e <= c@.len(),
                csv_sep_from(c@, e as int) == csv_sep_from(c@, i as int),
            decreases c@.len() - e,
        {
            e += 1;
        }
        let piece = trim_chars(&copy_range(&c, i, e));
        let ghost pv = c@.subrange(i as int, e as int);
        proof {
            reveal_with_fuel(Seq::filter, 1);
            let d2 = done.push(pv);
            assert(d2.map_values(tr) =~= done.map_values(tr).push(trim(pv)));
            assert(d2.map_values(tr).drop_last() =~= done.map_values(tr));
        }
        if piece.len() > 0 {
            let ghost before = out@;
            out.push(string_of(&piece));
            assert(strings_view(out@) =~= strings_view(before).push(piece@));
        }
        proof {
            if e >= c@.len() {
                assert(csv_pieces_from(c@, i as int) == seq![pv]);
                assert(done + seq![pv] =~= done.push(pv));
            } else {
                assert(csv_pieces_from(c@, i as int) == seq![pv] + csv_pieces_from(c@, e + 1));
                assert(done + (seq![pv] + csv_pieces_from(c@, e + 1)) =~= done.push(pv) + csv_pieces_from(c@, e + 1));
            }
            done = done.push(pv);
        }
        if e >= c.len() {
            finished = true;
        } else {
            i = e + 1;
        }
    }
    out
}

pub open spec fn rhythm_ok(v: Seq<char>) -> bool {
    v == seq!['\u{677e}'] || v == seq!['\u{4e2d}'] || v == seq!['\u{7d27}']
}

pub open spec fn emotion_ok(v: Seq<char>) -> bool {
    v == seq!['\u{8f7b}'] || v == seq!['\u{4e2d}'] || v == seq!['\u{91cd}']
}

/// Law: the plot rhythms kept are exactly 松, 中 and 紧, and the emotion
/// rhythms exactly 轻, 中 and 重; a one-char value outside them is replaced.
pub proof fn law_rhythm_words(v: Seq<char>)
    ensures
        rhythm_ok(seq!['\u{677e}']) && rhythm_ok(seq!['\u{4e2d}']) && rhythm_ok(seq!['\u{7d27}']),
        emotion_ok(seq!['\u{8f7b}']) && emotion_ok(seq!['\u{4e2d}']) && emotion_ok(seq!['\u{91cd}']),
        rhythm_ok(v) ==> v.len() == 1 && (v[0] == '\u{677e}' || v[0] == '\u{4e2d}' || v[0] == '\u{7d27}'),
        emotion_ok(v) ==> v.len() == 1 && (v[0] == '\u{8f7b}' || v[0] == '\u{4e2d}' || v[0] == '\u{91cd}'),
{
}

/// A plot rhythm is kept when it is `松`, `中` or `紧`; otherwise the default.
pub fn normalize_rhythm(val: &str, default: &str) -> (r: String)
    ensures
        r@ == (if rhythm_ok(val@) { val@ } else { default@ }),
{
    proof {
        reveal_strlit("\u{677e}");
        reveal_strlit("\u{4e2d}");
        reveal_strlit("\u{7d27}");
    }
    assert("\u{677e}"@ =~= seq!['\u{677e}']);
    assert("\u{4e2d}"@ =~= seq!['\u{4e2d}']);
    assert("\u{7d27}"@ =~= seq!['\u{7d27}']);
    if str_eq(val, "\u{677e}") || str_eq(val, "\u{4e2d}") || str_eq(val, "\u{7d27}") {
        val.to_string()
    } else {
        default.to_string()
    }
}

/// An emotion rhythm is kept when it is `轻`, `中` or `重`; otherwise the default.
pub fn normalize_emotion(val: &str, default: &str) -> (r: String)
    ensures
        r@ == (if emotion_ok(val@) { val@ } else { default@ }),
{
    proof {
        reveal_strlit("\u{8f7b}");
        reveal_strlit("\u{4e2d}");
        reveal_strlit("\u{91cd}");
    }
    assert("\u{8f7b}"@ =~= seq!['\u{8f7b}']);
    assert("\u{4e2d}"@ =~= seq!['\u{4e2d}']);
    assert("\u{91cd}"@ =~= seq!['\u{91cd}']);
    if str_eq(val, "\u{8f7b}") || str_eq(val, "\u{4e2d}") || str_eq(val, "\u{91cd}") {
        val.to_string()
    } else {
        default.to_string()
    }
}

/// `s` read as a `u32`, or `fallback`.
pub fn parse_int_safe(s: &str, fallback: u32) -> (r: u32)
    ensures
        r == (match spec_parse_u32(s@) {
            Some(v) => v,
            None => fallback as int,
        }),
{
    match parse_u32(&chars_of(s)) {
        Some(v) => v,
        None => fallback,
    }
}

/// `s` read as a `u32`.
pub fn parse_int_safe_opt(s: &str) -> (r: Option<u32>)
    ensures
        match r {
            Some(v) => spec_parse_u32(s@) == Some(v as int),
            None => spec_parse_u32(s@) is None,
        },
{
    parse_u32(&chars_of(s))
}

/// Trimmed, the text opens a JSON object or array.
pub open spec fn spec_looks_like_json(s: Seq<char>) -> bool {
    let t = trim(s);
    t.len() > 0 && (t[0] == '{' || t[0] == '[')
}

pub fn looks_like_json(s: &str) -> (r: bool)
    ensures
        r == spec_looks_like_json(s@),
{
    let t = trim_chars(&chars_of(s));
    t.len() > 0 && (t[0] == '{' || t[0] == '[')
}

/// A block with nothing in it.
pub fn create_empty() -> (r: Block)
    ensures
        r.type_str@.len() == 0,
        r.id@.len() == 0,
        r.raw@.len() == 0,
        r.body@.len() == 0,
        forall|k: Seq<char>| #[trigger] r.fields.get_spec(k) is None,
{
    Block {
        type_str: String::new(),
        id: String::new(),
        fields: StrMap::new(),
        raw: String::new(),
        body: String::new(),
    }
}


pub open spec fn or_empty(o: Option<Seq<char>>) -> Seq<char> {
    match o {
        Some(x) => x,
        None => Seq::empty(),
    }
}

/// A block's field by the first of `keys` it gives a value.
pub fn field_of(b: &Block, keys: Vec<&str>) -> (r: Option<String>)
    ensures
        opt_view(r) == pick_field(map_lookup(b.fields), keys_view(keys@)),
{
    get_field_opt(b, keys.as_slice())
}

/// First block at or after `i` whose type matches `target`, or -1.
pub open spec fn first_typed_from(bs: Seq<BlockV>, target: Seq<char>, i: int) -> int
    decreases bs.len() - i,
{
    if i < 0 || i >= bs.len() {
        -1
    } else if type_matches(bs[i].type_str, target) {
        i
    } else {
        first_typed_from(bs, target, i + 1)
    }
}

pub open spec fn first_typed(bs: Seq<BlockV>, target: Seq<char>) -> Option<BlockV> {
    let i = first_typed_from(bs, target, 0);
    if i >= 0 {
        Some(bs[i])
    } else {
        None
    }
}

/// The blocks whose type matches `target`, in order.
pub open spec fn typed(bs: Seq<BlockV>, target: Seq<char>) -> Seq<BlockV> {
    bs.filter(|b: BlockV| type_matches(b.type_str, target))
}

proof fn lemma_first_typed_from(bs: Seq<BlockV>, target: Seq<char>, i: int)
    requires
        0 <= i <= bs.len(),
    ensures
        first_typed_from(bs, target, i) == -1 || (i <= first_typed_from(bs, target, i) < bs.len()),
    decreases bs.len() - i,
{
    if i < bs.len() && !type_matches(bs[i].type_str, target) {
        lemma_first_typed_from(bs, target, i + 1);
    }
}

/// Index of the first block whose type matches `target`.
fn find_typed(blocks: &Vec<Block>, target: &str, Ghost(bs): Ghost<Seq<BlockV>>) -> (r: Option<usize>)
    requires
        blocks@.len() == bs.len(),
        forall|i: int| 0 <= i < bs.len() ==> block_matches(#[trigger] blocks@[i], bs[i]),
    ensures
        match r {
            Some(i) => i < bs.len() && first_typed_from(bs, target@, 0) == i,
            None => first_typed_from(bs, target@, 0) == -1,
        },
{
    let mut i: usize = 0;
    while i < blocks.len()
        invariant
            i <= blocks@.len(),
            blocks@.len() == bs.len(),
            forall|k: int| 0 <= k < bs.len() ==> block_matches(#[trigger] blocks@[k], bs[k]),
            first_typed_from(bs, target@, 0) == first_typed_from(bs, target@, i as int),
        decreases blocks@.len() - i,
    {
        assert(block_matches(blocks@[i as int], bs[i as int]));
        if is_type_match(blocks[i].type_str.as_str(), target) {
            return Some(i);
        }
        i += 1;
    }
    None
}

pub struct PremiseOption {
    pub id: String,
    pub title: String,
    pub protagonist: String,
    pub want: String,
    pub obstacle: String,
    pub logline: String,
    pub opening_hook: Option<String>,
}

pub struct Step1 {
    pub branch: String,
    pub options: Vec<PremiseOption>,
    pub guidance: Option<String>,
}

/// The id a block gets in a list: its own, or `prefix` and its 1-based position.
pub open spec fn listed_id(v: BlockV, prefix: Seq<char>, i: int) -> Seq<char> {
    if v.id.len() == 0 {
        prefix + crate::text::decimal((i + 1) as nat)
    } else {
        v.id
    }
}

pub open spec fn premise_matches(o: PremiseOption, v: BlockV, i: int) -> bool {
    &&& o.id@ == listed_id(v, seq!['p'], i)
    &&& o.title@ == or_empty(block_field(v, seq!["title"@, "\u{6807}\u{9898}"@]))
    &&& o.protagonist@ == or_empty(block_field(v, seq!["protagonist"@, "\u{4e3b}\u{89d2}"@]))
    &&& o.want@ == or_empty(block_field(v, seq!["want"@, "\u{6b32}\u{671b}"@, "\u{9700}\u{6c42}"@]))
    &&& o.obstacle@ == or_empty(block_field(v, seq!["obstacle"@, "\u{963b}\u{788d}"@]))
    &&& o.logline@ == or_empty(block_field(v, seq!["logline"@, "\u{4e00}\u{53e5}\u{8bdd}"@]))
    &&& opt_view(o.opening_hook) == block_field(v, seq!["openingHook"@])
}

fn listed_id_exec(b: &Block, prefix: &str, i: usize, Ghost(v): Ghost<BlockV>) -> (r: String)
    requires
        block_matches(*b, v),
        i < usize::MAX,
    ensures
        r@ == listed_id(v, prefix@, i as int),
{
    if b.id.as_str().is_empty() {
        crate::text::prefixed_number(prefix, i + 1)
    } else {
        b.id.clone()
    }
}

/// What step 1 gives for a text.
pub open spec fn step1_spec(r: Step1, md: Seq<char>) -> bool {
    ({
        let bs = spec_typed_blocks(md);
        let meta = first_typed(bs, "META"@);
        let ps = typed(bs, "PREMISE"@);
        &&& r.branch@ == (match meta {
            Some(m) => or_empty(block_field(m, seq!["branch"@, "\u{5206}\u{652f}"@])),
            None => Seq::empty(),
        })
        &&& opt_view(r.guidance) == (match meta {
            Some(m) => block_field(m, seq!["guidance"@, "\u{5f15}\u{5bfc}"@]),
            None => None,
        })
        &&& r.options@.len() == ps.len()
        &&& forall|i: int| 0 <= i < ps.len() ==> premise_matches(#[trigger] r.options@[i], ps[i], i)
    })
}

/// Step 1: the branch and guidance of the META block, and one premise option
/// per PREMISE block.
pub fn parse_step1(md: &str) -> (r: Step1)
    ensures
        step1_spec(r, md@),
{
    let blocks = parse_typed_blocks(md);
    let ghost bs = spec_typed_blocks(md@);
    let meta = find_typed(&blocks, "META", Ghost(bs));
    let (branch, guidance) = match meta {
        Some(m) => {
            proof {
                lemma_block_lookup(blocks@[m as int], bs[m as int]);
            }
            let b = field_of(&blocks[m], vec!["branch", "\u{5206}\u{652f}"]);
            let g = field_of(&blocks[m], vec!["guidance", "\u{5f15}\u{5bfc}"]);
            assert(keys_view(seq!["branch", "\u{5206}\u{652f}"]) =~= seq!["branch"@, "\u{5206}\u{652f}"@]);
            assert(keys_view(seq!["guidance", "\u{5f15}\u{5bfc}"]) =~= seq!["guidance"@, "\u{5f15}\u{5bfc}"@]);
            (match b { Some(x) => x, None => String::new() }, g)
        },
        None => (String::new(), None),
    };
    let ghost pred = |b: BlockV| type_matches(b.type_str, "PREMISE"@);
    let mut options: Vec<PremiseOption> = Vec::new();
    let mut k: usize = 0;
    while k < blocks.len()
        invariant
            k <= blocks@.len(),
            blocks@.len() == bs.len(),
            bs == spec_typed_blocks(md@),
            pred == (|b: BlockV| type_matches(b.type_str, "PREMISE"@)),
            forall|i: int| 0 <= i < bs.len() ==> block_matches(#[trigger] blocks@[i], bs[i]),
            options@.len() == bs.take(k as int).filter(pred).len(),
            options@.len() <= k,
            forall|i: int| 0 <= i < options@.len() ==> premise_matches(#[trigger] options@[i], bs.take(k as int).filter(pred)[i], i),
        decreases blocks@.len() - k,
    {
        proof {
            reveal_with_fuel(Seq::filter, 1);
            assert(bs.take(k + 1).drop_last() =~= bs.take(k as int));
            assert(bs.take(k + 1).last() == bs[k as int]);
        }
        let b = &blocks[k];
        let ghost v = bs[k as int];
        assert(block_matches(*b, v));
        if is_type_match(b.type_str.as_str(), "PREMISE") {
            proof {
                lemma_block_lookup(*b, v);
            }
            let i = options.len();
            let id = listed_id_exec(b, "p", i, Ghost(v));
            proof {
                reveal_strlit("p");
            }
            assert("p"@ =~= seq!['p']);
            let title = field_of(b, vec!["title", "\u{6807}\u{9898}"]);
            let protagonist = field_of(b, vec!["protagonist", "\u{4e3b}\u{89d2}"]);
            let want = field_of(b, vec!["want", "\u{6b32}\u{671b}", "\u{9700}\u{6c42}"]);
            let obstacle = field_of(b, vec!["obstacle", "\u{963b}\u{788d}"]);
            let logline = field_of(b, vec!["logline", "\u{4e00}\u{53e5}\u{8bdd}"]);
            let hk = vec!["openingHook"];
            assert(hk@ == seq!["openingHook"]);
            let opening_hook = field_of(b, hk);
            assert(keys_view(seq!["title", "\u{6807}\u{9898}"]) =~= seq!["title"@, "\u{6807}\u{9898}"@]);
            assert(keys_view(seq!["protagonist", "\u{4e3b}\u{89d2}"]) =~= seq!["protagonist"@, "\u{4e3b}\u{89d2}"@]);
            assert(keys_view(seq!["want", "\u{6b32}\u{671b}", "\u{9700}\u{6c42}"]) =~= seq!["want"@, "\u{6b32}\u{671b}"@, "\u{9700}\u{6c42}"@]);
            assert(keys_view(seq!["obstacle", "\u{963b}\u{788d}"]) =~= seq!["obstacle"@, "\u{963b}\u{788d}"@]);
            assert(keys_view(seq!["logline", "\u{4e00}\u{53e5}\u{8bdd}"]) =~= seq!["logline"@, "\u{4e00}\u{53e5}\u{8bdd}"@]);
            assert(keys_view(seq!["openingHook"]) =~= seq!["openingHook"@]);
            assert(seq!["openingHook"@].drop_first() =~= Seq::<Seq<char>>::empty());
            let opt = PremiseOption {
                id,
                title: match title { Some(x) => x, None => String::new() },
                protagonist: match protagonist { Some(x) => x, None => String::new() },
                want: match want { Some(x) => x, None => String::new() },
                obstacle: match obstacle { Some(x) => x, None => String::new() },
                logline: match logline { Some(x) => x, None => String::new() },
                opening_hook,
            };
            assert(opt_view(opt.opening_hook) == block_field(v, seq!["openingHook"@]));
            assert(premise_matches(opt, v, i as int));
            options.push(opt);
        }
        k += 1;
    }
    assert(bs.take(k as int) =~= bs);
    Step1 { branch, options, guidance }
}


/// The text of the first of `keys` that the block gives a value, or empty.
pub open spec fn fv(v: BlockV, keys: Seq<&str>) -> Seq<char> {
    or_empty(block_field(v, keys_view(keys)))
}

/// The value of the first of `keys` that the block gives a value.
pub open spec fn fo(v: BlockV, keys: Seq<&str>) -> Option<Seq<char>> {
    block_field(v, keys_view(keys))
}

fn text_field(b: &Block, keys: Vec<&str>, Ghost(v): Ghost<BlockV>) -> (r: String)
    requires
        block_matches(*b, v),
    ensures
        r@ == fv(v, keys@),
{
    proof {
        lemma_block_lookup(*b, v);
    }
    match field_of(b, keys) {
        Some(x) => x,
        None => String::new(),
    }
}

fn opt_field(b: &Block, keys: Vec<&str>, Ghost(v): Ghost<BlockV>) -> (r: Option<String>)
    requires
        block_matches(*b, v),
    ensures
        opt_view(r) == fo(v, keys@),
{
    proof {
        lemma_block_lookup(*b, v);
    }
    field_of(b, keys)
}

pub struct Step2 {
    pub text: String,
    pub char_count: usize,
    pub tone: String,
}

/// What step 2 gives for a text.
pub open spec fn step2_spec(r: Step2, md: Seq<char>) -> bool {
    ({
        let s = first_typed(spec_typed_blocks(md), "SYNOPSIS"@);
        &&& r.text@ == (match s {
            Some(b) => if b.body.len() > 0 { b.body } else { fv(b, seq!["text"]) },
            None => Seq::empty(),
        })
        &&& r.char_count == r.text@.len()
        &&& r.tone@ == (match s {
            Some(b) => fv(b, seq!["tone", "\u{57fa}\u{8c03}"]),
            None => Seq::empty(),
        })
    })
}

/// Step 2: the synopsis text (the SYNOPSIS block's body, else its `text`
/// field), its length in chars, and its tone.
pub fn parse_step2(md: &str) -> (r: Step2)
    ensures
        step2_spec(r, md@),
{
    let blocks = parse_typed_blocks(md);
    let ghost bs = spec_typed_blocks(md@);
    let found = find_typed(&blocks, "SYNOPSIS", Ghost(bs));
    match found {
        Some(m) => {
            let b = &blocks[m];
            let ghost v = bs[m as int];
            assert(block_matches(*b, v));
            let text = if !b.body.as_str().is_empty() {
                b.body.clone()
            } else {
                let k = vec!["text"];
                assert(k@ == seq!["text"]);
                text_field(b, k, Ghost(v))
            };
            let tone = text_field(b, vec!["tone", "\u{57fa}\u{8c03}"], Ghost(v));
            let n = chars_of(text.as_str()).len();
            Step2 { text, char_count: n, tone }
        },
        None => Step2 { text: String::new(), char_count: 0, tone: String::new() },
    }
}

pub struct Step4 {
    pub era: String,
    pub protagonist_ghost: String,
    pub relation_past: String,
    pub cross_section: String,
}

/// The fields of the first block of a type (none when there is none).
pub open spec fn kv_of(b: Option<BlockV>) -> Seq<Seq<char>> {
    match b {
        Some(v) => v.kv,
        None => Seq::empty(),
    }
}

/// `fv` over the fields of an optional block.
pub open spec fn kv_text(kv: Seq<Seq<char>>, keys: Seq<&str>) -> Seq<char> {
    or_empty(pick_field(kv_lookup(kv), keys_view(keys)))
}

fn kv_text_field(b: Option<&Block>, keys: Vec<&str>, Ghost(v): Ghost<Option<BlockV>>) -> (r: String)
    requires
        b is Some <==> v is Some,
        b is Some ==> block_matches(*b->0, v->0),
    ensures
        r@ == kv_text(kv_of(v), keys@),
{
    match b {
        Some(x) => {
            let r = text_field(x, keys, Ghost(v->0));
            r
        },
        None => {
            let ghost ks = keys_view(keys@);
            assert forall|k: Seq<char>| #[trigger] kv_lookup(Seq::empty())(k) is None by {}
            proof {
                lemma_pick_none(kv_lookup(Seq::<Seq<char>>::empty()), ks);
            }
            String::new()
        },
    }
}

proof fn lemma_pick_none(f: spec_fn(Seq<char>) -> Option<Seq<char>>, keys: Seq<Seq<char>>)
    requires
        forall|k: Seq<char>| #[trigger] f(k) is None,
    ensures
        pick_field(f, keys) is None,
    decreases keys.len(),
{
    if keys.len() > 0 {
        assert(f(keys[0]) is None);
        lemma_pick_none(f, keys.drop_first());
    }
}

/// What step 4 gives for a text.
pub open spec fn step4_spec(r: Step4, md: Seq<char>) -> bool {
    ({
        let kv = kv_of(first_typed(spec_typed_blocks(md), "BACKSTORY"@));
        &&& r.era@ == kv_text(kv, seq!["era", "\u{65f6}\u{4ee3}"])
        &&& r.protagonist_ghost@ == kv_text(kv, seq!["protagonistGhost", "\u{4e3b}\u{89d2}\u{524d}\u{53f2}"])
        &&& r.relation_past@ == kv_text(kv, seq!["relationPast", "\u{5173}\u{7cfb}\u{65e2}\u{5f80}"])
        &&& r.cross_section@ == kv_text(kv, seq!["crossSection", "\u{6a2a}\u{622a}\u{9762}"])
    })
}

/// Step 4: the four backstory fields of the BACKSTORY block.
pub fn parse_step4(md: &str) -> (r: Step4)
    ensures
        step4_spec(r, md@),
{
    let blocks = parse_typed_blocks(md);
    let ghost bs = spec_typed_blocks(md@);
    let found = find_typed(&blocks, "BACKSTORY", Ghost(bs));
    let ghost fv_: Option<BlockV> = first_typed(bs, "BACKSTORY"@);
    let b: Option<&Block> = match found {
        Some(m) => {
            assert(block_matches(blocks@[m as int], bs[m as int]));
            Some(&blocks[m])
        },
        None => None,
    };
    let era = kv_text_field(b, vec!["era", "\u{65f6}\u{4ee3}"], Ghost(fv_));
    let pg = kv_text_field(b, vec!["protagonistGhost", "\u{4e3b}\u{89d2}\u{524d}\u{53f2}"], Ghost(fv_));
    let rp = kv_text_field(b, vec!["relationPast", "\u{5173}\u{7cfb}\u{65e2}\u{5f80}"], Ghost(fv_));
    let cs = kv_text_field(b, vec!["crossSection", "\u{6a2a}\u{622a}\u{9762}"], Ghost(fv_));
    Step4 { era, protagonist_ghost: pg, relation_past: rp, cross_section: cs }
}


pub struct Linguistics {
    pub freq_words: Vec<String>,
    pub catchphrase: String,
    pub gesture: String,
}

pub struct Character {
    pub id: String,
    pub name: String,
    pub role: String,
    pub want: String,
    pub need: String,
    pub arc: String,
    pub bio_key: String,
    pub contradiction: String,
    pub linguistics: Linguistics,
}

pub struct Step3 {
    pub characters: Vec<Character>,
}

/// A role is kept when it is `主角`, `配角` or `反派`; otherwise `配角`.
pub open spec fn spec_role(raw: Seq<char>) -> Seq<char> {
    if raw == "\u{4e3b}\u{89d2}"@ || raw == "\u{914d}\u{89d2}"@ || raw == "\u{53cd}\u{6d3e}"@ {
        raw
    } else {
        "\u{914d}\u{89d2}"@
    }
}

/// The catchwords of a character: the list in its body, else the
/// comma-separated `freqWords` field.
pub open spec fn spec_freq_words(v: BlockV) -> Seq<Seq<char>> {
    if v.body.len() > 0 {
        spec_list(v.body)
    } else {
        spec_csv(fv(v, seq!["freqWords", "\u{53e3}\u{5934}\u{7985}"]))
    }
}

pub open spec fn character_matches(c: Character, v: BlockV, i: int) -> bool {
    &&& c.id@ == listed_id(v, seq!['c'], i)
    &&& c.name@ == fv(v, seq!["name", "\u{59d3}\u{540d}"])
    &&& c.role@ == spec_role(fv(v, seq!["role", "\u{89d2}\u{8272}"]))
    &&& c.want@ == fv(v, seq!["want", "\u{60f3}\u{8981}"])
    &&& c.need@ == fv(v, seq!["need", "\u{771f}\u{6b63}\u{9700}\u{8981}"])
    &&& c.arc@ == fv(v, seq!["arc", "\u{5f27}\u{5149}"])
    &&& c.bio_key@ == fv(v, seq!["bioKey", "\u{80cc}\u{666f}\u{5173}\u{952e}"])
    &&& c.contradiction@ == fv(v, seq!["contradiction", "\u{5185}\u{5728}\u{77db}\u{76fe}"])
    &&& strings_view(c.linguistics.freq_words@) == spec_freq_words(v)
    &&& c.linguistics.catchphrase@ == fv(v, seq!["catchphrase", "\u{6807}\u{5fd7}\u{6027}\u{53e3}\u{5934}\u{7985}"])
    &&& c.linguistics.gesture@ == fv(v, seq!["gesture", "\u{6807}\u{5fd7}\u{6027}\u{52a8}\u{4f5c}"])
}

fn role_of(raw: String) -> (r: String)
    ensures
        r@ == spec_role(raw@),
{
    if str_eq(raw.as_str(), "\u{4e3b}\u{89d2}") || str_eq(raw.as_str(), "\u{914d}\u{89d2}") || str_eq(raw.as_str(), "\u{53cd}\u{6d3e}") {
        raw
    } else {
        "\u{914d}\u{89d2}".to_string()
    }
}

fn character_of(b: &Block, i: usize, Ghost(v): Ghost<BlockV>) -> (r: Character)
    requires
        block_matches(*b, v),
        i < usize::MAX,
    ensures
        character_matches(r, v, i as int),
{
    let id = listed_id_exec(b, "c", i, Ghost(v));
    proof {
        reveal_strlit("c");
    }
    assert("c"@ =~= seq!['c']);
    let freq_words = if !b.body.as_str().is_empty() {
        parse_list(b.body.as_str())
    } else {
        let raw = text_field(b, vec!["freqWords", "\u{53e3}\u{5934}\u{7985}"], Ghost(v));
        parse_csv(raw.as_str())
    };
    let role = role_of(text_field(b, vec!["role", "\u{89d2}\u{8272}"], Ghost(v)));
    Character {
        id,
        name: text_field(b, vec!["name", "\u{59d3}\u{540d}"], Ghost(v)),
        role,
        want: text_field(b, vec!["want", "\u{60f3}\u{8981}"], Ghost(v)),
        need: text_field(b, vec!["need", "\u{771f}\u{6b63}\u{9700}\u{8981}"], Ghost(v)),
        arc: text_field(b, vec!["arc", "\u{5f27}\u{5149}"], Ghost(v)),
        bio_key: text_field(b, vec!["bioKey", "\u{80cc}\u{666f}\u{5173}\u{952e}"], Ghost(v)),
        contradiction: text_field(b, vec!["contradiction", "\u{5185}\u{5728}\u{77db}\u{76fe}"], Ghost(v)),
        linguistics: Linguistics {
            freq_words,
            catchphrase: text_field(b, vec!["catchphrase", "\u{6807}\u{5fd7}\u{6027}\u{53e3}\u{5934}\u{7985}"], Ghost(v)),
            gesture: text_field(b, vec!["gesture", "\u{6807}\u{5fd7}\u{6027}\u{52a8}\u{4f5c}"], Ghost(v)),
        },
    }
}

/// What step 3 gives for a text.
pub open spec fn step3_spec(r: Step3, md: Seq<char>) -> bool {
    ({
        let cs = typed(spec_typed_blocks(md), "CHARACTER"@);
        &&& r.characters@.len() == cs.len()
        &&& forall|i: int| 0 <= i < cs.len() ==> character_matches(#[trigger] r.characters@[i], cs[i], i)
    })
}

/// Step 3: one character per CHARACTER block.
pub fn parse_step3(md: &str) -> (r: Step3)
    ensures
        step3_spec(r, md@),
{
    let blocks = parse_typed_blocks(md);
    let ghost bs = spec_typed_blocks(md@);
    let ghost pred = |b: BlockV| type_matches(b.type_str, "CHARACTER"@);
    let mut out: Vec<Character> = Vec::new();
    let mut k: usize = 0;
    while k < blocks.len()
        invariant
            k <= blocks@.len(),
            blocks@.len() == bs.len(),
            bs == spec_typed_blocks(md@),
            pred == (|b: BlockV| type_matches(b.type_str, "CHARACTER"@)),
            forall|i: int| 0 <= i < bs.len() ==> block_matches(#[trigger] blocks@[i], bs[i]),
            out@.len() == bs.take(k as int).filter(pred).len(),
            out@.len() <= k,
            forall|i: int| 0 <= i < out@.len() ==> character_matches(#[trigger] out@[i], bs.take(k as int).filter(pred)[i], i),
        decreases blocks@.len() - k,
    {
        proof {
            reveal_with_fuel(Seq::filter, 1);
            assert(bs.take(k + 1).drop_last() =~= bs.take(k as int));
            assert(bs.take(k + 1).last() == bs[k as int]);
        }
        let b = &blocks[k];
        let ghost v = bs[k as int];
        assert(block_matches(*b, v));
        if is_type_match(b.type_str.as_str(), "CHARACTER") {
            let i = out.len();
            proof {
                crate::blocks::lemma_filter_prefix(bs, pred, k + 1);
                assert(bs.take(k + 1).filter(pred) == bs.take(k as int).filter(pred).push(v));
                assert(typed(bs, "CHARACTER"@) == bs.filter(pred));
                assert(bs.take(k + 1).filter(pred)[i as int] == v);
                assert(typed(bs, "CHARACTER"@)[i as int] == v);
            }
            let c = character_of(b, i, Ghost(v));
            out.push(c);
        }
        k += 1;
    }
    assert(bs.take(k as int) =~= bs);
    Step3 { characters: out }
}


/// The block of an act: its type is `ACTn` (any case), or `ACT` with id `n`,
/// or holds `第n幕` (`n` in Chinese numerals).
pub open spec fn act_match(v: BlockV, act: Seq<char>, num: Seq<char>, cn: Seq<char>) -> bool {
    str_upper(v.type_str) == act || (str_upper(v.type_str) == "ACT"@ && v.id == num)
        || crate::text::has_sub(v.type_str, cn)
}

pub open spec fn first_act_from(bs: Seq<BlockV>, act: Seq<char>, num: Seq<char>, cn: Seq<char>, i: int) -> int
    decreases bs.len() - i,
{
    if i < 0 || i >= bs.len() {
        -1
    } else if act_match(bs[i], act, num, cn) {
        i
    } else {
        first_act_from(bs, act, num, cn, i + 1)
    }
}

/// The first block of an act.
pub open spec fn first_act(bs: Seq<BlockV>, act: Seq<char>, num: Seq<char>, cn: Seq<char>) -> Option<BlockV> {
    let i = first_act_from(bs, act, num, cn, 0);
    if 0 <= i < bs.len() {
        Some(bs[i])
    } else {
        None
    }
}

fn find_act<'a>(blocks: &'a Vec<Block>, act: &str, num: &str, cn: &str, Ghost(bs): Ghost<Seq<BlockV>>) -> (r: Option<&'a Block>)
    requires
        blocks@.len() == bs.len(),
        forall|i: int| 0 <= i < bs.len() ==> block_matches(#[trigger] blocks@[i], bs[i]),
    ensures
        r is Some <==> first_act(bs, act@, num@, cn@) is Some,
        r is Some ==> block_matches(*r->0, first_act(bs, act@, num@, cn@)->0),
{
    let mut i: usize = 0;
    while i < blocks.len()
        invariant
            i <= blocks@.len(),
            blocks@.len() == bs.len(),
            forall|k: int| 0 <= k < bs.len() ==> block_matches(#[trigger] blocks@[k], bs[k]),
            first_act_from(bs, act@, num@, cn@, 0) == first_act_from(bs, act@, num@, cn@, i as int),
        decreases blocks@.len() - i,
    {
        let b = &blocks[i];
        assert(block_matches(*b, bs[i as int]));
        let t = to_uppercase(b.type_str.as_str());
        proof {
            reveal_strlit("ACT");
        }
        if str_eq(t.as_str(), act) || (str_eq(t.as_str(), "ACT") && str_eq(b.id.as_str(), num))
            || crate::text::contains_str(b.type_str.as_str(), cn) {
            return Some(b);
        }
        i += 1;
    }
    None
}

pub struct Act1 {
    pub hook: String,
    pub setup: String,
    pub inciting_incident: String,
}

pub struct Act2 {
    pub rise1: String,
    pub rise2: String,
    pub midpoint: String,
}

pub struct Act3 {
    pub climax: String,
    pub turnaround: String,
}

pub struct Act4 {
    pub new_normal: String,
}

pub struct Step5 {
    pub act1: Act1,
    pub act2: Act2,
    pub act3: Act3,
    pub act4: Act4,
}

/// What step 5 gives for a text.
pub open spec fn step5_spec(r: Step5, md: Seq<char>) -> bool {
    ({
        let bs = spec_typed_blocks(md);
        let a1 = kv_of(first_act(bs, "ACT1"@, "1"@, "\u{7b2c}\u{4e00}\u{5e55}"@));
        let a2 = kv_of(first_act(bs, "ACT2"@, "2"@, "\u{7b2c}\u{4e8c}\u{5e55}"@));
        let a3 = kv_of(first_act(bs, "ACT3"@, "3"@, "\u{7b2c}\u{4e09}\u{5e55}"@));
        let a4 = kv_of(first_act(bs, "ACT4"@, "4"@, "\u{7b2c}\u{56db}\u{5e55}"@));
        &&& r.act1.hook@ == kv_text(a1, seq!["hook", "\u{5f00}\u{573a}\u{94a9}\u{5b50}"])
        &&& r.act1.setup@ == kv_text(a1, seq!["setup", "\u{5efa}\u{7f6e}"])
        &&& r.act1.inciting_incident@ == kv_text(a1, seq!["incitingIncident", "\u{6fc0}\u{52b1}\u{4e8b}\u{4ef6}"])
        &&& r.act2.rise1@ == kv_text(a2, seq!["rise1", "\u{51b2}\u{7a81}\u{5347}\u{7ea7}1"])
        &&& r.act2.rise2@ == kv_text(a2, seq!["rise2", "\u{51b2}\u{7a81}\u{5347}\u{7ea7}2"])
        &&& r.act2.midpoint@ == kv_text(a2, seq!["midpoint", "\u{4e2d}\u{70b9}"])
        &&& r.act3.climax@ == kv_text(a3, seq!["climax", "\u{6700}\u{7ec8}\u{5bf9}\u{51b3}"])
        &&& r.act3.turnaround@ == kv_text(a3, seq!["turnaround", "\u{5173}\u{952e}\u{53cd}\u{8f6c}"])
        &&& r.act4.new_normal@ == kv_text(a4, seq!["newNormal", "\u{65b0}\u{5e38}\u{6001}"])
    })
}

/// Step 5: the beats of the four acts.
pub fn parse_step5(md: &str) -> (r: Step5)
    ensures
        step5_spec(r, md@),
{
    let blocks = parse_typed_blocks(md);
    let ghost bs = spec_typed_blocks(md@);
    let b1 = find_act(&blocks, "ACT1", "1", "\u{7b2c}\u{4e00}\u{5e55}", Ghost(bs));
    let b2 = find_act(&blocks, "ACT2", "2", "\u{7b2c}\u{4e8c}\u{5e55}", Ghost(bs));
    let b3 = find_act(&blocks, "ACT3", "3", "\u{7b2c}\u{4e09}\u{5e55}", Ghost(bs));
    let b4 = find_act(&blocks, "ACT4", "4", "\u{7b2c}\u{56db}\u{5e55}", Ghost(bs));
    let ghost g1 = first_act(bs, "ACT1"@, "1"@, "\u{7b2c}\u{4e00}\u{5e55}"@);
    let ghost g2 = first_act(bs, "ACT2"@, "2"@, "\u{7b2c}\u{4e8c}\u{5e55}"@);
    let ghost g3 = first_act(bs, "ACT3"@, "3"@, "\u{7b2c}\u{4e09}\u{5e55}"@);
    let ghost g4 = first_act(bs, "ACT4"@, "4"@, "\u{7b2c}\u{56db}\u{5e55}"@);
    let act1 = Act1 {
        hook: kv_text_field(b1, vec!["hook", "\u{5f00}\u{573a}\u{94a9}\u{5b50}"], Ghost(g1)),
        setup: kv_text_field(b1, vec!["setup", "\u{5efa}\u{7f6e}"], Ghost(g1)),
        inciting_incident: kv_text_field(b1, vec!["incitingIncident", "\u{6fc0}\u{52b1}\u{4e8b}\u{4ef6}"], Ghost(g1)),
    };
    let act2 = Act2 {
        rise1: kv_text_field(b2, vec!["rise1", "\u{51b2}\u{7a81}\u{5347}\u{7ea7}1"], Ghost(g2)),
        rise2: kv_text_field(b2, vec!["rise2", "\u{51b2}\u{7a81}\u{5347}\u{7ea7}2"], Ghost(g2)),
        midpoint: kv_text_field(b2, vec!["midpoint", "\u{4e2d}\u{70b9}"], Ghost(g2)),
    };
    let act3 = Act3 {
        climax: kv_text_field(b3, vec!["climax", "\u{6700}\u{7ec8}\u{5bf9}\u{51b3}"], Ghost(g3)),
        turnaround: kv_text_field(b3, vec!["turnaround", "\u{5173}\u{952e}\u{53cd}\u{8f6c}"], Ghost(g3)),
    };
    let k4 = vec!["newNormal", "\u{65b0}\u{5e38}\u{6001}"];
    let act4 = Act4 { new_normal: kv_text_field(b4, k4, Ghost(g4)) };
    Step5 { act1, act2, act3, act4 }
}


/// The ASCII digits of a text, in order.
pub open spec fn digits_of(s: Seq<char>) -> Seq<char> {
    s.filter(|c: char| crate::text::is_digit(c))
}

fn digits_only(s: &str) -> (r: Vec<char>)
    ensures
        r@ == digits_of(s@),
{
    let c = chars_of(s);
    let ghost pred = |c: char| crate::text::is_digit(c);
    let mut out: Vec<char> = Vec::new();
    let mut k: usize = 0;
    while k < c.len()
        invariant
            k <= c@.len(),
            c@ == s@,
            pred == (|c: char| crate::text::is_digit(c)),
            out@ == c@.take(k as int).filter(pred),
        decreases c@.len() - k,
    {
        proof {
            reveal_with_fuel(Seq::filter, 1);
            assert(c@.take(k + 1).drop_last() =~= c@.take(k as int));
        }
        if c[k] >= '0' && c[k] <= '9' {
            out.push(c[k]);
        }
        k += 1;
    }
    assert(c@.take(k as int) =~= c@);
    out
}

/// The number of a scene: the digits of its id read as a `u32`, else its
/// 1-based position.
pub open spec fn scene_number(v: BlockV, i: int) -> int {
    match spec_parse_u32(digits_of(v.id)) {
        Some(n) => n,
        None => ((i + 1) as u32) as int,
    }
}

fn scene_number_exec(b: &Block, i: usize, Ghost(v): Ghost<BlockV>) -> (r: u32)
    requires
        block_matches(*b, v),
        i < usize::MAX,
    ensures
        r == scene_number(v, i as int),
{
    let d = digits_only(b.id.as_str());
    match parse_u32(&d) {
        Some(n) => n,
        None => (i + 1) as u32,
    }
}

/// The scene blocks, in order.
pub open spec fn scene_blocks(bs: Seq<BlockV>) -> Seq<BlockV> {
    bs.filter(|b: BlockV| scene_type(b.type_str))
}

pub struct SceneOutline {
    pub id: String,
    pub index: u32,
    pub title: String,
    pub location_time: String,
    pub duration_sec: u32,
    pub plot_rhythm: String,
    pub emotion_rhythm: String,
    pub core_action: String,
}

pub struct Step6 {
    pub scenes: Vec<SceneOutline>,
}

pub open spec fn parsed_or(s: Seq<char>, fallback: int) -> int {
    match spec_parse_u32(s) {
        Some(n) => n,
        None => fallback,
    }
}

pub open spec fn rhythm_or_mid(x: Seq<char>) -> Seq<char> {
    if rhythm_ok(x) { x } else { "\u{4e2d}"@ }
}

pub open spec fn emotion_or_mid(x: Seq<char>) -> Seq<char> {
    if emotion_ok(x) { x } else { "\u{4e2d}"@ }
}

pub open spec fn outline_matches(o: SceneOutline, v: BlockV, i: int) -> bool {
    &&& o.id@ == (match fo(v, seq!["id"]) {
        Some(x) => x,
        None => seq!['s'] + crate::text::decimal(scene_number(v, i) as nat),
    })
    &&& o.index == scene_number(v, i)
    &&& o.title@ == fv(v, seq!["title", "\u{6807}\u{9898}"])
    &&& o.location_time@ == fv(v, seq!["locationTime", "\u{5730}\u{70b9}\u{65f6}\u{95f4}"])
    &&& o.duration_sec == parsed_or(fv(v, seq!["durationSec", "\u{65f6}\u{957f}\u{79d2}"]), 0)
    &&& o.plot_rhythm@ == rhythm_or_mid(fv(v, seq!["plotRhythm", "\u{60c5}\u{8282}\u{8282}\u{594f}"]))
    &&& o.emotion_rhythm@ == emotion_or_mid(fv(v, seq!["emotionRhythm", "\u{60c5}\u{611f}\u{8282}\u{594f}"]))
    &&& o.core_action@ == fv(v, seq!["coreAction", "\u{6838}\u{5fc3}\u{52a8}\u{4f5c}"])
}

fn outline_of(b: &Block, i: usize, Ghost(v): Ghost<BlockV>) -> (r: SceneOutline)
    requires
        block_matches(*b, v),
        i < usize::MAX,
    ensures
        outline_matches(r, v, i as int),
{
    let n = scene_number_exec(b, i, Ghost(v));
    let ik = vec!["id"];
    assert(ik@ == seq!["id"]);
    let id = match opt_field(b, ik, Ghost(v)) {
        Some(x) => x,
        None => {
            proof {
                reveal_strlit("s");
            }
            assert("s"@ =~= seq!['s']);
            crate::text::prefixed_number("s", n as usize)
        },
    };
    let mid = "\u{4e2d}";
    let title = text_field(b, vec!["title", "\u{6807}\u{9898}"], Ghost(v));
    let location_time = text_field(b, vec!["locationTime", "\u{5730}\u{70b9}\u{65f6}\u{95f4}"], Ghost(v));
    let dur = text_field(b, vec!["durationSec", "\u{65f6}\u{957f}\u{79d2}"], Ghost(v));
    let duration_sec = parse_int_safe(dur.as_str(), 0);
    let pr = text_field(b, vec!["plotRhythm", "\u{60c5}\u{8282}\u{8282}\u{594f}"], Ghost(v));
    let plot_rhythm = normalize_rhythm(pr.as_str(), mid);
    let er = text_field(b, vec!["emotionRhythm", "\u{60c5}\u{611f}\u{8282}\u{594f}"], Ghost(v));
    let emotion_rhythm = normalize_emotion(er.as_str(), mid);
    let core_action = text_field(b, vec!["coreAction", "\u{6838}\u{5fc3}\u{52a8}\u{4f5c}"], Ghost(v));
    let r = SceneOutline { id, index: n, title, location_time, duration_sec, plot_rhythm, emotion_rhythm, core_action };
    r
}

/// What step 6 gives for a text.
pub open spec fn step6_spec(r: Step6, md: Seq<char>) -> bool {
    ({
        let ss = scene_blocks(spec_typed_blocks(md));
        &&& r.scenes@.len() == ss.len()
        &&& forall|i: int| 0 <= i < ss.len() ==> outline_matches(#[trigger] r.scenes@[i], ss[i], i)
    })
}

/// Step 6: one scene outline per scene block.
pub fn parse_step6(md: &str) -> (r: Step6)
    ensures
        step6_spec(r, md@),
{
    let blocks = parse_typed_blocks(md);
    let ghost bs = spec_typed_blocks(md@);
    let ghost pred = |b: BlockV| scene_type(b.type_str);
    let mut out: Vec<SceneOutline> = Vec::new();
    let mut k: usize = 0;
    while k < blocks.len()
        invariant
            k <= blocks@.len(),
            blocks@.len() == bs.len(),
            bs == spec_typed_blocks(md@),
            pred == (|b: BlockV| scene_type(b.type_str)),
            forall|i: int| 0 <= i < bs.len() ==> block_matches(#[trigger] blocks@[i], bs[i]),
            out@.len() == bs.take(k as int).filter(pred).len(),
            out@.len() <= k,
            forall|i: int| 0 <= i < out@.len() ==> outline_matches(#[trigger] out@[i], bs.take(k as int).filter(pred)[i], i),
        decreases blocks@.len() - k,
    {
        proof {
            reveal_with_fuel(Seq::filter, 1);
            assert(bs.take(k + 1).drop_last() =~= bs.take(k as int));
            assert(bs.take(k + 1).last() == bs[k as int]);
        }
        let b = &blocks[k];
        let ghost v = bs[k as int];
        assert(block_matches(*b, v));
        if is_scene_block(b.type_str.as_str()) {
            let i = out.len();
            let o = outline_of(b, i, Ghost(v));
            out.push(o);
        }
        k += 1;
    }
    assert(bs.take(k as int) =~= bs);
    Step6 { scenes: out }
}

pub struct SceneDraft {
    pub index: u32,
    pub header: String,
    pub duration: String,
    pub plot_rhythm: String,
    pub emotion_rhythm: String,
    pub body: String,
}

pub struct Step7 {
    pub scenes: Vec<SceneDraft>,
}

pub open spec fn draft_matches(o: SceneDraft, v: BlockV, i: int) -> bool {
    &&& o.index == scene_number(v, i)
    &&& o.header@ == fv(v, seq!["header", "\u{573a}\u{666f}\u{5934}"])
    &&& o.duration@ == fv(v, seq!["duration", "\u{65f6}\u{957f}"])
    &&& o.plot_rhythm@ == rhythm_or_mid(fv(v, seq!["plotRhythm", "\u{60c5}\u{8282}\u{8282}\u{594f}"]))
    &&& o.emotion_rhythm@ == emotion_or_mid(fv(v, seq!["emotionRhythm", "\u{60c5}\u{611f}\u{8282}\u{594f}"]))
    &&& o.body@ == v.body
}

fn draft_of(b: &Block, i: usize, Ghost(v): Ghost<BlockV>) -> (r: SceneDraft)
    requires
        block_matches(*b, v),
        i < usize::MAX,
    ensures
        draft_matches(r, v, i as int),
{
    let mid = "\u{4e2d}";
    SceneDraft {
        index: scene_number_exec(b, i, Ghost(v)),
        header: text_field(b, vec!["header", "\u{573a}\u{666f}\u{5934}"], Ghost(v)),
        duration: text_field(b, vec!["duration", "\u{65f6}\u{957f}"], Ghost(v)),
        plot_rhythm: normalize_rhythm(text_field(b, vec!["plotRhythm", "\u{60c5}\u{8282}\u{8282}\u{594f}"], Ghost(v)).as_str(), mid),
        emotion_rhythm: normalize_emotion(text_field(b, vec!["emotionRhythm", "\u{60c5}\u{611f}\u{8282}\u{594f}"], Ghost(v)).as_str(), mid),
        body: b.body.clone(),
    }
}

/// What step 7 gives for a text.
pub open spec fn step7_spec(r: Step7, md: Seq<char>) -> bool {
    ({
        let ss = scene_blocks(spec_typed_blocks(md));
        &&& r.scenes@.len() == ss.len()
        &&& forall|i: int| 0 <= i < ss.len() ==> draft_matches(#[trigger] r.scenes@[i], ss[i], i)
    })
}

/// Step 7: one scene draft per scene block.
pub fn parse_step7(md: &str) -> (r: Step7)
    ensures
        step7_spec(r, md@),
{
    let blocks = parse_typed_blocks(md);
    let ghost bs = spec_typed_blocks(md@);
    let ghost pred = |b: BlockV| scene_type(b.type_str);
    let mut out: Vec<SceneDraft> = Vec::new();
    let mut k: usize = 0;
    while k < blocks.len()
        invariant
            k <= blocks@.len(),
            blocks@.len() == bs.len(),
            bs == spec_typed_blocks(md@),
            pred == (|b: BlockV| scene_type(b.type_str)),
            forall|i: int| 0 <= i < bs.len() ==> block_matches(#[trigger] blocks@[i], bs[i]),
            out@.len() == bs.take(k as int).filter(pred).len(),
            out@.len() <= k,
            forall|i: int| 0 <= i < out@.len() ==> draft_matches(#[trigger] out@[i], bs.take(k as int).filter(pred)[i], i),
        decreases blocks@.len() - k,
    {
        proof {
            reveal_with_fuel(Seq::filter, 1);
            assert(bs.take(k + 1).drop_last() =~= bs.take(k as int));
            assert(bs.take(k + 1).last() == bs[k as int]);
        }
        let b = &blocks[k];
        let ghost v = bs[k as int];
        assert(block_matches(*b, v));
        if is_scene_block(b.type_str.as_str()) {
            let i = out.len();
            let o = draft_of(b, i, Ghost(v));
            out.push(o);
        }
        k += 1;
    }
    assert(bs.take(k as int) =~= bs);
    Step7 { scenes: out }
}


pub struct Dimension {
    pub name: String,
    pub score: u32,
    pub comment: Option<String>,
}

pub struct Surgery {
    pub id: String,
    pub original: String,
    pub diagnosis: String,
    pub rewrite: String,
}

pub struct Step8 {
    pub total_score: u32,
    pub verdict: String,
    pub dimensions: Vec<Dimension>,
    pub issues: Vec<String>,
    pub surgery: Vec<Surgery>,
    pub revision_path: Vec<String>,
}

pub open spec fn dimension_matches(d: Dimension, v: BlockV, i: int) -> bool {
    &&& d.name@ == fv(v, seq!["name", "\u{7ef4}\u{5ea6}\u{540d}"])
    &&& d.score == parsed_or(fv(v, seq!["score", "\u{5206}\u{6570}"]), 0)
    &&& opt_view(d.comment) == fo(v, seq!["comment", "\u{8bc4}\u{8bed}"])
}

pub open spec fn surgery_matches(d: Surgery, v: BlockV, i: int) -> bool {
    &&& d.id@ == listed_id(v, seq!['s', 'g'], i)
    &&& d.original@ == fv(v, seq!["original", "\u{539f}\u{6587}"])
    &&& d.diagnosis@ == fv(v, seq!["diagnosis", "\u{8bca}\u{65ad}"])
    &&& d.rewrite@ == fv(v, seq!["rewrite", "\u{91cd}\u{5199}"])
}

fn dimension_of(b: &Block, i: usize, Ghost(v): Ghost<BlockV>) -> (r: Dimension)
    requires
        block_matches(*b, v),
    ensures
        dimension_matches(r, v, i as int),
{
    let sc = text_field(b, vec!["score", "\u{5206}\u{6570}"], Ghost(v));
    Dimension {
        name: text_field(b, vec!["name", "\u{7ef4}\u{5ea6}\u{540d}"], Ghost(v)),
        score: parse_int_safe(sc.as_str(), 0),
        comment: opt_field(b, vec!["comment", "\u{8bc4}\u{8bed}"], Ghost(v)),
    }
}

fn surgery_of(b: &Block, i: usize, Ghost(v): Ghost<BlockV>) -> (r: Surgery)
    requires
        block_matches(*b, v),
        i < usize::MAX,
    ensures
        surgery_matches(r, v, i as int),
{
    let id = listed_id_exec(b, "sg", i, Ghost(v));
    proof {
        reveal_strlit("sg");
    }
    assert("sg"@ =~= seq!['s', 'g']);
    Surgery {
        id,
        original: text_field(b, vec!["original", "\u{539f}\u{6587}"], Ghost(v)),
        diagnosis: text_field(b, vec!["diagnosis", "\u{8bca}\u{65ad}"], Ghost(v)),
        rewrite: text_field(b, vec!["rewrite", "\u{91cd}\u{5199}"], Ghost(v)),
    }
}

/// The type of the revision path block.
pub open spec fn revision_type(t: Seq<char>) -> bool {
    type_matches(t, "REVISION_PATH"@) || type_matches(t, "REVISIONPATH"@)
}

pub open spec fn first_revision_from(bs: Seq<BlockV>, i: int) -> int
    decreases bs.len() - i,
{
    if i < 0 || i >= bs.len() {
        -1
    } else if revision_type(bs[i].type_str) {
        i
    } else {
        first_revision_from(bs, i + 1)
    }
}

pub open spec fn first_revision(bs: Seq<BlockV>) -> Option<BlockV> {
    let i = first_revision_from(bs, 0);
    if 0 <= i < bs.len() {
        Some(bs[i])
    } else {
        None
    }
}

fn find_revision<'a>(blocks: &'a Vec<Block>, Ghost(bs): Ghost<Seq<BlockV>>) -> (r: Option<&'a Block>)
    requires
        blocks@.len() == bs.len(),
        forall|i: int| 0 <= i < bs.len() ==> block_matches(#[trigger] blocks@[i], bs[i]),
    ensures
        r is Some <==> first_revision(bs) is Some,
        r is Some ==> block_matches(*r->0, first_revision(bs)->0),
{
    let mut i: usize = 0;
    while i < blocks.len()
        invariant
            i <= blocks@.len(),
            blocks@.len() == bs.len(),
            forall|k: int| 0 <= k < bs.len() ==> block_matches(#[trigger] blocks@[k], bs[k]),
            first_revision_from(bs, 0) == first_revision_from(bs, i as int),
        decreases blocks@.len() - i,
    {
        let b = &blocks[i];
        assert(block_matches(*b, bs[i as int]));
        if is_type_match(b.type_str.as_str(), "REVISION_PATH") || is_type_match(b.type_str.as_str(), "REVISIONPATH") {
            return Some(b);
        }
        i += 1;
    }
    None
}

/// What step 8 gives for a text.
pub open spec fn step8_spec(r: Step8, md: Seq<char>) -> bool {
    ({
        let bs = spec_typed_blocks(md);
        let doctor = first_typed(bs, "DOCTOR"@);
        let ds = typed(bs, "DIMENSION"@);
        let ss = typed(bs, "SURGERY"@);
        &&& r.total_score == (match doctor {
            Some(d) => parsed_or(fv(d, seq!["totalScore", "\u{603b}\u{5206}"]), 0),
            None => 0,
        })
        &&& r.verdict@ == (match doctor {
            Some(d) => fv(d, seq!["verdict", "\u{7ed3}\u{8bba}"]),
            None => Seq::empty(),
        })
        &&& strings_view(r.issues@) == (match doctor {
            Some(d) => spec_list(d.body),
            None => Seq::empty(),
        })
        &&& r.dimensions@.len() == ds.len()
        &&& (forall|i: int| 0 <= i < ds.len() ==> dimension_matches(#[trigger] r.dimensions@[i], ds[i], i))
        &&& r.surgery@.len() == ss.len()
        &&& (forall|i: int| 0 <= i < ss.len() ==> surgery_matches(#[trigger] r.surgery@[i], ss[i], i))
        &&& strings_view(r.revision_path@) == (match first_revision(bs) {
            Some(p) => spec_list(p.body),
            None => Seq::empty(),
        })
    })
}

/// Step 8: the review: total score, verdict and issues of the DOCTOR block,
/// the DIMENSION and SURGERY blocks, and the revision path.
pub fn parse_step8(md: &str) -> (r: Step8)
    ensures
        step8_spec(r, md@),
{
    let blocks = parse_typed_blocks(md);
    let ghost bs = spec_typed_blocks(md@);
    let found = find_typed(&blocks, "DOCTOR", Ghost(bs));
    let (total_score, verdict, issues) = match found {
        Some(m) => {
            let b = &blocks[m];
            let ghost v = bs[m as int];
            assert(block_matches(*b, v));
            let ts = text_field(b, vec!["totalScore", "\u{603b}\u{5206}"], Ghost(v));
            let t = parse_int_safe(ts.as_str(), 0);
            let verdict = text_field(b, vec!["verdict", "\u{7ed3}\u{8bba}"], Ghost(v));
            let issues = parse_list(b.body.as_str());
            (t, verdict, issues)
        },
        None => (0, String::new(), Vec::new()),
    };
    let dimensions = {
        let ghost pred = |b: BlockV| type_matches(b.type_str, "DIMENSION"@);
    let mut out: Vec<Dimension> = Vec::new();
        let mut k: usize = 0;
        while k < blocks.len()
            invariant
                k <= blocks@.len(),
                blocks@.len() == bs.len(),
                bs == spec_typed_blocks(md@),
                pred == (|b: BlockV| type_matches(b.type_str, "DIMENSION"@)),
                forall|i: int| 0 <= i < bs.len() ==> block_matches(#[trigger] blocks@[i], bs[i]),
                out@.len() == bs.take(k as int).filter(pred).len(),
                out@.len() <= k,
                forall|i: int| 0 <= i < out@.len() ==> dimension_matches(#[trigger] out@[i], bs.take(k as int).filter(pred)[i], i),
            decreases blocks@.len() - k,
        {
            proof {
                reveal_with_fuel(Seq::filter, 1);
                assert(bs.take(k + 1).drop_last() =~= bs.take(k as int));
                assert(bs.take(k + 1).last() == bs[k as int]);
            }
            let b = &blocks[k];
            let ghost v = bs[k as int];
            assert(block_matches(*b, v));
            if is_type_match(b.type_str.as_str(), "DIMENSION") {
                let i = out.len();
                let o = dimension_of(b, i, Ghost(v));
                out.push(o);
            }
            k += 1;
        }
        assert(bs.take(k as int) =~= bs);
        out
    };
    let surgery = {
        let ghost pred = |b: BlockV| type_matches(b.type_str, "SURGERY"@);
    let mut out: Vec<Surgery> = Vec::new();
        let mut k: usize = 0;
        while k < blocks.len()
            invariant
                k <= blocks@.len(),
                blocks@.len() == bs.len(),
                bs == spec_typed_blocks(md@),
                pred == (|b: BlockV| type_matches(b.type_str, "SURGERY"@)),
                forall|i: int| 0 <= i < bs.len() ==> block_matches(#[trigger] blocks@[i], bs[i]),
                out@.len() == bs.take(k as int).filter(pred).len(),
                out@.len() <= k,
                forall|i: int| 0 <= i < out@.len() ==> surgery_matches(#[trigger] out@[i], bs.take(k as int).filter(pred)[i], i),
            decreases blocks@.len() - k,
        {
            proof {
                reveal_with_fuel(Seq::filter, 1);
                assert(bs.take(k + 1).drop_last() =~= bs.take(k as int));
                assert(bs.take(k + 1).last() == bs[k as int]);
            }
            let b = &blocks[k];
            let ghost v = bs[k as int];
            assert(block_matches(*b, v));
            if is_type_match(b.type_str.as_str(), "SURGERY") {
                let i = out.len();
                let o = surgery_of(b, i, Ghost(v));
                out.push(o);
            }
            k += 1;
        }
        assert(bs.take(k as int) =~= bs);
        out
    };
    let rp = find_revision(&blocks, Ghost(bs));
    let revision_path = match rp {
        Some(b) => parse_list(b.body.as_str()),
        None => Vec::new(),
    };
    let r = Step8 { total_score, verdict, dimensions, issues, surgery, revision_path };
    let ghost doctor = first_typed(bs, "DOCTOR"@);
    assert(r.total_score == (match doctor {
        Some(d) => parsed_or(fv(d, seq!["totalScore", "\u{603b}\u{5206}"]), 0),
        None => 0,
    }));
    assert(r.verdict@ == (match doctor {
        Some(d) => fv(d, seq!["verdict", "\u{7ed3}\u{8bba}"]),
        None => Seq::empty(),
    }));
    assert(strings_view(r.issues@) == (match doctor {
        Some(d) => spec_list(d.body),
        None => Seq::empty(),
    }));
    assert(strings_view(r.revision_path@) == (match first_revision(bs) {
        Some(p) => spec_list(p.body),
        None => Seq::empty(),
    }));
    assert(forall|i: int| 0 <= i < typed(bs, "DIMENSION"@).len() ==> dimension_matches(#[trigger] r.dimensions@[i], typed(bs, "DIMENSION"@)[i], i));
    assert(forall|i: int| 0 <= i < typed(bs, "SURGERY"@).len() ==> surgery_matches(#[trigger] r.surgery@[i], typed(bs, "SURGERY"@)[i], i));
    r
}

pub struct CheckItem {
    pub id: String,
    pub label: String,
    pub status: String,
    pub issue: Option<String>,
    pub suggestion: Option<String>,
}

/// A check block: type `CHECK` or `检查点` (either in any case).
pub open spec fn check_type(t: Seq<char>) -> bool {
    type_matches(t, "CHECK"@) || type_matches(t, "\u{68c0}\u{67e5}\u{70b9}"@)
}

/// A status is `pass`, `warn` or `fail` in lower case; anything else reads `pass`.
pub open spec fn spec_status(raw: Seq<char>) -> Seq<char> {
    let l = str_lower(raw);
    if l == "pass"@ || l == "warn"@ || l == "fail"@ {
        l
    } else {
        "pass"@
    }
}

pub open spec fn check_matches(c: CheckItem, v: BlockV, i: int) -> bool {
    &&& c.id@ == listed_id(v, Seq::empty(), i)
    &&& c.label@ == fv(v, seq!["label", "\u{68c0}\u{67e5}\u{70b9}"])
    &&& c.status@ == spec_status(fv(v, seq!["status", "\u{72b6}\u{6001}"]))
    &&& opt_view(c.issue) == fo(v, seq!["issue", "\u{95ee}\u{9898}"])
    &&& opt_view(c.suggestion) == fo(v, seq!["suggestion", "\u{5efa}\u{8bae}"])
}

fn check_of(b: &Block, i: usize, Ghost(v): Ghost<BlockV>) -> (r: CheckItem)
    requires
        block_matches(*b, v),
        i < usize::MAX,
    ensures
        check_matches(r, v, i as int),
{
    let id = listed_id_exec(b, "", i, Ghost(v));
    proof {
        reveal_strlit("");
    }
    assert(""@ =~= Seq::<char>::empty());
    let raw = text_field(b, vec!["status", "\u{72b6}\u{6001}"], Ghost(v));
    let l = to_lowercase(raw.as_str());
    let status = if str_eq(l.as_str(), "pass") || str_eq(l.as_str(), "warn") || str_eq(l.as_str(), "fail") {
        l
    } else {
        "pass".to_string()
    };
    CheckItem {
        id,
        label: text_field(b, vec!["label", "\u{68c0}\u{67e5}\u{70b9}"], Ghost(v)),
        status,
        issue: opt_field(b, vec!["issue", "\u{95ee}\u{9898}"], Ghost(v)),
        suggestion: opt_field(b, vec!["suggestion", "\u{5efa}\u{8bae}"], Ghost(v)),
    }
}

/// The self-check of a step: one item per CHECK block.
pub fn parse_selfcheck(md: &str) -> (r: Vec<CheckItem>)
    ensures
        ({
            let cs = spec_typed_blocks(md@).filter(|b: BlockV| check_type(b.type_str));
            &&& r@.len() == cs.len()
            &&& forall|i: int| 0 <= i < cs.len() ==> check_matches(#[trigger] r@[i], cs[i], i)
        }),
{
    let blocks = parse_typed_blocks(md);
    let ghost bs = spec_typed_blocks(md@);
    let ghost pred = |b: BlockV| check_type(b.type_str);
    let mut out: Vec<CheckItem> = Vec::new();
    let mut k: usize = 0;
    while k < blocks.len()
        invariant
            k <= blocks@.len(),
            blocks@.len() == bs.len(),
            bs == spec_typed_blocks(md@),
            pred == (|b: BlockV| check_type(b.type_str)),
            forall|i: int| 0 <= i < bs.len() ==> block_matches(#[trigger] blocks@[i], bs[i]),
            out@.len() == bs.take(k as int).filter(pred).len(),
            out@.len() <= k,
            forall|i: int| 0 <= i < out@.len() ==> check_matches(#[trigger] out@[i], bs.take(k as int).filter(pred)[i], i),
        decreases blocks@.len() - k,
    {
        proof {
            reveal_with_fuel(Seq::filter, 1);
            assert(bs.take(k + 1).drop_last() =~= bs.take(k as int));
            assert(bs.take(k + 1).last() == bs[k as int]);
        }
        let b = &blocks[k];
        let ghost v = bs[k as int];
        assert(block_matches(*b, v));
        if is_type_match(b.type_str.as_str(), "CHECK") || is_type_match(b.type_str.as_str(), "\u{68c0}\u{67e5}\u{70b9}") {
            let i = out.len();
            let o = check_of(b, i, Ghost(v));
            out.push(o);
        }
        k += 1;
    }
    assert(bs.take(k as int) =~= bs);
    out
}


/// What a step's output reads as.
pub enum StepOutput {
    Json(Json),
    Step1(Step1),
    Step2(Step2),
    Step3(Step3),
    Step4(Step4),
    Step5(Step5),
    Step6(Step6),
    Step7(Step7),
    Step8(Step8),
}

/// The text a step's output is read from: fence lines and `<think>` blocks out.
pub open spec fn spec_clean(text: Seq<char>) -> Seq<char> {
    spec_strip_think(spec_strip_fences(text))
}

pub fn clean_step_text(text: &str) -> (r: String)
    ensures
        r@ == spec_clean(text@),
{
    let cleaned = strip_markdown_fences(text);
    strip_think_blocks(cleaned.as_str())
}

/// A step's output read from the model's text. `parsed` is what a JSON
/// reader made of the cleaned text (`clean_step_text`), when it reads as
/// JSON; when the cleaned text looks like JSON and was read, that value is
/// the output. Otherwise the cleaned text is read as markdown blocks by the
/// reader of step `step_number` (1 to 8); other steps give nothing.
pub fn parse_step_output(step_number: u8, text: &str, parsed: Option<Json>) -> (r: Option<StepOutput>)
    ensures
        ({
            let md = spec_clean(text@);
            if spec_looks_like_json(md) && parsed is Some {
                r == Some(StepOutput::Json(parsed->0))
            } else {
                match step_number {
                    1 => r matches Some(StepOutput::Step1(x)) && step1_spec(x, md),
                    2 => r matches Some(StepOutput::Step2(x)) && step2_spec(x, md),
                    3 => r matches Some(StepOutput::Step3(x)) && step3_spec(x, md),
                    4 => r matches Some(StepOutput::Step4(x)) && step4_spec(x, md),
                    5 => r matches Some(StepOutput::Step5(x)) && step5_spec(x, md),
                    6 => r matches Some(StepOutput::Step6(x)) && step6_spec(x, md),
                    7 => r matches Some(StepOutput::Step7(x)) && step7_spec(x, md),
                    8 => r matches Some(StepOutput::Step8(x)) && step8_spec(x, md),
                    _ => r is None,
                }
            }
        }),
{
    let md = clean_step_text(text);
    if looks_like_json(md.as_str()) {
        match parsed {
            Some(j) => {
                return Some(StepOutput::Json(j));
            },
            None => {},
        }
    }
    let m = md.as_str();
    match step_number {
        1 => Some(StepOutput::Step1(parse_step1(m))),
        2 => Some(StepOutput::Step2(parse_step2(m))),
        3 => Some(StepOutput::Step3(parse_step3(m))),
        4 => Some(StepOutput::Step4(parse_step4(m))),
        5 => Some(StepOutput::Step5(parse_step5(m))),
        6 => Some(StepOutput::Step6(parse_step6(m))),
        7 => Some(StepOutput::Step7(parse_step7(m))),
        8 => Some(StepOutput::Step8(parse_step8(m))),
        _ => None,
    }
}

} // verus!
