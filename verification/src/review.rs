//! The script review: the heuristic scores of a script, the review the model
//! returns read into a result, and the score and verdict read off a reply
//! that is no JSON.
use vstd::prelude::*;
use crate::json::{Json, JsonV, json_view};
use crate::prompt_generation::{jget, jstr, as_text, text_or, json_get, json_str, string_items, strings_view, as_i64, json_as_i64};
use crate::text::{chars_of, string_of, append_chars, is_ascii_space, is_digit, has_sub, contains_str, trim, trim_chars, utf8_len, utf8_len_of, str_lower, to_lowercase, occurs_at, digits_end, digits_value, spaces_end};

verus! {

/// One scored dimension of a review.
pub struct ReviewDimension {
    pub name: String,
    pub score: i32,
    pub comment: String,
}

impl View for ReviewDimension {
    type V = (Seq<char>, int, Seq<char>);

    open spec fn view(&self) -> (Seq<char>, int, Seq<char>) {
        (self.name@, self.score as int, self.comment@)
    }
}

pub open spec fn dims_view(d: Seq<ReviewDimension>) -> Seq<(Seq<char>, int, Seq<char>)> {
    d.map_values(|x: ReviewDimension| x@)
}

fn copy_dimension(d: &ReviewDimension) -> (r: ReviewDimension)
    ensures
        r@ == d@,
{
    ReviewDimension { name: d.name.clone(), score: d.score, comment: d.comment.clone() }
}

/// A copy of a list of dimensions.
pub fn copy_dimensions(d: &Vec<ReviewDimension>) -> (r: Vec<ReviewDimension>)
    ensures
        dims_view(r@) == dims_view(d@),
{
    let mut out: Vec<ReviewDimension> = Vec::new();
    let mut k: usize = 0;
    while k < d.len()
        invariant
            k <= d@.len(),
            out@.len() == k,
            forall|j: int| 0 <= j < k ==> (#[trigger] out@[j])@ == d@[j]@,
        decreases d@.len() - k,
    {
        out.push(copy_dimension(&d[k]));
        k += 1;
    }
    assert(dims_view(out@) =~= dims_view(d@));
    out
}

/// A score kept within 0 to 100 (`clamp_score` of a whole number).
pub open spec fn clamp100(v: int) -> int {
    if v < 0 {
        0
    } else if v > 100 {
        100
    } else {
        v
    }
}

pub fn clamp_score(v: i64) -> (r: i32)
    ensures
        r == clamp100(v as int),
{
    if v < 0 {
        0
    } else if v > 100 {
        100
    } else {
        v as i32
    }
}

// ---------------------------------------------------------------------------
// What the heuristic scores count
// ---------------------------------------------------------------------------

/// A line starts at `p`.
pub open spec fn line_start_at(s: Seq<char>, p: int) -> bool {
    p == 0 || (0 < p <= s.len() && s[p - 1] == '\n')
}

/// A scene line (`※` and a space, at a line start) starts at `p`.
pub open spec fn scene_mark_at(s: Seq<char>, p: int) -> bool {
    0 <= p && p + 1 < s.len() && line_start_at(s, p) && s[p] == '\u{203b}' && is_ascii_space(s[p + 1])
}

/// The first line break or full-width colon at or after `i` (the length when
/// there is none).
pub open spec fn stop_from(s: Seq<char>, i: int) -> int
    decreases s.len() - i,
{
    if i < 0 || i >= s.len() {
        s.len() as int
    } else if s[i] == '\n' || s[i] == '\u{ff1a}' {
        i
    } else {
        stop_from(s, i + 1)
    }
}

/// A dialogue line starts at `p`: a line start, then 1 to 20 chars up to a
/// full-width colon.
pub open spec fn dialogue_at(s: Seq<char>, p: int) -> bool {
    &&& 0 <= p < s.len()
    &&& line_start_at(s, p)
    &&& stop_from(s, p) < s.len()
    &&& s[stop_from(s, p)] == '\u{ff1a}'
    &&& 1 <= stop_from(s, p) - p <= 20
}

pub open spec fn scene_count_upto(s: Seq<char>, n: int) -> int
    decreases n,
{
    if n <= 0 {
        0
    } else {
        scene_count_upto(s, n - 1) + if scene_mark_at(s, n - 1) { 1int } else { 0int }
    }
}

pub open spec fn dialogue_count_upto(s: Seq<char>, n: int) -> int
    decreases n,
{
    if n <= 0 {
        0
    } else {
        dialogue_count_upto(s, n - 1) + if dialogue_at(s, n - 1) { 1int } else { 0int }
    }
}

pub open spec fn os_at(s: Seq<char>, p: int) -> bool {
    0 <= p && p + 1 < s.len() && s[p] == 'O' && s[p + 1] == 'S'
}

pub open spec fn os_count_upto(s: Seq<char>, n: int) -> int
    decreases n,
{
    if n <= 0 {
        0
    } else {
        os_count_upto(s, n - 1) + if os_at(s, n - 1) { 1int } else { 0int }
    }
}

/// The scene lines of a script.
pub open spec fn scene_count(s: Seq<char>) -> int {
    scene_count_upto(s, s.len() as int)
}

/// The dialogue lines of a script.
pub open spec fn dialogue_count(s: Seq<char>) -> int {
    dialogue_count_upto(s, s.len() as int)
}

/// The inner-voice (`OS`) marks of a script.
pub open spec fn os_count(s: Seq<char>) -> int {
    os_count_upto(s, s.len() as int)
}

/// How many of the words occur in the text.
pub open spec fn hits(s: Seq<char>, words: Seq<Seq<char>>) -> int
    decreases words.len(),
{
    if words.len() == 0 {
        0
    } else {
        hits(s, words.drop_last()) + if has_sub(s, words.last()) { 1int } else { 0int }
    }
}

pub open spec fn hook_words() -> Seq<Seq<char>> {
    seq!["\u{91cd}\u{751f}"@, "\u{80cc}\u{53db}"@, "\u{7f9e}\u{8fb1}"@, "\u{7cfb}\u{7edf}"@, "\u{590d}\u{4ec7}"@, "\u{53cd}\u{51fb}"@, "\u{6253}\u{8138}"@, "\u{5973}\u{5e1d}"@, "\u{960e}\u{7f57}"@, "\u{5371}\u{673a}"@]
}

pub open spec fn conflict_words() -> Seq<Seq<char>> {
    seq!["\u{538b}\u{5236}"@, "\u{5a01}\u{80c1}"@, "\u{7f9e}\u{8fb1}"@, "\u{6311}\u{8845}"@, "\u{903c}\u{8feb}"@, "\u{7ffb}\u{76d8}"@, "\u{53cd}\u{51fb}"@, "\u{6012}\u{65a5}"@]
}

proof fn lemma_count_bounds(s: Seq<char>, n: int)
    ensures
        0 <= scene_count_upto(s, n) <= if n > 0 { n } else { 0 },
        0 <= dialogue_count_upto(s, n) <= if n > 0 { n } else { 0 },
        0 <= os_count_upto(s, n) <= if n > 0 { n } else { 0 },
    decreases n,
{
    if n > 0 {
        lemma_count_bounds(s, n - 1);
    }
}

proof fn lemma_hits_bounds(s: Seq<char>, w: Seq<Seq<char>>)
    ensures
        0 <= hits(s, w) <= w.len(),
    decreases w.len(),
{
    if w.len() > 0 {
        lemma_hits_bounds(s, w.drop_last());
    }
}

fn stop_index(s: &[char], i: usize) -> (r: usize)
    requires
        i <= s@.len(),
    ensures
        r == stop_from(s@, i as int),
        i <= r <= s@.len(),
{
    let mut k = i;
    while k < s.len() && s[k] != '\n' && s[k] != '\u{ff1a}'
        invariant
            i <= k <= s@.len(),
            stop_from(s@, k as int) == stop_from(s@, i as int),
        decreases s@.len() - k,
    {
        k += 1;
    }
    k
}

/// The counts the heuristic scores read: scene lines, dialogue lines and
/// inner-voice marks.
pub fn script_counts(script_body: &str) -> (r: (u64, u64, u64))
    ensures
        r.0 == scene_count(script_body@),
        r.1 == dialogue_count(script_body@),
        r.2 == os_count(script_body@),
{
    let s = chars_of(script_body);
    let mut scenes: u64 = 0;
    let mut dialogues: u64 = 0;
    let mut oses: u64 = 0;
    let mut p: usize = 0;
    while p < s.len()
        invariant
            s@ == script_body@,
            p <= s@.len(),
            scenes == scene_count_upto(s@, p as int),
            dialogues == dialogue_count_upto(s@, p as int),
            oses == os_count_upto(s@, p as int),
        decreases s@.len() - p,
    {
        proof {
            lemma_count_bounds(s@, p as int);
        }
        let at_line = p == 0 || s[p - 1] == '\n';
        if at_line && p + 1 < s.len() && s[p] == '\u{203b}' && crate::text::is_ascii_space_char(s[p + 1]) {
            scenes += 1;
        }
        if at_line {
            let k = stop_index(&s, p);
            if k < s.len() && s[k] == '\u{ff1a}' && k - p >= 1 && k - p <= 20 {
                dialogues += 1;
            }
        }
        if p + 1 < s.len() && s[p] == 'O' && s[p + 1] == 'S' {
            oses += 1;
        }
        p += 1;
    }
    (scenes, dialogues, oses)
}

fn hits_exec(s: &str, words: &[&str]) -> (r: u64)
    ensures
        r == hits(s@, words@.map_values(|w: &str| w@)),
{
    let ghost wv = words@.map_values(|w: &str| w@);
    let mut c: u64 = 0;
    let mut k: usize = 0;
    while k < words.len()
        invariant
            wv == words@.map_values(|w: &str| w@),
            k <= words@.len(),
            c == hits(s@, wv.take(k as int)),
        decreases words@.len() - k,
    {
        proof {
            lemma_hits_bounds(s@, wv.take(k as int));
            assert(wv.take(k + 1).drop_last() =~= wv.take(k as int));
        }
        if contains_str(s, words[k]) {
            c += 1;
        }
        k += 1;
    }
    assert(wv.take(k as int) =~= wv);
    c
}

/// The hook words a script uses.
pub fn hook_hits(script_body: &str) -> (r: u64)
    ensures
        r == hits(script_body@, hook_words()),
{
    let words: [&str; 10] = ["\u{91cd}\u{751f}", "\u{80cc}\u{53db}", "\u{7f9e}\u{8fb1}", "\u{7cfb}\u{7edf}", "\u{590d}\u{4ec7}", "\u{53cd}\u{51fb}", "\u{6253}\u{8138}", "\u{5973}\u{5e1d}", "\u{960e}\u{7f57}", "\u{5371}\u{673a}"];
    let r = hits_exec(script_body, &words);
    assert(words@.map_values(|w: &str| w@) =~= hook_words());
    r
}

/// The conflict words a script uses.
pub fn conflict_hits(script_body: &str) -> (r: u64)
    ensures
        r == hits(script_body@, conflict_words()),
{
    let words: [&str; 8] = ["\u{538b}\u{5236}", "\u{5a01}\u{80c1}", "\u{7f9e}\u{8fb1}", "\u{6311}\u{8845}", "\u{903c}\u{8feb}", "\u{7ffb}\u{76d8}", "\u{53cd}\u{51fb}", "\u{6012}\u{65a5}"];
    let r = hits_exec(script_body, &words);
    assert(words@.map_values(|w: &str| w@) =~= conflict_words());
    r
}

} // verus!

verus! {

// ---------------------------------------------------------------------------
// The heuristic scores
// ---------------------------------------------------------------------------

pub open spec fn min_int(a: int, b: int) -> int {
    if a < b {
        a
    } else {
        b
    }
}

/// The counts of a script fit the `i32` arithmetic of the heuristic scores.
pub open spec fn local_counts_fit(s: Seq<char>) -> bool {
    &&& scene_count(s) * 5 <= i32::MAX
    &&& dialogue_count(s) * 2 <= i32::MAX
    &&& os_count(s) * 2 <= i32::MAX
}

/// Whether the heuristic scores can be taken of a script (`local_counts_fit`).
pub fn counts_fit(script_body: &str) -> (r: bool)
    ensures
        r == local_counts_fit(script_body@),
{
    let (sc, dc, oc) = script_counts(script_body);
    sc <= 429496729 && dc <= 1073741823 && oc <= 1073741823
}

/// The seven dimensions of a script review, in order.
pub open spec fn dimension_names() -> Seq<Seq<char>> {
    seq![
        "StoryProgress"@,
        "CharacterEmotion"@,
        "DialogueQuality"@,
        "PaceControl"@,
        "Readability"@,
        "AntiAI"@,
        "FormatCompliance"@,
    ]
}

/// The heuristic comment of each dimension.
pub open spec fn local_comments() -> Seq<Seq<char>> {
    seq!["\u{51b2}\u{7a81}\u{63a8}\u{8fdb}\u{6709}\u{6548}\u{ff0c}\u{56e0}\u{679c}\u{94fe}\u{5b8c}\u{6574}\u{3002}"@, "\u{89d2}\u{8272}\u{884c}\u{4e3a}\u{4e00}\u{81f4}\u{ff0c}\u{60c5}\u{611f}\u{901a}\u{8fc7}\u{884c}\u{4e3a}\u{5c55}\u{793a}\u{3002}"@, "\u{5bf9}\u{767d}\u{7cbe}\u{70bc}\u{6709}\u{529b}\u{ff0c}\u{89d2}\u{8272}\u{533a}\u{5206}\u{660e}\u{663e}\u{3002}"@, "\u{8282}\u{594f}\u{7cbe}\u{51c6}\u{ff0c}\u{8f6c}\u{573a}\u{6d41}\u{7545}\u{3002}"@, "\u{94a9}\u{5b50}\u{5f3a}\u{529b}\u{ff0c}\u{723d}\u{70b9}\u{94fa}\u{57ab}\u{5230}\u{4f4d}\u{3002}"@, "\u{6587}\u{98ce}\u{81ea}\u{7136}\u{ff0c}\u{51e0}\u{4e4e}\u{65e0}AI\u{75d5}\u{8ff9}\u{3002}"@, "\u{683c}\u{5f0f}\u{89c4}\u{8303}\u{ff0c}\u{6807}\u{8bb0}\u{9f50}\u{5168}\u{3002}"@]
}

/// The heuristic score of each dimension: a base, raised by what the script
/// counts (scene lines, dialogue lines, inner voice, hook and conflict words,
/// quotation marks, length), each raise capped.
pub open spec fn local_scores(s: Seq<char>) -> Seq<int> {
    let sc = scene_count(s);
    let dc = dialogue_count(s);
    let oc = os_count(s);
    let hh = hits(s, hook_words());
    let ch = hits(s, conflict_words());
    let tl = utf8_len(trim(s));
    seq![
        clamp100(62 + min_int(sc * 5, 18) + min_int(ch * 3, 10)),
        clamp100(64 + min_int(dc * 2, 16) + min_int(oc * 2, 8)),
        clamp100(63 + min_int(dc * 2, 18) + if has_sub(s, "\""@) { 4int } else { 0int }),
        clamp100(64 + min_int(sc * 4, 16) + if tl > 1200 { 5int } else { 0int }),
        clamp100(64 + min_int(hh * 3, 16) + min_int(ch * 3, 10)),
        clamp100(70 + if tl > 800 { 5int } else { 0int }),
        clamp100(72 + min_int(sc * 3, 10)),
    ]
}

/// The heuristic dimensions of a script.
pub open spec fn local_dims(s: Seq<char>) -> Seq<(Seq<char>, int, Seq<char>)> {
    Seq::new(7, |k: int| (dimension_names()[k], local_scores(s)[k], local_comments()[k]))
}

fn capped(v: u64, factor: u64, cap: u64) -> (r: i64)
    requires
        v * factor <= i32::MAX,
        cap <= 100,
    ensures
        r == min_int(v * factor, cap as int),
{
    let x = v * factor;
    if x < cap {
        x as i64
    } else {
        cap as i64
    }
}

fn dimension(name: &str, score: i64, comment: &str) -> (r: ReviewDimension)
    ensures
        r@ == (name@, clamp100(score as int), comment@),
{
    ReviewDimension { name: name.to_string(), score: clamp_score(score), comment: comment.to_string() }
}

/// `build_local_dimension_scores`: the seven dimensions scored from what the
/// script counts.
pub fn local_dimension_scores(script_body: &str) -> (r: Vec<ReviewDimension>)
    requires
        local_counts_fit(script_body@),
    ensures
        dims_view(r@) == local_dims(script_body@),
{
    let (sc, dc, oc) = script_counts(script_body);
    let hh = hook_hits(script_body);
    let ch = conflict_hits(script_body);
    proof {
        lemma_hits_bounds(script_body@, hook_words());
        lemma_hits_bounds(script_body@, conflict_words());
        lemma_count_bounds(script_body@, script_body@.len() as int);
    }
    let tl = utf8_len_of(&trim_chars(&chars_of(script_body)));
    let quoted = contains_str(script_body, "\"");
    let q: i64 = if quoted { 4 } else { 0 };
    let long_pace: i64 = if tl > 1200 { 5 } else { 0 };
    let long_ai: i64 = if tl > 800 { 5 } else { 0 };
    let out = vec![
        dimension("StoryProgress", 62 + capped(sc, 5, 18) + capped(ch, 3, 10), "\u{51b2}\u{7a81}\u{63a8}\u{8fdb}\u{6709}\u{6548}\u{ff0c}\u{56e0}\u{679c}\u{94fe}\u{5b8c}\u{6574}\u{3002}"),
        dimension("CharacterEmotion", 64 + capped(dc, 2, 16) + capped(oc, 2, 8), "\u{89d2}\u{8272}\u{884c}\u{4e3a}\u{4e00}\u{81f4}\u{ff0c}\u{60c5}\u{611f}\u{901a}\u{8fc7}\u{884c}\u{4e3a}\u{5c55}\u{793a}\u{3002}"),
        dimension("DialogueQuality", 63 + capped(dc, 2, 18) + q, "\u{5bf9}\u{767d}\u{7cbe}\u{70bc}\u{6709}\u{529b}\u{ff0c}\u{89d2}\u{8272}\u{533a}\u{5206}\u{660e}\u{663e}\u{3002}"),
        dimension("PaceControl", 64 + capped(sc, 4, 16) + long_pace, "\u{8282}\u{594f}\u{7cbe}\u{51c6}\u{ff0c}\u{8f6c}\u{573a}\u{6d41}\u{7545}\u{3002}"),
        dimension("Readability", 64 + capped(hh, 3, 16) + capped(ch, 3, 10), "\u{94a9}\u{5b50}\u{5f3a}\u{529b}\u{ff0c}\u{723d}\u{70b9}\u{94fa}\u{57ab}\u{5230}\u{4f4d}\u{3002}"),
        dimension("AntiAI", 70 + long_ai, "\u{6587}\u{98ce}\u{81ea}\u{7136}\u{ff0c}\u{51e0}\u{4e4e}\u{65e0}AI\u{75d5}\u{8ff9}\u{3002}"),
        dimension("FormatCompliance", 72 + capped(sc, 3, 10), "\u{683c}\u{5f0f}\u{89c4}\u{8303}\u{ff0c}\u{6807}\u{8bb0}\u{9f50}\u{5168}\u{3002}"),
    ];
    assert(dims_view(out@) =~= local_dims(script_body@));
    out
}

// ---------------------------------------------------------------------------
// The heuristic review
// ---------------------------------------------------------------------------

/// A review: its score and verdict, the findings, the scored dimensions and
/// the model that made it.
pub struct ReviewResult {
    pub score: i32,
    pub status: String,
    pub summary: String,
    pub issues: Vec<String>,
    pub suggestions: Vec<String>,
    pub dimensions: Vec<ReviewDimension>,
    pub priority: Vec<String>,
    pub rewrite_example: String,
    pub review_model: String,
    pub surgery_table: Option<Vec<Json>>,
    pub revision_path: Option<Vec<String>>,
}

/// The verdict of a score against the pass line.
pub open spec fn status_text(score: int, threshold: int) -> Seq<char> {
    if score >= threshold {
        "passed"@
    } else {
        "failed"@
    }
}

/// The first position at or after `i` of an index whose key is above `k`.
pub open spec fn place_after_key(order: Seq<int>, keys: Seq<int>, k: int, i: int) -> int
    decreases order.len() - i,
{
    if i < 0 || i >= order.len() {
        order.len() as int
    } else if keys[order[i]] > k {
        i
    } else {
        place_after_key(order, keys, k, i + 1)
    }
}

/// The indices `0..n` ordered by key, stably (`sort_by_key`).
pub open spec fn stable_order(keys: Seq<int>, n: int) -> Seq<int>
    decreases n,
{
    if n <= 0 {
        Seq::empty()
    } else {
        let t = stable_order(keys, n - 1);
        t.insert(place_after_key(t, keys, keys[n - 1], 0), n - 1)
    }
}

proof fn lemma_place_after_key(order: Seq<int>, keys: Seq<int>, k: int, i: int)
    requires
        0 <= i <= order.len(),
    ensures
        i <= place_after_key(order, keys, k, i) <= order.len(),
    decreases order.len() - i,
{
    if i < order.len() && keys[order[i]] <= k {
        lemma_place_after_key(order, keys, k, i + 1);
    }
}

proof fn lemma_stable_order(keys: Seq<int>, n: int)
    requires
        0 <= n,
    ensures
        stable_order(keys, n).len() == n,
        forall|j: int| 0 <= j < n ==> 0 <= #[trigger] stable_order(keys, n)[j] < n,
    decreases n,
{
    if n > 0 {
        lemma_stable_order(keys, n - 1);
        let t = stable_order(keys, n - 1);
        lemma_place_after_key(t, keys, keys[n - 1], 0);
    }
}

/// The issue named for a weak dimension.
pub open spec fn issue_for(name: Seq<char>) -> Seq<char> {
    if name == "StoryProgress"@ {
        "\u{4e2d}\u{6bb5}\u{63a8}\u{8fdb}\u{548c}\u{51b2}\u{7a81}\u{62ac}\u{5347}\u{8fd8}\u{4e0d}\u{591f}\u{96c6}\u{4e2d}\u{ff0c}\u{573a}\u{666f}\u{4e4b}\u{95f4}\u{7684}\u{9012}\u{8fdb}\u{611f}\u{504f}\u{5f31}\u{3002}"@
    } else if name == "CharacterEmotion"@ {
        "\u{4e3b}\u{89d2}\u{80fd}\u{52a8}\u{6027}\u{4e0e}\u{5173}\u{952e}\u{4eba}\u{7269}\u{5173}\u{7cfb}\u{538b}\u{5236}\u{8fd8}\u{4e0d}\u{591f}\u{660e}\u{786e}\u{ff0c}\u{4eba}\u{7269}\u{620f}\u{4efd}\u{8fd8}\u{53ef}\u{4ee5}\u{66f4}\u{6293}\u{4eba}\u{3002}"@
    } else if name == "DialogueQuality"@ {
        "\u{90e8}\u{5206}\u{5bf9}\u{767d}\u{8fd8}\u{504f}\u{8bf4}\u{660e}\u{6027}\u{ff0c}\u{7f3a}\u{5c11}\u{66f4}\u{77ed}\u{66f4}\u{72e0}\u{7684}\u{77ed}\u{5267}\u{8868}\u{8fbe}\u{3002}"@
    } else if name == "PaceControl"@ {
        "\u{8282}\u{594f}\u{90e8}\u{5206}\u{6bb5}\u{843d}\u{504f}\u{62d6}\u{6c93}\u{ff0c}\u{53ef}\u{52a0}\u{5feb}\u{8f6c}\u{573a}\u{8282}\u{594f}\u{3002}"@
    } else if name == "Readability"@ {
        "\u{94a9}\u{5b50}\u{548c}\u{723d}\u{70b9}\u{94fa}\u{57ab}\u{8fd8}\u{4e0d}\u{591f}\u{6781}\u{81f4}\u{3002}"@
    } else if name == "AntiAI"@ {
        "\u{90e8}\u{5206}\u{6587}\u{98ce}\u{6709}AI\u{75d5}\u{8ff9}\u{ff0c}\u{9700}\u{8fdb}\u{4e00}\u{6b65}\u{6da6}\u{8272}\u{3002}"@
    } else {
        "\u{9ad8}\u{6982}\u{5ff5}\u{8fa8}\u{8bc6}\u{5ea6}\u{548c}\u{5546}\u{4e1a}\u{94a9}\u{5b50}\u{5df2}\u{7ecf}\u{6709}\u{57fa}\u{7840}\u{ff0c}\u{4f46}\u{8fd8}\u{4e0d}\u{591f}\u{6781}\u{81f4}\u{3002}"@
    }
}

/// The suggestion made for a weak dimension.
pub open spec fn suggestion_for(name: Seq<char>) -> Seq<char> {
    if name == "StoryProgress"@ {
        "\u{628a}\u{4e2d}\u{6bb5}\u{6539}\u{6210}\u{66f4}\u{660e}\u{663e}\u{7684}\u{5c42}\u{5c42}\u{5347}\u{7ea7}\u{ff0c}\u{8ba9}\u{6bcf}\u{573a}\u{620f}\u{90fd}\u{5e26}\u{6765}\u{65b0}\u{7684}\u{5c40}\u{52bf}\u{53d8}\u{5316}\u{3002}"@
    } else if name == "CharacterEmotion"@ {
        "\u{8865}\u{5f3a}\u{4e3b}\u{89d2}\u{6b64}\u{523b}\u{6700}\u{60f3}\u{8fbe}\u{6210}\u{7684}\u{76ee}\u{6807}\u{ff0c}\u{5e76}\u{8ba9}\u{5173}\u{952e}\u{914d}\u{89d2}\u{660e}\u{786e}\u{627f}\u{62c5}\u{538b}\u{5236}\u{6216}\u{8bd5}\u{63a2}\u{4f5c}\u{7528}\u{3002}"@
    } else if name == "DialogueQuality"@ {
        "\u{628a}\u{89e3}\u{91ca}\u{6027}\u{53f0}\u{8bcd}\u{538b}\u{7f29}\u{6389}\u{ff0c}\u{6539}\u{6210}\u{66f4}\u{6709}\u{653b}\u{51fb}\u{6027}\u{3001}\u{8bd5}\u{63a2}\u{6027}\u{6216}\u{53cd}\u{51fb}\u{6027}\u{7684}\u{5bf9}\u{767d}\u{3002}"@
    } else if name == "PaceControl"@ {
        "\u{7f29}\u{77ed}\u{573a}\u{666f}\u{95f4}\u{7684}\u{94fa}\u{57ab}\u{6bb5}\u{843d}\u{ff0c}\u{52a0}\u{5feb}\u{5173}\u{952e}\u{51b2}\u{7a81}\u{7684}\u{5230}\u{6765}\u{3002}"@
    } else if name == "Readability"@ {
        "\u{628a}\u{7b2c}\u{4e00}\u{573a}\u{7684}\u{7f9e}\u{8fb1}\u{3001}\u{80cc}\u{53db}\u{6216}\u{5371}\u{9669}\u{5199}\u{5f97}\u{66f4}\u{5177}\u{4f53}\u{ff0c}\u{8ba9}\u{5f00}\u{5934}\u{5546}\u{4e1a}\u{8bc6}\u{522b}\u{5ea6}\u{66f4}\u{5f3a}\u{3002}"@
    } else if name == "AntiAI"@ {
        "\u{589e}\u{52a0}\u{5177}\u{4f53}\u{7ec6}\u{8282}\u{548c}\u{4eba}\u{7269}\u{72ec}\u{7279}\u{7684}\u{8868}\u{8fbe}\u{65b9}\u{5f0f}\u{ff0c}\u{51cf}\u{5c11}\u{6a21}\u{677f}\u{5316}\u{8868}\u{8ff0}\u{3002}"@
    } else {
        "\u{5f3a}\u{5316}\u{9ad8}\u{6982}\u{5ff5}\u{94a9}\u{5b50}\u{4e0e}\u{5546}\u{4e1a}\u{8fa8}\u{8bc6}\u{5ea6}\u{3002}"@
    }
}

pub open spec fn scores_of(d: Seq<(Seq<char>, int, Seq<char>)>) -> Seq<int> {
    d.map_values(|x: (Seq<char>, int, Seq<char>)| x.1)
}

/// The (at most three) weakest dimensions, lowest score first, in their
/// order among equal scores.
pub open spec fn weakest(d: Seq<(Seq<char>, int, Seq<char>)>) -> Seq<(Seq<char>, int, Seq<char>)> {
    let order = stable_order(scores_of(d), d.len() as int);
    Seq::new(min_int(3, d.len() as int) as nat, |k: int| d[order[k]])
}

pub open spec fn priority_texts() -> Seq<Seq<char>> {
    seq!["\u{5148}\u{4fee}\u{7ed3}\u{6784}\u{8282}\u{594f}\u{4e0e}\u{5173}\u{952e}\u{8282}\u{70b9}\u{5f3a}\u{5ea6}\u{3002}"@, "\u{518d}\u{4fee}\u{4e3b}\u{89d2}\u{76ee}\u{6807}\u{4e0e}\u{4eba}\u{7269}\u{5173}\u{7cfb}\u{538b}\u{5236}\u{3002}"@, "\u{6700}\u{540e}\u{6253}\u{78e8}\u{5bf9}\u{767d}\u{950b}\u{5229}\u{5ea6}\u{548c}\u{77ed}\u{5267}\u{5316}\u{8868}\u{8fbe}\u{3002}"@]
}

pub open spec fn local_summary(passed: bool) -> Seq<char> {
    if passed {
        "\u{5f53}\u{524d}\u{5267}\u{672c}\u{5df2}\u{8fbe}\u{5230} CineForge \u{5267}\u{672c}\u{5ba1}\u{67e5}\u{901a}\u{8fc7}\u{7ebf}\u{ff0c}\u{53ef}\u{8fdb}\u{5165}\u{4e0b}\u{6e38}\u{4f7f}\u{7528}\u{ff0c}\u{4f46}\u{4ecd}\u{6709}\u{5c40}\u{90e8}\u{53ef}\u{7ee7}\u{7eed}\u{6253}\u{78e8}\u{3002}"@
    } else {
        "\u{5f53}\u{524d}\u{5267}\u{672c}\u{5df2}\u{6709}\u{53ef}\u{7528}\u{57fa}\u{7840}\u{ff0c}\u{4f46}\u{5c1a}\u{672a}\u{8fbe}\u{5230} CineForge 90 \u{5206}\u{901a}\u{8fc7}\u{7ebf}\u{ff0c}\u{5efa}\u{8bae}\u{5148}\u{6309}\u{4f18}\u{5148}\u{7ea7}\u{56de}\u{9000}\u{4f18}\u{5316}\u{3002}"@
    }
}

pub open spec fn local_rewrite(passed: bool) -> Seq<char> {
    if passed {
        Seq::empty()
    } else {
        "\u{4f18}\u{5148}\u{628a}\u{7b2c}\u{4e00}\u{573a}\u{5199}\u{6210}\u{6b63}\u{5728}\u{53d1}\u{751f}\u{7684}\u{538b}\u{8feb}\u{620f}\u{ff0c}\u{800c}\u{4e0d}\u{662f}\u{6982}\u{8ff0}\u{80cc}\u{666f}\u{ff0c}\u{518d}\u{8ba9}\u{4e3b}\u{89d2}\u{5728}\u{540c}\u{573a}\u{91cc}\u{5b8c}\u{6210}\u{4e00}\u{6b21}\u{660e}\u{786e}\u{53cd}\u{5e94}\u{6216}\u{56de}\u{51fb}\u{3002}"@
    }
}

/// The heuristic review of a script with weighted score `score`.
pub open spec fn is_local_review(r: ReviewResult, s: Seq<char>, threshold: int, model: Seq<char>, score: int) -> bool {
    let d = local_dims(s);
    let passed = score >= threshold;
    &&& r.score == score
    &&& r.status@ == status_text(score, threshold)
    &&& r.summary@ == local_summary(passed)
    &&& strings_view(r.issues@) == weakest(d).map_values(|x: (Seq<char>, int, Seq<char>)| issue_for(x.0))
    &&& strings_view(r.suggestions@) == weakest(d).map_values(
        |x: (Seq<char>, int, Seq<char>)| suggestion_for(x.0),
    )
    &&& dims_view(r.dimensions@) == d
    &&& strings_view(r.priority@) == priority_texts()
    &&& r.rewrite_example@ == local_rewrite(passed)
    &&& r.review_model@ == "workfisher-review-master-v1 / local-heuristic / "@ + model
    &&& r.surgery_table is None
    &&& r.revision_path is None
}

fn issue_exec(name: &str) -> (r: String)
    ensures
        r@ == issue_for(name@),
{
    if crate::text::str_eq(name, "StoryProgress") {
        "\u{4e2d}\u{6bb5}\u{63a8}\u{8fdb}\u{548c}\u{51b2}\u{7a81}\u{62ac}\u{5347}\u{8fd8}\u{4e0d}\u{591f}\u{96c6}\u{4e2d}\u{ff0c}\u{573a}\u{666f}\u{4e4b}\u{95f4}\u{7684}\u{9012}\u{8fdb}\u{611f}\u{504f}\u{5f31}\u{3002}".to_string()
    } else if crate::text::str_eq(name, "CharacterEmotion") {
        "\u{4e3b}\u{89d2}\u{80fd}\u{52a8}\u{6027}\u{4e0e}\u{5173}\u{952e}\u{4eba}\u{7269}\u{5173}\u{7cfb}\u{538b}\u{5236}\u{8fd8}\u{4e0d}\u{591f}\u{660e}\u{786e}\u{ff0c}\u{4eba}\u{7269}\u{620f}\u{4efd}\u{8fd8}\u{53ef}\u{4ee5}\u{66f4}\u{6293}\u{4eba}\u{3002}".to_string()
    } else if crate::text::str_eq(name, "DialogueQuality") {
        "\u{90e8}\u{5206}\u{5bf9}\u{767d}\u{8fd8}\u{504f}\u{8bf4}\u{660e}\u{6027}\u{ff0c}\u{7f3a}\u{5c11}\u{66f4}\u{77ed}\u{66f4}\u{72e0}\u{7684}\u{77ed}\u{5267}\u{8868}\u{8fbe}\u{3002}".to_string()
    } else if crate::text::str_eq(name, "PaceControl") {
        "\u{8282}\u{594f}\u{90e8}\u{5206}\u{6bb5}\u{843d}\u{504f}\u{62d6}\u{6c93}\u{ff0c}\u{53ef}\u{52a0}\u{5feb}\u{8f6c}\u{573a}\u{8282}\u{594f}\u{3002}".to_string()
    } else if crate::text::str_eq(name, "Readability") {
        "\u{94a9}\u{5b50}\u{548c}\u{723d}\u{70b9}\u{94fa}\u{57ab}\u{8fd8}\u{4e0d}\u{591f}\u{6781}\u{81f4}\u{3002}".to_string()
    } else if crate::text::str_eq(name, "AntiAI") {
        "\u{90e8}\u{5206}\u{6587}\u{98ce}\u{6709}AI\u{75d5}\u{8ff9}\u{ff0c}\u{9700}\u{8fdb}\u{4e00}\u{6b65}\u{6da6}\u{8272}\u{3002}".to_string()
    } else {
        "\u{9ad8}\u{6982}\u{5ff5}\u{8fa8}\u{8bc6}\u{5ea6}\u{548c}\u{5546}\u{4e1a}\u{94a9}\u{5b50}\u{5df2}\u{7ecf}\u{6709}\u{57fa}\u{7840}\u{ff0c}\u{4f46}\u{8fd8}\u{4e0d}\u{591f}\u{6781}\u{81f4}\u{3002}".to_string()
    }
}

fn suggestion_exec(name: &str) -> (r: String)
    ensures
        r@ == suggestion_for(name@),
{
    if crate::text::str_eq(name, "StoryProgress") {
        "\u{628a}\u{4e2d}\u{6bb5}\u{6539}\u{6210}\u{66f4}\u{660e}\u{663e}\u{7684}\u{5c42}\u{5c42}\u{5347}\u{7ea7}\u{ff0c}\u{8ba9}\u{6bcf}\u{573a}\u{620f}\u{90fd}\u{5e26}\u{6765}\u{65b0}\u{7684}\u{5c40}\u{52bf}\u{53d8}\u{5316}\u{3002}".to_string()
    } else if crate::text::str_eq(name, "CharacterEmotion") {
        "\u{8865}\u{5f3a}\u{4e3b}\u{89d2}\u{6b64}\u{523b}\u{6700}\u{60f3}\u{8fbe}\u{6210}\u{7684}\u{76ee}\u{6807}\u{ff0c}\u{5e76}\u{8ba9}\u{5173}\u{952e}\u{914d}\u{89d2}\u{660e}\u{786e}\u{627f}\u{62c5}\u{538b}\u{5236}\u{6216}\u{8bd5}\u{63a2}\u{4f5c}\u{7528}\u{3002}".to_string()
    } else if crate::text::str_eq(name, "DialogueQuality") {
        "\u{628a}\u{89e3}\u{91ca}\u{6027}\u{53f0}\u{8bcd}\u{538b}\u{7f29}\u{6389}\u{ff0c}\u{6539}\u{6210}\u{66f4}\u{6709}\u{653b}\u{51fb}\u{6027}\u{3001}\u{8bd5}\u{63a2}\u{6027}\u{6216}\u{53cd}\u{51fb}\u{6027}\u{7684}\u{5bf9}\u{767d}\u{3002}".to_string()
    } else if crate::text::str_eq(name, "PaceControl") {
        "\u{7f29}\u{77ed}\u{573a}\u{666f}\u{95f4}\u{7684}\u{94fa}\u{57ab}\u{6bb5}\u{843d}\u{ff0c}\u{52a0}\u{5feb}\u{5173}\u{952e}\u{51b2}\u{7a81}\u{7684}\u{5230}\u{6765}\u{3002}".to_string()
    } else if crate::text::str_eq(name, "Readability") {
        "\u{628a}\u{7b2c}\u{4e00}\u{573a}\u{7684}\u{7f9e}\u{8fb1}\u{3001}\u{80cc}\u{53db}\u{6216}\u{5371}\u{9669}\u{5199}\u{5f97}\u{66f4}\u{5177}\u{4f53}\u{ff0c}\u{8ba9}\u{5f00}\u{5934}\u{5546}\u{4e1a}\u{8bc6}\u{522b}\u{5ea6}\u{66f4}\u{5f3a}\u{3002}".to_string()
    } else if crate::text::str_eq(name, "AntiAI") {
        "\u{589e}\u{52a0}\u{5177}\u{4f53}\u{7ec6}\u{8282}\u{548c}\u{4eba}\u{7269}\u{72ec}\u{7279}\u{7684}\u{8868}\u{8fbe}\u{65b9}\u{5f0f}\u{ff0c}\u{51cf}\u{5c11}\u{6a21}\u{677f}\u{5316}\u{8868}\u{8ff0}\u{3002}".to_string()
    } else {
        "\u{5f3a}\u{5316}\u{9ad8}\u{6982}\u{5ff5}\u{94a9}\u{5b50}\u{4e0e}\u{5546}\u{4e1a}\u{8fa8}\u{8bc6}\u{5ea6}\u{3002}".to_string()
    }
}

/// The positions of the dimensions ordered by score, stably.
fn order_by_score(d: &Vec<ReviewDimension>) -> (r: Vec<usize>)
    ensures
        r@.len() == d@.len(),
        forall|j: int| 0 <= j < r@.len() ==> #[trigger] r@[j] as int == stable_order(scores_of(dims_view(d@)), d@.len() as int)[j],
{
    let ghost keys = scores_of(dims_view(d@));
    let mut order: Vec<usize> = Vec::new();
    let mut n: usize = 0;
    while n < d.len()
        invariant
            keys == scores_of(dims_view(d@)),
            keys.len() == d@.len(),
            n <= d@.len(),
            order@.len() == n,
            forall|j: int| 0 <= j < n ==> #[trigger] order@[j] as int == stable_order(keys, n as int)[j],
        decreases d@.len() - n,
    {
        proof {
            lemma_stable_order(keys, n as int);
        }
        let ghost t = stable_order(keys, n as int);
        let k = d[n].score;
        assert(keys[n as int] == k);
        let mut p: usize = 0;
        while p < order.len() && d[order[p]].score <= k
            invariant
                keys == scores_of(dims_view(d@)),
                keys.len() == d@.len(),
                n < d@.len(),
                t == stable_order(keys, n as int),
                t.len() == n,
                forall|j: int| 0 <= j < n ==> 0 <= #[trigger] t[j] < n,
                order@.len() == n,
                forall|j: int| 0 <= j < n ==> #[trigger] order@[j] as int == t[j],
                p <= n,
                place_after_key(t, keys, k as int, 0) == place_after_key(t, keys, k as int, p as int),
            decreases n - p,
        {
            assert(keys[t[p as int]] == d@[order@[p as int] as int].score);
            p += 1;
        }
        proof {
            if p < n {
                assert(keys[t[p as int]] == d@[order@[p as int] as int].score);
            }
        }
        let ghost before = order@;
        order.insert(p, n);
        proof {
            let t2 = stable_order(keys, n + 1);
            assert(t2 == t.insert(p as int, n as int));
            assert forall|j: int| 0 <= j < n + 1 implies #[trigger] order@[j] as int == t2[j] by {
                if j < p {
                    assert(order@[j] == before[j]);
                } else if j > p {
                    assert(order@[j] == before[j - 1]);
                }
            }
        }
        n += 1;
    }
    order
}

proof fn lemma_dims_view_index(d: Seq<ReviewDimension>, k: int)
    requires
        0 <= k < d.len(),
    ensures
        dims_view(d)[k] == d[k]@,
{
}

/// `build_local_review_result`, with the weighted score of the heuristic
/// dimensions (a weighted mean taken in floating point) given.
pub fn local_review_result(script_body: &str, review_threshold: i32, default_model: &str, weighted_score: i32) -> (r: ReviewResult)
    requires
        local_counts_fit(script_body@),
    ensures
        is_local_review(r, script_body@, review_threshold as int, default_model@, weighted_score as int),
{
    let dims = local_dimension_scores(script_body);
    let passed = weighted_score >= review_threshold;
    let order = order_by_score(&dims);
    let ghost d = dims_view(dims@);
    let ghost w = weakest(d);
    proof {
        lemma_stable_order(scores_of(d), 7);
    }
    let mut issues: Vec<String> = Vec::new();
    let mut suggestions: Vec<String> = Vec::new();
    let mut k: usize = 0;
    while k < 3
        invariant
            dims@.len() == 7,
            d == dims_view(dims@),
            w == weakest(d),
            order@.len() == 7,
            forall|j: int| 0 <= j < 7 ==> #[trigger] order@[j] as int == stable_order(scores_of(d), 7)[j],
            forall|j: int| 0 <= j < 7 ==> 0 <= #[trigger] stable_order(scores_of(d), 7)[j] < 7,
            k <= 3,
            issues@.len() == k,
            suggestions@.len() == k,
            forall|j: int| 0 <= j < k ==> (#[trigger] issues@[j])@ == issue_for(w[j].0),
            forall|j: int| 0 <= j < k ==> (#[trigger] suggestions@[j])@ == suggestion_for(w[j].0),
        decreases 3 - k,
    {
        let o = order[k];
        assert(o < 7);
        proof {
            lemma_dims_view_index(dims@, o as int);
        }
        assert(w[k as int] == d[o as int]);
        issues.push(issue_exec(dims[o].name.as_str()));
        suggestions.push(suggestion_exec(dims[o].name.as_str()));
        k += 1;
    }
    assert(strings_view(issues@) =~= w.map_values(|x: (Seq<char>, int, Seq<char>)| issue_for(x.0)));
    assert(strings_view(suggestions@) =~= w.map_values(|x: (Seq<char>, int, Seq<char>)| suggestion_for(x.0)));
    let priority = vec!["\u{5148}\u{4fee}\u{7ed3}\u{6784}\u{8282}\u{594f}\u{4e0e}\u{5173}\u{952e}\u{8282}\u{70b9}\u{5f3a}\u{5ea6}\u{3002}".to_string(), "\u{518d}\u{4fee}\u{4e3b}\u{89d2}\u{76ee}\u{6807}\u{4e0e}\u{4eba}\u{7269}\u{5173}\u{7cfb}\u{538b}\u{5236}\u{3002}".to_string(), "\u{6700}\u{540e}\u{6253}\u{78e8}\u{5bf9}\u{767d}\u{950b}\u{5229}\u{5ea6}\u{548c}\u{77ed}\u{5267}\u{5316}\u{8868}\u{8fbe}\u{3002}".to_string()];
    assert(strings_view(priority@) =~= priority_texts());
    let mut model = chars_of("workfisher-review-master-v1 / local-heuristic / ");
    append_chars(&mut model, &chars_of(default_model));
    proof {
        reveal_strlit("");
    }
    ReviewResult {
        score: weighted_score,
        status: if passed { "passed".to_string() } else { "failed".to_string() },
        summary: if passed { "\u{5f53}\u{524d}\u{5267}\u{672c}\u{5df2}\u{8fbe}\u{5230} CineForge \u{5267}\u{672c}\u{5ba1}\u{67e5}\u{901a}\u{8fc7}\u{7ebf}\u{ff0c}\u{53ef}\u{8fdb}\u{5165}\u{4e0b}\u{6e38}\u{4f7f}\u{7528}\u{ff0c}\u{4f46}\u{4ecd}\u{6709}\u{5c40}\u{90e8}\u{53ef}\u{7ee7}\u{7eed}\u{6253}\u{78e8}\u{3002}".to_string() } else { "\u{5f53}\u{524d}\u{5267}\u{672c}\u{5df2}\u{6709}\u{53ef}\u{7528}\u{57fa}\u{7840}\u{ff0c}\u{4f46}\u{5c1a}\u{672a}\u{8fbe}\u{5230} CineForge 90 \u{5206}\u{901a}\u{8fc7}\u{7ebf}\u{ff0c}\u{5efa}\u{8bae}\u{5148}\u{6309}\u{4f18}\u{5148}\u{7ea7}\u{56de}\u{9000}\u{4f18}\u{5316}\u{3002}".to_string() },
        issues,
        suggestions,
        dimensions: dims,
        priority,
        rewrite_example: if passed { String::new() } else { "\u{4f18}\u{5148}\u{628a}\u{7b2c}\u{4e00}\u{573a}\u{5199}\u{6210}\u{6b63}\u{5728}\u{53d1}\u{751f}\u{7684}\u{538b}\u{8feb}\u{620f}\u{ff0c}\u{800c}\u{4e0d}\u{662f}\u{6982}\u{8ff0}\u{80cc}\u{666f}\u{ff0c}\u{518d}\u{8ba9}\u{4e3b}\u{89d2}\u{5728}\u{540c}\u{573a}\u{91cc}\u{5b8c}\u{6210}\u{4e00}\u{6b21}\u{660e}\u{786e}\u{53cd}\u{5e94}\u{6216}\u{56de}\u{51fb}\u{3002}".to_string() },
        review_model: string_of(&model),
        surgery_table: None,
        revision_path: None,
    }
}

} // verus!

verus! {

// ---------------------------------------------------------------------------
// The review the model returns
// ---------------------------------------------------------------------------

/// A dimension the model scored is the one named `name` (compared trimmed and
/// in lower case).
pub open spec fn names_dimension(v: JsonV, name: Seq<char>) -> bool {
    match jstr(jget(v, "name"@)) {
        Some(n) => str_lower(trim(n)) == str_lower(name),
        None => false,
    }
}

/// The first of the model's dimensions from `j` on that is the one named.
pub open spec fn first_named(items: Seq<JsonV>, name: Seq<char>, j: int) -> Option<JsonV>
    decreases items.len() - j,
{
    if j < 0 || j >= items.len() {
        None
    } else if names_dimension(items[j], name) {
        Some(items[j])
    } else {
        first_named(items, name, j + 1)
    }
}

/// What the model gave for dimension `i`: the one it named so, else its
/// `i`-th.
pub open spec fn matched_dimension(items: Seq<JsonV>, name: Seq<char>, i: int) -> Option<JsonV> {
    match first_named(items, name, 0) {
        Some(v) => Some(v),
        None => if 0 <= i < items.len() {
            Some(items[i])
        } else {
            None
        },
    }
}

/// Dimension `i` of a review the model returned: its score (kept within 0
/// to 100) and comment where the model gave them, the heuristic one's
/// otherwise (65 and empty when there is none).
pub open spec fn normalized_dimension(
    items: Seq<JsonV>,
    fallback: Seq<(Seq<char>, int, Seq<char>)>,
    i: int,
) -> (Seq<char>, int, Seq<char>) {
    let name = dimension_names()[i];
    let m = matched_dimension(items, name, i);
    let score = match m {
        Some(v) => match as_i64(jget(v, "score"@)) {
            Some(x) => Some(clamp100(x)),
            None => None,
        },
        None => None,
    };
    let comment = match m {
        Some(v) => jstr(jget(v, "comment"@)),
        None => None,
    };
    (
        name,
        match score {
            Some(x) => x,
            None => if 0 <= i < fallback.len() {
                fallback[i].1
            } else {
                65
            },
        },
        match comment {
            Some(c) => c,
            None => if 0 <= i < fallback.len() {
                fallback[i].2
            } else {
                Seq::empty()
            },
        },
    )
}

pub open spec fn normalized_dims(
    items: Option<Seq<JsonV>>,
    fallback: Seq<(Seq<char>, int, Seq<char>)>,
) -> Seq<(Seq<char>, int, Seq<char>)> {
    match items {
        Some(v) => Seq::new(7, |i: int| normalized_dimension(v, fallback, i)),
        None => fallback,
    }
}

fn dimension_name(i: usize) -> (r: &'static str)
    requires
        i < 7,
    ensures
        r@ == dimension_names()[i as int],
{
    if i == 0 {
        "StoryProgress"
    } else if i == 1 {
        "CharacterEmotion"
    } else if i == 2 {
        "DialogueQuality"
    } else if i == 3 {
        "PaceControl"
    } else if i == 4 {
        "Readability"
    } else if i == 5 {
        "AntiAI"
    } else {
        "FormatCompliance"
    }
}

fn names_dimension_exec(v: &Json, lower_name: &str, name: &str) -> (r: bool)
    requires
        lower_name@ == str_lower(name@),
    ensures
        r == names_dimension(v@, name@),
{
    match json_str(json_get(v, "name")) {
        Some(n) => {
            let t = string_of(&trim_chars(&chars_of(n.as_str())));
            let l = to_lowercase(t.as_str());
            crate::text::str_eq(l.as_str(), lower_name)
        },
        None => false,
    }
}

fn matched_exec<'a>(items: &'a Vec<Json>, name: &str, i: usize) -> (r: Option<&'a Json>)
    ensures
        crate::prompt_generation::opt_json_view(r) == matched_dimension(
            crate::prompt_generation::views(items@),
            name@,
            i as int,
        ),
{
    let ghost iv = crate::prompt_generation::views(items@);
    let lower = to_lowercase(name);
    let mut j: usize = 0;
    while j < items.len()
        invariant
            iv == crate::prompt_generation::views(items@),
            lower@ == str_lower(name@),
            j <= items@.len(),
            first_named(iv, name@, 0) == first_named(iv, name@, j as int),
        decreases items@.len() - j,
    {
        if names_dimension_exec(&items[j], lower.as_str(), name) {
            return Some(&items[j]);
        }
        j += 1;
    }
    if i < items.len() {
        Some(&items[i])
    } else {
        None
    }
}

/// `normalize_dimensions`: the seven dimensions of a review the model
/// returned, each filled in from the heuristic ones where the model left it
/// out.
pub fn normalize_dimensions(input: Option<&Vec<Json>>, fallback: &Vec<ReviewDimension>) -> (r: Vec<ReviewDimension>)
    ensures
        dims_view(r@) == normalized_dims(
            match input {
                Some(v) => Some(crate::prompt_generation::views(v@)),
                None => None,
            },
            dims_view(fallback@),
        ),
{
    let items = match input {
        Some(v) => v,
        None => {
            return copy_dimensions(fallback);
        },
    };
    let ghost iv = crate::prompt_generation::views(items@);
    let ghost fb = dims_view(fallback@);
    let mut out: Vec<ReviewDimension> = Vec::new();
    let mut i: usize = 0;
    while i < 7
        invariant
            iv == crate::prompt_generation::views(items@),
            fb == dims_view(fallback@),
            i <= 7,
            out@.len() == i,
            forall|k: int| 0 <= k < i ==> (#[trigger] out@[k])@ == normalized_dimension(iv, fb, k),
        decreases 7 - i,
    {
        let name = dimension_name(i);
        let m = matched_exec(items, name, i);
        let score: Option<i32> = match m {
            Some(v) => match json_as_i64(json_get(v, "score")) {
                Some(x) => Some(clamp_score(x)),
                None => None,
            },
            None => None,
        };
        let comment: Option<String> = match m {
            Some(v) => json_str(json_get(v, "comment")),
            None => None,
        };
        let sc: i32 = match score {
            Some(x) => x,
            None => if i < fallback.len() {
                fallback[i].score
            } else {
                65
            },
        };
        let cm: String = match comment {
            Some(c) => c,
            None => if i < fallback.len() {
                fallback[i].comment.clone()
            } else {
                String::new()
            },
        };
        proof {
            if (i as int) < fallback@.len() {
                lemma_dims_view_index(fallback@, i as int);
            }
        }
        out.push(ReviewDimension { name: name.to_string(), score: sc, comment: cm });
        i += 1;
    }
    assert(dims_view(out@) =~= normalized_dims(Some(iv), fb));
    out
}

/// The strings of a list member, when there is at least one.
pub open spec fn nonempty_strings(v: JsonV, k: Seq<char>) -> Option<Seq<Seq<char>>> {
    match jget(v, k) {
        Some(JsonV::Array(_)) => if string_items(jget(v, k)).len() > 0 {
            Some(string_items(jget(v, k)))
        } else {
            None
        },
        _ => None,
    }
}

/// A row of the surgery table that says anything: a non-empty original,
/// diagnosis or rewrite.
pub open spec fn says_something(e: JsonV) -> bool {
    as_text(jget(e, "original"@)).len() > 0 || as_text(jget(e, "diagnosis"@)).len() > 0 || as_text(
        jget(e, "rewrite"@),
    ).len() > 0
}

pub open spec fn rows_saying(rows: Seq<JsonV>, n: int) -> Seq<JsonV>
    decreases n,
{
    if n <= 0 || n > rows.len() {
        Seq::empty()
    } else if says_something(rows[n - 1]) {
        rows_saying(rows, n - 1).push(rows[n - 1])
    } else {
        rows_saying(rows, n - 1)
    }
}

/// The surgery table of a review: the rows that say anything, when any do.
pub open spec fn surgery_rows(payload: JsonV) -> Option<Seq<JsonV>> {
    match jget(payload, "surgeryTable"@) {
        Some(JsonV::Array(rows)) => if rows_saying(rows, rows.len() as int).len() > 0 {
            Some(rows_saying(rows, rows.len() as int))
        } else {
            None
        },
        _ => None,
    }
}

/// The score of a review the model returned: its own (kept within 0 to 100),
/// else the weighted score of its dimensions.
pub open spec fn payload_score(payload: JsonV, weighted: int) -> int {
    match as_i64(jget(payload, "score"@)) {
        Some(x) => clamp100(x),
        None => weighted,
    }
}

/// `r` is the review read from the model's JSON `payload`.
pub open spec fn is_payload_review(
    r: ReviewResult,
    payload: JsonV,
    dims: Seq<(Seq<char>, int, Seq<char>)>,
    weighted: int,
    fallback: ReviewResult,
    threshold: int,
    model: Seq<char>,
) -> bool {
    let score = payload_score(payload, weighted);
    &&& r.score == score
    &&& r.status@ == status_text(score, threshold)
    &&& r.summary@ == text_or(jstr(jget(payload, "overallVerdict"@)), fallback.summary@)
    &&& strings_view(r.issues@) == (match nonempty_strings(payload, "problems"@) {
        Some(t) => t,
        None => strings_view(fallback.issues@),
    })
    &&& strings_view(r.suggestions@) == (match nonempty_strings(payload, "suggestions"@) {
        Some(t) => t,
        None => strings_view(fallback.suggestions@),
    })
    &&& strings_view(r.priority@) == (match nonempty_strings(payload, "priority"@) {
        Some(t) => t,
        None => strings_view(fallback.priority@),
    })
    &&& dims_view(r.dimensions@) == dims
    &&& r.rewrite_example@ == as_text(jget(payload, "rewriteExample"@))
    &&& r.review_model@ == "workfisher-review-master-v1 / "@ + model
    &&& (match r.surgery_table {
        Some(rows) => surgery_rows(payload) == Some(crate::prompt_generation::views(rows@)),
        None => surgery_rows(payload) is None,
    })
    &&& r.revision_path is None
}

fn nonempty_strings_exec(payload: &Json, k: &str, fallback: Vec<String>) -> (r: Vec<String>)
    ensures
        strings_view(r@) == (match nonempty_strings(payload@, k@) {
            Some(t) => t,
            None => strings_view(fallback@),
        }),
{
    match json_get(payload, k) {
        Some(Json::Array(_)) => {
            let t = crate::prompt_generation::string_items_of(json_get(payload, k));
            if t.len() > 0 {
                t
            } else {
                fallback
            }
        },
        _ => fallback,
    }
}

fn says_something_exec(e: &Json) -> (r: bool)
    ensures
        r == says_something(e@),
{
    !crate::prompt_generation::as_text_of(json_get(e, "original")).as_str().is_empty()
        || !crate::prompt_generation::as_text_of(json_get(e, "diagnosis")).as_str().is_empty()
        || !crate::prompt_generation::as_text_of(json_get(e, "rewrite")).as_str().is_empty()
}

fn surgery_exec(payload: &Json) -> (r: Option<Vec<Json>>)
    ensures
        match r {
            Some(rows) => surgery_rows(payload@) == Some(crate::prompt_generation::views(rows@)),
            None => surgery_rows(payload@) is None,
        },
{
    match json_get(payload, "surgeryTable") {
        Some(Json::Array(rows)) => {
            proof {
                crate::json::lemma_array_view(*rows);
            }
            let ghost rv = crate::prompt_generation::views(rows@);
            assert(rv =~= json_get_view_items(rows));
            let mut out: Vec<Json> = Vec::new();
            let mut k: usize = 0;
            while k < rows.len()
                invariant
                    rv == crate::prompt_generation::views(rows@),
                    k <= rows@.len(),
                    crate::prompt_generation::views(out@) == rows_saying(rv, k as int),
                decreases rows@.len() - k,
            {
                if says_something_exec(&rows[k]) {
                    let ghost before = out@;
                    out.push(rows[k].clone());
                    assert(crate::prompt_generation::views(out@) =~= crate::prompt_generation::views(before).push(rv[k as int]));
                }
                k += 1;
            }
            if out.len() > 0 {
                Some(out)
            } else {
                None
            }
        },
        _ => None,
    }
}

pub open spec fn json_get_view_items(rows: &Vec<Json>) -> Seq<JsonV> {
    json_view(Json::Array(*rows))->Array_0
}

/// `normalize_review_payload`: the review read from the model's JSON, with
/// the normalized dimensions, their weighted score (taken in floating point)
/// and the heuristic review given.
pub fn review_from_payload(
    payload: &Json,
    dimensions: Vec<ReviewDimension>,
    weighted_score: i32,
    fallback: ReviewResult,
    review_threshold: i32,
    default_model: &str,
) -> (r: ReviewResult)
    ensures
        is_payload_review(
            r,
            payload@,
            dims_view(dimensions@),
            weighted_score as int,
            fallback,
            review_threshold as int,
            default_model@,
        ),
{
    let score = match json_as_i64(json_get(payload, "score")) {
        Some(x) => clamp_score(x),
        None => weighted_score,
    };
    let ghost fb = fallback;
    let summary = match json_str(json_get(payload, "overallVerdict")) {
        Some(t) => t,
        None => fallback.summary,
    };
    let issues = nonempty_strings_exec(payload, "problems", fallback.issues);
    let suggestions = nonempty_strings_exec(payload, "suggestions", fallback.suggestions);
    let priority = nonempty_strings_exec(payload, "priority", fallback.priority);
    let mut model = chars_of("workfisher-review-master-v1 / ");
    append_chars(&mut model, &chars_of(default_model));
    ReviewResult {
        score,
        status: if score >= review_threshold { "passed".to_string() } else { "failed".to_string() },
        summary,
        issues,
        suggestions,
        dimensions,
        priority,
        rewrite_example: crate::prompt_generation::as_text_of(json_get(payload, "rewriteExample")),
        review_model: string_of(&model),
        surgery_table: surgery_exec(payload),
        revision_path: None,
    }
}

} // verus!

verus! {

// ---------------------------------------------------------------------------
// Score and verdict read off a reply that is no JSON
// ---------------------------------------------------------------------------

/// `c` matches pattern char `p` ignoring ASCII case (`p` in lower case).
pub open spec fn ci_char(c: char, p: char) -> bool {
    c == p || ('a' <= p && p <= 'z' && (c as u32) == (p as u32) - 32)
}

/// `p` (in lower case) occurs at `i` ignoring ASCII case.
pub open spec fn ci_occurs_at(s: Seq<char>, p: Seq<char>, i: int) -> bool {
    0 <= i && i + p.len() <= s.len() && forall|k: int| 0 <= k < p.len() ==> ci_char(#[trigger] s[i + k], p[k])
}

pub open spec fn ci_has(s: Seq<char>, p: Seq<char>) -> bool {
    exists|i: int| #[trigger] ci_occurs_at(s, p, i)
}

/// The end of the run of non-digits that starts at `i`.
pub open spec fn nondigits_end(s: Seq<char>, i: int) -> int
    decreases s.len() - i,
{
    if 0 <= i < s.len() && !is_digit(s[i]) {
        nondigits_end(s, i + 1)
    } else {
        i
    }
}

/// The number after a score label ending at `q`: at most ten non-digits,
/// then one to three digits.
pub open spec fn score_after(s: Seq<char>, q: int) -> Option<int> {
    let m = nondigits_end(s, q);
    if m - q <= 10 && m < s.len() {
        Some(digits_value(s, m, min_int(digits_end(s, m), m + 3)))
    } else {
        None
    }
}

/// The end of a score label at `p` ("Total Score" in any case, 总分 or
/// 综合评分), or -1.
pub open spec fn label_end(s: Seq<char>, p: int) -> int {
    if ci_occurs_at(s, "total score"@, p) {
        p + 11
    } else if occurs_at(s, "\u{603b}\u{5206}"@, p) {
        p + 2
    } else if occurs_at(s, "\u{7efc}\u{5408}\u{8bc4}\u{5206}"@, p) {
        p + 4
    } else {
        -1
    }
}

pub open spec fn labelled_score_from(s: Seq<char>, i: int) -> Option<int>
    decreases s.len() - i,
{
    if i < 0 || i >= s.len() {
        None
    } else if label_end(s, i) >= 0 && score_after(s, label_end(s, i)) is Some {
        score_after(s, label_end(s, i))
    } else {
        labelled_score_from(s, i + 1)
    }
}

/// A score written as one to three digits over 100 at `p`.
pub open spec fn over_hundred_at(s: Seq<char>, p: int) -> Option<int> {
    if 0 <= p < s.len() && is_digit(s[p]) {
        let e = min_int(digits_end(s, p), p + 3);
        let a = spaces_end(s, e);
        if a < s.len() && s[a] == '/' && occurs_at(s, "100"@, spaces_end(s, a + 1)) {
            Some(digits_value(s, p, e))
        } else {
            None
        }
    } else {
        None
    }
}

pub open spec fn over_hundred_from(s: Seq<char>, i: int) -> Option<int>
    decreases s.len() - i,
{
    if i < 0 || i >= s.len() {
        None
    } else if over_hundred_at(s, i) is Some {
        over_hundred_at(s, i)
    } else {
        over_hundred_from(s, i + 1)
    }
}

pub open spec fn rated_from(s: Seq<char>, i: int) -> Option<int>
    decreases s.len() - i,
{
    if i < 0 || i >= s.len() {
        None
    } else if occurs_at(s, "\u{8bc4}\u{5206}"@, i) && score_after(s, i + 2) is Some {
        score_after(s, i + 2)
    } else {
        rated_from(s, i + 1)
    }
}

/// `extract_score_from_text`: the first labelled score, else the first
/// score over 100, else the first score after 评分; kept within 0 to 100.
pub open spec fn text_score(s: Seq<char>) -> Option<int> {
    match labelled_score_from(s, 0) {
        Some(n) => Some(clamp100(n)),
        None => match over_hundred_from(s, 0) {
            Some(n) => Some(clamp100(n)),
            None => match rated_from(s, 0) {
                Some(n) => Some(clamp100(n)),
                None => None,
            },
        },
    }
}

/// `extract_status_from_text`: passed when the reply says it passed and not
/// that it failed, failed when it says it failed, else by the score (90 and
/// over passes), else none.
pub open spec fn text_status(s: Seq<char>, score: Option<int>) -> Option<Seq<char>> {
    let pass = has_sub(s, "\u{901a}\u{8fc7}"@) || ci_has(s, "passed"@);
    let fail = has_sub(s, "\u{672a}\u{901a}\u{8fc7}"@) || ci_has(s, "failed"@);
    if pass && !fail {
        Some("passed"@)
    } else if fail {
        Some("failed"@)
    } else {
        match score {
            Some(x) => Some(if x >= 90 { "passed"@ } else { "failed"@ }),
            None => None,
        }
    }
}

fn ci_occurs_exec(s: &[char], p: &[char], i: usize) -> (r: bool)
    ensures
        r == ci_occurs_at(s@, p@, i as int),
{
    if i > s.len() || p.len() > s.len() - i {
        return false;
    }
    let mut k: usize = 0;
    while k < p.len()
        invariant
            i + p@.len() <= s@.len(),
            s@.len() <= usize::MAX,
            k <= p@.len(),
            forall|j: int| 0 <= j < k ==> ci_char(#[trigger] s@[i + j], p@[j]),
        decreases p@.len() - k,
    {
        let c = s[i + k];
        let q = p[k];
        if !(c == q || ('a' <= q && q <= 'z' && (c as u32) == (q as u32) - 32)) {
            return false;
        }
        k += 1;
    }
    true
}

fn ci_has_exec(s: &[char], p: &[char]) -> (r: bool)
    ensures
        r == ci_has(s@, p@),
{
    let mut i: usize = 0;
    while i <= s.len()
        invariant
            i <= s@.len() + 1,
            forall|j: int| 0 <= j < i ==> !ci_occurs_at(s@, p@, j),
        decreases s@.len() + 1 - i,
    {
        if ci_occurs_exec(s, p, i) {
            return true;
        }
        if i == s.len() {
            assert forall|j: int| #[trigger] ci_occurs_at(s@, p@, j) implies false by {
                assert(j <= s@.len());
            }
            return false;
        }
        i += 1;
    }
    false
}

fn nondigits_end_index(s: &[char], i: usize) -> (r: usize)
    requires
        i <= s@.len(),
    ensures
        r == nondigits_end(s@, i as int),
        i <= r <= s@.len(),
{
    let mut k = i;
    while k < s.len() && !crate::text::is_ascii_digit(s[k])
        invariant
            i <= k <= s@.len(),
            nondigits_end(s@, k as int) == nondigits_end(s@, i as int),
        decreases s@.len() - k,
    {
        k += 1;
    }
    k
}

fn digits_value_upto3(s: &[char], m: usize) -> (r: u64)
    requires
        m < s@.len(),
    ensures
        r == digits_value(s@, m as int, min_int(crate::text::digits_end(s@, m as int), m + 3)),
        r <= 999,
{
    let e0 = crate::text::digits_end_index(s, m);
    let e = if e0 - m < 3 { e0 } else { m + 3 };
    proof {
        crate::text::lemma_digits_end(s@, m as int);
        lemma_digits_value_bound(s@, m as int, e as int);
    }
    match crate::text::digits_value_capped(s, m, e, 1000) {
        Some(v) => v,
        None => 0,
    }
}

proof fn lemma_digits_value_bound(s: Seq<char>, a: int, b: int)
    requires
        0 <= a <= b <= s.len(),
        b - a <= 3,
        forall|k: int| a <= k < b ==> is_digit(#[trigger] s[k]),
    ensures
        0 <= digits_value(s, a, b) <= 999,
{
    assert(digits_value(s, a, a) == 0);
    if b - a >= 1 {
        assert(is_digit(s[a]));
        assert(0 <= digits_value(s, a, a + 1) <= 9);
    }
    if b - a >= 2 {
        assert(is_digit(s[a + 1]));
        assert(0 <= digits_value(s, a, a + 2) <= 99);
    }
    if b - a >= 3 {
        assert(is_digit(s[a + 2]));
        assert(0 <= digits_value(s, a, a + 3) <= 999);
    }
}

fn score_after_exec(s: &[char], q: usize) -> (r: Option<u64>)
    requires
        q <= s@.len(),
    ensures
        match r {
            Some(v) => score_after(s@, q as int) == Some(v as int) && v <= 999,
            None => score_after(s@, q as int) is None,
        },
{
    let m = nondigits_end_index(s, q);
    if m - q <= 10 && m < s.len() {
        Some(digits_value_upto3(s, m))
    } else {
        None
    }
}

fn label_end_exec(s: &[char], p: usize) -> (r: Option<usize>)
    requires
        p < s@.len(),
    ensures
        match r {
            Some(e) => label_end(s@, p as int) == e as int && e <= s@.len(),
            None => label_end(s@, p as int) == -1,
        },
{
    // Reading the length tells the verifier that it fits `usize`.
    let _len = s.len();
    if ci_occurs_exec(s, &chars_of("total score"), p) {
        proof {
            reveal_strlit("total score");
        }
        return Some(p + 11);
    }
    if crate::text::occurs_at_exec(s, &chars_of("\u{603b}\u{5206}"), p) {
        proof {
            reveal_strlit("\u{603b}\u{5206}");
        }
        return Some(p + 2);
    }
    if crate::text::occurs_at_exec(s, &chars_of("\u{7efc}\u{5408}\u{8bc4}\u{5206}"), p) {
        proof {
            reveal_strlit("\u{7efc}\u{5408}\u{8bc4}\u{5206}");
        }
        return Some(p + 4);
    }
    None
}

fn over_hundred_exec(s: &[char], p: usize) -> (r: Option<u64>)
    requires
        p < s@.len(),
    ensures
        match r {
            Some(v) => over_hundred_at(s@, p as int) == Some(v as int) && v <= 999,
            None => over_hundred_at(s@, p as int) is None,
        },
{
    if !crate::text::is_ascii_digit(s[p]) {
        return None;
    }
    let e0 = crate::text::digits_end_index(s, p);
    let e = if e0 - p < 3 { e0 } else { p + 3 };
    let a = crate::text::spaces_end_index(s, e);
    if a < s.len() && s[a] == '/' {
        let b = crate::text::spaces_end_index(s, a + 1);
        if crate::text::occurs_at_exec(s, &chars_of("100"), b) {
            return Some(digits_value_upto3(s, p));
        }
    }
    None
}

/// `extract_score_from_text`.
pub fn extract_score_from_text(text: &str) -> (r: Option<i32>)
    ensures
        match r {
            Some(v) => text_score(text@) == Some(v as int),
            None => text_score(text@) is None,
        },
{
    let s = chars_of(text);
    let mut i: usize = 0;
    while i < s.len()
        invariant
            s@ == text@,
            i <= s@.len(),
            labelled_score_from(s@, 0) == labelled_score_from(s@, i as int),
        decreases s@.len() - i,
    {
        match label_end_exec(&s, i) {
            Some(q) => match score_after_exec(&s, q) {
                Some(v) => {
                    return Some(clamp_score(v as i64));
                },
                None => {},
            },
            None => {},
        }
        i += 1;
    }
    let mut i: usize = 0;
    while i < s.len()
        invariant
            s@ == text@,
            labelled_score_from(s@, 0) is None,
            i <= s@.len(),
            over_hundred_from(s@, 0) == over_hundred_from(s@, i as int),
        decreases s@.len() - i,
    {
        match over_hundred_exec(&s, i) {
            Some(v) => {
                return Some(clamp_score(v as i64));
            },
            None => {},
        }
        i += 1;
    }
    let rate = chars_of("\u{8bc4}\u{5206}");
    proof {
        reveal_strlit("\u{8bc4}\u{5206}");
    }
    let mut i: usize = 0;
    while i < s.len()
        invariant
            s@ == text@,
            rate@ == "\u{8bc4}\u{5206}"@,
            rate@.len() == 2,
            s@.len() <= usize::MAX,
            labelled_score_from(s@, 0) is None,
            over_hundred_from(s@, 0) is None,
            i <= s@.len(),
            rated_from(s@, 0) == rated_from(s@, i as int),
        decreases s@.len() - i,
    {
        if crate::text::occurs_at_exec(&s, &rate, i) {
            match score_after_exec(&s, i + 2) {
                Some(v) => {
                    return Some(clamp_score(v as i64));
                },
                None => {},
            }
        }
        i += 1;
    }
    None
}

/// `extract_status_from_text`.
pub fn extract_status_from_text(text: &str, score: Option<i32>) -> (r: Option<String>)
    ensures
        crate::blocks::opt_view(r) == text_status(
            text@,
            match score {
                Some(x) => Some(x as int),
                None => None,
            },
        ),
{
    let s = chars_of(text);
    let pass = contains_str(text, "\u{901a}\u{8fc7}") || ci_has_exec(&s, &chars_of("passed"));
    let fail = contains_str(text, "\u{672a}\u{901a}\u{8fc7}") || ci_has_exec(&s, &chars_of("failed"));
    if pass && !fail {
        return Some("passed".to_string());
    }
    if fail {
        return Some("failed".to_string());
    }
    match score {
        Some(x) => Some(if x >= 90 { "passed".to_string() } else { "failed".to_string() }),
        None => None,
    }
}

/// The review made from a reply that is no JSON: its score (or the heuristic
/// weighted score) and verdict, with the heuristic review's findings.
pub fn text_review_result(
    completion: &str,
    fallback: ReviewResult,
    local_weighted: i32,
    default_model: &str,
) -> (r: ReviewResult)
    ensures
        r.score == (match text_score(completion@) {
            Some(x) => x,
            None => local_weighted as int,
        }),
        crate::blocks::opt_view(Some(r.status)) == text_status(completion@, Some(r.score as int)),
        r.summary@ == fallback.summary@,
        strings_view(r.issues@) == strings_view(fallback.issues@),
        strings_view(r.suggestions@) == strings_view(fallback.suggestions@),
        dims_view(r.dimensions@) == dims_view(fallback.dimensions@),
        strings_view(r.priority@) == strings_view(fallback.priority@),
        r.rewrite_example@ == fallback.rewrite_example@,
        r.review_model@ == "workfisher-review-master-v1 / text-extraction / "@ + default_model@,
        r.surgery_table is None,
        r.revision_path is None,
{
    let score = match extract_score_from_text(completion) {
        Some(x) => x,
        None => local_weighted,
    };
    let status = match extract_status_from_text(completion, Some(score)) {
        Some(t) => t,
        None => "failed".to_string(),
    };
    let mut model = chars_of("workfisher-review-master-v1 / text-extraction / ");
    append_chars(&mut model, &chars_of(default_model));
    ReviewResult {
        score,
        status,
        summary: fallback.summary,
        issues: fallback.issues,
        suggestions: fallback.suggestions,
        dimensions: fallback.dimensions,
        priority: fallback.priority,
        rewrite_example: fallback.rewrite_example,
        review_model: string_of(&model),
        surgery_table: None,
        revision_path: None,
    }
}

/// What the review request tells the model.
pub open spec fn review_request_view(
    mode: Seq<char>,
    input_summary: Seq<char>,
    duration: Seq<char>,
    script_body: Seq<char>,
    threshold: int,
) -> JsonV {
    JsonV::Object(
        seq![
            ("duration"@, JsonV::Str(duration)),
            ("inputSummary"@, JsonV::Str(input_summary)),
            ("mode"@, JsonV::Str(mode)),
            ("reviewThreshold"@, JsonV::Int(threshold)),
            ("scriptBody"@, JsonV::Str(script_body)),
        ],
    )
}

/// The content of the review request (`build_remote_review_result`).
pub fn review_request(mode: &str, input_summary: &str, duration: &str, script_body: &str, review_threshold: u8) -> (r: Json)
    ensures
        r@ == review_request_view(mode@, input_summary@, duration@, script_body@, review_threshold as int),
{
    let fields: Vec<(String, Json)> = vec![
        ("duration".to_string(), Json::Str(duration.to_string())),
        ("inputSummary".to_string(), Json::Str(input_summary.to_string())),
        ("mode".to_string(), Json::Str(mode.to_string())),
        ("reviewThreshold".to_string(), Json::Int(review_threshold as i64)),
        ("scriptBody".to_string(), Json::Str(script_body.to_string())),
    ];
    proof {
        crate::json::lemma_object_view(fields);
    }
    let r = Json::Object(fields);
    assert(r@->Object_0 =~= review_request_view(mode@, input_summary@, duration@, script_body@, review_threshold as int)->Object_0);
    r
}

} // verus!
