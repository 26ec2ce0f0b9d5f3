//! The records the app keeps in its database, and the rules that shape them:
//! settings with their defaults, project names, fallback sections and the
//! body of a finalized screenplay.
use vstd::prelude::*;
use crate::json::{Json, JsonV};
use crate::text::{chars_of, string_of, append_chars, trim, trim_chars, digits_end, digits_value};
use crate::screenplay_store::{take_chars, take_prefix};

verus! {

pub struct FinalizeScreenplayInput {
    pub project_name: String,
    pub duration: String,
    pub concept: Option<String>,
    pub scenes: Vec<Json>,
    pub doctor: Option<Json>,
    pub linked_script_task_id: Option<String>,
}

pub struct FinalizeScreenplayResult {
    pub project_id: String,
    pub task_id: String,
    pub was_create: bool,
}


pub struct AppSettings {
    pub text_endpoint: String,
    pub text_key: String,
    pub text_model: String,
    pub text_mode: String,
    pub image_endpoint: String,
    pub image_key: String,
    pub image_model: String,
    pub review_threshold: i32,
    pub enable_local_save: bool,
}

pub struct DatabaseMeta {
    pub db_path: String,
    pub data_dir: String,
}

pub struct ScriptDraftInput {
    pub mode: String,
    pub input_summary: String,
    pub genre: Option<String>,
    pub style: Option<String>,
    pub duration: Option<String>,
}

pub struct ScriptDraftResult {
    pub project_id: String,
    pub task_id: String,
    pub project_name: String,
    pub saved_at: String,
}

pub struct ImageVideoDraftInput {
    pub mode: String,
    pub source_script: Option<String>,
    pub visual_style: Option<String>,
    pub image_goal: Option<String>,
    pub script_beats: Option<String>,
    pub video_style: Option<String>,
    pub motion_focus: Option<String>,
    pub project_id: Option<String>,
}

pub struct DraftResult {
    pub project_id: String,
    pub task_id: String,
    pub saved_at: String,
}

pub struct ScriptGenerationInput {
    pub mode: String,
    pub duration: Option<String>,
    pub input_summary: String,
    pub style_preset: Option<String>,
    pub genres: Option<String>,
    pub audience: Option<String>,
    pub tone: Option<String>,
    pub ending: Option<String>,
    pub output_mode: Option<String>,
    pub episodes: Option<String>,
    pub custom_style: Option<String>,
    pub existing_project_id: Option<String>,
    pub existing_task_id: Option<String>,
}

pub struct ScriptSection {
    pub title: String,
    pub content: String,
}

pub struct ScriptGenerationResult {
    pub project_id: String,
    pub task_id: String,
    pub stage: String,
    pub generated_at: String,
    pub project_name: String,
    pub sections: Vec<ScriptSection>,
    pub characters: Vec<Json>,
}

pub struct ImportScriptInput {
    pub script_body: String,
    pub input_summary: Option<String>,
    pub duration: Option<String>,
}

pub struct ScriptTaskSummary {
    pub task_id: String,
    pub project_id: String,
    pub project_name: String,
    pub mode: String,
    pub input_summary: String,
    pub genre: String,
    pub style: String,
    pub duration: String,
    pub stage: String,
    pub updated_at: String,
    pub review_score: Option<i32>,
    pub review_status: Option<String>,
}

/// The value stored for a setting: that of its last row with a value.
pub open spec fn setting(rows: Seq<(String, Option<String>)>, k: Seq<char>) -> Option<Seq<char>>
    decreases rows.len(),
{
    if rows.len() == 0 {
        None
    } else if rows.last().0@ == k && rows.last().1 is Some {
        Some(rows.last().1->0@)
    } else {
        setting(rows.drop_last(), k)
    }
}

pub open spec fn or_default(o: Option<Seq<char>>, d: Seq<char>) -> Seq<char> {
    match o {
        Some(x) => x,
        None => d,
    }
}

/// What `str::parse::<i32>` accepts: an optional sign, then one or more ASCII
/// digits whose signed value fits `i32`.
pub open spec fn spec_parse_i32(s: Seq<char>) -> Option<int> {
    let neg = s.len() > 0 && s[0] == '-';
    let a: int = if s.len() > 0 && (s[0] == '+' || s[0] == '-') { 1 } else { 0 };
    let v = digits_value(s, a, s.len() as int);
    if a < s.len() && digits_end(s, a) == s.len() {
        if neg && v <= 0x8000_0000 {
            Some(-v)
        } else if !neg && v <= 0x7fff_ffff {
            Some(v)
        } else {
            None
        }
    } else {
        None
    }
}

/// The text model's API mode: `openai`, `gemini` or `anthropic`, else `openai`.
pub open spec fn text_mode_of(m: Option<Seq<char>>) -> Seq<char> {
    let mode = or_default(m, "openai"@);
    if mode == "openai"@ || mode == "gemini"@ || mode == "anthropic"@ {
        mode
    } else {
        "openai"@
    }
}

/// The review threshold: the stored number within 0 to 100, else 90.
pub open spec fn threshold_of(m: Option<Seq<char>>) -> int {
    match m {
        Some(t) => match spec_parse_i32(t) {
            Some(v) => if v < 0 { 0 } else if v > 100 { 100 } else { v },
            None => 90,
        },
        None => 90,
    }
}

/// The settings the stored rows give, each defaulted.
pub open spec fn settings_spec(r: AppSettings, rows: Seq<(String, Option<String>)>) -> bool {
    &&& r.text_endpoint@ == or_default(setting(rows, "textEndpoint"@), Seq::empty())
    &&& r.text_key@ == or_default(setting(rows, "textKey"@), Seq::empty())
    &&& r.text_model@ == or_default(setting(rows, "textModel"@), "deepseek-reasoner"@)
    &&& r.text_mode@ == text_mode_of(setting(rows, "textMode"@))
    &&& r.image_endpoint@ == or_default(setting(rows, "imageEndpoint"@), Seq::empty())
    &&& r.image_key@ == or_default(setting(rows, "imageKey"@), Seq::empty())
    &&& r.image_model@ == or_default(setting(rows, "imageModel"@), Seq::empty())
    &&& r.review_threshold == threshold_of(setting(rows, "reviewThreshold"@))
    &&& r.enable_local_save == (match setting(rows, "enableLocalSave"@) {
        Some(v) => v == "1"@,
        None => true,
    })
}

fn setting_exec(rows: &Vec<(String, Option<String>)>, k: &str) -> (r: Option<String>)
    ensures
        crate::blocks::opt_view(r) == setting(rows@, k@),
{
    let mut i = rows.len();
    assert(rows@.take(i as int) =~= rows@);
    while i > 0
        invariant
            i <= rows@.len(),
            setting(rows@, k@) == setting(rows@.take(i as int), k@),
        decreases i,
    {
        assert(rows@.take(i as int).drop_last() =~= rows@.take(i - 1));
        if crate::text::str_eq(rows[i - 1].0.as_str(), k) {
            match &rows[i - 1].1 {
                Some(v) => {
                    return Some(v.clone());
                },
                None => {},
            }
        }
        i -= 1;
    }
    None
}

fn or_default_exec(o: Option<String>, d: &str) -> (r: String)
    ensures
        r@ == or_default(crate::blocks::opt_view(o), d@),
{
    match o {
        Some(x) => x,
        None => d.to_string(),
    }
}

pub fn parse_i32(s: &str) -> (r: Option<i32>)
    ensures
        match r {
            Some(v) => spec_parse_i32(s@) == Some(v as int),
            None => spec_parse_i32(s@) is None,
        },
{
    let c = chars_of(s);
    let neg = c.len() > 0 && c[0] == '-';
    let a: usize = if c.len() > 0 && (c[0] == '+' || c[0] == '-') { 1 } else { 0 };
    if a >= c.len() {
        return None;
    }
    proof {
        crate::text::lemma_digits_end(c@, a as int);
    }
    let e = crate::text::digits_end_index(&c, a);
    if e != c.len() {
        return None;
    }
    match crate::text::digits_value_capped(&c, a, e, 0x8000_0000) {
        Some(v) => {
            if neg {
                Some((0i64 - v as i64) as i32)
            } else if v <= 0x7fff_ffff {
                Some(v as i32)
            } else {
                None
            }
        },
        None => None,
    }
}

/// `get_app_settings`: the settings the stored rows give.
pub fn settings_from_rows(rows: &Vec<(String, Option<String>)>) -> (r: AppSettings)
    ensures
        settings_spec(r, rows@),
{
    proof {
        reveal_strlit("");
    }
    assert(""@ =~= Seq::<char>::empty());
    let mode = or_default_exec(setting_exec(rows, "textMode"), "openai");
    let text_mode = if crate::text::str_eq(mode.as_str(), "openai") || crate::text::str_eq(mode.as_str(), "gemini")
        || crate::text::str_eq(mode.as_str(), "anthropic") {
        mode
    } else {
        "openai".to_string()
    };
    let review_threshold: i32 = match setting_exec(rows, "reviewThreshold") {
        Some(t) => match parse_i32(t.as_str()) {
            Some(v) => if v < 0 { 0 } else if v > 100 { 100 } else { v },
            None => 90,
        },
        None => 90,
    };
    let enable_local_save = match setting_exec(rows, "enableLocalSave") {
        Some(v) => crate::text::str_eq(v.as_str(), "1"),
        None => true,
    };
    AppSettings {
        text_endpoint: or_default_exec(setting_exec(rows, "textEndpoint"), ""),
        text_key: or_default_exec(setting_exec(rows, "textKey"), ""),
        text_model: or_default_exec(setting_exec(rows, "textModel"), "deepseek-reasoner"),
        text_mode,
        image_endpoint: or_default_exec(setting_exec(rows, "imageEndpoint"), ""),
        image_key: or_default_exec(setting_exec(rows, "imageKey"), ""),
        image_model: or_default_exec(setting_exec(rows, "imageModel"), ""),
        review_threshold,
        enable_local_save,
    }
}


/// Decimal text of an integer, with `-` when negative.
pub open spec fn int_text(v: int) -> Seq<char> {
    crate::prompt_generation::signed_decimal(v)
}

fn i32_text(v: i32) -> (r: Vec<char>)
    ensures
        r@ == int_text(v as int),
{
    if v < 0 {
        let m: u64 = (0i64 - v as i64) as u64;
        let mut out: Vec<char> = Vec::new();
        out.push('-');
        append_chars(&mut out, &crate::text::decimal_chars(m));
        out
    } else {
        crate::text::decimal_chars(v as u64)
    }
}

/// The rows `save_app_settings` writes for the settings, in order.
pub open spec fn settings_rows(i: AppSettings) -> Seq<(Seq<char>, Seq<char>)> {
    seq![
        ("textEndpoint"@, i.text_endpoint@),
        ("textKey"@, i.text_key@),
        ("textModel"@, i.text_model@),
        ("textMode"@, i.text_mode@),
        ("imageEndpoint"@, i.image_endpoint@),
        ("imageKey"@, i.image_key@),
        ("imageModel"@, i.image_model@),
        ("reviewThreshold"@, int_text(i.review_threshold as int)),
        ("enableLocalSave"@, if i.enable_local_save { "1"@ } else { "0"@ }),
    ]
}

pub open spec fn pair_views(v: Seq<(String, String)>) -> Seq<(Seq<char>, Seq<char>)> {
    v.map_values(|e: (String, String)| (e.0@, e.1@))
}

/// The key-value rows that store the settings.
pub fn settings_pairs(input: &AppSettings) -> (r: Vec<(String, String)>)
    ensures
        pair_views(r@) == settings_rows(*input),
{
    let mut v: Vec<(String, String)> = Vec::new();
    v.push(("textEndpoint".to_string(), input.text_endpoint.clone()));
    v.push(("textKey".to_string(), input.text_key.clone()));
    v.push(("textModel".to_string(), input.text_model.clone()));
    v.push(("textMode".to_string(), input.text_mode.clone()));
    v.push(("imageEndpoint".to_string(), input.image_endpoint.clone()));
    v.push(("imageKey".to_string(), input.image_key.clone()));
    v.push(("imageModel".to_string(), input.image_model.clone()));
    v.push(("reviewThreshold".to_string(), string_of(&i32_text(input.review_threshold))));
    v.push(("enableLocalSave".to_string(), if input.enable_local_save { "1".to_string() } else { "0".to_string() }));
    assert(pair_views(v@) =~= settings_rows(*input));
    v
}

proof fn lemma_digits_end_from(s: Seq<char>, i: int)
    requires
        0 <= i <= s.len(),
        forall|k: int| 0 <= k < s.len() ==> crate::text::is_digit(#[trigger] s[k]),
    ensures
        digits_end(s, i) == s.len(),
    decreases s.len() - i,
{
    if i < s.len() {
        lemma_digits_end_from(s, i + 1);
    }
}

proof fn lemma_digits_value_prefix(s: Seq<char>, c: char, k: int)
    requires
        0 <= k <= s.len(),
    ensures
        digits_value(s.push(c), 0, k) == digits_value(s, 0, k),
    decreases k,
{
    if k > 0 {
        lemma_digits_value_prefix(s, c, k - 1);
    }
}

/// The decimal text of a number is all digits, and reads back as the number.
proof fn lemma_decimal_reads_back(n: nat)
    ensures
        crate::text::decimal(n).len() >= 1,
        forall|k: int| 0 <= k < crate::text::decimal(n).len() ==> crate::text::is_digit(#[trigger] crate::text::decimal(n)[k]),
        digits_value(crate::text::decimal(n), 0, crate::text::decimal(n).len() as int) == n,
    decreases n,
{
    let d = crate::text::decimal(n);
    if n < 10 {
        assert(d == seq![crate::text::digit_char(n as int)]);
        assert(digits_value(d, 0, 1) == digits_value(d, 0, 0) * 10 + (d[0] as int - '0' as int));
    } else {
        lemma_decimal_reads_back(n / 10);
        let h = crate::text::decimal(n / 10);
        let c = crate::text::digit_char((n % 10) as int);
        assert(d == h.push(c)) by {
            assert(h + seq![c] =~= h.push(c));
        }
        assert forall|k: int| 0 <= k < d.len() implies crate::text::is_digit(#[trigger] d[k]) by {
            if k < h.len() {
                assert(d[k] == h[k]);
            }
        }
        lemma_digits_value_prefix(h, c, h.len() as int);
        assert(digits_value(d, 0, d.len() as int) == digits_value(d, 0, h.len() as int) * 10 + (c as int - '0' as int));
    }
}

/// The number text saving writes for a threshold of 0 to 100 reads back as it.
proof fn lemma_threshold_reads_back(v: int)
    requires
        0 <= v <= 100,
    ensures
        threshold_of(Some(int_text(v))) == v,
{
    let d = crate::text::decimal(v as nat);
    lemma_decimal_reads_back(v as nat);
    lemma_digits_end_from(d, 0);
    assert(int_text(v) == d);
    assert(d[0] != '-' && d[0] != '+') by {
        assert(crate::text::is_digit(d[0]));
    }
}

/// The same settings, field by field.
pub open spec fn same_settings(a: AppSettings, b: AppSettings) -> bool {
    &&& a.text_endpoint@ == b.text_endpoint@
    &&& a.text_key@ == b.text_key@
    &&& a.text_model@ == b.text_model@
    &&& a.text_mode@ == b.text_mode@
    &&& a.image_endpoint@ == b.image_endpoint@
    &&& a.image_key@ == b.image_key@
    &&& a.image_model@ == b.image_model@
    &&& a.review_threshold == b.review_threshold
    &&& a.enable_local_save == b.enable_local_save
}

/// Law: settings that were saved load back as they were. When every key of
/// the saved rows holds the value saving wrote for it, the settings read from
/// the stored rows are the saved ones, provided the saved mode is one of
/// `openai`, `gemini`, `anthropic` and the threshold lies in 0 to 100 (other
/// values are normalized on loading).
pub proof fn law_saved_settings_load_back(s: AppSettings, rows: Seq<(String, Option<String>)>, r: AppSettings)
    requires
        s.text_mode@ == "openai"@ || s.text_mode@ == "gemini"@ || s.text_mode@ == "anthropic"@,
        0 <= s.review_threshold <= 100,
        forall|j: int| 0 <= j < settings_rows(s).len() ==> setting(rows, (#[trigger] settings_rows(s)[j]).0)
            == Some(settings_rows(s)[j].1),
        settings_spec(r, rows),
    ensures
        same_settings(r, s),
{
    let sr = settings_rows(s);
    assert(setting(rows, "textEndpoint"@) == Some(s.text_endpoint@)) by { assert(sr[0].0 == "textEndpoint"@); }
    assert(setting(rows, "textKey"@) == Some(s.text_key@)) by { assert(sr[1].0 == "textKey"@); }
    assert(setting(rows, "textModel"@) == Some(s.text_model@)) by { assert(sr[2].0 == "textModel"@); }
    assert(setting(rows, "textMode"@) == Some(s.text_mode@)) by { assert(sr[3].0 == "textMode"@); }
    assert(setting(rows, "imageEndpoint"@) == Some(s.image_endpoint@)) by { assert(sr[4].0 == "imageEndpoint"@); }
    assert(setting(rows, "imageKey"@) == Some(s.image_key@)) by { assert(sr[5].0 == "imageKey"@); }
    assert(setting(rows, "imageModel"@) == Some(s.image_model@)) by { assert(sr[6].0 == "imageModel"@); }
    assert(setting(rows, "reviewThreshold"@) == Some(int_text(s.review_threshold as int))) by {
        assert(sr[7].0 == "reviewThreshold"@);
    }
    assert(setting(rows, "enableLocalSave"@) == Some(if s.enable_local_save { "1"@ } else { "0"@ })) by {
        assert(sr[8].0 == "enableLocalSave"@);
    }
    lemma_threshold_reads_back(s.review_threshold as int);
    assert("0"@ != "1"@) by {
        reveal_strlit("0");
        reveal_strlit("1");
        assert("0"@[0] != "1"@[0]);
    }
}

/// The label of a script mode.
pub open spec fn mode_prefix(mode: Seq<char>) -> Seq<char> {
    if mode == "plot"@ {
        "\u{5267}\u{60c5}\u{63cf}\u{8ff0}\u{751f}\u{6210}\u{5267}\u{672c}"@
    } else if mode == "image"@ {
        "\u{56fe}\u{7247}\u{751f}\u{6210}\u{8fde}\u{7eed}\u{6027}\u{5267}\u{672c}"@
    } else if mode == "rewrite"@ {
        "\u{5267}\u{672c}\u{4f18}\u{5316}\u{91cd}\u{751f}\u{7cfb}\u{7edf}"@
    } else {
        "\u{5267}\u{672c}"@
    }
}

/// The name of a script draft's project: the mode's label with `草稿` when
/// the summary is blank, else with the first 18 chars of the trimmed summary.
pub open spec fn spec_project_name(mode: Seq<char>, summary: Seq<char>) -> Seq<char> {
    let s = trim(summary);
    if s.len() == 0 {
        mode_prefix(mode) + "\u{8349}\u{7a3f}"@
    } else {
        mode_prefix(mode) + " - "@ + take_chars(s, 18)
    }
}

fn mode_prefix_exec(mode: &str) -> (r: &'static str)
    ensures
        r@ == mode_prefix(mode@),
{
    if crate::text::str_eq(mode, "plot") {
        "\u{5267}\u{60c5}\u{63cf}\u{8ff0}\u{751f}\u{6210}\u{5267}\u{672c}"
    } else if crate::text::str_eq(mode, "image") {
        "\u{56fe}\u{7247}\u{751f}\u{6210}\u{8fde}\u{7eed}\u{6027}\u{5267}\u{672c}"
    } else if crate::text::str_eq(mode, "rewrite") {
        "\u{5267}\u{672c}\u{4f18}\u{5316}\u{91cd}\u{751f}\u{7cfb}\u{7edf}"
    } else {
        "\u{5267}\u{672c}"
    }
}

/// `script_project_name`: the name of a script draft's project.
pub fn script_project_name(mode: &str, input_summary: &str) -> (r: String)
    ensures
        r@ == spec_project_name(mode@, input_summary@),
{
    let prefix = mode_prefix_exec(mode);
    let s = trim_chars(&chars_of(input_summary));
    let mut out = chars_of(prefix);
    if s.len() == 0 {
        append_chars(&mut out, &chars_of("\u{8349}\u{7a3f}"));
    } else {
        append_chars(&mut out, &chars_of(" - "));
        append_chars(&mut out, &take_prefix(&s, 18));
    }
    string_of(&out)
}

/// The preview text of a script mode.
pub open spec fn fallback_text(mode: Seq<char>) -> Seq<char> {
    if mode == "image"@ {
        "\u{3010}\u{56fe}\u{7247}\u{8fde}\u{7eed}\u{6027}\u{5267}\u{672c}\u{9884}\u{6f14}\u{3011}\n\u{7cfb}\u{7edf}\u{6b63}\u{5728}\u{4ece}\u{53c2}\u{8003}\u{56fe}\u{7247}\u{4e2d}\u{53cd}\u{63a8}\u{4eba}\u{7269}\u{8eab}\u{4efd}\u{3001}\u{89c6}\u{89c9}\u{7ebf}\u{7d22}\u{4e0e}\u{51b2}\u{7a81}\u{8d77}\u{70b9}\u{3002}"@
    } else if mode == "rewrite"@ {
        "\u{3010}\u{5267}\u{672c}\u{4f18}\u{5316}\u{91cd}\u{751f}\u{7cfb}\u{7edf}\u{9884}\u{6f14}\u{3011}\n\u{7cfb}\u{7edf}\u{5c06}\u{4fdd}\u{7559}\u{539f}\u{5267}\u{60c5}\u{4e3b}\u{7ebf}\u{ff0c}\u{4f18}\u{5148}\u{538b}\u{7f29}\u{5197}\u{4f59}\u{3001}\u{5f3a}\u{5316}\u{51b2}\u{7a81}\u{3001}\u{63d0}\u{524d}\u{7206}\u{70b9}\u{3002}"@
    } else {
        "\u{3010}\u{5267}\u{60c5}\u{63cf}\u{8ff0}\u{751f}\u{6210}\u{5267}\u{672c}\u{9884}\u{6f14}\u{3011}\n\u{7cfb}\u{7edf}\u{4f1a}\u{56f4}\u{7ed5}\u{91cd}\u{751f}\u{3001}\u{80cc}\u{53db}\u{3001}\u{53cd}\u{51fb}\u{4e09}\u{6761}\u{7ebf}\u{7ec4}\u{7ec7}\u{6545}\u{4e8b}\u{3002}"@
    }
}

/// `fallback_sections`: the one preview section of a script mode.
pub fn fallback_sections(mode: &str) -> (r: Vec<ScriptSection>)
    ensures
        r@.len() == 1,
        r@[0].title@ == "\u{5b8c}\u{6574}\u{7ed3}\u{679c}\u{6587}\u{672c}"@,
        r@[0].content@ == fallback_text(mode@),
{
    let text = if crate::text::str_eq(mode, "image") {
        "\u{3010}\u{56fe}\u{7247}\u{8fde}\u{7eed}\u{6027}\u{5267}\u{672c}\u{9884}\u{6f14}\u{3011}\n\u{7cfb}\u{7edf}\u{6b63}\u{5728}\u{4ece}\u{53c2}\u{8003}\u{56fe}\u{7247}\u{4e2d}\u{53cd}\u{63a8}\u{4eba}\u{7269}\u{8eab}\u{4efd}\u{3001}\u{89c6}\u{89c9}\u{7ebf}\u{7d22}\u{4e0e}\u{51b2}\u{7a81}\u{8d77}\u{70b9}\u{3002}"
    } else if crate::text::str_eq(mode, "rewrite") {
        "\u{3010}\u{5267}\u{672c}\u{4f18}\u{5316}\u{91cd}\u{751f}\u{7cfb}\u{7edf}\u{9884}\u{6f14}\u{3011}\n\u{7cfb}\u{7edf}\u{5c06}\u{4fdd}\u{7559}\u{539f}\u{5267}\u{60c5}\u{4e3b}\u{7ebf}\u{ff0c}\u{4f18}\u{5148}\u{538b}\u{7f29}\u{5197}\u{4f59}\u{3001}\u{5f3a}\u{5316}\u{51b2}\u{7a81}\u{3001}\u{63d0}\u{524d}\u{7206}\u{70b9}\u{3002}"
    } else {
        "\u{3010}\u{5267}\u{60c5}\u{63cf}\u{8ff0}\u{751f}\u{6210}\u{5267}\u{672c}\u{9884}\u{6f14}\u{3011}\n\u{7cfb}\u{7edf}\u{4f1a}\u{56f4}\u{7ed5}\u{91cd}\u{751f}\u{3001}\u{80cc}\u{53db}\u{3001}\u{53cd}\u{51fb}\u{4e09}\u{6761}\u{7ebf}\u{7ec4}\u{7ec7}\u{6545}\u{4e8b}\u{3002}"
    };
    let mut v: Vec<ScriptSection> = Vec::new();
    v.push(ScriptSection { title: "\u{5b8c}\u{6574}\u{7ed3}\u{679c}\u{6587}\u{672c}".to_string(), content: text.to_string() });
    v
}

/// The first line of a text whose trimmed form is not blank, trimmed.
pub open spec fn first_nonblank_from(ls: Seq<Seq<char>>, i: int) -> Option<Seq<char>>
    decreases ls.len() - i,
{
    if i < 0 || i >= ls.len() {
        None
    } else if trim(ls[i]).len() > 0 {
        Some(trim(ls[i]))
    } else {
        first_nonblank_from(ls, i + 1)
    }
}

/// What an imported script is filed under: its trimmed body, the project
/// name `导入剧本 - ` and the first 24 chars of its first non-blank line (or
/// `导入剧本`), and the summary (the given one, else that line) cut to 200 chars.
pub open spec fn import_names(input: ImportScriptInput) -> (Seq<char>, Seq<char>, Seq<char>) {
    let clean = trim(input.script_body@);
    let first = match first_nonblank_from(crate::text::spec_lines(clean), 0) {
        Some(l) => l,
        None => "\u{5bfc}\u{5165}\u{5267}\u{672c}"@,
    };
    let summary = match input.input_summary {
        Some(s) => s@,
        None => first,
    };
    (clean, "\u{5bfc}\u{5165}\u{5267}\u{672c} - "@ + take_chars(first, 24), take_chars(summary, 200))
}

fn first_nonblank(clean: &Vec<char>) -> (r: Option<Vec<char>>)
    ensures
        match r {
            Some(t) => first_nonblank_from(crate::text::spec_lines(clean@), 0) == Some(t@),
            None => first_nonblank_from(crate::text::spec_lines(clean@), 0) is None,
        },
{
    let ls = crate::text::lines(clean);
    let ghost lv = ls@.map_values(|l: Vec<char>| l@);
    let mut i: usize = 0;
    while i < ls.len()
        invariant
            i <= ls@.len(),
            lv == ls@.map_values(|l: Vec<char>| l@),
            lv == crate::text::spec_lines(clean@),
            first_nonblank_from(lv, 0) == first_nonblank_from(lv, i as int),
        decreases ls@.len() - i,
    {
        let t = trim_chars(&ls[i]);
        assert(t@ == trim(lv[i as int]));
        if t.len() > 0 {
            return Some(t);
        }
        i += 1;
    }
    None
}

/// The body, project name and summary an imported script is filed under.
pub fn import_script_names(input: &ImportScriptInput) -> (r: (String, String, String))
    ensures
        r.0@ == import_names(*input).0,
        r.1@ == import_names(*input).1,
        r.2@ == import_names(*input).2,
{
    let clean = trim_chars(&chars_of(input.script_body.as_str()));
    let first = first_nonblank(&clean);
    let first_line: Vec<char> = match first {
        Some(t) => t,
        None => chars_of("\u{5bfc}\u{5165}\u{5267}\u{672c}"),
    };
    let mut name = chars_of("\u{5bfc}\u{5165}\u{5267}\u{672c} - ");
    append_chars(&mut name, &take_prefix(&first_line, 24));
    let summary: Vec<char> = match &input.input_summary {
        Some(s) => chars_of(s.as_str()),
        None => first_line,
    };
    (string_of(&clean), string_of(&name), string_of(&take_prefix(&summary, 200)))
}

/// The script text of a finalized screenplay: each scene's header and body
/// on two lines, scenes separated by a blank line.
pub open spec fn finalized_body(scenes: Seq<JsonV>) -> Seq<char> {
    crate::text::join_with(scenes.map_values(|s: JsonV|
        crate::prompt_generation::as_text(crate::prompt_generation::jget(s, "header"@)) + seq!['\n']
            + crate::prompt_generation::as_text(crate::prompt_generation::jget(s, "body"@))), seq!['\n', '\n'])
}

pub fn finalized_script_body(scenes: &Vec<Json>) -> (r: String)
    ensures
        r@ == finalized_body(scenes@.map_values(|j: Json| j@)),
{
    let mut parts: Vec<String> = Vec::new();
    let mut i: usize = 0;
    while i < scenes.len()
        invariant
            i <= scenes@.len(),
            parts@.len() == i,
            forall|k: int| 0 <= k < i ==> (#[trigger] parts@[k])@ == crate::prompt_generation::as_text(
                crate::prompt_generation::jget(scenes@[k]@, "header"@)) + seq!['\n']
                + crate::prompt_generation::as_text(crate::prompt_generation::jget(scenes@[k]@, "body"@)),
        decreases scenes@.len() - i,
    {
        let h = crate::prompt_generation::json_str(crate::prompt_generation::json_get(&scenes[i], "header"));
        let b = crate::prompt_generation::json_str(crate::prompt_generation::json_get(&scenes[i], "body"));
        let mut v: Vec<char> = match h {
            Some(x) => chars_of(x.as_str()),
            None => Vec::new(),
        };
        v.push('\n');
        match b {
            Some(x) => append_chars(&mut v, &chars_of(x.as_str())),
            None => {},
        }
        assert(v@ =~= crate::prompt_generation::as_text(crate::prompt_generation::jget(scenes@[i as int]@, "header"@)) + seq!['\n']
            + crate::prompt_generation::as_text(crate::prompt_generation::jget(scenes@[i as int]@, "body"@)));
        parts.push(string_of(&v));
        i += 1;
    }
    proof {
        reveal_strlit("\n\n");
    }
    assert("\n\n"@ =~= seq!['\n', '\n']);
    let r = crate::text::join_strings(&parts, "\n\n");
    assert(parts@.map_values(|s: String| s@) =~= scenes@.map_values(|j: Json| j@).map_values(|s: JsonV|
        crate::prompt_generation::as_text(crate::prompt_generation::jget(s, "header"@)) + seq!['\n']
            + crate::prompt_generation::as_text(crate::prompt_generation::jget(s, "body"@))));
    r
}

} // verus!
