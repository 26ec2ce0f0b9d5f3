//! The system prompts and user messages of the model calls: the step, self-
//! check, checkpoint and storyboard prompts, filled from the request's
//! parameters and the prompt templates.
use vstd::prelude::*;
use crate::json::{Json, JsonV};
use crate::prompt_generation::{jget, jstr, as_text, text_or, json_get, json_str, json_to_text, string_items, signed_decimal, json_text};
use crate::text::{chars_of, string_of, append_chars, occurs_at, occurs_at_exec, is_digit, decimal, decimal_chars, spec_parse_u32, parse_u32, join_with, usize_to_string};

verus! {

// ---------------------------------------------------------------------------
// Text helpers
// ---------------------------------------------------------------------------

/// `str::replace`: every occurrence of `p` (a non-empty pattern), scanning
/// left to right without overlap, replaced by `w`; from position `i` on.
pub open spec fn replaced_from(s: Seq<char>, p: Seq<char>, w: Seq<char>, i: int) -> Seq<char>
    decreases s.len() - i,
{
    if i < 0 || i >= s.len() || p.len() == 0 {
        if 0 <= i < s.len() { s.skip(i) } else { Seq::empty() }
    } else if occurs_at(s, p, i) {
        w + replaced_from(s, p, w, i + p.len())
    } else {
        seq![s[i]] + replaced_from(s, p, w, i + 1)
    }
}

pub open spec fn replaced(s: Seq<char>, p: Seq<char>, w: Seq<char>) -> Seq<char> {
    replaced_from(s, p, w, 0)
}

/// `s.replace(p, w)` for a non-empty pattern.
pub fn replace_text(s: &str, p: &str, w: &str) -> (r: String)
    requires
        p@.len() > 0,
    ensures
        r@ == replaced(s@, p@, w@),
{
    let cs = chars_of(s);
    let ps = chars_of(p);
    let ws = chars_of(w);
    let mut out: Vec<char> = Vec::new();
    let mut i: usize = 0;
    while i < cs.len()
        invariant
            cs@ == s@,
            ps@ == p@,
            ws@ == w@,
            p@.len() > 0,
            i <= cs@.len(),
            out@ + replaced_from(s@, p@, w@, i as int) == replaced(s@, p@, w@),
        decreases cs@.len() - i,
    {
        if occurs_at_exec(&cs, &ps, i) {
            append_chars(&mut out, &ws);
            i = i + ps.len();
        } else {
            let ghost before = out@;
            out.push(cs[i]);
            assert(out@ =~= before + seq![cs@[i as int]]);
            i = i + 1;
        }
    }
    assert(replaced_from(s@, p@, w@, i as int) =~= Seq::<char>::empty());
    assert(out@ =~= replaced(s@, p@, w@));
    string_of(&out)
}

/// The ASCII digits of a text, in order.
pub open spec fn digits_only(s: Seq<char>) -> Seq<char>
    decreases s.len(),
{
    if s.len() == 0 {
        Seq::empty()
    } else if is_digit(s.last()) {
        digits_only(s.drop_last()).push(s.last())
    } else {
        digits_only(s.drop_last())
    }
}

/// The minutes a duration text gives fit in seconds of `u32`.
pub open spec fn seconds_fit(duration: Seq<char>) -> bool {
    spec_parse_u32(digits_only(duration)) matches Some(n) ==> n * 60 <= u32::MAX
}

/// `parse_seconds`: the seconds of a duration given in minutes (its digits
/// read as one number), "120" when it has no number that fits `u32`.
pub open spec fn seconds_text(duration: Seq<char>) -> Seq<char> {
    match spec_parse_u32(digits_only(duration)) {
        Some(n) => decimal((n * 60) as nat),
        None => "120"@,
    }
}

pub fn parse_seconds(duration: &str) -> (r: String)
    requires
        seconds_fit(duration@),
    ensures
        r@ == seconds_text(duration@),
{
    let digits = digits_of(&chars_of(duration));
    match parse_u32(&digits) {
        Some(n) => string_of(&decimal_chars((n * 60) as u64)),
        None => "120".to_string(),
    }
}

fn digits_of(cs: &Vec<char>) -> (r: Vec<char>)
    ensures
        r@ == digits_only(cs@),
{
    let mut digits: Vec<char> = Vec::new();
    let mut i: usize = 0;
    while i < cs.len()
        invariant
            i <= cs@.len(),
            digits@ == digits_only(cs@.take(i as int)),
        decreases cs@.len() - i,
    {
        assert(cs@.take(i + 1).drop_last() =~= cs@.take(i as int));
        if '0' <= cs[i] && cs[i] <= '9' {
            digits.push(cs[i]);
        }
        i += 1;
    }
    assert(cs@.take(i as int) =~= cs@);
    digits
}

/// Whether the seconds of a duration fit `u32` (`seconds_fit`).
pub fn seconds_fit_exec(duration: &str) -> (r: bool)
    ensures
        r == seconds_fit(duration@),
{
    match parse_u32(&digits_of(&chars_of(duration))) {
        Some(n) => n <= 71582788,
        None => true,
    }
}

// ---------------------------------------------------------------------------
// Reading the parameters
// ---------------------------------------------------------------------------

/// `v[k]` of a JSON value: the member, or `null` when there is none.
pub open spec fn member(v: JsonV, k: Seq<char>) -> JsonV {
    match jget(v, k) {
        Some(x) => x,
        None => JsonV::Null,
    }
}

/// A non-empty string member.
pub open spec fn filled(v: JsonV, k: Seq<char>) -> Option<Seq<char>> {
    match jstr(jget(v, k)) {
        Some(t) => if t.len() > 0 { Some(t) } else { None },
        None => None,
    }
}

/// `Value::as_u64`.
pub open spec fn as_u64(v: JsonV) -> Option<int> {
    match v {
        JsonV::Int(i) => if i >= 0 { Some(i) } else { None },
        JsonV::UInt(u) => Some(u),
        _ => None,
    }
}

/// `Value::as_bool`.
pub open spec fn is_true(v: JsonV) -> bool {
    v == JsonV::Bool(true)
}

/// The genres of a project, joined with `、` (empty when there are none).
pub open spec fn genres_text(init: JsonV) -> Seq<char> {
    join_with(string_items(jget(init, "genres"@)), "\u{3001}"@)
}

/// The project's duration, "2分钟" when it gives none.
pub open spec fn duration_or_default(init: JsonV) -> Seq<char> {
    text_or(filled(init, "duration"@), "2\u{5206}\u{949f}"@)
}

fn member_exec<'a>(v: &'a Json, k: &str) -> (r: Option<&'a Json>)
    ensures
        match r {
            Some(x) => jget(v@, k@) == Some(x@),
            None => jget(v@, k@) is None,
        },
{
    json_get(v, k)
}

fn filled_exec(v: &Json, k: &str) -> (r: Option<String>)
    ensures
        crate::blocks::opt_view(r) == filled(v@, k@),
{
    match json_str(json_get(v, k)) {
        Some(t) => if !t.as_str().is_empty() {
            Some(t)
        } else {
            None
        },
        None => None,
    }
}

fn push_text(out: &mut Vec<char>, s: &str)
    ensures
        final(out)@ == old(out)@ + s@,
{
    append_chars(out, &chars_of(s));
}

fn genres_exec(init: &Json) -> (r: String)
    ensures
        r@ == genres_text(init@),
{
    let gs = crate::prompt_generation::string_items_of(json_get(init, "genres"));
    crate::text::join_strings(&gs, "\u{3001}")
}

fn is_true_exec(v: Option<&Json>) -> (r: bool)
    ensures
        r == (match v {
            Some(x) => is_true(x@),
            None => false,
        }),
{
    match v {
        Some(Json::Bool(b)) => *b,
        _ => false,
    }
}

// ---------------------------------------------------------------------------
// The step prompt
// ---------------------------------------------------------------------------

/// The project settings at the top of a step's system prompt: one line per
/// setting the project has.
pub open spec fn config_block(init: JsonV) -> Seq<char> {
    (match filled(init, "format"@) {
        Some(f) => "format: "@ + f + "\n"@,
        None => Seq::empty(),
    }) + (match filled(init, "ultrashortMode"@) {
        Some(u) => "ultrashortMode: "@ + u + "\n"@,
        None => Seq::empty(),
    }) + (if genres_text(init).len() > 0 {
        "genres: "@ + genres_text(init) + "\n"@
    } else {
        Seq::empty()
    }) + (if is_true(member(init, "chinese"@)) {
        "chinese: true\n"@
    } else {
        Seq::empty()
    })
}

/// The system prompt of a step: its template with the duration and seconds
/// filled in (empty for a step without one), under the project settings when
/// there are any.
pub open spec fn step_system_text(init: JsonV, template: Option<Seq<char>>, duration: Seq<char>) -> Seq<char> {
    let body = match template {
        Some(t) => replaced(replaced(t, "{duration}"@, duration), "{seconds}"@, seconds_text(duration)),
        None => Seq::empty(),
    };
    if config_block(init).len() > 0 {
        "## \u{9879}\u{76ee}\u{914d}\u{7f6e}\n"@ + config_block(init) + "\n\n"@ + body
    } else {
        body
    }
}

fn config_block_exec(init: &Json) -> (r: Vec<char>)
    ensures
        r@ == config_block(init@),
{
    let mut out: Vec<char> = Vec::new();
    match filled_exec(init, "format") {
        Some(f) => {
            push_text(&mut out, "format: ");
            push_text(&mut out, f.as_str());
            push_text(&mut out, "\n");
        },
        None => {},
    }
    let ghost a = out@;
    match filled_exec(init, "ultrashortMode") {
        Some(u) => {
            push_text(&mut out, "ultrashortMode: ");
            push_text(&mut out, u.as_str());
            push_text(&mut out, "\n");
        },
        None => {},
    }
    let ghost b = out@;
    let g = genres_exec(init);
    if !g.as_str().is_empty() {
        push_text(&mut out, "genres: ");
        push_text(&mut out, g.as_str());
        push_text(&mut out, "\n");
    }
    let ghost c = out@;
    if is_true_exec(json_get(init, "chinese")) {
        push_text(&mut out, "chinese: true\n");
    }
    proof {
        reveal_strlit("");
        assert(out@ =~= config_block(init@));
    }
    out
}

/// The seconds of every duration the step prompt reads fit `u32`.
pub open spec fn step_params_ok(params: JsonV) -> bool {
    seconds_fit(duration_or_default(member(params, "init"@)))
}

/// Whether a step's parameters can be read (`step_params_ok`).
pub fn step_params_readable(params: &Json) -> (r: bool)
    ensures
        r == step_params_ok(params@),
{
    proof {
        reveal_strlit("2\u{5206}\u{949f}");
    }
    let null = Json::Null;
    let init = match member_exec(params, "init") {
        Some(x) => x,
        None => &null,
    };
    match filled_exec(init, "duration") {
        Some(d) => seconds_fit_exec(d.as_str()),
        None => seconds_fit_exec("2\u{5206}\u{949f}"),
    }
}

/// `build_step_system` and the settings block of `build_step_prompt`: the
/// system prompt of a step, from its template (`None` for a step number
/// outside 1 to 8).
pub fn step_system(params: &Json, template: Option<&str>) -> (r: String)
    requires
        step_params_ok(params@),
    ensures
        r@ == step_system_text(
            member(params@, "init"@),
            match template {
                Some(t) => Some(t@),
                None => None,
            },
            duration_or_default(member(params@, "init"@)),
        ),
{
    proof {
        reveal_strlit("2\u{5206}\u{949f}");
    }
    let null = Json::Null;
    let init = match member_exec(params, "init") {
        Some(x) => x,
        None => &null,
    };
    let duration = match filled_exec(init, "duration") {
        Some(d) => d,
        None => "2\u{5206}\u{949f}".to_string(),
    };
    let seconds = parse_seconds(duration.as_str());
    proof {
        reveal_strlit("{duration}");
        reveal_strlit("{seconds}");
    }
    let body = match template {
        Some(t) => {
            let a = replace_text(t, "{duration}", duration.as_str());
            replace_text(a.as_str(), "{seconds}", seconds.as_str())
        },
        None => String::new(),
    };
    let block = config_block_exec(init);
    if block.len() > 0 {
        let mut out = chars_of("## \u{9879}\u{76ee}\u{914d}\u{7f6e}\n");
        append_chars(&mut out, &block);
        push_text(&mut out, "\n\n");
        push_text(&mut out, body.as_str());
        string_of(&out)
    } else {
        body
    }
}

// ---------------------------------------------------------------------------
// The step's user message
// ---------------------------------------------------------------------------

/// The `structured` output of step `n` in a project snapshot, when it has
/// one that is not `null`.
pub open spec fn structured_of(snapshot: JsonV, n: nat) -> Option<JsonV> {
    match jget(snapshot, "steps"@) {
        Some(JsonV::Object(fs)) => match jget(JsonV::Object(fs), decimal(n)) {
            Some(step) => match jget(step, "structured"@) {
                Some(x) => if x != JsonV::Null {
                    Some(x)
                } else {
                    None
                },
                None => None,
            },
            None => None,
        },
        _ => None,
    }
}

/// The outputs of steps `1..n` of a snapshot, with their step numbers.
pub open spec fn outputs_before(snapshot: JsonV, n: nat) -> Seq<(nat, JsonV)>
    decreases n,
{
    if n <= 1 {
        Seq::empty()
    } else {
        let prev = outputs_before(snapshot, (n - 1) as nat);
        match structured_of(snapshot, (n - 1) as nat) {
            Some(x) => prev.push(((n - 1) as nat, x)),
            None => prev,
        }
    }
}

fn header_exec(init: &Json) -> (r: Vec<char>)
    ensures
        r@ == header_text(init@),
{
    proof {
        reveal_strlit("");
    }
    let mut out: Vec<char> = Vec::new();
    let concept = filled_exec(init, "concept");
    let name = filled_exec(init, "name");
    let same = match (&name, &concept) {
        (Some(a), Some(b)) => crate::text::str_eq(a.as_str(), b.as_str()),
        (None, None) => true,
        _ => false,
    };
    push_opt_section(&mut out, "## \u{9879}\u{76ee}\u{6838}\u{5fc3}\u{6982}\u{5ff5}\n", concept);
    if !same {
        push_opt_section(&mut out, "## \u{9879}\u{76ee}\u{540d}\u{79f0}\n", name);
    }
    push_opt_section(&mut out, "## \u{9879}\u{76ee}\u{683c}\u{5f0f}\n", filled_exec(init, "format"));
    push_opt_section(&mut out, "## \u{8d85}\u{77ed}\u{7247}\u{6a21}\u{5f0f}\n", filled_exec(init, "ultrashortMode"));
    let g = genres_exec(init);
    if !g.as_str().is_empty() {
        push_section(&mut out, "## \u{9898}\u{6750}\n", g.as_str());
    }
    if is_true_exec(json_get(init, "chinese")) {
        push_text(&mut out, "## \u{4e2d}\u{5f0f}\u{53d9}\u{4e8b}\n\u{542f}\u{7528}\n\n");
    }
    proof {
        assert(same == (crate::blocks::opt_view(name) == crate::blocks::opt_view(concept)));
        assert(out@ =~= header_text(init@));
    }
    out
}

/// `build_user_message` reads the outputs of the steps before `step_number`
/// from the snapshot; this lists them, for their text to be written out.
pub fn previous_outputs(snapshot: &Json, step_number: u64) -> (r: Vec<(u64, Json)>)
    ensures
        r@.len() == outputs_before(snapshot@, step_number as nat).len(),
        forall|k: int|
            0 <= k < r@.len() ==> (#[trigger] r@[k]).0 as nat == outputs_before(
                snapshot@,
                step_number as nat,
            )[k].0 && r@[k].1@ == outputs_before(snapshot@, step_number as nat)[k].1,
{
    let mut out: Vec<(u64, Json)> = Vec::new();
    let mut n: u64 = 1;
    while n < step_number
        invariant
            1 <= n,
            n <= step_number || step_number <= 1,
            step_number <= 1 ==> n == 1,
            out@.len() == outputs_before(snapshot@, n as nat).len(),
            forall|k: int|
                0 <= k < out@.len() ==> (#[trigger] out@[k]).0 as nat == outputs_before(
                    snapshot@,
                    n as nat,
                )[k].0 && out@[k].1@ == outputs_before(snapshot@, n as nat)[k].1,
        decreases step_number - n,
    {
        let found = structured_exec(snapshot, n);
        match found {
            Some(x) => {
                out.push((n, x));
            },
            None => {},
        }
        n += 1;
    }
    proof {
        if step_number <= 1 {
            assert(outputs_before(snapshot@, step_number as nat) =~= outputs_before(snapshot@, n as nat));
        }
    }
    out
}

fn structured_exec(snapshot: &Json, n: u64) -> (r: Option<Json>)
    ensures
        match r {
            Some(x) => structured_of(snapshot@, n as nat) == Some(x@),
            None => structured_of(snapshot@, n as nat) is None,
        },
{
    match json_get(snapshot, "steps") {
        Some(steps) => match steps {
            Json::Object(_) => {
                let key = string_of(&decimal_chars(n));
                match json_get(steps, key.as_str()) {
                    Some(step) => match json_get(step, "structured") {
                        Some(x) => match x {
                            Json::Null => None,
                            _ => Some(x.clone()),
                        },
                        None => None,
                    },
                    None => None,
                }
            },
            _ => None,
        },
        None => None,
    }
}

} // verus!

verus! {

/// The first `n` chars of a text (all of it when shorter).
pub open spec fn first_chars(s: Seq<char>, n: int) -> Seq<char> {
    if s.len() <= n {
        s
    } else {
        s.take(n)
    }
}

/// A section of the user message: a heading and its text, then a blank line.
pub open spec fn section(heading: Seq<char>, body: Seq<char>) -> Seq<char> {
    heading + body + "\n\n"@
}

pub open spec fn opt_section(heading: Seq<char>, body: Option<Seq<char>>) -> Seq<char> {
    match body {
        Some(b) => section(heading, b),
        None => Seq::empty(),
    }
}

/// The outputs of the earlier steps, each under its heading, cut to 1500 chars.
pub open spec fn outputs_text(outputs: Seq<(nat, Seq<char>)>) -> Seq<char>
    decreases outputs.len(),
{
    if outputs.len() == 0 {
        Seq::empty()
    } else {
        outputs_text(outputs.drop_last()) + "### \u{7b2c}"@ + decimal(outputs.last().0) + "\u{6b65}\u{4ea7}\u{51fa}\n"@
            + first_chars(outputs.last().1, 1500) + "\n\n"@
    }
}

/// The project part of a step's user message.
pub open spec fn header_text(init: JsonV) -> Seq<char> {
    opt_section("## \u{9879}\u{76ee}\u{6838}\u{5fc3}\u{6982}\u{5ff5}\n"@, filled(init, "concept"@)) + (if filled(init, "name"@) != filled(init, "concept"@) {
        opt_section("## \u{9879}\u{76ee}\u{540d}\u{79f0}\n"@, filled(init, "name"@))
    } else {
        Seq::empty()
    }) + opt_section("## \u{9879}\u{76ee}\u{683c}\u{5f0f}\n"@, filled(init, "format"@)) + opt_section(
        "## \u{8d85}\u{77ed}\u{7247}\u{6a21}\u{5f0f}\n"@,
        filled(init, "ultrashortMode"@),
    ) + (if genres_text(init).len() > 0 {
        section("## \u{9898}\u{6750}\n"@, genres_text(init))
    } else {
        Seq::empty()
    }) + (if is_true(member(init, "chinese"@)) {
        "## \u{4e2d}\u{5f0f}\u{53d9}\u{4e8b}\n\u{542f}\u{7528}\n\n"@
    } else {
        Seq::empty()
    })
}

/// The user message of a step: the project's concept, name (when it differs
/// from the concept), format, short-film mode, genres and Chinese-narrative
/// flag; the duration warning for steps 6 and 7; the earlier steps' outputs;
/// the user's requests; and the closing instruction.
pub open spec fn user_message_text(
    step_number: int,
    init: JsonV,
    outputs: Seq<(nat, Seq<char>)>,
    user_feedback: Seq<char>,
) -> Seq<char> {
    header_text(init) + (if step_number == 6 || step_number == 7 {
        "\n## \u{26a0} \u{65f6}\u{957f}\u{7ea2}\u{7ebf}\n\u{672c}\u{6b65}\u{6d89}\u{53ca}\u{5177}\u{4f53}\u{573a}\u{666f}\u{65f6}\u{957f}\u{3002}\u{6240}\u{6709}\u{573a}\u{666f} duration \u{52a0}\u{8d77}\u{6765}\u{5fc5}\u{987b} \u{2248} **"@ + duration_or_default(init) + "** (\u{b1}10%)\u{3002}\n\u{8f93}\u{51fa}\u{524d}\u{5148}\u{81ea}\u{5df1}\u{628a} duration \u{5b57}\u{6bb5}\u{8f6c}\u{79d2}\u{7d2f}\u{52a0}\u{4e00}\u{6b21}\u{ff0c}\u{9a8c}\u{8bc1}\u{5728}\u{76ee}\u{6807}\u{533a}\u{95f4}\u{5185}\u{518d}\u{8f93}\u{51fa}\u{3002}\n\n"@
    } else {
        Seq::empty()
    }) + outputs_text(outputs) + (if user_feedback.len() > 0 {
        section("## \u{7528}\u{6237}\u{4fee}\u{6539}\u{8981}\u{6c42}\n"@, user_feedback)
    } else {
        Seq::empty()
    }) + "\u{8bf7}\u{4e25}\u{683c}\u{6309} system \u{4e2d} \"\u{5f53}\u{524d}\u{4efb}\u{52a1}\" \u{7684}\u{8f93}\u{51fa}\u{683c}\u{5f0f}\u{8981}\u{6c42}\u{4ea7}\u{51fa}\u{ff0c}\u{4e0d}\u{8981}\u{8f93}\u{51fa}\u{4efb}\u{4f55} meta \u{89e3}\u{91ca}\u{3002}"@
}

pub open spec fn outputs_view(outputs: Seq<(u64, String)>) -> Seq<(nat, Seq<char>)> {
    outputs.map_values(|o: (u64, String)| (o.0 as nat, o.1@))
}

fn push_section(out: &mut Vec<char>, heading: &str, body: &str)
    ensures
        final(out)@ == old(out)@ + section(heading@, body@),
{
    push_text(out, heading);
    push_text(out, body);
    push_text(out, "\n\n");
}

fn push_opt_section(out: &mut Vec<char>, heading: &str, body: Option<String>)
    ensures
        final(out)@ == old(out)@ + opt_section(heading@, crate::blocks::opt_view(body)),
{
    match body {
        Some(b) => push_section(out, heading, b.as_str()),
        None => {},
    }
}

/// `build_user_message`, with the text of each earlier step's output (as
/// `to_string_pretty` writes it) given with its step number.
pub fn build_user_message(
    step_number: u64,
    init: &Json,
    outputs: &Vec<(u64, String)>,
    user_feedback: &str,
) -> (r: String)
    ensures
        r@ == user_message_text(step_number as int, init@, outputs_view(outputs@), user_feedback@),
{
    proof {
        reveal_strlit("");
        reveal_strlit("2\u{5206}\u{949f}");
    }
    let mut out = header_exec(init);
    let ghost p2 = out@;
    if step_number == 6 || step_number == 7 {
        let duration = match filled_exec(init, "duration") {
            Some(d) => d,
            None => "2\u{5206}\u{949f}".to_string(),
        };
        push_text(&mut out, "\n## \u{26a0} \u{65f6}\u{957f}\u{7ea2}\u{7ebf}\n\u{672c}\u{6b65}\u{6d89}\u{53ca}\u{5177}\u{4f53}\u{573a}\u{666f}\u{65f6}\u{957f}\u{3002}\u{6240}\u{6709}\u{573a}\u{666f} duration \u{52a0}\u{8d77}\u{6765}\u{5fc5}\u{987b} \u{2248} **");
        push_text(&mut out, duration.as_str());
        push_text(&mut out, "** (\u{b1}10%)\u{3002}\n\u{8f93}\u{51fa}\u{524d}\u{5148}\u{81ea}\u{5df1}\u{628a} duration \u{5b57}\u{6bb5}\u{8f6c}\u{79d2}\u{7d2f}\u{52a0}\u{4e00}\u{6b21}\u{ff0c}\u{9a8c}\u{8bc1}\u{5728}\u{76ee}\u{6807}\u{533a}\u{95f4}\u{5185}\u{518d}\u{8f93}\u{51fa}\u{3002}\n\n");
    }
    let ghost p3 = out@;
    let ghost ov = outputs_view(outputs@);
    let mut k: usize = 0;
    while k < outputs.len()
        invariant
            k <= outputs@.len(),
            ov == outputs_view(outputs@),
            out@ == p3 + outputs_text(ov.take(k as int)),
        decreases outputs@.len() - k,
    {
        let ghost before = out@;
        push_text(&mut out, "### \u{7b2c}");
        append_chars(&mut out, &decimal_chars(outputs[k].0));
        push_text(&mut out, "\u{6b65}\u{4ea7}\u{51fa}\n");
        let body = chars_of(outputs[k].1.as_str());
        let cut: Vec<char> = if body.len() <= 1500 {
            body
        } else {
            crate::text::copy_range(&body, 0, 1500)
        };
        append_chars(&mut out, &cut);
        push_text(&mut out, "\n\n");
        proof {
            assert(ov.take(k + 1).drop_last() =~= ov.take(k as int));
            assert(ov.take(k + 1).last() == ov[k as int]);
            assert(cut@ =~= first_chars(ov[k as int].1, 1500));
            assert(out@ =~= p3 + outputs_text(ov.take(k + 1)));
        }
        k += 1;
    }
    assert(ov.take(k as int) =~= ov);
    if !user_feedback.is_empty() {
        push_section(&mut out, "## \u{7528}\u{6237}\u{4fee}\u{6539}\u{8981}\u{6c42}\n", user_feedback);
    }
    push_text(&mut out, "\u{8bf7}\u{4e25}\u{683c}\u{6309} system \u{4e2d} \"\u{5f53}\u{524d}\u{4efb}\u{52a1}\" \u{7684}\u{8f93}\u{51fa}\u{683c}\u{5f0f}\u{8981}\u{6c42}\u{4ea7}\u{51fa}\u{ff0c}\u{4e0d}\u{8981}\u{8f93}\u{51fa}\u{4efb}\u{4f55} meta \u{89e3}\u{91ca}\u{3002}");
    proof {
        assert(out@ =~= user_message_text(step_number as int, init@, ov, user_feedback@));
    }
    string_of(&out)
}

/// The step number a request names, 1 when it names none.
pub open spec fn step_number_of(params: JsonV) -> int {
    match as_u64(member(params, "stepNumber"@)) {
        Some(n) => n,
        None => 1,
    }
}

pub fn step_number_exec(params: &Json) -> (r: u64)
    ensures
        r == step_number_of(params@),
{
    match json_get(params, "stepNumber") {
        Some(Json::Int(i)) => if *i >= 0 {
            *i as u64
        } else {
            1
        },
        Some(Json::UInt(u)) => *u,
        _ => 1,
    }
}

/// `build_step_prompt`: the system prompt and user message of a step, from
/// the step's template (`None` outside steps 1 to 8) and the text of the
/// earlier steps' outputs that `previous_outputs` lists.
pub fn build_step_prompt(params: &Json, template: Option<&str>, outputs: &Vec<(u64, String)>) -> (r: (String, String))
    requires
        step_params_ok(params@),
    ensures
        r.0@ == step_system_text(
            member(params@, "init"@),
            match template {
                Some(t) => Some(t@),
                None => None,
            },
            duration_or_default(member(params@, "init"@)),
        ),
        r.1@ == user_message_text(
            step_number_of(params@),
            member(params@, "init"@),
            outputs_view(outputs@),
            as_text(jget(params@, "userFeedback"@)),
        ),
{
    let system = step_system(params, template);
    let null = Json::Null;
    let init = match json_get(params, "init") {
        Some(x) => x,
        None => &null,
    };
    let feedback = crate::prompt_generation::as_text_of(json_get(params, "userFeedback"));
    let user = build_user_message(step_number_exec(params), init, outputs, feedback.as_str());
    (system, user)
}

/// The system prompt of a self-check: its template with the step number.
pub open spec fn selfcheck_system_text(template: Seq<char>, step_number: int) -> Seq<char> {
    replaced(template, "{stepNumber}"@, decimal(step_number as nat))
}

/// The user message of a self-check.
pub open spec fn selfcheck_user_text(params: JsonV) -> Seq<char> {
    let init = member(params, "init"@);
    "## \u{5f85}\u{81ea}\u{68c0} \u{b7} \u{7b2c} "@ + decimal(step_number_of(params) as nat) + " \u{6b65} (\u{5f53}\u{524d}\u{4ea7}\u{51fa})\n\n\u{9879}\u{76ee}\u{6982}\u{5ff5}\u{ff1a}"@ + as_text(jget(init, "concept"@))
        + "\n\u{65f6}\u{957f}\u{ff1a}"@ + text_or(filled(init, "duration"@), Seq::empty()) + "\n\n```\n"@ + text_or(
        jstr(jget(params, "currentOutput"@)),
        "(\u{65e0}\u{4ea7}\u{51fa})"@,
    ) + "\n```\n\n\u{8bf7}\u{4e25}\u{683c}\u{6309} system \u{4e2d} \"\u{8f93}\u{51fa}\u{683c}\u{5f0f}\" \u{7ed9}\u{51fa} markdown \u{81ea}\u{68c0}\u{62a5}\u{544a} (## CHECK N \u{5757} \u{b7} === \u{5206}\u{9694})\u{3002}\u{4e0d}\u{8981}\u{8f93}\u{51fa}\u{4efb}\u{4f55}\u{5176}\u{4ed6}\u{6587}\u{5b57}\u{3002}"@
}

/// `build_selfcheck_prompt`, from the self-check template.
pub fn build_selfcheck_prompt(params: &Json, template: &str) -> (r: (String, String))
    ensures
        r.0@ == selfcheck_system_text(template@, step_number_of(params@)),
        r.1@ == selfcheck_user_text(params@),
{
    proof {
        reveal_strlit("{stepNumber}");
        reveal_strlit("");
    }
    let step = step_number_exec(params);
    let step_text = string_of(&decimal_chars(step));
    let system = replace_text(template, "{stepNumber}", step_text.as_str());
    let null = Json::Null;
    let init = match json_get(params, "init") {
        Some(x) => x,
        None => &null,
    };
    let mut out = chars_of("## \u{5f85}\u{81ea}\u{68c0} \u{b7} \u{7b2c} ");
    append_chars(&mut out, &decimal_chars(step));
    push_text(&mut out, " \u{6b65} (\u{5f53}\u{524d}\u{4ea7}\u{51fa})\n\n\u{9879}\u{76ee}\u{6982}\u{5ff5}\u{ff1a}");
    push_text(&mut out, crate::prompt_generation::as_text_of(json_get(init, "concept")).as_str());
    push_text(&mut out, "\n\u{65f6}\u{957f}\u{ff1a}");
    match filled_exec(init, "duration") {
        Some(d) => push_text(&mut out, d.as_str()),
        None => {},
    }
    push_text(&mut out, "\n\n```\n");
    match json_str(json_get(params, "currentOutput")) {
        Some(t) => push_text(&mut out, t.as_str()),
        None => push_text(&mut out, "(\u{65e0}\u{4ea7}\u{51fa})"),
    }
    push_text(&mut out, "\n```\n\n\u{8bf7}\u{4e25}\u{683c}\u{6309} system \u{4e2d} \"\u{8f93}\u{51fa}\u{683c}\u{5f0f}\" \u{7ed9}\u{51fa} markdown \u{81ea}\u{68c0}\u{62a5}\u{544a} (## CHECK N \u{5757} \u{b7} === \u{5206}\u{9694})\u{3002}\u{4e0d}\u{8981}\u{8f93}\u{51fa}\u{4efb}\u{4f55}\u{5176}\u{4ed6}\u{6587}\u{5b57}\u{3002}");
    assert(out@ =~= selfcheck_user_text(params@));
    (system, string_of(&out))
}

/// The user message of a checkpoint, with the snapshot's text as
/// `to_string_pretty` writes it.
pub open spec fn checkpoint_user_text(params: JsonV, snapshot_text: Seq<char>) -> Seq<char> {
    let init = member(params, "init"@);
    "## \u{9879}\u{76ee}\u{4fe1}\u{606f}\n- \u{9879}\u{76ee}\u{540d}: "@ + as_text(jget(init, "name"@)) + "\n- \u{683c}\u{5f0f}: "@ + as_text(jget(init, "format"@)) + "\n- \u{65f6}\u{957f}: "@
        + text_or(filled(init, "duration"@), Seq::empty()) + "\n- \u{6982}\u{5ff5}: "@ + as_text(jget(init, "concept"@))
        + "\n\n## \u{524d}\u{7f6e}\u{6b65}\u{9aa4}\u{4ea7}\u{51fa} (\u{8bf7}\u{636e}\u{6b64}\u{751f}\u{6210}\u{68c0}\u{67e5}\u{70b9})\n\n"@ + snapshot_text + "\n\n\u{8bf7}\u{6309} system \u{4e2d}\u{7684}\u{6a21}\u{677f}\u{4ea7}\u{51fa}\u{68c0}\u{67e5}\u{70b9}\u{3002}\u{5b57}\u{6bb5}\u{5b8c}\u{6574}\u{ff0c}\u{7b80}\u{6d01}\u{7cbe}\u{51c6}\u{ff0c}800-1200 \u{5b57}\u{3002}"@
}

/// `build_checkpoint_prompt`: the checkpoint template and the user message.
pub fn build_checkpoint_prompt(params: &Json, template: &str, snapshot_text: &str) -> (r: (String, String))
    ensures
        r.0@ == template@,
        r.1@ == checkpoint_user_text(params@, snapshot_text@),
{
    let null = Json::Null;
    let init = match json_get(params, "init") {
        Some(x) => x,
        None => &null,
    };
    let mut out = chars_of("## \u{9879}\u{76ee}\u{4fe1}\u{606f}\n- \u{9879}\u{76ee}\u{540d}: ");
    push_text(&mut out, crate::prompt_generation::as_text_of(json_get(init, "name")).as_str());
    push_text(&mut out, "\n- \u{683c}\u{5f0f}: ");
    push_text(&mut out, crate::prompt_generation::as_text_of(json_get(init, "format")).as_str());
    push_text(&mut out, "\n- \u{65f6}\u{957f}: ");
    match filled_exec(init, "duration") {
        Some(d) => push_text(&mut out, d.as_str()),
        None => {},
    }
    push_text(&mut out, "\n- \u{6982}\u{5ff5}: ");
    push_text(&mut out, crate::prompt_generation::as_text_of(json_get(init, "concept")).as_str());
    push_text(&mut out, "\n\n## \u{524d}\u{7f6e}\u{6b65}\u{9aa4}\u{4ea7}\u{51fa} (\u{8bf7}\u{636e}\u{6b64}\u{751f}\u{6210}\u{68c0}\u{67e5}\u{70b9})\n\n");
    push_text(&mut out, snapshot_text);
    push_text(&mut out, "\n\n\u{8bf7}\u{6309} system \u{4e2d}\u{7684}\u{6a21}\u{677f}\u{4ea7}\u{51fa}\u{68c0}\u{67e5}\u{70b9}\u{3002}\u{5b57}\u{6bb5}\u{5b8c}\u{6574}\u{ff0c}\u{7b80}\u{6d01}\u{7cbe}\u{51c6}\u{ff0c}800-1200 \u{5b57}\u{3002}");
    proof {
        reveal_strlit("");
        assert(out@ =~= checkpoint_user_text(params@, snapshot_text@));
    }
    (template.to_string(), string_of(&out))
}

/// The user message of the storyboard analysis: the script, its duration and
/// its assets.
pub open spec fn phase_ad_user_text(params: JsonV) -> Seq<char> {
    "## \u{5267}\u{672c}\u{6b63}\u{6587}\n\n"@ + as_text(jget(params, "scriptBody"@)) + "\n\n## \u{65f6}\u{957f}\n"@ + as_text(jget(params, "duration"@))
        + "\n\n## \u{8d44}\u{4ea7}\u{6e05}\u{5355}\n\n"@ + text_or(jstr(jget(params, "assetsJson"@)), "{}"@)
}

/// `build_seedance_phase_ad_prompt`: its template and the user message.
pub fn build_seedance_phase_ad_prompt(params: &Json, template: &str) -> (r: (String, String))
    ensures
        r.0@ == template@,
        r.1@ == phase_ad_user_text(params@),
{
    let mut out = chars_of("## \u{5267}\u{672c}\u{6b63}\u{6587}\n\n");
    push_text(&mut out, crate::prompt_generation::as_text_of(json_get(params, "scriptBody")).as_str());
    push_text(&mut out, "\n\n## \u{65f6}\u{957f}\n");
    push_text(&mut out, crate::prompt_generation::as_text_of(json_get(params, "duration")).as_str());
    push_text(&mut out, "\n\n## \u{8d44}\u{4ea7}\u{6e05}\u{5355}\n\n");
    match json_str(json_get(params, "assetsJson")) {
        Some(t) => push_text(&mut out, t.as_str()),
        None => push_text(&mut out, "{}"),
    }
    assert(out@ =~= phase_ad_user_text(params@));
    (template.to_string(), string_of(&out))
}

/// The user message of one storyboard unit, with the unit's and the
/// analysis context's text as `to_string_pretty` writes them.
pub open spec fn unit_efg_user_text(params: JsonV, unit_text: Seq<char>, context_text: Seq<char>) -> Seq<char> {
    "## \u{5355}\u{5143}\u{4fe1}\u{606f}\n\n"@ + unit_text + "\n\n## \u{5267}\u{672c}\u{7247}\u{6bb5}\n\n"@ + as_text(jget(params, "scriptFragment"@)) + "\n\n## \u{5206}\u{6790}\u{4e0a}\u{4e0b}\u{6587}\n\n"@
        + context_text + "\n\n## \u{8d44}\u{4ea7}\u{6e05}\u{5355}\n\n"@ + text_or(jstr(jget(params, "assetsJson"@)), "{}"@) + "\n\n## \u{5355}\u{5143}\u{5e8f}\u{53f7}\n"@
        + signed_decimal(
        match crate::prompt_generation::as_i64(jget(params, "unitIndex"@)) {
            Some(i) => i,
            None => 0,
        },
    ) + "\n\n## \u{8d77}\u{5e45}\u{951a}\u{70b9}\n"@ + as_text(jget(params, "plannedEntryState"@)) + "\n\n## \u{4e0a}\u{4e00}\u{5355}\u{5143}\u{843d}\u{5e45}\n"@ + as_text(
        jget(params, "previousPlanExit"@),
    )
}

/// `build_seedance_unit_efg_prompt`: its template and the user message.
pub fn build_seedance_unit_efg_prompt(
    params: &Json,
    template: &str,
    unit_text: &str,
    context_text: &str,
) -> (r: (String, String))
    ensures
        r.0@ == template@,
        r.1@ == unit_efg_user_text(params@, unit_text@, context_text@),
{
    let mut out = chars_of("## \u{5355}\u{5143}\u{4fe1}\u{606f}\n\n");
    push_text(&mut out, unit_text);
    push_text(&mut out, "\n\n## \u{5267}\u{672c}\u{7247}\u{6bb5}\n\n");
    push_text(&mut out, crate::prompt_generation::as_text_of(json_get(params, "scriptFragment")).as_str());
    push_text(&mut out, "\n\n## \u{5206}\u{6790}\u{4e0a}\u{4e0b}\u{6587}\n\n");
    push_text(&mut out, context_text);
    push_text(&mut out, "\n\n## \u{8d44}\u{4ea7}\u{6e05}\u{5355}\n\n");
    match json_str(json_get(params, "assetsJson")) {
        Some(t) => push_text(&mut out, t.as_str()),
        None => push_text(&mut out, "{}"),
    }
    push_text(&mut out, "\n\n## \u{5355}\u{5143}\u{5e8f}\u{53f7}\n");
    let index = match crate::prompt_generation::json_as_i64(json_get(params, "unitIndex")) {
        Some(i) => i,
        None => 0,
    };
    push_text(&mut out, json_to_text(&Json::Int(index)).as_str());
    push_text(&mut out, "\n\n## \u{8d77}\u{5e45}\u{951a}\u{70b9}\n");
    push_text(&mut out, crate::prompt_generation::as_text_of(json_get(params, "plannedEntryState")).as_str());
    push_text(&mut out, "\n\n## \u{4e0a}\u{4e00}\u{5355}\u{5143}\u{843d}\u{5e45}\n");
    push_text(&mut out, crate::prompt_generation::as_text_of(json_get(params, "previousPlanExit")).as_str());
    assert(out@ =~= unit_efg_user_text(params@, unit_text@, context_text@));
    (template.to_string(), string_of(&out))
}

/// The prompt of a context type the library has no template for: a generic
/// system prompt, and the parameters' text (as `to_string_pretty` writes it).
pub fn build_generic_prompt(params_text: &str) -> (r: (String, String))
    ensures
        r.0@ == "\u{4f60}\u{662f}\u{4e00}\u{4e2a}\u{4e13}\u{4e1a}\u{7684}AI\u{52a9}\u{624b}\u{3002}"@,
        r.1@ == "\u{8bf7}\u{6839}\u{636e}\u{4ee5}\u{4e0b}\u{4fe1}\u{606f}\u{751f}\u{6210}\u{5185}\u{5bb9}\u{ff1a}\n"@ + params_text@,
{
    let mut out = chars_of("\u{8bf7}\u{6839}\u{636e}\u{4ee5}\u{4e0b}\u{4fe1}\u{606f}\u{751f}\u{6210}\u{5185}\u{5bb9}\u{ff1a}\n");
    push_text(&mut out, params_text);
    ("\u{4f60}\u{662f}\u{4e00}\u{4e2a}\u{4e13}\u{4e1a}\u{7684}AI\u{52a9}\u{624b}\u{3002}".to_string(), string_of(&out))
}

/// The kinds of model context `build_prompt` knows.
pub enum ContextKind {
    ScreenplayStep,
    ScreenplaySelfcheck,
    ScreenplayCheckpoint,
    SeedancePhaseAd,
    SeedanceUnitEfg,
    Other,
}

pub open spec fn context_kind_of(t: Seq<char>) -> ContextKind {
    if t == "screenplay_step"@ {
        ContextKind::ScreenplayStep
    } else if t == "screenplay_selfcheck"@ {
        ContextKind::ScreenplaySelfcheck
    } else if t == "screenplay_checkpoint"@ {
        ContextKind::ScreenplayCheckpoint
    } else if t == "seedance_phase_ad"@ {
        ContextKind::SeedancePhaseAd
    } else if t == "seedance_unit_efg"@ {
        ContextKind::SeedanceUnitEfg
    } else {
        ContextKind::Other
    }
}

/// The dispatch of `build_prompt`: which builder a context type goes to.
pub fn context_kind(context_type: &str) -> (r: ContextKind)
    ensures
        r == context_kind_of(context_type@),
{
    if crate::text::str_eq(context_type, "screenplay_step") {
        ContextKind::ScreenplayStep
    } else if crate::text::str_eq(context_type, "screenplay_selfcheck") {
        ContextKind::ScreenplaySelfcheck
    } else if crate::text::str_eq(context_type, "screenplay_checkpoint") {
        ContextKind::ScreenplayCheckpoint
    } else if crate::text::str_eq(context_type, "seedance_phase_ad") {
        ContextKind::SeedancePhaseAd
    } else if crate::text::str_eq(context_type, "seedance_unit_efg") {
        ContextKind::SeedanceUnitEfg
    } else {
        ContextKind::Other
    }
}

/// The system prompts a `promptSlug` call can name.
pub enum PromptSlug {
    ScriptPlanning,
    ScriptWriting,
    ScriptReview,
    AssetCharacter,
    AssetScene,
    AssetProp,
    PromptSegmentPlanning,
    PromptSeedanceScene,
}

pub open spec fn prompt_slug_of(slug: Seq<char>) -> Option<PromptSlug> {
    if slug == "script_planning"@ {
        Some(PromptSlug::ScriptPlanning)
    } else if slug == "script_writing"@ {
        Some(PromptSlug::ScriptWriting)
    } else if slug == "script_review"@ {
        Some(PromptSlug::ScriptReview)
    } else if slug == "asset_character"@ {
        Some(PromptSlug::AssetCharacter)
    } else if slug == "asset_scene"@ {
        Some(PromptSlug::AssetScene)
    } else if slug == "asset_prop"@ {
        Some(PromptSlug::AssetProp)
    } else if slug == "prompt_segment_planning"@ {
        Some(PromptSlug::PromptSegmentPlanning)
    } else if slug == "prompt_seedance_scene"@ {
        Some(PromptSlug::PromptSeedanceScene)
    } else {
        None
    }
}

/// The dispatch of `build_prompt_slug`: which system prompt a slug names
/// (`None` for the generic one).
pub fn prompt_slug(slug: &str) -> (r: Option<PromptSlug>)
    ensures
        r == prompt_slug_of(slug@),
{
    if crate::text::str_eq(slug, "script_planning") {
        Some(PromptSlug::ScriptPlanning)
    } else if crate::text::str_eq(slug, "script_writing") {
        Some(PromptSlug::ScriptWriting)
    } else if crate::text::str_eq(slug, "script_review") {
        Some(PromptSlug::ScriptReview)
    } else if crate::text::str_eq(slug, "asset_character") {
        Some(PromptSlug::AssetCharacter)
    } else if crate::text::str_eq(slug, "asset_scene") {
        Some(PromptSlug::AssetScene)
    } else if crate::text::str_eq(slug, "asset_prop") {
        Some(PromptSlug::AssetProp)
    } else if crate::text::str_eq(slug, "prompt_segment_planning") {
        Some(PromptSlug::PromptSegmentPlanning)
    } else if crate::text::str_eq(slug, "prompt_seedance_scene") {
        Some(PromptSlug::PromptSeedanceScene)
    } else {
        None
    }
}

} // verus!
