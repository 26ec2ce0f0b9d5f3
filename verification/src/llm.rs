//! The text-model endpoints the app talks to: their configuration, the URLs
//! built from it, and the messages its replies turn into.
use vstd::prelude::*;
use crate::json::{Json, JsonV, json_view};
use crate::text::{append_chars, chars_of, has_sub, str_lower, string_of, to_lowercase, trim, trim_chars};

verus! {

pub struct RuntimeConfig {
    pub mode: String,
    pub api_base_url: String,
    pub api_key: String,
    pub default_model: String,
    pub text_mode: String,
    pub image_endpoint: String,
    pub image_key: String,
    pub image_model: String,
    pub review_threshold: u8,
    pub enable_local_save: bool,
}

/// The text without its trailing `/`s.
pub open spec fn without_trailing_slashes(s: Seq<char>) -> Seq<char>
    decreases s.len(),
{
    if s.len() > 0 && s.last() == '/' {
        without_trailing_slashes(s.drop_last())
    } else {
        s
    }
}

/// An endpoint trimmed, without trailing `/`s.
pub open spec fn spec_normalize_endpoint(e: Seq<char>) -> Seq<char> {
    without_trailing_slashes(trim(e))
}

pub fn normalize_endpoint(endpoint: &str) -> (r: String)
    ensures
        r@ == spec_normalize_endpoint(endpoint@),
{
    let t = trim_chars(&chars_of(endpoint));
    let mut n = t.len();
    assert(t@.subrange(0, n as int) =~= t@);
    while n > 0 && t[n - 1] == '/'
        invariant
            n <= t@.len(),
            without_trailing_slashes(t@) == without_trailing_slashes(t@.subrange(0, n as int)),
        decreases n,
    {
        assert(t@.subrange(0, n as int).drop_last() =~= t@.subrange(0, n - 1));
        n -= 1;
    }
    assert(t@.subrange(0, n as int) == without_trailing_slashes(t@.subrange(0, n as int)));
    string_of(&crate::text::copy_range(&t, 0, n))
}

pub open spec fn ends_with(s: Seq<char>, p: Seq<char>) -> bool {
    p.len() <= s.len() && s.subrange(s.len() - p.len(), s.len() as int) == p
}

fn ends_with_exec(s: &Vec<char>, p: &str) -> (r: bool)
    ensures
        r == ends_with(s@, p@),
{
    let pc = chars_of(p);
    if pc.len() > s.len() {
        return false;
    }
    crate::text::occurs_at_exec(s, &pc, s.len() - pc.len())
}

/// The URL of a text model's completion endpoint for an API mode.
pub open spec fn spec_text_url(endpoint: Seq<char>, model: Seq<char>, mode: Seq<char>) -> Seq<char> {
    let base = spec_normalize_endpoint(endpoint);
    if mode == "gemini"@ {
        base + "/models/"@ + model + ":generateContent"@
    } else if mode == "anthropic"@ {
        if ends_with(base, "/messages"@) { base } else { base + "/messages"@ }
    } else {
        if ends_with(base, "/chat/completions"@) { base } else { base + "/chat/completions"@ }
    }
}

pub fn build_text_url(endpoint: &str, model: &str, mode: &str) -> (r: String)
    ensures
        r@ == spec_text_url(endpoint@, model@, mode@),
{
    let base = chars_of(normalize_endpoint(endpoint).as_str());
    if crate::text::str_eq(mode, "gemini") {
        let mut v = crate::text::copy_range(&base, 0, base.len());
        append_chars(&mut v, &chars_of("/models/"));
        append_chars(&mut v, &chars_of(model));
        append_chars(&mut v, &chars_of(":generateContent"));
        assert(base@.subrange(0, base@.len() as int) =~= base@);
        string_of(&v)
    } else if crate::text::str_eq(mode, "anthropic") {
        if ends_with_exec(&base, "/messages") {
            string_of(&base)
        } else {
            let mut v = crate::text::copy_range(&base, 0, base.len());
            assert(base@.subrange(0, base@.len() as int) =~= base@);
            append_chars(&mut v, &chars_of("/messages"));
            string_of(&v)
        }
    } else {
        if ends_with_exec(&base, "/chat/completions") {
            string_of(&base)
        } else {
            let mut v = crate::text::copy_range(&base, 0, base.len());
            assert(base@.subrange(0, base@.len() as int) =~= base@);
            append_chars(&mut v, &chars_of("/chat/completions"));
            string_of(&v)
        }
    }
}

proof fn lemma_without_slashes_prefix(s: Seq<char>)
    ensures
        without_trailing_slashes(s).len() <= s.len(),
        forall|i: int| 0 <= i < without_trailing_slashes(s).len() ==> #[trigger] without_trailing_slashes(s)[i] == s[i],
    decreases s.len(),
{
    if s.len() > 0 && s.last() == '/' {
        lemma_without_slashes_prefix(s.drop_last());
    }
}

/// A normalized endpoint starts with no white space.
proof fn lemma_normalized_start(e: Seq<char>)
    ensures
        spec_normalize_endpoint(e).len() > 0 ==> !crate::text::is_ws(spec_normalize_endpoint(e)[0]),
{
    let t = trim(e);
    lemma_without_slashes_prefix(t);
    crate::text::lemma_trim_index(e);
    crate::text::lemma_lead_from_bounds(e, 0);
    if spec_normalize_endpoint(e).len() > 0 {
        assert(spec_normalize_endpoint(e)[0] == t[0]);
        assert(t[0] == e[crate::text::lead_from(e, 0)]);
    }
}

/// Law: in the Anthropic mode the URL ends with `/messages`, and only once:
/// building the URL again from it gives it back unchanged.
pub proof fn law_anthropic_url_once(endpoint: Seq<char>, model: Seq<char>)
    ensures
        ends_with(spec_text_url(endpoint, model, "anthropic"@), "/messages"@),
        spec_text_url(spec_text_url(endpoint, model, "anthropic"@), model, "anthropic"@) == spec_text_url(
            endpoint,
            model,
            "anthropic"@,
        ),
{
    reveal_strlit("anthropic");
    reveal_strlit("gemini");
    reveal_strlit("/messages");
    assert("anthropic"@ != "gemini"@) by {
        assert("anthropic"@[0] != "gemini"@[0]);
    }
    let base = spec_normalize_endpoint(endpoint);
    let u = spec_text_url(endpoint, model, "anthropic"@);
    let m = "/messages"@;
    if !ends_with(base, m) {
        assert(u == base + m);
        assert((base + m).subrange(u.len() - m.len(), u.len() as int) =~= m);
    }
    assert(ends_with(u, m));
    assert(u.len() >= 9);
    assert(u[u.len() - 1] == 's') by {
        assert(u.subrange(u.len() - 9, u.len() as int)[8] == u[u.len() - 1]);
    }
    lemma_normalized_start(endpoint);
    assert(!crate::text::is_ws(u[0])) by {
        if base.len() > 0 {
            assert(u[0] == base[0]);
        } else {
            assert(u == base + m);
            assert(u[0] == '/');
        }
    }
    crate::text::lemma_trim_unchanged(u);
    assert(without_trailing_slashes(u) == u);
    assert(spec_normalize_endpoint(u) == u);
}

/// Law: in the OpenAI mode the URL ends with `/chat/completions`, and only
/// once: building the URL again from it gives it back unchanged.
pub proof fn law_openai_url_once(endpoint: Seq<char>, model: Seq<char>)
    ensures
        ends_with(spec_text_url(endpoint, model, "openai"@), "/chat/completions"@),
        spec_text_url(spec_text_url(endpoint, model, "openai"@), model, "openai"@) == spec_text_url(
            endpoint,
            model,
            "openai"@,
        ),
{
    reveal_strlit("anthropic");
    reveal_strlit("gemini");
    reveal_strlit("openai");
    reveal_strlit("/chat/completions");
    assert("openai"@ != "gemini"@) by {
        assert("openai"@[0] != "gemini"@[0]);
    }
    assert("openai"@ != "anthropic"@) by {
        assert("openai"@[0] != "anthropic"@[0]);
    }
    let base = spec_normalize_endpoint(endpoint);
    let u = spec_text_url(endpoint, model, "openai"@);
    let m = "/chat/completions"@;
    if !ends_with(base, m) {
        assert(u == base + m);
        assert((base + m).subrange(u.len() - m.len(), u.len() as int) =~= m);
    }
    assert(ends_with(u, m));
    assert(u.len() >= 17);
    assert(u[u.len() - 1] == 's') by {
        assert(u.subrange(u.len() - 17, u.len() as int)[16] == u[u.len() - 1]);
    }
    lemma_normalized_start(endpoint);
    assert(!crate::text::is_ws(u[0])) by {
        if base.len() > 0 {
            assert(u[0] == base[0]);
        } else {
            assert(u == base + m);
            assert(u[0] == '/');
        }
    }
    crate::text::lemma_trim_unchanged(u);
    assert(without_trailing_slashes(u) == u);
    assert(spec_normalize_endpoint(u) == u);
}

/// A byte kept as it is in a URL: ASCII letters and digits, `-`, `_`, `.`, `~`.
pub open spec fn unreserved(b: u8) -> bool {
    (65 <= b <= 90) || (97 <= b <= 122) || (48 <= b <= 57) || b == 45 || b == 95 || b == 46 || b == 126
}

/// Upper-case hexadecimal digit.
pub open spec fn hex_upper(d: int) -> char {
    if d < 10 {
        (d + '0' as int) as char
    } else {
        (d - 10 + 'A' as int) as char
    }
}

/// How a byte is written in a URL.
pub open spec fn encoded_byte(b: u8) -> Seq<char> {
    if unreserved(b) {
        seq![b as char]
    } else if b == 32 {
        seq!['%', '2', '0']
    } else {
        seq!['%', hex_upper((b / 16) as int), hex_upper((b % 16) as int)]
    }
}

pub open spec fn encoded_upto(bs: Seq<u8>, n: int) -> Seq<char>
    decreases n,
{
    if n <= 0 {
        Seq::empty()
    } else {
        encoded_upto(bs, n - 1) + encoded_byte(bs[n - 1])
    }
}

/// The URL encoding of a text's UTF-8 bytes.
pub open spec fn spec_urlencoding(s: Seq<char>) -> Seq<char> {
    let bs = vstd::utf8::encode_utf8(s);
    encoded_upto(bs, bs.len() as int)
}

fn hex_upper_exec(d: u8) -> (r: char)
    requires
        d < 16,
    ensures
        r == hex_upper(d as int),
{
    if d < 10 {
        (d + 48) as char
    } else {
        (d - 10 + 65) as char
    }
}

pub fn urlencoding(s: &str) -> (r: String)
    ensures
        r@ == spec_urlencoding(s@),
{
    let bytes = s.as_bytes();
    let mut out: Vec<char> = Vec::new();
    let mut i: usize = 0;
    while i < bytes.len()
        invariant
            i <= bytes@.len(),
            bytes@ == vstd::utf8::encode_utf8(s@),
            out@ == encoded_upto(bytes@, i as int),
        decreases bytes@.len() - i,
    {
        let b = bytes[i];
        let ghost before = out@;
        if (65 <= b && b <= 90) || (97 <= b && b <= 122) || (48 <= b && b <= 57) || b == 45 || b == 95 || b == 46 || b == 126 {
            out.push(b as char);
        } else if b == 32 {
            out.push('%');
            out.push('2');
            out.push('0');
        } else {
            out.push('%');
            out.push(hex_upper_exec(b / 16));
            out.push(hex_upper_exec(b % 16));
        }
        assert(out@ =~= before + encoded_byte(b));
        i += 1;
    }
    string_of(&out)
}


/// The upstream's message appended to an error (`：` and at most its first
/// 200 bytes, cut at a char boundary), or nothing when there is none.
pub open spec fn spec_upstream_msg(msg: Option<Seq<char>>) -> Seq<char> {
    match msg {
        Some(s) if s.len() > 0 => {
            let len = crate::text::utf8_len(s);
            "\u{ff1a}"@ + crate::text::byte_prefix(s, if len < 200 { len } else { 200 })
        },
        _ => Seq::empty(),
    }
}

pub fn upstream_msg(msg: Option<String>) -> (r: String)
    ensures
        r@ == spec_upstream_msg(crate::blocks::opt_view(msg)),
{
    match msg {
        Some(s) => {
            if s.as_str().is_empty() {
                return String::new();
            }
            let c = chars_of(s.as_str());
            let len = crate::text::utf8_len_of(&c);
            let b: u128 = if len < 200 { len } else { 200 };
            let mut out = chars_of("\u{ff1a}");
            proof {
                if len <= 200 {
                    lemma_prefix_all(c@, len as int);
                }
            }
            append_chars(&mut out, &crate::text::byte_prefix_chars(&c, b));
            string_of(&out)
        },
        None => String::new(),
    }
}

proof fn lemma_prefix_all(s: Seq<char>, len: int)
    requires
        len == crate::text::utf8_len(s),
    ensures
        crate::text::chars_within(s, len) == s.len(),
    decreases s.len(),
{
    if s.len() > 0 {
        assert(crate::text::utf8_len(s) == crate::text::char_width(s[0]) + crate::text::utf8_len(s.drop_first()));
        lemma_prefix_all(s.drop_first(), len - crate::text::char_width(s[0]));
    }
}

/// The error message an upstream reply gives: its `error` string, or the
/// `message`, `msg` or `reason` of its `error` object.
pub open spec fn spec_upstream_error(parsed: Option<JsonV>) -> Option<Seq<char>> {
    match parsed {
        Some(v) => match crate::prompt_generation::jget(v, "error"@) {
            Some(JsonV::Str(s)) => Some(s),
            Some(e) => crate::prompt_generation::jstr(crate::prompt_generation::either(crate::prompt_generation::jget(e, "message"@),
                crate::prompt_generation::either(crate::prompt_generation::jget(e, "msg"@), crate::prompt_generation::jget(e, "reason"@)))),
            None => None,
        },
        None => None,
    }
}

/// `extract_upstream_error` on the reply's body as JSON (none when it is not JSON).
pub fn upstream_error(parsed: Option<&Json>) -> (r: Option<String>)
    ensures
        crate::blocks::opt_view(r) == spec_upstream_error(crate::prompt_generation::opt_json_view(parsed)),
{
    match parsed {
        Some(v) => match crate::prompt_generation::json_get(v, "error") {
            Some(Json::Str(s)) => Some(s.clone()),
            Some(e) => {
                let m = crate::prompt_generation::json_get(e, "message");
                let m2 = crate::prompt_generation::json_get(e, "msg");
                let m3 = crate::prompt_generation::json_get(e, "reason");
                let pick = match m {
                    Some(x) => Some(x),
                    None => match m2 {
                        Some(x) => Some(x),
                        None => m3,
                    },
                };
                crate::prompt_generation::json_str(pick)
            },
            None => None,
        },
        None => None,
    }
}

/// The lower-cased reply mentions an unknown model.
pub open spec fn spec_model_error(detail: Seq<char>) -> bool {
    let s = str_lower(detail);
    has_sub(s, "model not found"@) || has_sub(s, "model_not_found"@) || has_sub(s, "no such model"@)
        || has_sub(s, "invalid model"@) || has_sub(s, "unknown model"@) || has_sub(s, "model does not exist"@)
}

pub fn looks_like_model_error(detail: &str) -> (r: bool)
    ensures
        r == spec_model_error(detail@),
{
    let l = to_lowercase(detail);
    let s = l.as_str();
    crate::text::contains_str(s, "model not found") || crate::text::contains_str(s, "model_not_found")
        || crate::text::contains_str(s, "no such model") || crate::text::contains_str(s, "invalid model")
        || crate::text::contains_str(s, "unknown model") || crate::text::contains_str(s, "model does not exist")
}

/// What a failed connection test reports for an HTTP status.
pub open spec fn spec_connection_message(status: int, detail: Seq<char>, upstream: Option<Seq<char>>) -> Seq<char> {
    let tail = spec_upstream_msg(upstream);
    if status == 400 {
        if spec_model_error(detail) {
            "\u{6a21}\u{578b}\u{540d}\u{65e0}\u{6548}\u{ff1a}"@ + (match upstream { Some(u) => u, None => "\u{4e0a}\u{6e38}\u{62d2}\u{7edd}\u{8be5}\u{6a21}\u{578b}"@ })
        } else {
            "\u{8bf7}\u{6c42}\u{53c2}\u{6570}\u{9519}\u{8bef}\u{ff08}400\u{ff09}"@ + tail
        }
    } else if status == 401 {
        "API Key \u{65e0}\u{6548}\u{6216}\u{5df2}\u{8fc7}\u{671f}"@ + tail
    } else if status == 403 {
        "\u{6743}\u{9650}\u{4e0d}\u{8db3}\u{6216}\u{914d}\u{989d}\u{8017}\u{5c3d}"@ + tail
    } else if status == 404 {
        "\u{7aef}\u{70b9}\u{8def}\u{5f84}\u{4e0d}\u{5b58}\u{5728}\u{ff08}404\u{ff09}"@ + tail
    } else if status == 429 {
        "\u{8bf7}\u{6c42}\u{8fc7}\u{9891}\u{6216}\u{914d}\u{989d}\u{8017}\u{5c3d}\u{ff08}429\u{ff09}"@ + tail
    } else if status >= 500 {
        "\u{4e0a}\u{6e38}\u{670d}\u{52a1}\u{5f02}\u{5e38}\u{ff08}"@ + crate::text::decimal(status as nat) + "\u{ff09}"@ + tail
    } else {
        "HTTP "@ + crate::text::decimal(status as nat) + tail
    }
}

/// The message a failed connection test reports (`test_connection`'s
/// decision on the HTTP status of the reply).
pub fn connection_error_message(status: u16, detail: &str, upstream: Option<String>) -> (r: String)
    ensures
        r@ == spec_connection_message(status as int, detail@, crate::blocks::opt_view(upstream)),
{
    if status == 400 {
        if looks_like_model_error(detail) {
            let mut v = chars_of("\u{6a21}\u{578b}\u{540d}\u{65e0}\u{6548}\u{ff1a}");
            match upstream {
                Some(u) => append_chars(&mut v, &chars_of(u.as_str())),
                None => append_chars(&mut v, &chars_of("\u{4e0a}\u{6e38}\u{62d2}\u{7edd}\u{8be5}\u{6a21}\u{578b}")),
            }
            return string_of(&v);
        }
        let mut v = chars_of("\u{8bf7}\u{6c42}\u{53c2}\u{6570}\u{9519}\u{8bef}\u{ff08}400\u{ff09}");
        append_chars(&mut v, &chars_of(upstream_msg(upstream).as_str()));
        return string_of(&v);
    }
    let mut v = if status == 401 {
        chars_of("API Key \u{65e0}\u{6548}\u{6216}\u{5df2}\u{8fc7}\u{671f}")
    } else if status == 403 {
        chars_of("\u{6743}\u{9650}\u{4e0d}\u{8db3}\u{6216}\u{914d}\u{989d}\u{8017}\u{5c3d}")
    } else if status == 404 {
        chars_of("\u{7aef}\u{70b9}\u{8def}\u{5f84}\u{4e0d}\u{5b58}\u{5728}\u{ff08}404\u{ff09}")
    } else if status == 429 {
        chars_of("\u{8bf7}\u{6c42}\u{8fc7}\u{9891}\u{6216}\u{914d}\u{989d}\u{8017}\u{5c3d}\u{ff08}429\u{ff09}")
    } else if status >= 500 {
        let mut w = chars_of("\u{4e0a}\u{6e38}\u{670d}\u{52a1}\u{5f02}\u{5e38}\u{ff08}");
        append_chars(&mut w, &crate::text::decimal_chars(status as u64));
        append_chars(&mut w, &chars_of("\u{ff09}"));
        w
    } else {
        let mut w = chars_of("HTTP ");
        append_chars(&mut w, &crate::text::decimal_chars(status as u64));
        w
    };
    append_chars(&mut v, &chars_of(upstream_msg(upstream).as_str()));
    string_of(&v)
}

/// The URL a connection test posts to: the completion URL, with the key as a
/// query parameter for Gemini.
pub open spec fn spec_connection_url(endpoint: Seq<char>, key: Seq<char>, model: Seq<char>, mode: Seq<char>) -> Seq<char> {
    let url = spec_text_url(endpoint, model, mode);
    if mode == "gemini"@ {
        url + (if has_sub(url, "?"@) { "&"@ } else { "?"@ }) + "key="@ + spec_urlencoding(key)
    } else {
        url
    }
}

pub fn connection_url(endpoint: &str, key: &str, model: &str, mode: &str) -> (r: String)
    ensures
        r@ == spec_connection_url(endpoint@, key@, model@, mode@),
{
    let url = build_text_url(endpoint, model, mode);
    if crate::text::str_eq(mode, "gemini") {
        let mut v = chars_of(url.as_str());
        if crate::text::contains_str(url.as_str(), "?") {
            append_chars(&mut v, &chars_of("&"));
        } else {
            append_chars(&mut v, &chars_of("?"));
        }
        append_chars(&mut v, &chars_of("key="));
        append_chars(&mut v, &chars_of(urlencoding(key).as_str()));
        string_of(&v)
    } else {
        url
    }
}

/// The text of a message.
pub open spec fn message_text(m: JsonV) -> Seq<char> {
    crate::prompt_generation::as_text(crate::prompt_generation::jget(m, "content"@))
}

/// The one part of a Gemini turn: the text.
pub open spec fn text_part(t: Seq<char>) -> JsonV {
    JsonV::Object(seq![("text"@, JsonV::Str(t))])
}

/// A message as a Gemini user turn.
pub open spec fn gemini_turn_spec(m: JsonV) -> JsonV {
    JsonV::Object(seq![("parts"@, JsonV::Array(seq![text_part(message_text(m))])), ("role"@, JsonV::Str("user"@))])
}

/// A Gemini request body: each message's text as a user turn.
pub open spec fn spec_gemini_body(ms: Seq<JsonV>) -> JsonV {
    JsonV::Object(seq![("contents"@, JsonV::Array(ms.map_values(|m: JsonV| gemini_turn_spec(m))))])
}

fn gemini_turn(m: &Json) -> (r: Json)
    ensures
        r@ == gemini_turn_spec(m@),
{
    proof {
        reveal_strlit("");
    }
    let text = match crate::prompt_generation::json_str(crate::prompt_generation::json_get(m, "content")) {
        Some(t) => t,
        None => String::new(),
    };
    assert(""@ =~= Seq::<char>::empty());
    assert(text@ == message_text(m@));
    let part_fields: Vec<(String, Json)> = vec![("text".to_string(), Json::Str(text))];
    let part = Json::Object(part_fields);
    let parts_items: Vec<Json> = vec![part];
    let parts = Json::Array(parts_items);
    let fields: Vec<(String, Json)> = vec![("parts".to_string(), parts), ("role".to_string(), Json::Str("user".to_string()))];
    let r = Json::Object(fields);
    proof {
        crate::json::lemma_object_view(part_fields);
        crate::json::lemma_array_view(parts_items);
        crate::json::lemma_object_view(fields);
        assert(part@->Object_0 =~= text_part(message_text(m@))->Object_0);
        assert(parts@->Array_0 =~= seq![part@]);
        assert(r@->Object_0 =~= gemini_turn_spec(m@)->Object_0);
    }
    r
}

/// `build_gemini_body`: the Gemini request body for the messages.
pub fn build_gemini_body(messages: &[Json]) -> (r: Json)
    ensures
        r@ == spec_gemini_body(messages@.map_values(|m: Json| m@)),
{
    let mut contents: Vec<Json> = Vec::new();
    let mut i: usize = 0;
    while i < messages.len()
        invariant
            i <= messages@.len(),
            contents@.len() == i,
            forall|k: int| 0 <= k < i ==> (#[trigger] contents@[k])@ == gemini_turn_spec(messages@[k]@),
        decreases messages@.len() - i,
    {
        contents.push(gemini_turn(&messages[i]));
        i += 1;
    }
    let arr = Json::Array(contents);
    let fields: Vec<(String, Json)> = vec![("contents".to_string(), arr)];
    let r = Json::Object(fields);
    proof {
        crate::json::lemma_array_view(contents);
        crate::json::lemma_object_view(fields);
        let ms = messages@.map_values(|m: Json| m@);
        assert(arr@->Array_0 =~= ms.map_values(|m: JsonV| gemini_turn_spec(m)));
        assert(r@->Object_0 =~= spec_gemini_body(ms)->Object_0);
    }
    r
}

} // verus!

verus! {

// ---------------------------------------------------------------------------
// Streams of server-sent events
// ---------------------------------------------------------------------------

/// `str::split('\n')` of a text from `i` on: every piece, the empty ones too.
pub open spec fn split_from(t: Seq<char>, i: int) -> Seq<Seq<char>>
    decreases t.len() + 1 - i,
{
    if i < 0 || i > t.len() {
        Seq::empty()
    } else {
        let e = crate::text::nl_from(t, i);
        if e < i || e >= t.len() {
            seq![t.subrange(i, t.len() as int)]
        } else {
            seq![t.subrange(i, e)] + split_from(t, e + 1)
        }
    }
}

/// The data of an event line: the trimmed line after `data:`, trimmed.
pub open spec fn data_of(line: Seq<char>) -> Option<Seq<char>> {
    let t = trim(line);
    if crate::text::occurs_at(t, "data:"@, 0) {
        Some(trim(t.skip(5)))
    } else {
        None
    }
}

pub open spec fn data_lines(ls: Seq<Seq<char>>) -> Seq<Seq<char>>
    decreases ls.len(),
{
    if ls.len() == 0 {
        Seq::empty()
    } else {
        match data_of(ls.last()) {
            Some(d) => data_lines(ls.drop_last()).push(d),
            None => data_lines(ls.drop_last()),
        }
    }
}

/// The complete lines of a stream buffer: those before its last line break.
pub open spec fn complete_lines(buf: Seq<char>) -> Seq<Seq<char>> {
    let j = crate::text::rfind_char(buf, '\n', buf.len() as int);
    if j == -1 {
        Seq::empty()
    } else {
        split_from(buf.take(j), 0)
    }
}

/// What stays in the buffer: the text after its last line break.
pub open spec fn buffer_rest(buf: Seq<char>) -> Seq<char> {
    let j = crate::text::rfind_char(buf, '\n', buf.len() as int);
    if j == -1 {
        buf
    } else {
        buf.skip(j + 1)
    }
}

fn data_exec(line: &[char]) -> (r: Option<Vec<char>>)
    ensures
        match r {
            Some(d) => data_of(line@) == Some(d@),
            None => data_of(line@) is None,
        },
{
    let t = trim_chars(line);
    let tag = chars_of("data:");
    proof {
        reveal_strlit("data:");
    }
    if crate::text::occurs_at_exec(&t, &tag, 0) {
        let rest = crate::text::copy_range(&t, 5, t.len());
        assert(rest@ =~= t@.skip(5));
        Some(trim_chars(&rest))
    } else {
        None
    }
}

/// The line handling of `parse_openai_sse` and `parse_anthropic_sse` for one
/// state of the buffer: the data of its complete event lines, in order, and
/// the text left for the next chunk.
pub fn sse_lines(buffer: &str) -> (r: (Vec<String>, String))
    ensures
        r.0@.map_values(|d: String| d@) == data_lines(complete_lines(buffer@)),
        r.1@ == buffer_rest(buffer@),
{
    let s = chars_of(buffer);
    proof {
        crate::text::lemma_rfind_char(s@, '\n', s@.len() as int);
    }
    let j = match crate::text::rfind_char_exec(&s, '\n') {
        Some(j) => j,
        None => {
            return (Vec::new(), buffer.to_string());
        },
    };
    let n = s.len();
    let t = crate::text::copy_range(&s, 0, j);
    assert(t@ =~= s@.take(j as int));
    let rest = crate::text::copy_range(&s, j + 1, n);
    assert(rest@ =~= s@.skip(j + 1));
    let mut out: Vec<String> = Vec::new();
    let ghost mut done: Seq<Seq<char>> = Seq::empty();
    let mut i: usize = 0;
    assert(split_from(t@, 0) =~= done + split_from(t@, 0));
    loop
        invariant_except_break
            i <= t@.len(),
            split_from(t@, 0) == done + split_from(t@, i as int),
            out@.map_values(|d: String| d@) == data_lines(done),
        ensures
            split_from(t@, 0) == done,
            out@.map_values(|d: String| d@) == data_lines(done),
        decreases t@.len() - i,
    {
        proof {
            crate::text::lemma_nl_from(t@, i as int);
        }
        let mut e = i;
        while e < t.len() && t[e] != '\n'
            invariant
                i <= e <= t@.len(),
                crate::text::nl_from(t@, e as int) == crate::text::nl_from(t@, i as int),
            decreases t@.len() - e,
        {
            e += 1;
        }
        let piece = crate::text::copy_range(&t, i, e);
        let ghost before = out@.map_values(|d: String| d@);
        match data_exec(&piece) {
            Some(d) => {
                out.push(string_of(&d));
            },
            None => {},
        }
        proof {
            assert(done.push(piece@).drop_last() =~= done);
            assert(out@.map_values(|d: String| d@) =~= data_lines(done.push(piece@)));
        }
        if e >= t.len() {
            proof {
                assert(split_from(t@, i as int) =~= seq![piece@]);
                done = done.push(piece@);
                assert(split_from(t@, 0) =~= done);
            }
            break;
        }
        proof {
            assert(split_from(t@, i as int) =~= seq![piece@] + split_from(t@, e + 1));
            assert(split_from(t@, 0) =~= done.push(piece@) + split_from(t@, e + 1));
            done = done.push(piece@);
        }
        i = e + 1;
    }
    (out, string_of(&rest))
}

/// The text an OpenAI event carries: `choices[0].delta.content`.
pub open spec fn openai_delta_text(v: JsonV) -> Option<Seq<char>> {
    match crate::prompt_generation::jget(v, "choices"@) {
        Some(JsonV::Array(cs)) => if cs.len() > 0 {
            crate::prompt_generation::jstr(crate::prompt_generation::jget2(cs[0], "delta"@, "content"@))
        } else {
            None
        },
        _ => None,
    }
}

pub fn openai_delta(parsed: &Json) -> (r: Option<String>)
    ensures
        crate::blocks::opt_view(r) == openai_delta_text(parsed@),
{
    match crate::prompt_generation::json_get(parsed, "choices") {
        Some(Json::Array(cs)) => {
            proof {
                crate::json::lemma_array_view(*cs);
            }
            if cs.len() > 0 {
                match crate::prompt_generation::json_get(&cs[0], "delta") {
                    Some(d) => crate::prompt_generation::json_str(crate::prompt_generation::json_get(d, "content")),
                    None => None,
                }
            } else {
                None
            }
        },
        _ => None,
    }
}

/// The text an Anthropic event carries: the `delta.text` of a
/// `content_block_delta` event.
pub open spec fn anthropic_delta_text(v: JsonV) -> Option<Seq<char>> {
    if crate::prompt_generation::jget(v, "type"@) == Some(JsonV::Str("content_block_delta"@)) {
        crate::prompt_generation::jstr(crate::prompt_generation::jget2(v, "delta"@, "text"@))
    } else {
        None
    }
}

pub fn anthropic_delta(parsed: &Json) -> (r: Option<String>)
    ensures
        crate::blocks::opt_view(r) == anthropic_delta_text(parsed@),
{
    let is_delta = match crate::prompt_generation::json_get(parsed, "type") {
        Some(Json::Str(t)) => crate::text::str_eq(t.as_str(), "content_block_delta"),
        _ => false,
    };
    if !is_delta {
        return None;
    }
    match crate::prompt_generation::json_get(parsed, "delta") {
        Some(d) => crate::prompt_generation::json_str(crate::prompt_generation::json_get(d, "text")),
        None => None,
    }
}

/// The text parts of a list, joined.
pub open spec fn texts_joined(parts: Seq<JsonV>, n: int) -> Seq<char>
    decreases n,
{
    if n <= 0 || n > parts.len() {
        Seq::empty()
    } else {
        texts_joined(parts, n - 1) + crate::prompt_generation::text_or(
            crate::prompt_generation::jstr(crate::prompt_generation::jget(parts[n - 1], "text"@)),
            Seq::empty(),
        )
    }
}

/// The text of a Gemini reply: the text parts of its first candidate, joined.
pub open spec fn gemini_text(v: JsonV) -> Seq<char> {
    match crate::prompt_generation::jget(v, "candidates"@) {
        Some(JsonV::Array(cs)) => if cs.len() > 0 {
            match crate::prompt_generation::jget2(cs[0], "content"@, "parts"@) {
                Some(JsonV::Array(ps)) => texts_joined(ps, ps.len() as int),
                _ => Seq::empty(),
            }
        } else {
            Seq::empty()
        },
        _ => Seq::empty(),
    }
}

/// The text of a Gemini reply, or the error when it has none.
pub fn gemini_reply(payload: &Json) -> (r: Result<String, String>)
    ensures
        gemini_text(payload@).len() > 0 <==> r is Ok,
        r is Ok ==> r->Ok_0@ == gemini_text(payload@),
        r is Err ==> r->Err_0@ == "Gemini \u{8fd4}\u{56de}\u{4e86}\u{7a7a}\u{5185}\u{5bb9}\u{3002}"@,
{
    let mut out: Vec<char> = Vec::new();
    match crate::prompt_generation::json_get(payload, "candidates") {
        Some(Json::Array(cs)) => {
            proof {
                crate::json::lemma_array_view(*cs);
            }
            if cs.len() > 0 {
                match crate::prompt_generation::json_get(&cs[0], "content") {
                    Some(c) => match crate::prompt_generation::json_get(c, "parts") {
                        Some(Json::Array(ps)) => {
                            proof {
                                crate::json::lemma_array_view(*ps);
                            }
                            let ghost pv = json_view(Json::Array(*ps))->Array_0;
                            let mut k: usize = 0;
                            while k < ps.len()
                                invariant
                                    pv == json_view(Json::Array(*ps))->Array_0,
                                    pv.len() == ps@.len(),
                                    forall|j: int| 0 <= j < ps@.len() ==> #[trigger] pv[j] == ps@[j]@,
                                    k <= ps@.len(),
                                    out@ == texts_joined(pv, k as int),
                                decreases ps@.len() - k,
                            {
                                match crate::prompt_generation::json_str(crate::prompt_generation::json_get(&ps[k], "text")) {
                                    Some(t) => append_chars(&mut out, &chars_of(t.as_str())),
                                    None => {},
                                }
                                proof {
                                    assert(pv[k as int] == ps@[k as int]@);
                                }
                                k += 1;
                            }
                        },
                        _ => {},
                    },
                    None => {},
                }
            }
        },
        _ => {},
    }
    proof {
        reveal_strlit("");
    }
    if out.len() == 0 {
        Err("Gemini \u{8fd4}\u{56de}\u{4e86}\u{7a7a}\u{5185}\u{5bb9}\u{3002}".to_string())
    } else {
        Ok(string_of(&out))
    }
}

/// The error of a failed call: the provider, the HTTP status and the first
/// 200 bytes of the reply, cut at a char boundary.
pub open spec fn call_failed_text(provider: Seq<char>, status: int, detail: Seq<char>) -> Seq<char> {
    let len = crate::text::utf8_len(detail);
    provider + " \u{8c03}\u{7528}\u{5931}\u{8d25}\u{ff08}"@ + crate::text::decimal(status as nat) + "\u{ff09}\u{ff1a}"@
        + crate::text::byte_prefix(detail, if len < 200 { len } else { 200 })
}

pub fn call_failed_message(provider: &str, status: u16, detail: &str) -> (r: String)
    ensures
        r@ == call_failed_text(provider@, status as int, detail@),
{
    let mut out = chars_of(provider);
    append_chars(&mut out, &chars_of(" \u{8c03}\u{7528}\u{5931}\u{8d25}\u{ff08}"));
    append_chars(&mut out, &crate::text::decimal_chars(status as u64));
    append_chars(&mut out, &chars_of("\u{ff09}\u{ff1a}"));
    let c = chars_of(detail);
    let len = crate::text::utf8_len_of(&c);
    let b: u128 = if len < 200 { len } else { 200 };
    append_chars(&mut out, &crate::text::byte_prefix_chars(&c, b));
    string_of(&out)
}

// ---------------------------------------------------------------------------
// Requests
// ---------------------------------------------------------------------------

/// The API the text mode names.
pub enum Provider {
    Gemini,
    Anthropic,
    OpenAi,
}

pub open spec fn provider_of(mode: Seq<char>) -> Provider {
    if mode == "gemini"@ {
        Provider::Gemini
    } else if mode == "anthropic"@ {
        Provider::Anthropic
    } else {
        Provider::OpenAi
    }
}

pub fn provider(mode: &str) -> (r: Provider)
    ensures
        r == provider_of(mode@),
{
    if crate::text::str_eq(mode, "gemini") {
        Provider::Gemini
    } else if crate::text::str_eq(mode, "anthropic") {
        Provider::Anthropic
    } else {
        Provider::OpenAi
    }
}

/// The refusal of a call made without a key or an endpoint.
pub fn check_configured(cfg: &RuntimeConfig) -> (r: Result<(), String>)
    ensures
        r is Ok <==> (cfg.api_key@.len() > 0 && cfg.api_base_url@.len() > 0),
        r is Err ==> r->Err_0@ == "API \u{672a}\u{914d}\u{7f6e}\u{ff0c}\u{65e0}\u{6cd5}\u{53d1}\u{8d77}\u{8fdc}\u{7a0b}\u{8c03}\u{7528}\u{3002}"@,
{
    if cfg.api_key.as_str().is_empty() || cfg.api_base_url.as_str().is_empty() {
        Err("API \u{672a}\u{914d}\u{7f6e}\u{ff0c}\u{65e0}\u{6cd5}\u{53d1}\u{8d77}\u{8fdc}\u{7a0b}\u{8c03}\u{7528}\u{3002}".to_string())
    } else {
        Ok(())
    }
}

/// Models whose temperature is fixed at 1 (those whose lower-cased name
/// starts with `kimi-k2`).
pub open spec fn fixed_temperature(model: Seq<char>) -> bool {
    crate::text::occurs_at(str_lower(model), "kimi-k2"@, 0)
}

/// The test `resolve_temperature` makes of the model.
pub fn has_fixed_temperature(model: &str) -> (r: bool)
    ensures
        r == fixed_temperature(model@),
{
    let l = to_lowercase(model);
    crate::text::occurs_at_exec(&chars_of(l.as_str()), &chars_of("kimi-k2"), 0)
}

/// A chat message.
pub open spec fn message_view(role: Seq<char>, content: Seq<char>) -> JsonV {
    JsonV::Object(seq![("content"@, JsonV::Str(content)), ("role"@, JsonV::Str(role))])
}

pub fn message(role: &str, content: &str) -> (r: Json)
    ensures
        r@ == message_view(role@, content@),
{
    let fields: Vec<(String, Json)> = vec![
        ("content".to_string(), Json::Str(content.to_string())),
        ("role".to_string(), Json::Str(role.to_string())),
    ];
    proof {
        crate::json::lemma_object_view(fields);
    }
    let r = Json::Object(fields);
    assert(r@->Object_0 =~= message_view(role@, content@)->Object_0);
    r
}

/// The messages of a `promptSlug` call: the system prompt, then the caller's.
pub fn slug_messages(system_prompt: &str, user_messages: Vec<Json>) -> (r: Vec<Json>)
    ensures
        crate::prompt_generation::views(r@) == seq![message_view("system"@, system_prompt@)]
            + crate::prompt_generation::views(user_messages@),
{
    let mut out: Vec<Json> = vec![message("system", system_prompt)];
    let ghost uv = crate::prompt_generation::views(user_messages@);
    let mut i: usize = 0;
    while i < user_messages.len()
        invariant
            uv == crate::prompt_generation::views(user_messages@),
            i <= user_messages@.len(),
            crate::prompt_generation::views(out@) == seq![message_view("system"@, system_prompt@)] + uv.take(i as int),
        decreases user_messages@.len() - i,
    {
        let ghost o = out@;
        let m = user_messages[i].clone();
        out.push(m);
        assert(crate::prompt_generation::views(out@) =~= crate::prompt_generation::views(o).push(m@));
        assert(uv.take(i + 1) =~= uv.take(i as int).push(uv[i as int]));
        assert(crate::prompt_generation::views(out@) =~= seq![message_view("system"@, system_prompt@)] + uv.take(i + 1));
        i += 1;
    }
    assert(uv.take(i as int) =~= uv);
    out
}

/// A message whose role is `system`.
pub open spec fn is_system(m: JsonV) -> bool {
    crate::prompt_generation::jget(m, "role"@) == Some(JsonV::Str("system"@))
}

pub open spec fn first_system(ms: Seq<JsonV>, i: int) -> Option<JsonV>
    decreases ms.len() - i,
{
    if i < 0 || i >= ms.len() {
        None
    } else if is_system(ms[i]) {
        Some(ms[i])
    } else {
        first_system(ms, i + 1)
    }
}

pub open spec fn non_system(ms: Seq<JsonV>, n: int) -> Seq<JsonV>
    decreases n,
{
    if n <= 0 || n > ms.len() {
        Seq::empty()
    } else if is_system(ms[n - 1]) {
        non_system(ms, n - 1)
    } else {
        non_system(ms, n - 1).push(ms[n - 1])
    }
}

/// The system prompt of an Anthropic request: the text of the first system
/// message (empty when there is none or it is no string).
pub open spec fn anthropic_system(ms: Seq<JsonV>) -> Seq<char> {
    match first_system(ms, 0) {
        Some(m) => message_text(m),
        None => Seq::empty(),
    }
}

fn is_system_exec(m: &Json) -> (r: bool)
    ensures
        r == is_system(m@),
{
    match crate::prompt_generation::json_get(m, "role") {
        Some(Json::Str(t)) => crate::text::str_eq(t.as_str(), "system"),
        _ => false,
    }
}

/// What `build_anthropic_body` takes from the messages: the system prompt
/// and the other messages, in order.
pub fn anthropic_parts(messages: &Vec<Json>) -> (r: (String, Vec<Json>))
    ensures
        r.0@ == anthropic_system(crate::prompt_generation::views(messages@)),
        crate::prompt_generation::views(r.1@) == non_system(
            crate::prompt_generation::views(messages@),
            messages@.len() as int,
        ),
{
    let ghost mv = crate::prompt_generation::views(messages@);
    let mut system: Option<String> = None;
    let mut others: Vec<Json> = Vec::new();
    let mut i: usize = 0;
    while i < messages.len()
        invariant
            mv == crate::prompt_generation::views(messages@),
            i <= messages@.len(),
            crate::prompt_generation::views(others@) == non_system(mv, i as int),
            match system {
                Some(t) => first_system(mv, 0) is Some && t@ == message_text(first_system(mv, 0)->0),
                None => first_system(mv, 0) == first_system(mv, i as int),
            },
        decreases messages@.len() - i,
    {
        if is_system_exec(&messages[i]) {
            if system.is_none() {
                system = Some(crate::prompt_generation::as_text_of(crate::prompt_generation::json_get(&messages[i], "content")));
            }
        } else {
            let ghost o = others@;
            others.push(messages[i].clone());
            assert(crate::prompt_generation::views(others@) =~= crate::prompt_generation::views(o).push(mv[i as int]));
        }
        i += 1;
    }
    proof {
        reveal_strlit("");
    }
    let text = match system {
        Some(t) => t,
        None => String::new(),
    };
    (text, others)
}

/// The headers of a request, by name: the content type, and the key as the
/// provider wants it (none for Gemini, which takes it in the URL).
pub open spec fn header_pairs_view(key: Seq<char>, mode: Seq<char>) -> Seq<(Seq<char>, Seq<char>)> {
    let base = seq![("content-type"@, "application/json"@)];
    match provider_of(mode) {
        Provider::Anthropic => base + seq![("x-api-key"@, key), ("anthropic-version"@, "2023-06-01"@)],
        Provider::Gemini => base,
        Provider::OpenAi => base + seq![("authorization"@, "Bearer "@ + key)],
    }
}

/// `build_headers`, as name and value pairs.
pub fn header_pairs(key: &str, mode: &str) -> (r: Vec<(String, String)>)
    ensures
        r@.map_values(|h: (String, String)| (h.0@, h.1@)) == header_pairs_view(key@, mode@),
{
    let mut out: Vec<(String, String)> = vec![("content-type".to_string(), "application/json".to_string())];
    match provider(mode) {
        Provider::Anthropic => {
            out.push(("x-api-key".to_string(), key.to_string()));
            out.push(("anthropic-version".to_string(), "2023-06-01".to_string()));
        },
        Provider::Gemini => {},
        Provider::OpenAi => {
            let mut v = chars_of("Bearer ");
            append_chars(&mut v, &chars_of(key));
            out.push(("authorization".to_string(), string_of(&v)));
        },
    }
    assert(out@.map_values(|h: (String, String)| (h.0@, h.1@)) =~= header_pairs_view(key@, mode@));
    out
}

/// The body of a connection test for Anthropic and OpenAI endpoints: the
/// model, one token, and one message.
pub open spec fn probe_body_view(model: Seq<char>) -> JsonV {
    JsonV::Object(
        seq![
            ("max_tokens"@, JsonV::Int(1)),
            ("messages"@, JsonV::Array(seq![message_view("user"@, "hi"@)])),
            ("model"@, JsonV::Str(model)),
        ],
    )
}

pub fn probe_body(model: &str) -> (r: Json)
    ensures
        r@ == probe_body_view(model@),
{
    let msgs: Vec<Json> = vec![message("user", "hi")];
    proof {
        crate::json::lemma_array_view(msgs);
    }
    let arr = Json::Array(msgs);
    assert(arr@->Array_0 =~= seq![message_view("user"@, "hi"@)]);
    let fields: Vec<(String, Json)> = vec![
        ("max_tokens".to_string(), Json::Int(1)),
        ("messages".to_string(), arr),
        ("model".to_string(), Json::Str(model.to_string())),
    ];
    proof {
        crate::json::lemma_object_view(fields);
    }
    let r = Json::Object(fields);
    assert(r@->Object_0 =~= probe_body_view(model@)->Object_0);
    r
}

} // verus!
