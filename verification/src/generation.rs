//! The requests of script generation and of a screenplay step: the runtime
//! configuration they run under, what they send the model and what they keep
//! of its reply.
use vstd::prelude::*;
use crate::json::{Json, JsonV, json_view, lemma_object_view, lemma_array_view};
use crate::crud::{AppSettings, ScriptGenerationInput, ScriptSection};
use crate::llm::{RuntimeConfig, message, message_view};
use crate::screenplay_store::ProjectInit;
use crate::prompt_generation::{jget, jstr, as_text, text_or, json_get, json_str};
use crate::text::{chars_of, string_of, append_chars, trim, trim_chars, utf8_len, utf8_len_of, byte_prefix, byte_prefix_chars};

verus! {

/// The runtime configuration of a model call made with the saved settings.
pub open spec fn config_of_settings(s: AppSettings, r: RuntimeConfig) -> bool {
    &&& r.api_key@ == s.text_key@
    &&& r.api_base_url@ == s.text_endpoint@
    &&& r.default_model@ == s.text_model@
    &&& r.text_mode@ == s.text_mode@
    &&& r.mode@ == "remote-configured"@
    &&& r.image_endpoint@.len() == 0
    &&& r.image_key@.len() == 0
    &&& r.image_model@.len() == 0
    &&& r.review_threshold == s.review_threshold as u8
    &&& r.enable_local_save == s.enable_local_save
}

/// The configuration the generation, review, extraction and storyboard
/// calls build from the saved settings.
pub fn runtime_config(settings: &AppSettings) -> (r: RuntimeConfig)
    ensures
        config_of_settings(*settings, r),
{
    RuntimeConfig {
        api_key: settings.text_key.clone(),
        api_base_url: settings.text_endpoint.clone(),
        default_model: settings.text_model.clone(),
        text_mode: settings.text_mode.clone(),
        mode: "remote-configured".to_string(),
        image_endpoint: String::new(),
        image_key: String::new(),
        image_model: String::new(),
        review_threshold: settings.review_threshold as u8,
        enable_local_save: settings.enable_local_save,
    }
}

/// The model a settings object names: its `textModel` unless blank, else
/// `deepseek-chat`.
pub open spec fn settings_model(v: JsonV) -> Seq<char> {
    match jstr(jget(v, "textModel"@)) {
        Some(m) => if trim(m).len() > 0 {
            m
        } else {
            "deepseek-chat"@
        },
        None => "deepseek-chat"@,
    }
}

/// The configuration `generate_step_async` builds from the settings object
/// it is handed.
pub open spec fn config_of_settings_json(v: JsonV, r: RuntimeConfig) -> bool {
    &&& r.api_key@ == as_text(jget(v, "textKey"@))
    &&& r.api_base_url@ == as_text(jget(v, "textEndpoint"@))
    &&& r.default_model@ == settings_model(v)
    &&& r.text_mode@ == text_or(jstr(jget(v, "textMode"@)), "openai"@)
    &&& r.mode@.len() == 0
    &&& r.image_endpoint@.len() == 0
    &&& r.image_key@.len() == 0
    &&& r.image_model@.len() == 0
    &&& r.review_threshold == (match crate::prompt_generation::as_i64(jget(v, "reviewThreshold"@)) {
        Some(t) => t as u8,
        None => 90u8,
    })
    &&& r.enable_local_save == (jget(v, "enableLocalSave"@) == Some(JsonV::Bool(true)))
}

pub fn runtime_config_from_json(settings: &Json) -> (r: RuntimeConfig)
    ensures
        config_of_settings_json(settings@, r),
{
    proof {
        reveal_strlit("");
    }
    let model = match json_str(json_get(settings, "textModel")) {
        Some(m) => if trim_chars(&chars_of(m.as_str())).len() > 0 {
            m
        } else {
            "deepseek-chat".to_string()
        },
        None => "deepseek-chat".to_string(),
    };
    let mode = match json_str(json_get(settings, "textMode")) {
        Some(m) => m,
        None => "openai".to_string(),
    };
    let threshold: u8 = match crate::prompt_generation::json_as_i64(json_get(settings, "reviewThreshold")) {
        Some(t) => t as u8,
        None => 90,
    };
    let save = match json_get(settings, "enableLocalSave") {
        Some(Json::Bool(b)) => *b,
        _ => false,
    };
    RuntimeConfig {
        api_key: crate::prompt_generation::as_text_of(json_get(settings, "textKey")),
        api_base_url: crate::prompt_generation::as_text_of(json_get(settings, "textEndpoint")),
        default_model: model,
        text_mode: mode,
        mode: String::new(),
        image_endpoint: String::new(),
        image_key: String::new(),
        image_model: String::new(),
        review_threshold: threshold,
        enable_local_save: save,
    }
}

/// The refusal of a screenplay step made without a key or an endpoint.
pub fn check_step_configured(cfg: &RuntimeConfig) -> (r: Result<(), String>)
    ensures
        r is Ok <==> (cfg.api_key@.len() > 0 && cfg.api_base_url@.len() > 0),
        r is Err ==> r->Err_0@ == "API \u{672a}\u{914d}\u{7f6e}, \u{8bf7}\u{5148}\u{5230}\u{8bbe}\u{7f6e}\u{9875}\u{586b}\u{5199}\u{6587}\u{5b57}\u{6a21}\u{578b} API \u{5730}\u{5740}\u{548c}\u{5bc6}\u{94a5}."@,
{
    if cfg.api_key.as_str().is_empty() || cfg.api_base_url.as_str().is_empty() {
        Err("API \u{672a}\u{914d}\u{7f6e}, \u{8bf7}\u{5148}\u{5230}\u{8bbe}\u{7f6e}\u{9875}\u{586b}\u{5199}\u{6587}\u{5b57}\u{6a21}\u{578b} API \u{5730}\u{5740}\u{548c}\u{5bc6}\u{94a5}.".to_string())
    } else {
        Ok(())
    }
}

pub open spec fn opt_text(o: Option<String>) -> JsonV {
    match o {
        Some(t) => JsonV::Str(t@),
        None => JsonV::Null,
    }
}

fn opt_text_exec(o: &Option<String>) -> (r: Json)
    ensures
        r@ == opt_text(*o),
{
    match o {
        Some(t) => Json::Str(t.clone()),
        None => Json::Null,
    }
}

/// A project's settings as the model reads them (`init`, in camelCase).
pub open spec fn init_view(i: ProjectInit) -> JsonV {
    JsonV::Object(
        seq![
            ("chinese"@, match i.chinese {
                Some(b) => JsonV::Bool(b),
                None => JsonV::Null,
            }),
            ("concept"@, opt_text(i.concept)),
            ("duration"@, opt_text(i.duration)),
            ("format"@, opt_text(i.format)),
            ("genres"@, match i.genres {
                Some(g) => JsonV::Array(g@.map_values(|t: String| JsonV::Str(t@))),
                None => JsonV::Null,
            }),
            ("importedFileName"@, opt_text(i.imported_file_name)),
            ("importedScript"@, opt_text(i.imported_script)),
            ("master"@, opt_text(i.master)),
            ("name"@, opt_text(i.name)),
            ("path"@, opt_text(i.path)),
            ("ultrashortMode"@, opt_text(i.ultrashort_mode)),
        ],
    )
}

pub fn init_json(init: &ProjectInit) -> (r: Json)
    ensures
        r@ == init_view(*init),
{
    let genres = match &init.genres {
        Some(g) => {
            let mut items: Vec<Json> = Vec::new();
            let mut k: usize = 0;
            while k < g.len()
                invariant
                    k <= g@.len(),
                    items@.len() == k,
                    forall|j: int| 0 <= j < k ==> (#[trigger] items@[j])@ == JsonV::Str(g@[j]@),
                decreases g@.len() - k,
            {
                items.push(Json::Str(g[k].clone()));
                k += 1;
            }
            proof {
                lemma_array_view(items);
            }
            let a = Json::Array(items);
            assert(a@->Array_0 =~= g@.map_values(|t: String| JsonV::Str(t@)));
            a
        },
        None => Json::Null,
    };
    let chinese = match init.chinese {
        Some(b) => Json::Bool(b),
        None => Json::Null,
    };
    let fields: Vec<(String, Json)> = vec![
        ("chinese".to_string(), chinese),
        ("concept".to_string(), opt_text_exec(&init.concept)),
        ("duration".to_string(), opt_text_exec(&init.duration)),
        ("format".to_string(), opt_text_exec(&init.format)),
        ("genres".to_string(), genres),
        ("importedFileName".to_string(), opt_text_exec(&init.imported_file_name)),
        ("importedScript".to_string(), opt_text_exec(&init.imported_script)),
        ("master".to_string(), opt_text_exec(&init.master)),
        ("name".to_string(), opt_text_exec(&init.name)),
        ("path".to_string(), opt_text_exec(&init.path)),
        ("ultrashortMode".to_string(), opt_text_exec(&init.ultrashort_mode)),
    ];
    proof {
        lemma_object_view(fields);
    }
    let r = Json::Object(fields);
    assert(r@->Object_0 =~= init_view(*init)->Object_0);
    r
}

/// The parameters of a step's model call.
pub open spec fn step_params_view(step_number: int, init: JsonV, snapshot: JsonV, feedback: Option<String>) -> JsonV {
    JsonV::Object(
        seq![
            ("init"@, init),
            ("projectSnapshot"@, snapshot),
            ("stepNumber"@, JsonV::Int(step_number)),
            ("userFeedback"@, opt_text(feedback)),
        ],
    )
}

pub fn step_params(step_number: u8, init: Json, snapshot: Json, user_feedback: Option<String>) -> (r: Json)
    ensures
        r@ == step_params_view(step_number as int, init@, snapshot@, user_feedback),
{
    let ghost iv = init@;
    let ghost sv = snapshot@;
    let fb = opt_text_exec(&user_feedback);
    let fields: Vec<(String, Json)> = vec![
        ("init".to_string(), init),
        ("projectSnapshot".to_string(), snapshot),
        ("stepNumber".to_string(), Json::Int(step_number as i64)),
        ("userFeedback".to_string(), fb),
    ];
    proof {
        lemma_object_view(fields);
    }
    let r = Json::Object(fields);
    assert(r@->Object_0 =~= step_params_view(step_number as int, iv, sv, user_feedback)->Object_0);
    r
}

/// The label of a new version: the first 20 bytes of the user's request (cut
/// at a char boundary), or 初版 for a first draft.
pub open spec fn version_label_text(feedback: Option<Seq<char>>) -> Seq<char> {
    match feedback {
        Some(f) => "\u{4fee}\u{6539}: "@ + byte_prefix(f, if utf8_len(f) < 20 { utf8_len(f) } else { 20 }),
        None => "\u{521d}\u{7248}"@,
    }
}

pub fn version_label(user_feedback: Option<&str>) -> (r: String)
    ensures
        r@ == version_label_text(match user_feedback {
            Some(f) => Some(f@),
            None => None,
        }),
{
    match user_feedback {
        Some(f) => {
            let c = chars_of(f);
            let len = utf8_len_of(&c);
            let b: u128 = if len < 20 { len } else { 20 };
            let mut out = chars_of("\u{4fee}\u{6539}: ");
            append_chars(&mut out, &byte_prefix_chars(&c, b));
            string_of(&out)
        },
        None => "\u{521d}\u{7248}".to_string(),
    }
}

/// What a generated step returns: the new version's id, the text and its
/// structured reading.
pub open spec fn step_result_view(version_id: Seq<char>, text: Seq<char>, structured: Option<JsonV>) -> JsonV {
    JsonV::Object(
        seq![
            ("structured"@, match structured {
                Some(x) => x,
                None => JsonV::Null,
            }),
            ("text"@, JsonV::Str(text)),
            ("versionId"@, JsonV::Str(version_id)),
        ],
    )
}

pub fn step_result(version_id: String, text: String, structured: Option<Json>) -> (r: Json)
    ensures
        r@ == step_result_view(version_id@, text@, crate::prompt_generation::owned_view(structured)),
{
    let ghost sv = crate::prompt_generation::owned_view(structured);
    let ghost tv = text@;
    let ghost vv = version_id@;
    let s = match structured {
        Some(x) => x,
        None => Json::Null,
    };
    let fields: Vec<(String, Json)> = vec![
        ("structured".to_string(), s),
        ("text".to_string(), Json::Str(text)),
        ("versionId".to_string(), Json::Str(version_id)),
    ];
    proof {
        lemma_object_view(fields);
    }
    let r = Json::Object(fields);
    assert(r@->Object_0 =~= step_result_view(vv, tv, sv)->Object_0);
    r
}

/// What script generation tells the model of the request.
pub open spec fn generation_input_view(i: ScriptGenerationInput) -> JsonV {
    JsonV::Object(
        seq![
            ("audience"@, opt_text(i.audience)),
            ("customStyle"@, opt_text(i.custom_style)),
            ("duration"@, opt_text(i.duration)),
            ("ending"@, opt_text(i.ending)),
            ("episodes"@, opt_text(i.episodes)),
            ("genres"@, opt_text(i.genres)),
            ("inputSummary"@, JsonV::Str(i.input_summary@)),
            ("mode"@, JsonV::Str(i.mode@)),
            ("outputMode"@, opt_text(i.output_mode)),
            ("stylePreset"@, opt_text(i.style_preset)),
            ("tone"@, opt_text(i.tone)),
        ],
    )
}

pub fn generation_input(input: &ScriptGenerationInput) -> (r: Json)
    ensures
        r@ == generation_input_view(*input),
{
    let fields: Vec<(String, Json)> = vec![
        ("audience".to_string(), opt_text_exec(&input.audience)),
        ("customStyle".to_string(), opt_text_exec(&input.custom_style)),
        ("duration".to_string(), opt_text_exec(&input.duration)),
        ("ending".to_string(), opt_text_exec(&input.ending)),
        ("episodes".to_string(), opt_text_exec(&input.episodes)),
        ("genres".to_string(), opt_text_exec(&input.genres)),
        ("inputSummary".to_string(), Json::Str(input.input_summary.clone())),
        ("mode".to_string(), Json::Str(input.mode.clone())),
        ("outputMode".to_string(), opt_text_exec(&input.output_mode)),
        ("stylePreset".to_string(), opt_text_exec(&input.style_preset)),
        ("tone".to_string(), opt_text_exec(&input.tone)),
    ];
    proof {
        lemma_object_view(fields);
    }
    let r = Json::Object(fields);
    assert(r@->Object_0 =~= generation_input_view(*input)->Object_0);
    r
}

/// The messages of the writing round: the plan, then the request.
pub fn writing_messages(plan: &str, input_text: &str) -> (r: Vec<Json>)
    ensures
        crate::prompt_generation::views(r@) == seq![message_view("user"@, plan@), message_view("user"@, input_text@)],
{
    let r = vec![message("user", plan), message("user", input_text)];
    assert(crate::prompt_generation::views(r@) =~= seq![message_view("user"@, plan@), message_view("user"@, input_text@)]);
    r
}

/// The one section a generated script is kept as.
pub fn generation_sections(completion: String) -> (r: Vec<ScriptSection>)
    ensures
        r@.len() == 1,
        r@[0].title@ == "\u{5b8c}\u{6574}\u{7ed3}\u{679c}\u{6587}\u{672c}"@,
        r@[0].content@ == completion@,
{
    vec![ScriptSection { title: "\u{5b8c}\u{6574}\u{7ed3}\u{679c}\u{6587}\u{672c}".to_string(), content: completion }]
}

} // verus!
