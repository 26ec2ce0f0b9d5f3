use cineforge::asset_extraction::{
    array_in_reply, character_record, extraction_model, extract_characters_from_script,
    extract_scenes_from_script, script_character_names, script_scene_names,
};
use cineforge::json::Json;

fn as_obj(fields: Vec<(&str, Json)>) -> Json {
    Json::Object(fields.into_iter().map(|(k, v)| (k.to_string(), v)).collect())
}

fn as_member<'a>(j: &'a Json, k: &str) -> Option<&'a Json> {
    match j {
        Json::Object(fields) => fields.iter().find(|(n, _)| n == k).map(|(_, v)| v),
        _ => None,
    }
}

#[test]
fn characters_named_in_bold() {
    let script = "女主登场\n**林晚**（冷笑）：你来了。\n**场景二**：夜\n**顾言**: 嗯。\n**林晚**：再见。";
    let names = script_character_names(script);
    assert_eq!(names, vec![("林晚".to_string(), "女主".to_string()), ("顾言".to_string(), "女主".to_string())]);
}

#[test]
fn character_records_get_fresh_ids() {
    let records = extract_characters_from_script("**阿九**：走");
    assert_eq!(records.len(), 1);
    assert_eq!(as_member(&records[0], "name"), Some(&Json::Str("阿九".to_string())));
    match as_member(&records[0], "id") {
        Some(Json::Str(id)) => assert_eq!(id.len(), 36),
        _ => panic!("id string"),
    }
}

#[test]
fn scenes_named_in_headings() {
    let script = "**场景：** 古宅·夜\n正文\n**场景:**  古宅·夜\n**场景：**\n\n街头 · 黄昏\n";
    let scenes = script_scene_names(script);
    assert_eq!(scenes, vec![("古宅·夜".to_string(), "夜".to_string()), ("街头 · 黄昏".to_string(), "黄昏".to_string())]);
    assert_eq!(extract_scenes_from_script(script).len(), 2);
}

#[test]
fn listed_character_defaults() {
    let raw = as_obj(vec![("aliases", Json::Array(vec![Json::Str("小林".to_string()), Json::Int(3)]))]);
    let r = character_record(&raw, "id-1".to_string());
    assert_eq!(as_member(&r, "name"), Some(&Json::Str("Unknown".to_string())));
    assert_eq!(as_member(&r, "role"), Some(&Json::Str("Unknown".to_string())));
    assert_eq!(as_member(&r, "aliases"), Some(&Json::Array(vec![Json::Str("小林".to_string())])));
    assert_eq!(as_member(&r, "appearance"), Some(&Json::Str(String::new())));
}

#[test]
fn reply_arrays() {
    let arr = Json::Array(vec![Json::Int(1)]);
    assert_eq!(array_in_reply(&arr).map(|v| v.len()), Some(1));
    let wrapped = as_obj(vec![("a", Json::Array(vec![])), ("b", Json::Array(vec![Json::Int(2), Json::Int(3)]))]);
    assert_eq!(array_in_reply(&wrapped).map(|v| v.len()), Some(2));
    assert!(array_in_reply(&Json::Str("x".to_string())).is_none());
}

#[test]
fn extraction_model_notes_fallback() {
    assert_eq!(extraction_model("m1", false), "workfisher-asset-extractor-v2 / m1");
    assert_eq!(extraction_model("m1", true), "workfisher-asset-extractor-v2 / m1 / regex-fallback");
}
