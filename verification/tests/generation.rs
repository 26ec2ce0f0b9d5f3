use cineforge::crud::AppSettings;
use cineforge::generation::{
    check_step_configured, generation_sections, init_json, runtime_config,
    runtime_config_from_json, step_params, step_result, version_label, writing_messages,
};
use cineforge::json::Json;
use cineforge::screenplay_store::ProjectInit;

fn gn_obj(fields: Vec<(&str, Json)>) -> Json {
    Json::Object(fields.into_iter().map(|(k, v)| (k.to_string(), v)).collect())
}

fn gn_str(s: &str) -> Json {
    Json::Str(s.to_string())
}

#[test]
fn version_labels() {
    assert_eq!(version_label(None), "初版");
    assert_eq!(version_label(Some("短")), "修改: 短");
    assert_eq!(version_label(Some("abcdefghijklmnopqrstuvwxyz")), "修改: abcdefghijklmnopqrst");
    assert_eq!(version_label(Some("一二三四五六七八")), "修改: 一二三四五六");
}

#[test]
fn config_from_saved_settings() {
    let s = AppSettings {
        text_endpoint: "https://e".to_string(),
        text_key: "k".to_string(),
        text_model: "m".to_string(),
        text_mode: "openai".to_string(),
        image_endpoint: "ie".to_string(),
        image_key: "ik".to_string(),
        image_model: "im".to_string(),
        review_threshold: 85,
        enable_local_save: true,
    };
    let c = runtime_config(&s);
    assert_eq!(c.api_base_url, "https://e");
    assert_eq!(c.api_key, "k");
    assert_eq!(c.default_model, "m");
    assert_eq!(c.mode, "remote-configured");
    assert_eq!(c.image_endpoint, "");
    assert_eq!(c.review_threshold, 85);
    assert!(c.enable_local_save);
}

#[test]
fn config_from_settings_object() {
    let c = runtime_config_from_json(&gn_obj(vec![
        ("textKey", gn_str("k")),
        ("textModel", gn_str("  ")),
        ("reviewThreshold", Json::Int(80)),
    ]));
    assert_eq!(c.api_key, "k");
    assert_eq!(c.api_base_url, "");
    assert_eq!(c.default_model, "deepseek-chat");
    assert_eq!(c.text_mode, "openai");
    assert_eq!(c.review_threshold, 80);
    assert!(!c.enable_local_save);
    let d = runtime_config_from_json(&gn_obj(vec![]));
    assert_eq!(d.review_threshold, 90);
    assert_eq!(check_step_configured(&c), Err("API 未配置, 请先到设置页填写文字模型 API 地址和密钥.".to_string()));
    let mut ok = c;
    ok.api_base_url = "https://e".to_string();
    assert_eq!(check_step_configured(&ok), Ok(()));
}

#[test]
fn step_request_parameters() {
    let init = ProjectInit {
        name: Some("剧".to_string()),
        concept: None,
        duration: Some("2分钟".to_string()),
        path: None,
        imported_script: None,
        imported_file_name: None,
        format: None,
        ultrashort_mode: None,
        genres: Some(vec!["古装".to_string()]),
        chinese: Some(true),
        master: None,
    };
    let j = init_json(&init);
    match &j {
        Json::Object(fields) => {
            assert_eq!(fields.len(), 11);
            assert_eq!(fields[0], ("chinese".to_string(), Json::Bool(true)));
            assert_eq!(fields[1], ("concept".to_string(), Json::Null));
            assert_eq!(fields[4], ("genres".to_string(), Json::Array(vec![gn_str("古装")])));
            assert_eq!(fields[8], ("name".to_string(), gn_str("剧")));
        }
        _ => panic!("init object"),
    }
    let p = step_params(3, j, Json::Null, Some("fb".to_string()));
    match &p {
        Json::Object(fields) => {
            assert_eq!(fields[2], ("stepNumber".to_string(), Json::Int(3)));
            assert_eq!(fields[3], ("userFeedback".to_string(), gn_str("fb")));
        }
        _ => panic!("params object"),
    }
}

#[test]
fn step_result_and_writing_round() {
    let r = step_result("v1".to_string(), "t".to_string(), None);
    assert_eq!(
        r,
        gn_obj(vec![("structured", Json::Null), ("text", gn_str("t")), ("versionId", gn_str("v1"))])
    );
    let m = writing_messages("plan", "input");
    assert_eq!(m.len(), 2);
    assert_eq!(m[0], gn_obj(vec![("content", gn_str("plan")), ("role", gn_str("user"))]));
    let s = generation_sections("全文".to_string());
    assert_eq!(s.len(), 1);
    assert_eq!(s[0].title, "完整结果文本");
    assert_eq!(s[0].content, "全文");
}
