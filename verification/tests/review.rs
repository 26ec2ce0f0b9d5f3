use cineforge::json::Json;
use cineforge::review::{
    clamp_score, conflict_hits, extract_score_from_text, extract_status_from_text, hook_hits,
    local_dimension_scores, local_review_result, normalize_dimensions, review_from_payload,
    review_request, script_counts, text_review_result, ReviewDimension,
};

const RV_SCRIPT: &str = "※ 1 夜 内\n阿九：你好\n重生之后\n";

fn rv_obj(fields: Vec<(&str, Json)>) -> Json {
    Json::Object(fields.into_iter().map(|(k, v)| (k.to_string(), v)).collect())
}

fn rv_str(s: &str) -> Json {
    Json::Str(s.to_string())
}

fn rv_scores(d: &[ReviewDimension]) -> Vec<(String, i32)> {
    d.iter().map(|x| (x.name.clone(), x.score)).collect()
}

#[test]
fn scores_are_clamped() {
    assert_eq!(clamp_score(150), 100);
    assert_eq!(clamp_score(-5), 0);
    assert_eq!(clamp_score(42), 42);
}

#[test]
fn script_is_counted() {
    assert_eq!(script_counts(RV_SCRIPT), (1, 1, 0));
    assert_eq!(script_counts("※ 一\n※ 二\nOS：心声 OS\n"), (2, 1, 2));
    assert_eq!(hook_hits(RV_SCRIPT), 1);
    assert_eq!(hook_hits("重生 背叛 系统 重生"), 3);
    assert_eq!(conflict_hits("压制之后反击，再反击"), 2);
}

#[test]
fn heuristic_dimension_scores() {
    let d = local_dimension_scores(RV_SCRIPT);
    assert_eq!(
        rv_scores(&d),
        vec![
            ("StoryProgress".to_string(), 67),
            ("CharacterEmotion".to_string(), 66),
            ("DialogueQuality".to_string(), 65),
            ("PaceControl".to_string(), 68),
            ("Readability".to_string(), 67),
            ("AntiAI".to_string(), 70),
            ("FormatCompliance".to_string(), 75),
        ]
    );
    assert_eq!(d[3].comment, "节奏精准，转场流畅。");
}

#[test]
fn failing_heuristic_review_names_the_weakest_dimensions() {
    let r = local_review_result(RV_SCRIPT, 90, "m", 68);
    assert_eq!(r.score, 68);
    assert_eq!(r.status, "failed");
    assert_eq!(r.summary, "当前剧本已有可用基础，但尚未达到 CineForge 90 分通过线，建议先按优先级回退优化。");
    assert_eq!(
        r.issues,
        vec![
            "部分对白还偏说明性，缺少更短更狠的短剧表达。".to_string(),
            "主角能动性与关键人物关系压制还不够明确，人物戏份还可以更抓人。".to_string(),
            "中段推进和冲突抬升还不够集中，场景之间的递进感偏弱。".to_string(),
        ]
    );
    assert_eq!(r.suggestions[0], "把解释性台词压缩掉，改成更有攻击性、试探性或反击性的对白。");
    assert_eq!(r.priority.len(), 3);
    assert!(!r.rewrite_example.is_empty());
    assert_eq!(r.review_model, "workfisher-review-master-v1 / local-heuristic / m");
    assert!(r.surgery_table.is_none());
}

#[test]
fn passing_heuristic_review() {
    let r = local_review_result(RV_SCRIPT, 60, "m", 68);
    assert_eq!(r.status, "passed");
    assert_eq!(r.rewrite_example, "");
    assert_eq!(r.summary, "当前剧本已达到 CineForge 剧本审查通过线，可进入下游使用，但仍有局部可继续打磨。");
}

#[test]
fn dimensions_matched_by_name_or_position() {
    let fallback = local_dimension_scores(RV_SCRIPT);
    let input = vec![rv_obj(vec![
        ("name", rv_str(" PaceControl ")),
        ("score", Json::Int(120)),
        ("comment", rv_str("x")),
    ])];
    let d = normalize_dimensions(Some(&input), &fallback);
    assert_eq!(d.len(), 7);
    assert_eq!((d[0].name.as_str(), d[0].score, d[0].comment.as_str()), ("StoryProgress", 100, "x"));
    assert_eq!((d[1].score, d[1].comment.as_str()), (66, "角色行为一致，情感通过行为展示。"));
    assert_eq!((d[3].name.as_str(), d[3].score, d[3].comment.as_str()), ("PaceControl", 100, "x"));
    let same = normalize_dimensions(None, &fallback);
    assert_eq!(rv_scores(&same), rv_scores(&fallback));
}

#[test]
fn review_read_from_model_json() {
    let fallback = local_review_result(RV_SCRIPT, 90, "m", 68);
    let dims = local_dimension_scores(RV_SCRIPT);
    let payload = rv_obj(vec![
        ("score", Json::Int(95)),
        ("overallVerdict", rv_str("好")),
        ("problems", Json::Array(vec![rv_str("p1"), Json::Int(3)])),
        ("suggestions", Json::Array(vec![])),
        ("rewriteExample", rv_str("r")),
        (
            "surgeryTable",
            Json::Array(vec![rv_obj(vec![("original", rv_str("o"))]), rv_obj(vec![("x", Json::Int(1))])]),
        ),
    ]);
    let r = review_from_payload(&payload, dims, 68, fallback, 90, "m");
    assert_eq!(r.score, 95);
    assert_eq!(r.status, "passed");
    assert_eq!(r.summary, "好");
    assert_eq!(r.issues, vec!["p1".to_string()]);
    assert_eq!(r.suggestions[0], "把解释性台词压缩掉，改成更有攻击性、试探性或反击性的对白。");
    assert_eq!(r.rewrite_example, "r");
    assert_eq!(r.review_model, "workfisher-review-master-v1 / m");
    assert_eq!(r.surgery_table, Some(vec![rv_obj(vec![("original", rv_str("o"))])]));
}

#[test]
fn review_without_score_uses_weighted() {
    let fallback = local_review_result(RV_SCRIPT, 90, "m", 68);
    let dims = local_dimension_scores(RV_SCRIPT);
    let r = review_from_payload(&rv_obj(vec![]), dims, 68, fallback, 90, "m");
    assert_eq!(r.score, 68);
    assert_eq!(r.status, "failed");
    assert_eq!(r.rewrite_example, "");
    assert!(r.surgery_table.is_none());
}

#[test]
fn score_read_from_text() {
    assert_eq!(extract_score_from_text("总分：85/100"), Some(85));
    assert_eq!(extract_score_from_text("Total score: 150"), Some(100));
    assert_eq!(extract_score_from_text("得分 92 / 100"), Some(92));
    assert_eq!(extract_score_from_text("评分为 7"), Some(7));
    assert_eq!(extract_score_from_text("no numbers"), None);
}

#[test]
fn verdict_read_from_text() {
    assert_eq!(extract_status_from_text("审核通过", None), Some("passed".to_string()));
    assert_eq!(extract_status_from_text("PASSED", None), Some("passed".to_string()));
    assert_eq!(extract_status_from_text("未通过", Some(95)), Some("failed".to_string()));
    assert_eq!(extract_status_from_text("ok", Some(95)), Some("passed".to_string()));
    assert_eq!(extract_status_from_text("ok", Some(80)), Some("failed".to_string()));
    assert_eq!(extract_status_from_text("ok", None), None);
}

#[test]
fn review_read_from_text() {
    let fallback = local_review_result(RV_SCRIPT, 90, "m", 68);
    let r = text_review_result("总分：85/100", fallback, 68, "m");
    assert_eq!(r.score, 85);
    assert_eq!(r.status, "failed");
    assert_eq!(r.review_model, "workfisher-review-master-v1 / text-extraction / m");
    let fallback = local_review_result(RV_SCRIPT, 90, "m", 68);
    let r = text_review_result("看起来不错", fallback, 93, "m");
    assert_eq!(r.score, 93);
    assert_eq!(r.status, "passed");
}

#[test]
fn review_request_fields() {
    let r = review_request("adapt", "摘要", "2分钟", "正文", 90);
    assert_eq!(
        r,
        rv_obj(vec![
            ("duration", rv_str("2分钟")),
            ("inputSummary", rv_str("摘要")),
            ("mode", rv_str("adapt")),
            ("reviewThreshold", Json::Int(90)),
            ("scriptBody", rv_str("正文")),
        ])
    );
}
