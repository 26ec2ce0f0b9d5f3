use cineforge::json::Json;
use cineforge::prompt_generation::{
    bracket_slice, build_fallback_v2_shot, build_previous_context, check_scene_index,
    json_to_text, merge_shots, normalize_v2_shot, parse_outline_from_json, shot_from_reply,
    shot_request, strip_json_fences, total_shots, V2Shot,
};

fn pg_str(s: &str) -> Json {
    Json::Str(s.to_string())
}

fn pg_obj(fields: Vec<(&str, Json)>) -> Json {
    Json::Object(fields.into_iter().map(|(k, v)| (k.to_string(), v)).collect())
}

fn pg_shot(scene: usize, number: usize, title: &str) -> V2Shot {
    let mut s = build_fallback_v2_shot(scene);
    s.shot_number = number;
    s.title_bar = title.to_string();
    s
}

#[test]
fn outline_reads_step03_and_shots() {
    let parsed = pg_obj(vec![
        ("step03", pg_obj(vec![("coreConflict", pg_str("兄弟反目")), ("motivation", pg_str("复仇"))])),
        ("fiveActs", Json::Array(vec![pg_str("起"), pg_obj(vec![("description", pg_str("承"))])])),
        (
            "shots",
            Json::Array(vec![
                pg_obj(vec![("title", pg_str("开场")), ("scriptContent", pg_str("雨夜")), ("keyBeats", Json::Array(vec![pg_str("雷声")]))]),
                pg_obj(vec![("summary", pg_str("对峙")), ("type", pg_str("A")), ("index", Json::Int(7))]),
            ]),
        ),
    ]);
    let o = parse_outline_from_json(&parsed, "").ok().unwrap();
    assert_eq!(o.core_conflict, "兄弟反目");
    assert_eq!(o.protagonist_motivation, "复仇");
    assert_eq!(o.five_acts, vec!["起".to_string(), "承".to_string()]);
    assert_eq!(o.total_shots, 2);
    assert_eq!(o.shots[0].index, 0);
    assert_eq!(o.shots[0].title, "开场");
    assert_eq!(o.shots[0].shot_type, "D");
    assert_eq!(o.shots[0].key_beats, vec!["雷声".to_string()]);
    assert_eq!(o.shots[1].index, 7);
    assert_eq!(o.shots[1].title, "对峙");
    assert_eq!(o.shots[1].shot_type, "A");
}

#[test]
fn outline_without_shots_is_an_error() {
    let parsed = pg_obj(vec![("coreConflict", pg_str("x"))]);
    assert_eq!(parse_outline_from_json(&parsed, "").err(), Some("大纲生成失败：未找到分镜列表".to_string()));
}

#[test]
fn fallback_shot_title_is_zero_padded() {
    let s = build_fallback_v2_shot(2);
    assert_eq!(s.shot_number, 3);
    assert_eq!(s.scene_index, 2);
    assert_eq!(s.shot_type, "D");
    assert!(s.title_bar.starts_with("【分镜03｜15秒"));
}

#[test]
fn normalized_shot_keeps_connection_after_first() {
    let raw = pg_obj(vec![("mainPrompt", pg_str("主提示")), ("connection", pg_str("接上")), ("assetRefs", Json::Array(vec![pg_str("@甲"), Json::Int(1)]))]);
    let first = normalize_v2_shot(&raw, 0);
    assert_eq!(first.connection, "");
    let later = normalize_v2_shot(&raw, 4);
    assert_eq!(later.connection, "接上");
    assert_eq!(later.shot_number, 5);
    assert_eq!(later.main_prompt, "主提示");
    assert_eq!(later.asset_refs, vec!["@甲".to_string()]);
    assert!(later.compulsory_declaration.starts_with("【强制声明】"));
}

#[test]
fn reply_without_main_prompt_falls_back() {
    let raw = pg_obj(vec![("shotType", pg_str("B"))]);
    let s = shot_from_reply(Some(&raw), 1);
    assert_eq!(s.shot_type, "D");
    assert!(s.main_prompt.starts_with("REAL_CG"));
    let ok = pg_obj(vec![("mainPrompt", pg_str("p")), ("shotType", pg_str("B"))]);
    assert_eq!(shot_from_reply(Some(&ok), 1).shot_type, "B");
    assert_eq!(shot_from_reply(None, 0).shot_number, 1);
}

#[test]
fn merged_shots_replace_the_scene_sort_and_renumber() {
    let existing = vec![pg_shot(2, 9, "旧2"), pg_shot(0, 9, "旧0"), pg_shot(1, 9, "旧1"), pg_shot(0, 9, "旧0b")];
    let group = pg_shot(1, 2, "新1");
    let merged = merge_shots(existing, group);
    let titles: Vec<String> = merged.iter().map(|s| s.title_bar.clone()).collect();
    assert_eq!(titles, vec!["旧0".to_string(), "旧0b".to_string(), "新1".to_string(), "旧2".to_string()]);
    let numbers: Vec<usize> = merged.iter().map(|s| s.shot_number).collect();
    assert_eq!(numbers, vec![1, 2, 3, 4]);
    assert_eq!(merged.iter().filter(|s| s.scene_index == 1).count(), 1);
}

#[test]
fn json_fences_and_brace_span() {
    assert_eq!(strip_json_fences("  ```json```json\n{\"a\":1}\n```  "), "{\"a\":1}");
    assert_eq!(bracket_slice("说明 {\"a\":{}} 结束", '{', '}'), Some("{\"a\":{}}".to_string()));
    assert_eq!(bracket_slice("[1, 2] x", '[', ']'), Some("[1, 2]".to_string()));
    assert_eq!(bracket_slice("none", '{', '}'), None);
}

#[test]
fn previous_context_keeps_last_200_bytes() {
    let shot = pg_shot(0, 1, "标题");
    let long = format!("{}{}", "x".repeat(150), "中".repeat(60));
    let ctx = build_previous_context(&shot, &long, "高清");
    let expected_tail = format!("{}{}", "x".repeat(20), "中".repeat(60));
    assert!(json_to_text(&ctx).contains(&format!("\"lastScriptTail\":\"{}\"", expected_tail)));
    match ctx {
        Json::Object(fields) => {
            assert_eq!(fields[1].0, "lastScriptTail");
            match &fields[1].1 {
                Json::Str(t) => assert_eq!(t.len(), 200),
                _ => panic!("tail is a string"),
            }
            assert_eq!(fields[4].0, "sceneQuality");
        }
        _ => panic!("object expected"),
    }
}

#[test]
fn scene_index_out_of_range_message() {
    assert!(check_scene_index(2, 3).is_ok());
    assert_eq!(check_scene_index(5, 3).err(), Some("分镜序号 5 超出范围 (0-2)".to_string()));
}

#[test]
fn shot_request_names_neighbours() {
    let shots = vec![
        pg_obj(vec![("title", pg_str("一")), ("beats", Json::Array(vec![pg_str("b")]))]),
        pg_obj(vec![("title", pg_str("二")), ("scriptContent", pg_str("正文"))]),
    ];
    let outline = pg_obj(vec![("sceneQuality", pg_str("q"))]);
    let req = shot_request(&outline, &shots, 1, 2, Json::Null, None);
    let text = json_to_text(&req);
    assert_eq!(
        text,
        "{\"assets\":null,\"currentShot\":{\"index\":1,\"keyBeats\":null,\"scriptContent\":\"正文\",\"shotType\":\"D\",\"title\":\"二\",\"totalShots\":2},\"nextShotBrief\":null,\"previousContext\":null,\"previousShotBrief\":{\"keyBeats\":[\"b\"],\"shotType\":\"\",\"title\":\"一\"},\"storyOverview\":{\"coreConflict\":null,\"fiveActs\":null,\"informationGain\":null,\"protagonistMotivation\":null,\"sceneQuality\":\"q\"}}"
    );
}

#[test]
fn total_shots_prefers_outline_count() {
    let with = pg_obj(vec![("totalShots", Json::Int(5))]);
    assert_eq!(total_shots(&with, 3), 5);
    assert_eq!(total_shots(&pg_obj(vec![]), 3), 3);
}

#[test]
fn json_text_escapes_like_serde() {
    let v = pg_obj(vec![("a", pg_str("x\"y\n")), ("b", Json::Array(vec![Json::Int(-3), Json::Bool(true), Json::Null]))]);
    assert_eq!(json_to_text(&v), "{\"a\":\"x\\\"y\\n\",\"b\":[-3,true,null]}");
}
