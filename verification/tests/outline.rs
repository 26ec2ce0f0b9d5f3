use cineforge::json::Json;
use cineforge::prompt_generation::{
    assets_context, json_to_text, outline_reindexable, regeneration_request, reindex_outline, span_ok,
};

fn ol_str(s: &str) -> Json {
    Json::Str(s.to_string())
}

fn ol_obj(fields: Vec<(&str, Json)>) -> Json {
    Json::Object(fields.into_iter().map(|(k, v)| (k.to_string(), v)).collect())
}

#[test]
fn confirmed_outline_is_renumbered() {
    let outline = ol_obj(vec![
        ("shots", Json::Array(vec![ol_obj(vec![("index", Json::Int(7)), ("title", ol_str("a"))]), Json::Null])),
        ("totalShots", Json::Int(9)),
    ]);
    assert!(outline_reindexable(&outline));
    let r = reindex_outline(outline);
    assert_eq!(
        json_to_text(&r),
        "{\"shots\":[{\"index\":0,\"title\":\"a\"},{\"index\":1}],\"totalShots\":2}"
    );
    let no_shots = ol_obj(vec![("title", ol_str("t"))]);
    assert_eq!(reindex_outline(ol_obj(vec![("title", ol_str("t"))])), no_shots);
    assert!(!outline_reindexable(&ol_obj(vec![("shots", Json::Array(vec![Json::Int(1)]))])));
}

#[test]
fn assets_context_picks_fields_by_kind() {
    assert_eq!(assets_context(&vec![]), Json::Object(vec![]));
    let assets = vec![
        ("prop".to_string(), Some(ol_obj(vec![("name", ol_str("伞")), ("id", ol_str("p1"))]))),
        ("scene".to_string(), None),
        ("other".to_string(), Some(ol_obj(vec![("name", ol_str("x"))]))),
    ];
    assert_eq!(
        json_to_text(&assets_context(&assets)),
        "{\"characters\":[],\"props\":[{\"aliases\":null,\"dramaticFunction\":null,\"form\":null,\"material\":null,\"name\":\"伞\",\"surfaceState\":null}],\"scenes\":[]}"
    );
}

#[test]
fn regeneration_request_carries_review_and_original() {
    let shots = vec![ol_obj(vec![("title", ol_str("一"))])];
    let outline = ol_obj(vec![]);
    let fb = ol_str("太暗");
    let req = regeneration_request(&outline, &shots, 0, 1, Json::Null, None, Some(&fb), None);
    assert_eq!(
        json_to_text(&req),
        "{\"assets\":null,\"currentShot\":{\"index\":0,\"keyBeats\":null,\"scriptContent\":\"\",\"shotType\":\"D\",\"title\":\"一\",\"totalShots\":1},\"nextShotBrief\":null,\"originalSeedance\":null,\"previousContext\":null,\"previousShotBrief\":null,\"reviewFeedback\":\"太暗\",\"storyOverview\":{\"coreConflict\":null,\"fiveActs\":null,\"informationGain\":null,\"protagonistMotivation\":null,\"sceneQuality\":null}}"
    );
}

#[test]
fn bracket_span_order() {
    assert!(span_ok("x{a}y", '{', '}'));
    assert!(span_ok("no braces", '{', '}'));
    assert!(!span_ok("}x{", '{', '}'));
}
