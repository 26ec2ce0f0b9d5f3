use cineforge::blocks::parse_typed_blocks;
use cineforge::json::Json;
use cineforge::step_parser::{
    clean_step_text, looks_like_json, normalize_rhythm, parse_csv, parse_int_safe, parse_list,
    parse_step1, parse_step2, parse_step6, parse_step_output, StepOutput,
};

#[test]
fn typed_blocks_split_at_headings() {
    let md = "intro line\n## META\nbranch: A\n## PREMISE p7\ntitle: 雨夜\n---\nbody text\n";
    let blocks = parse_typed_blocks(md);
    assert_eq!(blocks.len(), 2);
    assert_eq!(blocks[0].type_str, "META");
    assert_eq!(blocks[1].type_str, "PREMISE");
    assert_eq!(blocks[1].id, "p7");
    assert_eq!(blocks[1].body, "body text");
    assert_eq!(blocks[1].fields.get(&"title".to_string()), Some(&"雨夜".to_string()));
}

#[test]
fn step1_reads_meta_and_premises() {
    let md = "## META\nbranch: B\nguidance: 选一个\n## PREMISE\ntitle: 复仇\nprotagonist: 林晚\n## PREMISE x9\n标题: 重生\n";
    let s = parse_step1(md);
    assert_eq!(s.branch, "B");
    assert_eq!(s.guidance, Some("选一个".to_string()));
    assert_eq!(s.options.len(), 2);
    assert_eq!(s.options[0].id, "p1");
    assert_eq!(s.options[0].title, "复仇");
    assert_eq!(s.options[0].protagonist, "林晚");
    assert_eq!(s.options[1].id, "x9");
    assert_eq!(s.options[1].title, "重生");
    assert_eq!(s.options[1].opening_hook, None);
}

#[test]
fn step2_counts_chars_of_synopsis_body() {
    let md = "## SYNOPSIS\ntone: 冷峻\n---\n她回到了家。\n";
    let s = parse_step2(md);
    assert_eq!(s.text, "她回到了家。");
    assert_eq!(s.char_count, 6);
    assert_eq!(s.tone, "冷峻");
}

#[test]
fn step6_scene_ids_and_rhythms() {
    let md = "## SCENE s3\ntitle: 对峙\ndurationSec: 45\nplotRhythm: 紧\nemotionRhythm: 奇怪\n## SCENE\ntitle: 结局\n";
    let s = parse_step6(md);
    assert_eq!(s.scenes.len(), 2);
    assert_eq!(s.scenes[0].index, 3);
    assert_eq!(s.scenes[0].id, "s3");
    assert_eq!(s.scenes[0].duration_sec, 45);
    assert_eq!(s.scenes[0].plot_rhythm, "紧");
    assert_eq!(s.scenes[0].emotion_rhythm, "中");
    assert_eq!(s.scenes[1].index, 2);
    assert_eq!(s.scenes[1].id, "s2");
}

#[test]
fn list_and_csv_items() {
    assert_eq!(parse_list("- 一\n* 二\n不是项\n"), vec!["一".to_string(), "二".to_string()]);
    assert_eq!(parse_csv("甲, 乙；丙,,"), vec!["甲".to_string(), "乙".to_string(), "丙".to_string()]);
}

#[test]
fn rhythm_and_int_helpers() {
    assert_eq!(normalize_rhythm("松", "中"), "松");
    assert_eq!(normalize_rhythm("fast", "中"), "中");
    assert_eq!(parse_int_safe("12", 7), 12);
    assert_eq!(parse_int_safe(" 12 ", 7), 7);
    assert_eq!(parse_int_safe("x", 7), 7);
    assert!(looks_like_json("  {\"a\": 1}"));
    assert!(!looks_like_json("## META"));
}

#[test]
fn clean_text_drops_fences_and_thinking() {
    assert_eq!(clean_step_text("<think>draft</think>\n```json\n{\"a\":1}\n```"), "{\"a\":1}");
}

#[test]
fn step_output_prefers_parsed_json() {
    let parsed = Json::Object(vec![("k".to_string(), Json::Int(1))]);
    match parse_step_output(2, "{\"k\":1}", Some(parsed)) {
        Some(StepOutput::Json(Json::Object(fields))) => assert_eq!(fields.len(), 1),
        _ => panic!("expected the parsed JSON"),
    }
    match parse_step_output(2, "## SYNOPSIS\n---\n正文", None) {
        Some(StepOutput::Step2(s)) => assert_eq!(s.text, "正文"),
        _ => panic!("expected step 2"),
    }
    assert!(parse_step_output(9, "## X", None).is_none());
}

#[test]
fn preamble_gives_no_block_and_full_width_colon_splits() {
    let blocks = parse_typed_blocks("好的，以下是结果\n## META\n分支：A\nbranch: B");
    assert_eq!(blocks.len(), 1);
    assert_eq!(blocks[0].type_str, "META");
    assert_eq!(blocks[0].fields.get(&"分支".to_string()), Some(&"A".to_string()));
    assert_eq!(blocks[0].fields.get(&"branch".to_string()), Some(&"B".to_string()));
    assert!(parse_typed_blocks("no header at all").is_empty());
}

#[test]
fn list_bullets_of_every_kind() {
    assert_eq!(parse_list("- a\n* b\n• c\n· d\nplain"), vec!["a", "b", "c", "d"]);
}
