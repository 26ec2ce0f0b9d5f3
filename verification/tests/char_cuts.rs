use cineforge::generation::version_label;
use cineforge::json::Json;
use cineforge::llm::{call_failed_message, upstream_msg};
use cineforge::prompt_generation::{build_fallback_v2_shot, build_previous_context, check_scene_index};
use cineforge::seedance::{split_script_into_paragraphs, unit_outcome, UnitOutcome};
use cineforge::asset_extraction::script_character_names;

#[test]
fn upstream_message_cut_at_char_boundary() {
    let m = "错".repeat(100);
    assert_eq!(upstream_msg(Some(m)), format!("：{}", "错".repeat(66)));
    assert_eq!(upstream_msg(Some(String::new())), "");
    assert_eq!(upstream_msg(None), "");
}

#[test]
fn failure_detail_cut_at_char_boundary() {
    let d = format!("a{}", "错".repeat(100));
    assert_eq!(call_failed_message("X", 500, &d), format!("X 调用失败（500）：a{}", "错".repeat(66)));
}

#[test]
fn version_label_cut_at_char_boundary() {
    assert_eq!(version_label(Some("请把第二场改得更紧张一些")), "修改: 请把第二场改");
    assert_eq!(version_label(None), "初版");
}

#[test]
fn script_tail_cut_at_char_boundary() {
    let shot = build_fallback_v2_shot(0);
    let ctx = build_previous_context(&shot, &"错".repeat(100), "q");
    match ctx {
        Json::Object(fields) => match &fields[1].1 {
            Json::Str(t) => assert_eq!(t, &"错".repeat(66)),
            _ => panic!("tail is a string"),
        },
        _ => panic!("object expected"),
    }
}

#[test]
fn empty_outline_scene_is_out_of_range() {
    assert_eq!(check_scene_index(0, 0).err(), Some("分镜序号 0 超出范围 (0--1)".to_string()));
}

#[test]
fn short_copy_preview_cut_at_char_boundary() {
    let text = format!("═══ 📋 COPY 区 START ═══\n短\n═══ 📋 COPY 区 END ═══\n{}", "镜".repeat(200));
    let mut b = 500;
    while !text.is_char_boundary(b) {
        b -= 1;
    }
    match unit_outcome(&text) {
        UnitOutcome::Failed { copy_area, message, .. } => {
            assert_eq!(copy_area, "短");
            assert_eq!(message, format!("LLM 产出异常: COPY 区字数 3 < 200. 原始前 500 字:\n{}", &text[..b]));
            assert!(b < 500);
        }
        UnitOutcome::Done { .. } => panic!("a 3-byte copy area is short"),
    }
}

#[test]
fn role_window_cut_at_char_boundary() {
    let script = format!("女主{}**林晚**：你好", "啊".repeat(40));
    let names = script_character_names(&script);
    assert_eq!(names, vec![("林晚".to_string(), String::new())]);
    let script = format!("女主{}**林晚**：你好", "啊".repeat(30));
    assert_eq!(script_character_names(&script), vec![("林晚".to_string(), "女主".to_string())]);
}

#[test]
fn long_paragraph_cut_at_sentence_ends() {
    let script = format!("【场景1：长】（约30秒）\n\n{}", "很长。".repeat(120));
    let (paras, scenes, total) = split_script_into_paragraphs(&script);
    assert_eq!(paras.len(), 2);
    assert_eq!(paras[0].id, "§1.1");
    assert_eq!(paras[0].text, "很长。".repeat(66));
    assert_eq!(paras[1].id, "§1.2");
    assert_eq!(paras[1].text, "很长。".repeat(54));
    assert_eq!(scenes.len(), 1);
    assert_eq!(scenes[0].section_refs, vec!["§1.1".to_string(), "§1.2".to_string()]);
    assert_eq!((scenes[0].scene_id, scenes[0].unit_count, total), (1, 2, 2));
}
