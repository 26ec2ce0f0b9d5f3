use cineforge::json::Json;
use cineforge::v5_parser::{
    merge_v5_analysis, parse_int_safe, parse_section_refs, parse_v5_analysis, parse_v5_blocks,
    normalize_scene_type, ParagraphIndexItem,
};

const PLAN: &str = "## META\nstructureType: nonlinear\ntotalSec: 60\ntotalUnits: 3\n\n## PARA P1\n人物: 阿明\n动作: 推门\nmood: calm\n\n## PEAK P1\nkind: 反转\n原文引用: 他笑了\n\n## BUFFER P2\nreason: 喘息\n\n## SUBTEXT P1\n描述: 心虚\n\n## UNIT 1\nsectionRefs: P1，P2\ndurationSec: 15\nsceneType: 武戏\nsubShotCount: 4\nsummary: 开场\nsceneId: 2\n\n## UNIT x\nsceneType: 未知\n";

#[test]
fn v5_blocks_split_by_headers() {
    let bs = parse_v5_blocks(PLAN);
    assert_eq!(bs.len(), 7);
    assert_eq!(bs[0].type_str, "META");
    assert_eq!(bs[0].id, "");
    assert_eq!(bs[1].type_str, "PARA");
    assert_eq!(bs[1].id, "P1");
    assert_eq!(bs[1].pairs[0], ("人物".to_string(), "阿明".to_string()));
    assert_eq!(bs[1].pairs[1], ("动作".to_string(), "推门".to_string()));
}

#[test]
fn v5_analysis_reads_every_block_kind() {
    let a = parse_v5_analysis(PLAN);
    assert_eq!(a.structure_type, "nonlinear");
    assert_eq!(a.total_sec, 60);
    assert_eq!(a.units.len(), 2);
    assert_eq!(a.total_units, 2);
    assert_eq!(a.paragraph_facts.len(), 1);
    assert_eq!(a.paragraph_facts[0].id, "P1");
    assert_eq!(
        a.paragraph_facts[0].facts,
        Json::Object(vec![
            ("action".to_string(), Json::Str("推门".to_string())),
            ("character".to_string(), Json::Str("阿明".to_string())),
        ])
    );
    assert_eq!(a.emotion_map.peaks[0].kind, "反转");
    assert_eq!(a.emotion_map.peaks[0].original_ref, "他笑了");
    assert_eq!(a.emotion_map.buffers[0].section_id, "P2");
    assert_eq!(a.emotion_map.buffers[0].reason, "喘息");
    assert_eq!(a.emotion_map.subtexts[0].description, "心虚");
    let u = &a.units[0];
    assert_eq!(u.index, 1);
    assert_eq!(u.section_refs, vec!["P1".to_string(), "P2".to_string()]);
    assert_eq!((u.duration_sec, u.sub_shot_count), (15, 4));
    assert_eq!(u.scene_type, "武戏");
    assert_eq!(u.summary, "开场");
    assert_eq!(u.scene_id, Some(2));
    let u = &a.units[1];
    assert_eq!(u.index, 2); // "x" is no number: the unit is numbered by position
    assert_eq!((u.duration_sec, u.sub_shot_count), (13, 3));
    assert_eq!(u.scene_type, "文戏");
    assert_eq!(u.scene_id, None);
    assert_eq!(a.warnings, vec!["totalUnits=3 但实际 2 个 UNIT · 用实际数".to_string()]);
}

#[test]
fn v5_analysis_of_empty_text_warns() {
    let a = parse_v5_analysis("");
    assert_eq!(a.structure_type, "linear");
    assert_eq!((a.total_sec, a.total_units), (0, 0));
    assert_eq!(
        a.warnings,
        vec![
            "META block 缺失 · 用默认值".to_string(),
            "0 UNIT blocks · 异常".to_string(),
            "0 PARA blocks · 异常 (段落标注为空)".to_string(),
        ]
    );
    let m = merge_v5_analysis(a, vec![ParagraphIndexItem { id: "P1".to_string(), text: "t".to_string(), facts: None }]);
    assert_eq!(m.structure_type, "linear");
}

#[test]
fn v5_header_id_and_full_width_colon() {
    let a = parse_v5_analysis("## PARA §3\n人物：张三");
    assert_eq!(a.paragraph_facts.len(), 1);
    assert_eq!(a.paragraph_facts[0].id, "§3");
    assert_eq!(
        a.paragraph_facts[0].facts,
        Json::Object(vec![("character".to_string(), Json::Str("张三".to_string()))])
    );
}

#[test]
fn v5_small_parsers() {
    assert_eq!(parse_int_safe(" 42 ", 7), 42);
    assert_eq!(parse_int_safe("4x", 7), 7);
    assert_eq!(parse_section_refs("P1, P2；P3  P4"), vec!["P1", "P2", "P3", "P4"]);
    assert!(parse_section_refs("").is_empty());
    assert_eq!(normalize_scene_type(" 环境戏 "), "环境戏");
    assert_eq!(normalize_scene_type("动作"), "文戏");
}
