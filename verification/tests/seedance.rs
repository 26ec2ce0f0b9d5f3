use cineforge::dual_region::{dual_text_readable, parse_dual_region};
use cineforge::seedance::{
    chinese_digit_to_number, parse_init_duration_to_sec, parse_scene_secs,
    split_script_into_paragraphs, try_parse_scene_header,
};

#[test]
fn scene_seconds_forms() {
    assert_eq!(parse_scene_secs("（0:30-1:15）"), Some(45));
    assert_eq!(parse_scene_secs("(约1分20秒)"), Some(80));
    assert_eq!(parse_scene_secs("（2分钟）"), Some(120));
    assert_eq!(parse_scene_secs("（ 40 秒 ）"), Some(40));
    assert_eq!(parse_scene_secs("没有时长"), None);
}

#[test]
fn chinese_numerals() {
    let n = |s: &str| chinese_digit_to_number(&s.chars().collect::<Vec<char>>());
    assert_eq!(n("7"), Some(7));
    assert_eq!(n("三"), Some(3));
    assert_eq!(n("十二"), Some(12));
    assert_eq!(n("二十"), Some(20));
    assert_eq!(n("二十三"), Some(23));
    assert_eq!(n("百"), None);
}

#[test]
fn scene_header_forms() {
    let h = try_parse_scene_header("【场景一：开场】（30秒）").unwrap();
    assert_eq!((h.scene_num, h.secs), (1, 30));
    let h = try_parse_scene_header("## 第十二场：决战（1分30秒）").unwrap();
    assert_eq!((h.scene_num, h.secs), (12, 90));
    let h = try_parse_scene_header("场3：街头（约2分钟）").unwrap();
    assert_eq!((h.scene_num, h.secs), (3, 120));
    assert!(try_parse_scene_header("【场景一：开场】").is_none());
    assert!(try_parse_scene_header("场零：序（10秒）").is_none());
}

#[test]
fn init_duration_seconds() {
    assert_eq!(parse_init_duration_to_sec("2分30秒"), 150);
    assert_eq!(parse_init_duration_to_sec("3分钟"), 180);
    assert_eq!(parse_init_duration_to_sec("45秒"), 45);
    assert_eq!(parse_init_duration_to_sec("短片"), 60);
}

#[test]
fn script_splits_into_scene_paragraphs() {
    let script = "【场景一：开场】（30秒）\n林晚推门而入。\n\n她看向窗外。\n\n【场景二：对峙】（1分30秒）\n两人对视。";
    let (paras, scenes, total) = split_script_into_paragraphs(script);
    assert_eq!(paras.len(), 2);
    assert_eq!(paras[0].id, "§1");
    assert_eq!(paras[0].text, "林晚推门而入。\n\n她看向窗外。");
    assert_eq!(paras[1].id, "§2");
    assert_eq!(paras[1].text, "两人对视。");
    assert_eq!(scenes.len(), 2);
    assert_eq!((scenes[0].scene_id, scenes[0].unit_count), (1, 2));
    assert_eq!(scenes[0].section_refs, vec!["§1".to_string()]);
    assert_eq!((scenes[1].scene_id, scenes[1].unit_count), (2, 7));
    assert_eq!(total, 9);
}

#[test]
fn dual_region_copy_and_note() {
    let text = "前言\n═══ 📋 COPY 区 START ═══\n镜头一：雨夜\n═════\n镜头二：回眸\n═══ 📋 COPY 区 END ═══\n═══ 📝 NOTE 区 START ═══\n## 段号溯源\n§1\n§2\n## 自检报告\nG1: ✅ 通过\nG-2：⚠ 注意\n## 下一单元衔接参考\n她转身\n═══ 📝 NOTE 区 END ═══";
    assert!(dual_text_readable(text));
    let d = parse_dual_region(text);
    assert_eq!(d.copy_area, "镜头一：雨夜\n\n镜头二：回眸");
    assert_eq!(d.note_area.traceback, "§1 · §2");
    assert_eq!(d.note_area.next_unit_hint, Some("她转身".to_string()));
    assert_eq!(d.note_area.self_check_report.get(&"G1".to_string()), Some(&"pass".to_string()));
    assert_eq!(d.note_area.self_check_report.get(&"G-2".to_string()), Some(&"warn".to_string()));
}

#[test]
fn dual_region_without_markers_keeps_all_text() {
    let d = parse_dual_region("  只有正文  ");
    assert_eq!(d.copy_area, "只有正文");
    assert_eq!(d.note_area.traceback, "");
    assert_eq!(d.note_area.next_unit_hint, None);
}
