use cineforge::json::Json;
use cineforge::seedance::{
    assets_tag_ok, check_phase_ad, extract_script_fragment, phase_ad_readable, plan_phase_ad, plan_unit,
    relevant_paragraphs, split_script_into_paragraphs, split_text_readable, storyboard_assets, unit_outcome,
    unit_text_ok, UnitOutcome,
};
use cineforge::v5_parser::parse_v5_analysis;

const UNITS: &str = "## UNIT 1\nsectionRefs: §2\nplannedExitState: 门半开\n\n## UNIT 2\nsectionRefs: §1 §2\n";

#[test]
fn phase_ad_wraps_a_script_without_scenes() {
    let script = "林晚推门而入。";
    assert!(split_text_readable(script));
    assert!(phase_ad_readable(script, "30秒"));
    let plan = plan_phase_ad(script, "30秒");
    assert_eq!(plan.working_script, "【场景1：全片】（约30秒）\n\n林晚推门而入。");
    assert_eq!(plan.scenes.len(), 1);
    assert_eq!(plan.paragraphs.len(), 1);
    assert_eq!(plan.paragraphs[0].text, "林晚推门而入。");
}

#[test]
fn phase_ad_keeps_a_script_with_scenes() {
    let script = "【场景一：开场】（30秒）\n林晚推门而入。";
    let plan = plan_phase_ad(script, "2分钟");
    assert_eq!(plan.working_script, script);
    assert_eq!(plan.scenes.len(), 1);
}

#[test]
fn phase_ad_check_needs_units() {
    let script = "【场景一：开场】（30秒）\n林晚推门而入。";
    let plan = plan_phase_ad(script, "30秒");
    let with_units = parse_v5_analysis(UNITS);
    assert!(check_phase_ad(&with_units, script, &plan).is_ok());
    let none = parse_v5_analysis("");
    let err = check_phase_ad(&none, script, &plan).unwrap_err();
    let len = script.len();
    assert_eq!(
        err,
        format!("Phase A-D 分析失败:\n[切段诊断] script_body={}字 → 切出 1 段, 1 场, totalUnits=2\n切段正常但 LLM 返回 0 UNIT blocks", len)
    );
}

#[test]
fn phase_ad_check_without_paragraphs_quotes_the_script() {
    let mut plan = plan_phase_ad("【场景一：开场】（30秒）\n正文", "30秒");
    plan.paragraphs.clear();
    plan.scenes.clear();
    plan.total_units = 0;
    let none = parse_v5_analysis("");
    let err = check_phase_ad(&none, "abc", &plan).unwrap_err();
    assert_eq!(
        err,
        "Phase A-D 分析失败:\n[切段诊断] script_body=3字 → 切出 0 段, 0 场, totalUnits=0\n⚠ 切段为空! 检查剧本格式是否含场景头标注\n剧本前200字:\nabc"
    );
}

#[test]
fn unit_plan_lookup() {
    let a = parse_v5_analysis(UNITS);
    assert_eq!(plan_unit(&a, 1).unwrap(), (0, String::new()));
    assert_eq!(plan_unit(&a, 2).unwrap(), (1, "门半开".to_string()));
    assert_eq!(plan_unit(&a, 5).unwrap_err(), "单元 #5 不存在 (分析里只有 2 个单元).");
}

#[test]
fn unit_fragment_and_relevant_paragraphs() {
    let script = "【场景一：开场】（30秒）\n甲。\n\n【场景二：对峙】（30秒）\n乙。";
    let (paras, _, _) = split_script_into_paragraphs(script);
    let a = parse_v5_analysis(UNITS);
    assert_eq!(extract_script_fragment(&paras, &a.units[0]), "乙。");
    assert_eq!(extract_script_fragment(&paras, &a.units[1]), "甲。\n\n乙。");
    assert_eq!(relevant_paragraphs(&paras, &a.units[0]), vec![1]);
    assert_eq!(relevant_paragraphs(&paras, &a.units[1]), vec![0, 1]);
}

#[test]
fn unit_outcomes() {
    assert!(unit_text_ok("   "));
    match unit_outcome("   ") {
        UnitOutcome::Failed { copy_area, message, .. } => {
            assert_eq!(copy_area, "");
            assert_eq!(message, "LLM 返回空, 请重试");
        }
        UnitOutcome::Done { .. } => panic!("blank text is no unit"),
    }
    match unit_outcome("短文") {
        UnitOutcome::Failed { copy_area, message, .. } => {
            assert_eq!(copy_area, "短文");
            assert_eq!(message, "LLM 产出异常: COPY 区字数 6 < 200. 原始前 500 字:\n短文");
        }
        UnitOutcome::Done { .. } => panic!("short copy area"),
    }
    let long = "镜".repeat(100);
    match unit_outcome(&long) {
        UnitOutcome::Done { copy_area, .. } => assert_eq!(copy_area, long),
        UnitOutcome::Failed { .. } => panic!("300 bytes suffice"),
    }
}

#[test]
fn storyboard_assets_are_tagged_by_kind() {
    let hero = Json::Object(vec![
        ("id".to_string(), Json::Str("x1".to_string())),
        ("name".to_string(), Json::Str("林晚".to_string())),
        ("aiPrompt".to_string(), Json::Str("p".to_string())),
    ]);
    let assets = vec![
        ("character".to_string(), Some(hero)),
        ("scene".to_string(), Some(Json::Object(vec![("name".to_string(), Json::Str("雨夜".to_string()))]))),
        ("characters".to_string(), Some(Json::Null)),
        ("prop".to_string(), None),
    ];
    assert!(assets_tag_ok(&assets));
    let r = storyboard_assets(&assets);
    assert_eq!(
        r,
        Json::Object(vec![
            (
                "characters".to_string(),
                Json::Array(vec![Json::Object(vec![
                    ("name".to_string(), Json::Str("林晚".to_string())),
                    ("ref".to_string(), Json::Str("@C1".to_string())),
                ])])
            ),
            ("props".to_string(), Json::Array(vec![])),
            (
                "scenes".to_string(),
                Json::Array(vec![Json::Object(vec![
                    ("name".to_string(), Json::Str("雨夜".to_string())),
                    ("ref".to_string(), Json::Str("@S1".to_string())),
                ])])
            ),
        ])
    );
    assert_eq!(storyboard_assets(&vec![]), Json::Object(vec![]));
    assert!(!assets_tag_ok(&vec![("prop".to_string(), Some(Json::Int(3)))]));
}
