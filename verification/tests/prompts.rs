use cineforge::json::Json;
use cineforge::prompts::{
    build_checkpoint_prompt, build_generic_prompt, build_seedance_phase_ad_prompt,
    build_seedance_unit_efg_prompt, build_selfcheck_prompt, build_step_prompt,
    build_user_message, context_kind, parse_seconds, previous_outputs, prompt_slug, replace_text,
    step_system, ContextKind, PromptSlug,
};

fn pr_obj(fields: Vec<(&str, Json)>) -> Json {
    Json::Object(fields.into_iter().map(|(k, v)| (k.to_string(), v)).collect())
}

fn pr_str(s: &str) -> Json {
    Json::Str(s.to_string())
}

#[test]
fn replace_text_replaces_every_occurrence() {
    assert_eq!(replace_text("a{x}b{x}", "{x}", "Z"), "aZbZ");
    assert_eq!(replace_text("none here", "{x}", "Z"), "none here");
    assert_eq!(replace_text("aaa", "aa", "b"), "ba");
}

#[test]
fn seconds_from_minutes() {
    assert_eq!(parse_seconds("2分钟"), "120");
    assert_eq!(parse_seconds("3"), "180");
    assert_eq!(parse_seconds("1分30秒"), "7800");
    assert_eq!(parse_seconds("约几分钟"), "120");
}

#[test]
fn step_system_with_settings_block() {
    let init = pr_obj(vec![
        ("duration", pr_str("3分钟")),
        ("format", pr_str("竖屏")),
        ("genres", Json::Array(vec![pr_str("古装"), pr_str("复仇")])),
        ("chinese", Json::Bool(true)),
    ]);
    let params = pr_obj(vec![("init", init)]);
    assert_eq!(
        step_system(&params, Some("时长{duration}，共{seconds}秒")),
        "## 项目配置\nformat: 竖屏\ngenres: 古装、复仇\nchinese: true\n\n\n时长3分钟，共180秒"
    );
}

#[test]
fn step_system_without_settings_uses_default_duration() {
    let params = pr_obj(vec![("init", pr_obj(vec![]))]);
    assert_eq!(step_system(&params, Some("T{duration}/{seconds}")), "T2分钟/120");
    assert_eq!(step_system(&params, None), "");
}

#[test]
fn user_message_for_a_timed_step() {
    let init = pr_obj(vec![
        ("concept", pr_str("c")),
        ("name", pr_str("c")),
        ("duration", pr_str("1分钟")),
    ]);
    let outputs = vec![(2u64, "abc".to_string())];
    let msg = build_user_message(6, &init, &outputs, "fb");
    let expected = "## 项目核心概念\nc\n\n".to_string()
        + "\n## ⚠ 时长红线\n本步涉及具体场景时长。所有场景 duration 加起来必须 ≈ **1分钟** (±10%)。\n输出前先自己把 duration 字段转秒累加一次，验证在目标区间内再输出。\n\n"
        + "### 第2步产出\nabc\n\n"
        + "## 用户修改要求\nfb\n\n"
        + "请严格按 system 中 \"当前任务\" 的输出格式要求产出，不要输出任何 meta 解释。";
    assert_eq!(msg, expected);
}

#[test]
fn user_message_names_a_project_apart_from_its_concept() {
    let init = pr_obj(vec![("concept", pr_str("概念")), ("name", pr_str("剧名")), ("format", pr_str("横屏"))]);
    let msg = build_user_message(2, &init, &vec![], "");
    assert_eq!(
        msg,
        "## 项目核心概念\n概念\n\n## 项目名称\n剧名\n\n## 项目格式\n横屏\n\n请严格按 system 中 \"当前任务\" 的输出格式要求产出，不要输出任何 meta 解释。"
    );
}

#[test]
fn long_earlier_output_is_cut() {
    let init = pr_obj(vec![]);
    let long = "字".repeat(1600);
    let msg = build_user_message(3, &init, &vec![(1u64, long)], "");
    assert!(msg.starts_with("### 第1步产出\n"));
    let body: String = msg.chars().skip("### 第1步产出\n".chars().count()).take(1501).collect();
    assert_eq!(body.chars().filter(|c| *c == '字').count(), 1500);
}

#[test]
fn earlier_outputs_are_listed_in_step_order() {
    let steps = pr_obj(vec![
        ("1", pr_obj(vec![("structured", pr_str("one"))])),
        ("2", pr_obj(vec![("structured", Json::Null)])),
        ("3", pr_obj(vec![("structured", Json::Int(3))])),
        ("4", pr_obj(vec![("structured", pr_str("four"))])),
    ]);
    let snapshot = pr_obj(vec![("steps", steps)]);
    let outs = previous_outputs(&snapshot, 4);
    assert_eq!(outs.len(), 2);
    assert_eq!(outs[0], (1, pr_str("one")));
    assert_eq!(outs[1], (3, Json::Int(3)));
}

#[test]
fn step_prompt_reads_step_and_feedback() {
    let params = pr_obj(vec![
        ("init", pr_obj(vec![("concept", pr_str("c"))])),
        ("stepNumber", Json::Int(2)),
        ("userFeedback", pr_str("更紧凑")),
    ]);
    let (system, user) = build_step_prompt(&params, Some("S{duration}"), &vec![(1u64, "x".to_string())]);
    assert_eq!(system, "S2分钟");
    assert_eq!(
        user,
        "## 项目核心概念\nc\n\n".to_string()
            + "### 第1步产出\nx\n\n## 用户修改要求\n更紧凑\n\n请严格按 system 中 \"当前任务\" 的输出格式要求产出，不要输出任何 meta 解释。"
    );
}

#[test]
fn selfcheck_prompt_fills_step_number() {
    let params = pr_obj(vec![
        ("stepNumber", Json::Int(3)),
        ("currentOutput", pr_str("out")),
        ("init", pr_obj(vec![("concept", pr_str("概念")), ("duration", pr_str(""))])),
    ]);
    let (system, user) = build_selfcheck_prompt(&params, "第{stepNumber}步自检");
    assert_eq!(system, "第3步自检");
    assert_eq!(
        user,
        "## 待自检 · 第 3 步 (当前产出)\n\n项目概念：概念\n时长：\n\n```\nout\n```\n\n请严格按 system 中 \"输出格式\" 给出 markdown 自检报告 (## CHECK N 块 · === 分隔)。不要输出任何其他文字。"
    );
}

#[test]
fn selfcheck_prompt_defaults() {
    let (system, user) = build_selfcheck_prompt(&pr_obj(vec![]), "{stepNumber}");
    assert_eq!(system, "1");
    assert!(user.contains("```\n(无产出)\n```"));
}

#[test]
fn checkpoint_prompt_lists_project() {
    let params = pr_obj(vec![(
        "init",
        pr_obj(vec![
            ("name", pr_str("n")),
            ("concept", pr_str("c")),
            ("duration", pr_str("2分钟")),
            ("format", pr_str("f")),
        ]),
    )]);
    let (system, user) = build_checkpoint_prompt(&params, "TPL", "{}");
    assert_eq!(system, "TPL");
    assert_eq!(
        user,
        "## 项目信息\n- 项目名: n\n- 格式: f\n- 时长: 2分钟\n- 概念: c\n\n## 前置步骤产出 (请据此生成检查点)\n\n{}\n\n请按 system 中的模板产出检查点。字段完整，简洁精准，800-1200 字。"
    );
}

#[test]
fn storyboard_prompts() {
    let params = pr_obj(vec![("scriptBody", pr_str("正文")), ("duration", pr_str("1分钟"))]);
    let (system, user) = build_seedance_phase_ad_prompt(&params, "SYS");
    assert_eq!(system, "SYS");
    assert_eq!(user, "## 剧本正文\n\n正文\n\n## 时长\n1分钟\n\n## 资产清单\n\n{}");
    let params = pr_obj(vec![
        ("scriptFragment", pr_str("片段")),
        ("assetsJson", pr_str("[]")),
        ("unitIndex", Json::Int(-2)),
        ("plannedEntryState", pr_str("入")),
    ]);
    let (_, user) = build_seedance_unit_efg_prompt(&params, "SYS", "U", "null");
    assert_eq!(
        user,
        "## 单元信息\n\nU\n\n## 剧本片段\n\n片段\n\n## 分析上下文\n\nnull\n\n## 资产清单\n\n[]\n\n## 单元序号\n-2\n\n## 起幅锚点\n入\n\n## 上一单元落幅\n"
    );
}

#[test]
fn generic_prompt_and_dispatch() {
    let (system, user) = build_generic_prompt("{}");
    assert_eq!(system, "你是一个专业的AI助手。");
    assert_eq!(user, "请根据以下信息生成内容：\n{}");
    assert!(matches!(context_kind("screenplay_step"), ContextKind::ScreenplayStep));
    assert!(matches!(context_kind("seedance_unit_efg"), ContextKind::SeedanceUnitEfg));
    assert!(matches!(context_kind("other"), ContextKind::Other));
    assert!(matches!(prompt_slug("asset_prop"), Some(PromptSlug::AssetProp)));
    assert!(matches!(prompt_slug("script_review"), Some(PromptSlug::ScriptReview)));
    assert!(prompt_slug("nope").is_none());
}
