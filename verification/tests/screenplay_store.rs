use cineforge::json::Json;
use cineforge::screenplay_store::{
    append_version, approve_step, build_project_snapshot, get_active_version, get_checkpoint,
    list_versions, rollback_to, save_checkpoint, set_active_version, ProjectInit, ProjectRecord,
};

fn ss_init(name: &str) -> ProjectInit {
    ProjectInit {
        name: Some(name.to_string()),
        concept: None,
        duration: Some("2分钟".to_string()),
        path: None,
        imported_script: None,
        imported_file_name: None,
        format: None,
        ultrashort_mode: None,
        genres: None,
        chinese: None,
        master: None,
    }
}

#[test]
fn new_project_starts_at_step_one() {
    let rec = ProjectRecord::create(ss_init("测试"));
    assert_eq!(rec.current_step, 1);
    assert_eq!(rec.done_steps, vec![0]);
    assert!(rec.project_id.starts_with("sp_"));
}

#[test]
fn appended_version_becomes_active() {
    let mut rec = ProjectRecord::create(ss_init("a"));
    let v1 = append_version(&mut rec, 1, Some("初版".to_string()), Some("one".to_string()), None, None);
    let v2 = append_version(&mut rec, 1, None, Some("two".to_string()), Some(Json::Int(2)), None);
    assert_eq!(v1.version_number, 1);
    assert_eq!(v2.version_number, 2);
    let active = get_active_version(&rec, 1).unwrap();
    assert_eq!(active.id, v2.id);
    assert_eq!(active.output, Some("two".to_string()));
    let all = list_versions(&rec, 1);
    assert_eq!(all.len(), 2);
    assert!(!all[0].is_active && all[1].is_active);
}

#[test]
fn restoring_a_version_shows_it() {
    let mut rec = ProjectRecord::create(ss_init("a"));
    let v1 = append_version(&mut rec, 2, None, Some("one".to_string()), None, None);
    let _v2 = append_version(&mut rec, 2, None, Some("two".to_string()), None, None);
    set_active_version(&mut rec, 2, &v1.id);
    assert_eq!(get_active_version(&rec, 2).unwrap().output, Some("one".to_string()));
}

#[test]
fn approve_then_rollback() {
    let mut rec = ProjectRecord::create(ss_init("a"));
    approve_step(&mut rec, 1, None);
    approve_step(&mut rec, 2, None);
    approve_step(&mut rec, 2, None);
    assert_eq!(rec.done_steps, vec![0, 1, 2]);
    assert_eq!(rec.current_step, 3);
    approve_step(&mut rec, 3, Some(12));
    assert_eq!(rec.current_step, 9);
    rollback_to(&mut rec, 2);
    assert_eq!(rec.done_steps, vec![0, 1]);
    assert_eq!(rec.current_step, 2);
}

#[test]
fn checkpoints_and_snapshot() {
    let mut rec = ProjectRecord::create(ss_init("a"));
    assert_eq!(get_checkpoint(&rec, "after-step-6"), None);
    save_checkpoint(&mut rec, "after-step-6", "检查点");
    assert_eq!(get_checkpoint(&rec, "after-step-6"), Some("检查点".to_string()));
    append_version(&mut rec, 3, None, None, Some(Json::Str("s".to_string())), None);
    let snap = build_project_snapshot(&rec);
    match snap {
        Json::Object(fields) => {
            assert_eq!(fields[0].0, "checkpoints");
            assert_eq!(fields[2].0, "steps");
            match &fields[2].1 {
                Json::Object(steps) => {
                    assert_eq!(steps.len(), 1);
                    assert_eq!(steps[0].0, "3");
                }
                _ => panic!("steps object"),
            }
        }
        _ => panic!("snapshot object"),
    }
}
