use cineforge::crud::{settings_from_rows, settings_pairs, AppSettings};
use cineforge::screenplay_store::{append_version, get_active_version, list_versions, ProjectInit, ProjectRecord};

fn lw_init() -> ProjectInit {
    ProjectInit {
        name: Some("史".to_string()),
        concept: None,
        duration: None,
        path: None,
        imported_script: None,
        imported_file_name: None,
        format: None,
        ultrashort_mode: None,
        genres: None,
        chinese: None,
        master: None,
    }
}

#[test]
fn versions_are_numbered_and_only_the_newest_is_active() {
    let mut rec = ProjectRecord::create(lw_init());
    let mut ids = Vec::new();
    for k in 0..4 {
        let v = append_version(&mut rec, 3, None, Some(format!("v{}", k)), None, None);
        ids.push(v.id);
    }
    let all = list_versions(&rec, 3);
    assert_eq!(all.len(), 4);
    for (i, v) in all.iter().enumerate() {
        assert_eq!(v.version_number as usize, i + 1);
        assert_eq!(v.id, ids[i]);
        assert_eq!(v.is_active, i == 3);
    }
    assert_eq!(get_active_version(&rec, 3).unwrap().id, ids[3]);
}

#[test]
fn saved_settings_load_back() {
    let s = AppSettings {
        text_endpoint: "https://e".to_string(),
        text_key: "k".to_string(),
        text_model: "m".to_string(),
        text_mode: "gemini".to_string(),
        image_endpoint: "ie".to_string(),
        image_key: "ik".to_string(),
        image_model: "im".to_string(),
        review_threshold: 7,
        enable_local_save: false,
    };
    let rows: Vec<(String, Option<String>)> = settings_pairs(&s).into_iter().map(|(k, v)| (k, Some(v))).collect();
    let r = settings_from_rows(&rows);
    assert_eq!(r.text_endpoint, s.text_endpoint);
    assert_eq!(r.text_key, s.text_key);
    assert_eq!(r.text_model, s.text_model);
    assert_eq!(r.text_mode, s.text_mode);
    assert_eq!(r.image_endpoint, s.image_endpoint);
    assert_eq!(r.image_key, s.image_key);
    assert_eq!(r.image_model, s.image_model);
    assert_eq!(r.review_threshold, 7);
    assert!(!r.enable_local_save);
}
