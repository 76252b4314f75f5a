use kms_capture::capture::{ContextInput, FieldInput, RawCapture};
use kms_capture::config::{EnvSnapshot, load_config};
use kms_capture::store::{plan_persist, unique_capture_name};

fn env_with_vault(vault: &str) -> EnvSnapshot {
    EnvSnapshot {
        config_path: None,
        vault_path: Some(vault.to_string()),
        db_path: None,
        data_dir: None,
        xdg_data_home: None,
        home_dir: Some("/home/tester".to_string()),
        cwd_chain: vec!["/work".to_string()],
        settings_found: vec![false],
        override_text: None,
        root_text: None,
    }
}

fn capture_with_id(id: &str) -> RawCapture {
    RawCapture {
        timestamp: None,
        capture_id: Some(id.to_string()),
        content: Some("body".to_string()),
        clipboard: None,
        context: ContextInput::Absent,
        tags: FieldInput::Absent,
        sources: FieldInput::Absent,
        modalities: None,
        location: None,
        metadata: Vec::new(),
        media_files: Vec::new(),
        created_date: None,
        last_edited_date: None,
    }
}

#[test]
fn persist_twice_never_overwrites() {
    let id = "2024-01-02T03:04:05Z";
    let first = unique_capture_name(id, &Vec::new());
    assert_eq!(first, "2024-01-02T03:04:05Z.md");
    let second = unique_capture_name(id, &vec![first.clone()]);
    assert_eq!(second, "2024-01-02T03:04:05Z_1.md");
    assert_ne!(first, second);
    let third = unique_capture_name(id, &vec![first.clone(), second.clone()]);
    assert_eq!(third, "2024-01-02T03:04:05Z_2.md");
}

#[test]
fn lowest_free_suffix_is_chosen() {
    let id = "note";
    let existing = vec![
        "note.md".to_string(),
        "note_1.md".to_string(),
        "note_3.md".to_string(),
    ];
    assert_eq!(unique_capture_name(id, &existing), "note_2.md");
}

#[test]
fn unrelated_names_do_not_collide() {
    let existing = vec!["other.md".to_string(), "note_1.md".to_string()];
    assert_eq!(unique_capture_name("note", &existing), "note.md");
}

#[test]
fn fresh_vault_plan_names_both_directories() {
    let cfg = load_config(&env_with_vault("/vault"));
    let c = capture_with_id("idea");
    let plan = plan_persist(&c, &cfg, &Vec::new());
    assert_eq!(plan.capture_dir, "/vault/capture/raw_capture");
    assert_eq!(plan.media_dir, "/vault/capture/raw_capture/media");
    assert_eq!(plan.capture_id, "idea");
    assert_eq!(plan.file_name, "idea.md");
    assert_eq!(plan.file_path, "/vault/capture/raw_capture/idea.md");
    assert_eq!(plan.tmp_path, "/vault/capture/raw_capture/idea.tmp");
    assert!(plan.document.starts_with("---\n"));
}

#[test]
fn second_plan_over_same_id_picks_suffixed_file() {
    let cfg = load_config(&env_with_vault("/vault"));
    let c = capture_with_id("idea");
    let first = plan_persist(&c, &cfg, &Vec::new());
    let second = plan_persist(&c, &cfg, &vec![first.file_name.clone()]);
    assert_eq!(second.file_name, "idea_1.md");
    assert_eq!(second.tmp_path, "/vault/capture/raw_capture/idea_1.tmp");
    assert_ne!(first.file_path, second.file_path);
}
