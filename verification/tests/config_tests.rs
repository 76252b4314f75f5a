use kms_capture::config::{EnvSnapshot, load_config};

fn base_env() -> EnvSnapshot {
    EnvSnapshot {
        config_path: None,
        vault_path: None,
        db_path: None,
        data_dir: None,
        xdg_data_home: None,
        home_dir: Some("/home/tester".to_string()),
        cwd_chain: vec!["/work/project".to_string(), "/work".to_string()],
        settings_found: vec![false, false],
        override_text: None,
        root_text: None,
    }
}

#[test]
fn default_vault_path_is_tilde_notes() {
    let cfg = load_config(&base_env());
    assert_eq!(cfg.vault.path, "/home/tester/notes");
    assert_eq!(cfg.vault.capture_dir, "capture/raw_capture");
    assert_eq!(cfg.vault.media_dir, "capture/raw_capture/media");
    assert_eq!(cfg.mode, "prod");
    assert!(!cfg.is_dev);
    assert_eq!(cfg.ui.clipboard_poll_ms, None);
}

#[test]
fn settings_file_vault_path_applies() {
    let mut env = base_env();
    env.root_text = Some(
        "vault:\n  path: /from/file\n  capture_dir: notes/in\n  media_dir: notes/in/m\nui:\n  clipboard_poll_ms: 250\n"
            .to_string(),
    );
    let cfg = load_config(&env);
    assert_eq!(cfg.vault.path, "/from/file");
    assert_eq!(cfg.vault.capture_dir, "notes/in");
    assert_eq!(cfg.vault.media_dir, "notes/in/m");
    assert_eq!(cfg.ui.clipboard_poll_ms, Some(250));
}

#[test]
fn vault_env_override_always_wins() {
    let mut env = base_env();
    env.root_text = Some("vault:\n  path: /from/file\n".to_string());
    env.vault_path = Some("~/overridden".to_string());
    let cfg = load_config(&env);
    assert_eq!(cfg.vault.path, "/home/tester/overridden");
}

#[test]
fn unreadable_settings_fall_back_to_defaults() {
    let mut env = base_env();
    env.override_text = Some(": not yaml [".to_string());
    let cfg = load_config(&env);
    assert_eq!(cfg.vault.path, "/home/tester/notes");
    assert_eq!(cfg.mode, "prod");
}

#[test]
fn sentinel_vault_path_resolves_to_repo_root() {
    let mut env = base_env();
    env.settings_found = vec![false, true];
    env.root_text = Some("vault:\n  path: ROOT_DIRECTORY_PATH\n".to_string());
    let cfg = load_config(&env);
    assert_eq!(cfg.vault.path, "/work");

    let mut env2 = base_env();
    env2.settings_found = vec![true, false];
    env2.root_text = Some("vault:\n  path: ROOT_DIRECTORY_PATH/dev\n".to_string());
    let cfg2 = load_config(&env2);
    assert_eq!(cfg2.vault.path, "/work/project/dev");
}

#[test]
fn data_dir_override_forces_db_file() {
    let mut env = base_env();
    env.data_dir = Some("/srv/data".to_string());
    env.db_path = Some("/elsewhere.db".to_string());
    let cfg = load_config(&env);
    assert_eq!(cfg.database.path, "/srv/data/main.db");
}

#[test]
fn db_env_override_is_second() {
    let mut env = base_env();
    env.db_path = Some("/elsewhere.db".to_string());
    let cfg = load_config(&env);
    assert_eq!(cfg.database.path, "/elsewhere.db");
}

#[test]
fn prod_relative_db_goes_to_data_home() {
    let mut env = base_env();
    env.xdg_data_home = Some("/xdg".to_string());
    let cfg = load_config(&env);
    assert_eq!(cfg.database.path, "/xdg/kms-capture/main.db");

    let env2 = base_env();
    let cfg2 = load_config(&env2);
    assert_eq!(cfg2.database.path, "/home/tester/.local/share/kms-capture/main.db");
}

#[test]
fn dev_relative_db_goes_under_repo_root() {
    let mut env = base_env();
    env.settings_found = vec![false, true];
    env.root_text = Some("development:\n  mode: dev\ndatabase:\n  path: server/main.db\n".to_string());
    let cfg = load_config(&env);
    assert!(cfg.is_dev);
    assert_eq!(cfg.mode, "dev");
    assert_eq!(cfg.database.path, "/work/server/main.db");
}

#[test]
fn absolute_configured_db_is_verbatim() {
    let mut env = base_env();
    env.root_text = Some("database:\n  path: /abs/main.db\n".to_string());
    let cfg = load_config(&env);
    assert_eq!(cfg.database.path, "/abs/main.db");
}

#[test]
fn config_path_override_sets_repo_root() {
    let mut env = base_env();
    env.config_path = Some("/repo/config.yaml".to_string());
    env.override_text = Some("development:\n  mode: dev\n".to_string());
    let cfg = load_config(&env);
    assert_eq!(cfg.database.path, "/repo/server/main.db");
}

#[test]
fn opaque_sections_pass_through() {
    let mut env = base_env();
    env.root_text = Some("theme:\n  accent: teal\n".to_string());
    let cfg = load_config(&env);
    assert!(cfg.theme.contains("accent"));
    assert!(cfg.theme.contains("teal"));
    assert_eq!(cfg.capture, "{}");
    assert_eq!(cfg.keybindings, "{}");
}

#[test]
fn non_mapping_override_falls_through_to_root_settings() {
    let mut env = base_env();
    env.override_text = Some("just a scalar".to_string());
    env.root_text = Some("vault:\n  path: /from/root\n".to_string());
    let cfg = load_config(&env);
    assert_eq!(cfg.vault.path, "/from/root");
}
