use elevenlabs_cli::config::{
    config_path_override, env_overlay_key, file_api_key, mask_secret, AppConfig, AuthKeyState, AuthSource, Defaults, UpdateConfig,
};

fn cfg_with_key(k: Option<&str>) -> AppConfig {
    let mut c = AppConfig::default();
    c.api_key = k.map(|s| s.to_string());
    c
}

#[test]
fn mask_secret_empty_is_not_set() {
    assert_eq!(mask_secret(""), "(not set)");
}

#[test]
fn mask_secret_short_values_keep_two_chars() {
    assert_eq!(mask_secret("a"), "a***");
    assert_eq!(mask_secret("ab"), "ab***");
    assert_eq!(mask_secret("abcdefgh"), "ab***");
}

#[test]
fn mask_secret_long_values_keep_prefix_and_suffix() {
    assert_eq!(mask_secret("abcdefghi"), "abcdef...fghi");
    assert_eq!(mask_secret("sk_1234567890abcd"), "sk_123...abcd");
}

#[test]
fn mask_secret_counts_characters_not_bytes() {
    assert_eq!(mask_secret("ééééééééé"), "éééééé...éééé");
    assert_eq!(mask_secret("éééé"), "éé***");
}

#[test]
fn auth_source_labels() {
    assert_eq!(AuthSource::Env.label(), "ELEVENLABS_API_KEY env var");
    assert_eq!(AuthSource::File.label(), "config file");
    assert_eq!(AuthSource::Unset.label(), "(unset)");
}

#[test]
fn saved_key_wins_over_env() {
    let cfg = cfg_with_key(Some("  file_key  "));
    assert_eq!(cfg.resolve_api_key(Some("env_key")), Some("file_key".to_string()));
}

#[test]
fn env_key_used_when_nothing_saved() {
    let cfg = cfg_with_key(None);
    assert_eq!(cfg.resolve_api_key(Some("  env_key \n")), Some("env_key".to_string()));
}

#[test]
fn blank_saved_key_falls_back_to_env() {
    let cfg = cfg_with_key(Some("   "));
    assert_eq!(cfg.resolve_api_key(Some("env_key")), Some("env_key".to_string()));
    assert_eq!(cfg.resolve_api_key(Some("  ")), None);
    assert_eq!(cfg.resolve_api_key(None), None);
}

#[test]
fn snapshot_reports_both_sources_and_file_wins() {
    let st = AuthKeyState::snapshot(Some("cfgkey"), Some(" envkey "), None);
    assert_eq!(st.env_key.as_deref(), Some("envkey"));
    assert_eq!(st.file_key.as_deref(), Some("cfgkey"));
    assert_eq!(st.effective_source(), AuthSource::File);
    assert_eq!(st.effective_key(), Some("cfgkey"));
    assert!(st.env_ignored_by_file());
}

#[test]
fn snapshot_prefers_key_on_disk() {
    let st = AuthKeyState::snapshot(Some("overlay"), None, Some("disk"));
    assert_eq!(st.file_key.as_deref(), Some("disk"));
    assert_eq!(st.effective_source(), AuthSource::File);
}

#[test]
fn snapshot_blank_file_key_is_absent() {
    let st = AuthKeyState::snapshot(Some("   "), Some("e"), None);
    assert_eq!(st.file_key, None);
    assert_eq!(st.effective_source(), AuthSource::Env);
    assert_eq!(st.effective_key(), Some("e"));
    assert!(!st.env_ignored_by_file());
}

#[test]
fn snapshot_same_key_is_not_ignored() {
    let st = AuthKeyState::snapshot(Some(" k "), Some("k"), None);
    assert!(!st.env_ignored_by_file());
    assert_eq!(st.effective_source(), AuthSource::File);
}

#[test]
fn snapshot_nothing_set() {
    let st = AuthKeyState::snapshot(None, None, None);
    assert_eq!(st.effective_source(), AuthSource::Unset);
    assert_eq!(st.effective_key(), None);
    assert!(!st.env_ignored_by_file());
    let st = AuthKeyState::snapshot(None, Some("   "), None);
    assert_eq!(st.env_key, None);
    assert_eq!(st.effective_source(), AuthSource::Unset);
}

#[test]
fn auth_key_state_of_config() {
    let cfg = cfg_with_key(Some("a"));
    let st = cfg.auth_key_state(Some("b"), None);
    assert_eq!(st.file_key.as_deref(), Some("a"));
    assert_eq!(st.env_key.as_deref(), Some("b"));
    assert!(st.env_ignored_by_file());
    let st = cfg.auth_key_state(Some("b"), Some("c"));
    assert_eq!(st.file_key.as_deref(), Some("c"));
}

#[test]
fn built_in_defaults() {
    let cfg = AppConfig::default();
    assert_eq!(cfg.api_key, None);
    assert_eq!(cfg.default_voice_id(), "cgSgspJ2msm6clMCkdW9");
    assert_eq!(cfg.default_model_id(), "eleven_multilingual_v2");
    assert_eq!(cfg.default_output_format(), "mp3_44100_128");
    let u = UpdateConfig::default();
    assert!(u.enabled);
    assert_eq!(u.owner, "199-biotechnologies");
    assert_eq!(u.repo, "elevenlabs-cli");
    let d = Defaults::default();
    assert!(d.voice_id.is_none() && d.model_id.is_none() && d.output_format.is_none() && d.output_dir.is_none());
}

#[test]
fn configured_defaults_override_built_ins() {
    let mut cfg = AppConfig::default();
    cfg.defaults.voice_id = Some("v1".to_string());
    cfg.defaults.model_id = Some("m1".to_string());
    cfg.defaults.output_format = Some("pcm_16000".to_string());
    assert_eq!(cfg.default_voice_id(), "v1");
    assert_eq!(cfg.default_model_id(), "m1");
    assert_eq!(cfg.default_output_format(), "pcm_16000");
}

#[test]
fn config_path_override_trims_and_ignores_blank() {
    assert_eq!(config_path_override(Some("  /tmp/c.toml \n")), Some("/tmp/c.toml".to_string()));
    assert_eq!(config_path_override(Some("   ")), None);
    assert_eq!(config_path_override(None), None);
}

#[test]
fn file_api_key_reads_top_level_string() {
    assert_eq!(file_api_key("api_key = \"  sk_abc  \"\n"), Some("sk_abc".to_string()));
    assert_eq!(file_api_key("[defaults]\nvoice_id = \"v\"\n"), None);
}

#[test]
fn file_api_key_rejects_blank_wrong_type_and_bad_toml() {
    assert_eq!(file_api_key("api_key = \"   \""), None);
    assert_eq!(file_api_key("api_key = 5"), None);
    assert_eq!(file_api_key("this is [[[ not toml"), None);
    assert_eq!(file_api_key("[defaults]\napi_key = \"nested\"\n"), None);
}

#[test]
fn snapshot_trims_saved_key() {
    let st = AuthKeyState::snapshot(Some("  sk_cfg  "), None, None);
    assert_eq!(st.file_key.as_deref(), Some("sk_cfg"));
    let st = AuthKeyState::snapshot(None, None, Some(" disk\n"));
    assert_eq!(st.file_key.as_deref(), Some("disk"));
    assert_eq!(st.effective_key(), Some("disk"));
}

#[test]
fn env_overlay_keys() {
    assert_eq!(env_overlay_key("defaults_voice_id"), Some("defaults.voice_id".to_string()));
    assert_eq!(env_overlay_key("defaults_output_format"), Some("defaults.output_format".to_string()));
    assert_eq!(env_overlay_key("update_enabled"), Some("update.enabled".to_string()));
    assert_eq!(env_overlay_key("api_key"), None);
    assert_eq!(env_overlay_key("defaults_"), None);
    assert_eq!(env_overlay_key("other"), None);
}
