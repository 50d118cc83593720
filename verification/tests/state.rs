use snaptext::config::{AppConfig, ModelDir, TranslatorProvider};
use snaptext::history::HistoryStore;
use snaptext::state::AppState;

fn store() -> HistoryStore {
    HistoryStore::in_memory().expect("history store")
}

#[test]
fn state_starts_from_the_normalized_configuration() {
    let mut config = AppConfig::default();
    config.target_lang.0 = " fr ".to_owned();
    config.translator.snaptext_cloud.device_id = "device-0001".to_owned();

    let state = AppState::with_resource_dir(config, store(), Some("/opt/snaptext".to_owned()), None)
        .expect("state");

    assert_eq!(state.config.target_lang.0, "fr");
    assert!(state.ocr.model_dir().starts_with("/opt/snaptext"));
    assert!(state.ocr.model_dir().ends_with("models"));
    assert!(state.pending_overlay.is_none());
    assert_eq!(state.resource_dir.as_deref(), Some("/opt/snaptext"));
    assert_eq!(
        state.translator.settings().snaptext_cloud.device_id,
        "device-0001"
    );
}

#[test]
fn state_refuses_an_invalid_configuration() {
    let mut config = AppConfig::default();
    config.hotkeys.selection = config.hotkeys.screenshot.clone();

    let err = AppState::new(config, store(), None).err().expect("refused");

    assert_eq!(
        err.message(),
        "config failed: screenshot and selection hotkeys must be different"
    );
}

#[test]
fn state_applies_the_local_cloud_override() {
    let state = AppState::with_config_path(
        AppConfig::default(),
        store(),
        Some("/tmp/config.yaml".to_owned()),
        Some("local".to_owned()),
    )
    .expect("state");

    assert!(state
        .translator
        .settings()
        .snaptext_cloud
        .endpoint
        .starts_with("http://127.0.0.1:8080"));
    assert_eq!(state.config_path.as_deref(), Some("/tmp/config.yaml"));
    assert!(AppState::new(AppConfig::default(), store(), Some("qa".to_owned())).is_err());
}

#[test]
fn custom_model_dir_setting_keeps_the_path() {
    assert_eq!(
        ModelDir::from_setting("/opt/snaptext/models".to_owned()).setting_text(),
        "/opt/snaptext/models"
    );
    assert!(matches!(
        ModelDir::from_setting("/opt/snaptext/models".to_owned()),
        ModelDir::Custom(path) if path == "/opt/snaptext/models"
    ));
    assert!(matches!(ModelDir::from_setting("bundled".to_owned()), ModelDir::Bundled(v) if v == "bundled"));
    assert!(matches!(ModelDir::from_setting("  ".to_owned()), ModelDir::Bundled(v) if v == "bundled"));
}

#[test]
fn settings_change_is_checked_before_it_is_taken() {
    let mut state = AppState::new(AppConfig::default(), store(), None).expect("state");
    let mut bad = state.config.duplicate();
    bad.hotkeys.selection = bad.hotkeys.screenshot.clone();

    let err = state.prepare_config_update(bad, None).err().expect("refused");

    assert_eq!(
        err.message(),
        "config failed: screenshot and selection hotkeys must be different"
    );
    assert_eq!(state.config.target_lang.0, AppConfig::default().target_lang.0);
}

#[test]
fn settings_change_rebuilds_the_translator_and_engine() {
    let mut state = AppState::new(AppConfig::default(), store(), None).expect("state");
    let mut config = state.config.duplicate();
    config.target_lang.0 = " fr ".to_owned();
    config.translator.provider = TranslatorProvider::DeepL;
    config.ocr.model_dir = ModelDir::Custom("/opt/models".to_owned());

    let update = state.prepare_config_update(config, None).expect("update");
    assert_eq!(update.config.target_lang.0, "fr");
    let saved = state.install_config_update(update).expect("installed");

    assert_eq!(saved.target_lang.0, "fr");
    assert_eq!(state.config.target_lang.0, "fr");
    assert_eq!(state.translator.settings().provider, TranslatorProvider::DeepL);
    assert_eq!(state.ocr.model_dir(), "/opt/models");
}

#[test]
fn settings_change_stops_at_a_translator_that_cannot_be_built() {
    let mut state = AppState::new(AppConfig::default(), store(), None).expect("state");
    let provider_before = state.translator.settings().provider;
    let mut config = state.config.duplicate();
    config.target_lang.0 = "de".to_owned();
    config.translator.provider = TranslatorProvider::Google;

    let update = state.prepare_config_update(config, Some("qa".to_owned())).expect("checked");
    let err = state.install_config_update(update).err().expect("translator refused");

    assert!(err.message().contains("must be local or production"));
    assert_eq!(state.config.target_lang.0, "de");
    assert_eq!(state.translator.settings().provider, provider_before);
}
