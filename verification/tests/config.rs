use snaptext::cloud_auth::is_valid_cloud_device_id;
use snaptext::config::{
    app_config_dir, default_config_path, snaptext_cloud_production_endpoint, AppConfig,
    EnglishAccent, ModelDir, TranslatorProvider, UiLanguage,
};

#[test]
fn default_config_has_plan_hotkeys() {
    let config = AppConfig::default();

    assert_eq!(config.hotkeys.screenshot, "Alt+W");
    assert_eq!(config.hotkeys.selection, "Alt+E");
    assert_eq!(config.target_lang.0, "zh_cn");
    assert_eq!(config.ui.language, UiLanguage::ZhCn);
    assert_eq!(config.speech.english_accent, EnglishAccent::American);
    assert_eq!(
        config.speech.english_accents,
        vec![EnglishAccent::American, EnglishAccent::British]
    );
    assert_eq!(
        config.translator.snaptext_cloud.endpoint,
        snaptext_cloud_production_endpoint()
    );
}

#[test]
fn normalized_for_save_trims_user_input_boundaries() {
    let mut config = AppConfig::default();
    config.target_lang.0 = " fr ".to_owned();
    config.hotkeys.screenshot = " CmdOrCtrl+Shift+T ".to_owned();
    config.hotkeys.selection = " Alt+F8 ".to_owned();
    config.translator.openai_compatible.model = " gpt-test ".to_owned();
    config.translator.openai_compatible.api_key = Some(" sk-test ".to_owned());
    config.translator.deepl.api_key = Some(" \n ".to_owned());
    config.translator.google.api_key = Some(" google-key ".to_owned());
    config.ocr.model_dir = ModelDir::Custom(" ./models ".to_owned());
    config.speech.english_accents = vec![
        EnglishAccent::American,
        EnglishAccent::American,
        EnglishAccent::British,
    ];

    let normalized = config.normalized_for_save().expect("normalized");

    assert_eq!(normalized.target_lang.0, "fr");
    assert_eq!(normalized.hotkeys.screenshot, "CmdOrCtrl+Shift+T");
    assert_eq!(normalized.hotkeys.selection, "Alt+F8");
    assert_eq!(normalized.translator.openai_compatible.model, "gpt-test");
    assert_eq!(
        normalized.translator.openai_compatible.api_key.as_deref(),
        Some("sk-test")
    );
    assert_eq!(normalized.translator.deepl.api_key, None);
    assert_eq!(
        normalized.translator.google.api_key.as_deref(),
        Some("google-key")
    );
    assert!(matches!(&normalized.ocr.model_dir, ModelDir::Custom(path) if path == "./models"));
    assert_eq!(
        normalized.speech.english_accents,
        vec![EnglishAccent::American, EnglishAccent::British]
    );
}

#[test]
fn normalized_config_migrates_removed_translator_providers() {
    let mut openai_config = AppConfig::default();
    openai_config.translator.provider = TranslatorProvider::OpenAiCompatible;
    let mut local_config = AppConfig::default();
    local_config.translator.provider = TranslatorProvider::LocalHttp;

    assert_eq!(
        openai_config.normalized_for_save().expect("normalized").translator.provider,
        TranslatorProvider::SnapTextCloud
    );
    assert_eq!(
        local_config.normalized_for_save().expect("normalized").translator.provider,
        TranslatorProvider::SnapTextCloud
    );
}

#[test]
fn validate_rejects_empty_hotkey() {
    let mut config = AppConfig::default();
    config.hotkeys.selection = "   ".to_owned();

    let err = config.validate().expect_err("empty selection hotkey");

    assert!(err.message().contains("selection hotkey cannot be empty"));
}

#[test]
fn validate_accepts_supported_hotkey_shapes() {
    let mut config = AppConfig::default();
    config.hotkeys.screenshot = "CmdOrCtrl+Shift+T".to_owned();
    config.hotkeys.selection = "Alt+F8".to_owned();

    config.validate().expect("supported hotkeys");
}

#[test]
fn validate_rejects_hotkey_without_modifier() {
    let mut config = AppConfig::default();
    config.hotkeys.selection = "F8".to_owned();

    let err = config.validate().expect_err("missing modifier");

    assert!(err
        .message()
        .contains("selection hotkey must include at least one modifier and one key"));
}

#[test]
fn validate_rejects_unknown_hotkey_modifier() {
    let mut config = AppConfig::default();
    config.hotkeys.selection = "Hyper+T".to_owned();

    let err = config.validate().expect_err("unknown modifier");

    assert!(err
        .message()
        .contains("selection hotkey modifier `Hyper` is not supported"));
}

#[test]
fn validate_rejects_empty_hotkey_segment() {
    let mut config = AppConfig::default();
    config.hotkeys.selection = "CmdOrCtrl++T".to_owned();

    let err = config.validate().expect_err("empty segment");

    assert!(err
        .message()
        .contains("selection hotkey contains an empty key segment"));
}

#[test]
fn validate_rejects_duplicate_hotkey_modifier() {
    let mut config = AppConfig::default();
    config.hotkeys.selection = "Ctrl+Control+T".to_owned();

    let err = config.validate().expect_err("duplicate modifier");

    assert!(err
        .message()
        .contains("selection hotkey modifier `Control` is duplicated"));
}

#[test]
fn validate_rejects_hotkey_ending_with_modifier() {
    let mut config = AppConfig::default();
    config.hotkeys.selection = "CmdOrCtrl+Shift".to_owned();

    let err = config.validate().expect_err("missing key");

    assert!(err
        .message()
        .contains("selection hotkey must end with a non-modifier key"));
}

#[test]
fn validate_rejects_duplicate_hotkeys() {
    let mut config = AppConfig::default();
    config.hotkeys.selection = "  alt+w  ".to_owned();

    let err = config.validate().expect_err("duplicate hotkey");

    assert!(err
        .message()
        .contains("screenshot and selection hotkeys must be different"));
}

#[test]
fn validate_ignores_removed_provider_fields_when_not_selected() {
    let mut config = AppConfig::default();
    config.translator.openai_compatible.model = " ".to_owned();
    config.translator.local_http.endpoint = "file:///tmp/translate".to_owned();

    config.validate().expect("removed provider fields are inert");
}

#[test]
fn default_config_passes_validation() {
    AppConfig::default().validate().expect("default config");
}

#[test]
fn normalizing_twice_changes_nothing_more() {
    let mut config = AppConfig::default();
    config.target_lang.0 = "  de ".to_owned();
    config.translator.snaptext_cloud.device_id = "bad/device".to_owned();
    config.translator.openai_compatible.api_key = Some("  key ".to_owned());
    config.ocr.model_dir = ModelDir::Bundled("   ".to_owned());

    let once = config.normalized_for_save().expect("normalized");
    let device_id = once.translator.snaptext_cloud.device_id.clone();
    let twice = once.duplicate().normalized_for_save().expect("normalized");

    assert!(is_valid_cloud_device_id(&device_id));
    assert_eq!(twice.translator.snaptext_cloud.device_id, device_id);
    assert_eq!(twice.target_lang.0, once.target_lang.0);
    assert_eq!(twice.translator.openai_compatible.api_key, once.translator.openai_compatible.api_key);
    assert!(matches!(&twice.ocr.model_dir, ModelDir::Bundled(v) if v == "bundled"));
}

#[test]
fn validate_rejects_blank_target_language() {
    let mut config = AppConfig::default();
    config.target_lang.0 = " \t".to_owned();

    let err = config.validate().expect_err("blank target");

    assert_eq!(err.message(), "config failed: target language cannot be empty");
}

#[test]
fn validate_rejects_non_http_deepl_url_when_selected() {
    let mut config = AppConfig::default();
    config.translator.provider = TranslatorProvider::DeepL;
    config.translator.deepl.base_url = "ftp://example.com/v2".to_owned();

    let err = config.validate().expect_err("ftp url");

    assert_eq!(err.message(), "config failed: DeepL base URL must use http or https, got ftp");
}

#[test]
fn validate_rejects_empty_custom_model_dir() {
    let mut config = AppConfig::default();
    config.ocr.model_dir = ModelDir::Custom(String::new());

    let err = config.validate().expect_err("empty custom dir");

    assert_eq!(err.message(), "config failed: custom model directory cannot be empty");
}

#[test]
fn default_config_path_ends_with_config_file() {
    let dir = snaptext::config::app_data_dir();
    let path = default_config_path();

    assert!(path.starts_with(&dir));
    assert!(path.ends_with("config.yaml"));
}

#[test]
fn application_directories_are_not_empty() {
    assert!(!app_config_dir().is_empty());
    assert!(!snaptext::config::app_data_dir().is_empty());
}
