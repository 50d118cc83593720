use snaptext::capabilities::{
    desktop_capabilities, join_strings, missing_model_files, ocr_models_capability_action,
    ocr_models_capability_status, validate_ocr_models, Platform,
};
use snaptext::commands::{
    apply_snaptext_cloud_runtime_override, ensure_image_source, ensure_retranslatable,
    mac_screenshot_selection_error, overlay_restore_main_window, pending_overlay_screenshot,
    requested_source_lang, requested_target_lang, speech_authorization_error,
    system_settings_pane, text_translation_request, translator_registry_for_config,
    OverlaySession, SpeechAuthorization, SNAPTEXT_CLOUD_LOCAL_ENDPOINT,
};
use snaptext::config::{AppConfig, Lang, ModelDir};
use snaptext::desktop::{
    centered_anchor, clamp_to_work_area, configured_hotkeys, cursor_anchor, resolve_model_dir,
    routes_after_failed_refresh, shortcut_refresh_error, should_ignore_selection_hotkey,
    tray_action_for_id, HotkeyRoutes, RefreshStep, TrayAction,
};
use snaptext::error::{Error, ErrorKind};
use snaptext::events::{
    history_record_to_translation_result, overlay_translation_event, result_window_state_targets,
    selection_failure_message, PinnedResultPayload, MAIN_WINDOW_LABEL, OVERLAY_TRANSLATION_EVENT,
};
use snaptext::history::{HistoryRecord, HistorySource};
use snaptext::hotkey::HotkeyAction;
use snaptext::ocr::{ModelFilePresence, OcrEngine};
use snaptext::payload::ScreenshotPayload;
use snaptext::screenshot::ImageMeta;

#[test]
fn tray_items_map_to_actions_by_exact_id() {
    assert_eq!(tray_action_for_id("show"), Some(TrayAction::Show));
    assert_eq!(tray_action_for_id("hide"), Some(TrayAction::Hide));
    assert_eq!(tray_action_for_id("quit"), Some(TrayAction::Quit));
    assert_eq!(tray_action_for_id("Quit"), None);
}

#[test]
fn bundled_models_live_in_the_resource_directory() {
    let mut config = AppConfig::default();
    let bundled = resolve_model_dir(&config, Some("/opt/snaptext/resources"));
    assert!(bundled.starts_with("/opt/snaptext/resources"));
    assert!(bundled.ends_with("models"));
    assert_eq!(resolve_model_dir(&config, None), "models");

    config.ocr.model_dir = ModelDir::Custom("/data/models".to_owned());
    assert_eq!(resolve_model_dir(&config, Some("/ignored")), "/data/models");
}

#[test]
fn configured_hotkeys_are_trimmed_and_blank_ones_skipped() {
    let mut config = AppConfig::default();
    config.hotkeys.screenshot = "  Alt+W ".to_owned();
    config.hotkeys.selection = "   ".to_owned();

    let hotkeys = configured_hotkeys(&config);

    assert_eq!(hotkeys, vec![(HotkeyAction::Screenshot, "Alt+W".to_owned())]);
}

#[test]
fn routes_find_actions_and_refuse_shared_ids() {
    let routes = HotkeyRoutes::from_ids(&vec![
        (HotkeyAction::Screenshot, 7),
        (HotkeyAction::Selection, 9),
    ])
    .expect("routes");

    assert_eq!(routes.action_for_event_id(7), Some(HotkeyAction::Screenshot));
    assert_eq!(routes.action_for_event_id(9), Some(HotkeyAction::Selection));
    assert_eq!(routes.action_for_event_id(8), None);
    assert_eq!(HotkeyRoutes::empty().action_for_event_id(7), None);
    assert!(HotkeyRoutes::from_ids(&vec![
        (HotkeyAction::Screenshot, 3),
        (HotkeyAction::Selection, 3),
    ])
    .expect_err("same id")
    .message()
    .contains("screenshot and selection hotkeys must be different"));
}

#[test]
fn failed_refresh_keeps_or_restores_routes() {
    let current = HotkeyRoutes::from_ids(&vec![(HotkeyAction::Screenshot, 1)]).expect("current");
    let previous = HotkeyRoutes::from_ids(&vec![(HotkeyAction::Selection, 2)]).expect("previous");

    let restored = routes_after_failed_refresh(current, true, Some(Ok(previous)));
    assert_eq!(restored.action_for_event_id(2), Some(HotkeyAction::Selection));

    let current = HotkeyRoutes::from_ids(&vec![(HotkeyAction::Screenshot, 1)]).expect("current");
    let previous = HotkeyRoutes::from_ids(&vec![(HotkeyAction::Selection, 2)]).expect("previous");
    let kept = routes_after_failed_refresh(current, false, Some(Ok(previous)));
    assert_eq!(kept.action_for_event_id(1), Some(HotkeyAction::Screenshot));
}

#[test]
fn refresh_errors_mention_both_failures() {
    let single = shortcut_refresh_error(
        RefreshStep::Register,
        Error::from_str(ErrorKind::Config, "bad shortcut"),
        None,
    );
    let both = shortcut_refresh_error(
        RefreshStep::UpdateRoutes,
        Error::from_str(ErrorKind::Config, "bad routes"),
        Some(Error::from_str(ErrorKind::Config, "bad restore")),
    );

    assert_eq!(single.message(), "config failed: config failed: bad shortcut");
    assert_eq!(
        both.message(),
        "config failed: failed to update shortcut routes: config failed: bad routes; failed to restore previous shortcuts: config failed: bad restore"
    );
}

#[test]
fn selection_hotkey_is_debounced() {
    assert!(should_ignore_selection_hotkey(Some(10)));
    assert!(should_ignore_selection_hotkey(Some(799)));
    assert!(!should_ignore_selection_hotkey(Some(800)));
    assert!(!should_ignore_selection_hotkey(None));
}

#[test]
fn result_window_positions() {
    assert_eq!(cursor_anchor(100, 200), (118, 218));
    assert_eq!(centered_anchor(0, 0, 800, 600, 400, 300), (200, 150));
    assert_eq!(centered_anchor(10, 10, 100, 100, 301, 100), (-90, 10));
    assert_eq!(clamp_to_work_area(1900, -5, 400, 300, 0, 0, 1920, 1080), (1520, 0));
    assert_eq!(clamp_to_work_area(50, 50, 4000, 300, 0, 0, 1920, 1080), (0, 50));
}

#[test]
fn cloud_override_switches_to_the_local_endpoint() {
    let mut translator = AppConfig::default().translator;
    let production = translator.snaptext_cloud.endpoint.clone();

    apply_snaptext_cloud_runtime_override(&mut translator, Some(" PROD ".to_owned())).expect("prod");
    assert_eq!(translator.snaptext_cloud.endpoint, production);

    apply_snaptext_cloud_runtime_override(&mut translator, Some("local".to_owned())).expect("local");
    assert!(translator
        .snaptext_cloud
        .endpoint
        .starts_with(SNAPTEXT_CLOUD_LOCAL_ENDPOINT));

    let err = apply_snaptext_cloud_runtime_override(&mut translator, Some("staging".to_owned()))
        .expect_err("unknown");
    assert_eq!(
        err.message(),
        "config failed: SNAPTEXT_CLOUD_ENV must be local or production"
    );
}

#[test]
fn registry_for_config_applies_the_override() {
    let config = AppConfig::default();
    assert!(translator_registry_for_config(&config, None).is_ok());
    assert!(translator_registry_for_config(&config, Some("bogus".to_owned())).is_err());
}

#[test]
fn requested_languages_fall_back_and_trim() {
    assert_eq!(requested_target_lang(Some(" fr ".to_owned()), Lang("en".to_owned())).0, "fr");
    assert_eq!(requested_target_lang(Some("  ".to_owned()), Lang("en".to_owned())).0, "en");
    assert_eq!(requested_target_lang(None, Lang("en".to_owned())).0, "en");
    assert!(requested_source_lang(Some(" auto ".to_owned())).is_none());
    assert!(requested_source_lang(None).is_none());
    assert_eq!(requested_source_lang(Some(" ja ".to_owned())).expect("source").0, "ja");

    let request = text_translation_request("hi".to_owned(), None, Lang("de".to_owned()));
    assert_eq!(request.texts, ["hi"]);
}

#[test]
fn command_guards_reject_bad_inputs() {
    assert!(ensure_retranslatable(" \n").is_err());
    ensure_retranslatable("again").expect("text");
    assert_eq!(
        ensure_image_source(HistorySource::Text).expect_err("text source").message(),
        format!("image failed: text sources cannot be translated {}", "from image data")
    );
    ensure_image_source(HistorySource::Screenshot).expect("image source");
}

#[test]
fn overlay_session_controls_restoring_the_main_window() {
    let session = Some(OverlaySession {
        screenshot: ScreenshotPayload {
            meta: ImageMeta {
                width: 3,
                height: 4,
                path: None,
            },
            base64_png: "QUJD".to_owned(),
        },
        restore_main_window: true,
    });

    assert!(overlay_restore_main_window(&session));
    assert!(!overlay_restore_main_window(&None));
    assert_eq!(pending_overlay_screenshot(&session).expect("payload").meta.width, 3);
    assert!(pending_overlay_screenshot(&None)
        .expect_err("no overlay")
        .message()
        .contains("no active screenshot overlay is available"));
}

#[test]
fn settings_panes_exist_only_on_macos() {
    assert_eq!(
        system_settings_pane(Platform::MacOs, "accessibility").expect("pane"),
        "x-apple.systempreferences:com.apple.preference.security?Privacy_Accessibility"
    );
    assert!(system_settings_pane(Platform::MacOs, "camera").is_err());
    assert!(system_settings_pane(Platform::Windows, "accessibility").is_err());
}

#[test]
fn screenshot_selection_errors_describe_the_failure() {
    assert_eq!(
        mac_screenshot_selection_error(Some(1), b"  "),
        "screenshot selection produced no image; status=1"
    );
    assert_eq!(
        mac_screenshot_selection_error(Some(-2), b""),
        "screenshot selection produced no image; status=-2"
    );
    assert_eq!(
        mac_screenshot_selection_error(None, b""),
        "screenshot selection produced no image; status=terminated"
    );
    assert_eq!(
        mac_screenshot_selection_error(Some(1), b" cancelled \n"),
        "screenshot selection failed: cancelled"
    );
}

#[test]
fn speech_authorization_messages() {
    assert_eq!(
        speech_authorization_error(SpeechAuthorization::Denied),
        "speech recognition permission was denied"
    );
    assert_eq!(
        speech_authorization_error(SpeechAuthorization::NotDetermined),
        "speech recognition is not authorized"
    );
}

#[test]
fn selection_failures_are_explained() {
    let permission = Error::from_str(ErrorKind::Selection, "Accessibility permission is required");
    let other = Error::from_str(ErrorKind::Selection, "boom");

    assert!(selection_failure_message(&permission).contains("辅助功能"));
    assert_eq!(selection_failure_message(&other), "selection failed: boom");
}

#[test]
fn events_and_history_payloads() {
    assert_eq!(overlay_translation_event(), OVERLAY_TRANSLATION_EVENT);
    assert_eq!(result_window_state_targets(), vec![MAIN_WINDOW_LABEL]);

    let record = HistoryRecord {
        id: 1,
        created_at: 2,
        source: HistorySource::Selection,
        source_text: "hello".to_owned(),
        target_lang: "fr".to_owned(),
        translated_text: "bonjour".to_owned(),
    };
    let result = history_record_to_translation_result(&record);
    let pinned = PinnedResultPayload::from_result(&result);

    assert_eq!(result.source_text, "hello");
    assert!(result.text_lines.is_empty());
    assert_eq!(pinned.translated_text, "bonjour");
    assert_eq!(PinnedResultPayload::from_record(&record).target_lang, "fr");
}

#[test]
fn ocr_model_status_reports_missing_files_then_loading() {
    let engine = OcrEngine::new("/models".to_owned()).expect("engine");
    let missing = ModelFilePresence {
        det: true,
        cls: false,
        rec: true,
        rec_dict: false,
    };
    let all = ModelFilePresence {
        det: true,
        cls: true,
        rec: true,
        rec_dict: true,
    };

    assert_eq!(missing_model_files(&missing), vec!["cls.onnx", "rec_dict.txt"]);
    let status = validate_ocr_models(&engine, &missing, "", None);
    assert_eq!(ocr_models_capability_status(&status), "missing_models");
    assert_eq!(
        ocr_models_capability_action(&status),
        "Install bundled OCR assets in /models: cls.onnx, rec_dict.txt"
    );

    let ready = validate_ocr_models(&engine, &all, "a\nb\n", None);
    assert_eq!(ocr_models_capability_status(&ready), "ready");
    assert_eq!(ready.as_ref().expect("status").recognition_dict_len, 2);

    let broken = validate_ocr_models(&engine, &all, "a\n", Some("bad model".to_owned()));
    assert_eq!(ocr_models_capability_status(&broken), "unloadable_models");

    let empty = validate_ocr_models(&engine, &all, "\n\n", None);
    assert_eq!(ocr_models_capability_status(&empty), "error");
}

#[test]
fn capability_report_lists_four_capabilities() {
    let engine = OcrEngine::new("/models".to_owned()).expect("engine");
    let all = ModelFilePresence {
        det: true,
        cls: true,
        rec: true,
        rec_dict: true,
    };
    let status = validate_ocr_models(&engine, &all, "a\n", None);
    let report = desktop_capabilities(Platform::Windows, "granted", &status);

    let names: Vec<&str> = report.iter().map(|c| c.capability.as_str()).collect();
    assert_eq!(names, ["screenshot", "selection", "global_hotkey", "ocr_models"]);
    assert_eq!(report[0].status, "available");
    assert_eq!(report[1].status, "uses_ui_automation");
    assert_eq!(report[3].status, "ready");
    assert_eq!(
        join_strings(&vec!["a".to_owned(), "b".to_owned()], ", "),
        "a, b"
    );
}
