use snaptext::config::{AppConfig, Lang, TranslatorProvider};
use snaptext::providers::{
    deepl_payload, deepl_texts, google_payload, google_texts, http_status_error, openai_payload,
    parse_local_http_response, parse_openai_content, snaptext_cloud_payload,
    OPENAI_SYSTEM_PROMPT,
};
use snaptext::translate::{
    first_translated_text, validate_translate_request, validate_translate_response_texts,
    TranslateRequest, TranslatorRegistry, MAX_TRANSLATE_TEXTS, MAX_TRANSLATE_TEXT_CHARS,
};

fn sample_request() -> TranslateRequest {
    TranslateRequest {
        texts: vec!["Hello".to_owned()],
        source: Some(Lang("en".to_owned())),
        target: Lang("fr".to_owned()),
    }
}

#[test]
fn deepl_payload_uses_expected_shape() {
    let payload = deepl_payload(&sample_request());

    assert_eq!(payload.text, vec!["Hello".to_owned()]);
    assert_eq!(payload.source_lang.as_deref(), Some("EN"));
    assert_eq!(payload.target_lang, "FR");
}

#[test]
fn google_payload_uses_expected_shape() {
    let payload = google_payload(&sample_request(), "key-123");

    assert_eq!(payload.q, vec!["Hello".to_owned()]);
    assert_eq!(payload.source.as_deref(), Some("en"));
    assert_eq!(payload.target, "fr");
    assert_eq!(payload.format, "text");
    assert_eq!(payload.key, "key-123");
}

#[test]
fn openai_payload_uses_chat_completions_shape() {
    let mut config = AppConfig::default().translator.openai_compatible;
    config.model = "test-model".to_owned();
    let payload = openai_payload(&config.model, &sample_request());

    assert_eq!(payload.model, "test-model");
    assert_eq!(payload.system_prompt, OPENAI_SYSTEM_PROMPT);
    assert_eq!(payload.temperature, 0);
    assert_eq!(payload.source, "en");
    assert_eq!(payload.target, "fr");
    assert_eq!(payload.texts, vec!["Hello".to_owned()]);
}

#[test]
fn openai_payload_names_auto_source_when_detected() {
    let mut request = sample_request();
    request.source = None;
    let payload = openai_payload("m", &request);

    assert_eq!(payload.source, "auto");
}

#[test]
fn snaptext_cloud_payload_uses_fixed_scene_and_mode() {
    let payload = snaptext_cloud_payload(&sample_request(), "Hello", "1.2.3");

    assert_eq!(payload.text, "Hello");
    assert_eq!(payload.source_lang, "en");
    assert_eq!(payload.target_lang, "fr");
    assert_eq!(payload.scene, "text");
    assert_eq!(payload.mode, "balanced");
    assert_eq!(payload.client_version, "1.2.3");
}

#[test]
fn parses_provider_responses() {
    let content = r#"["Bonjour"]"#;
    let openai = parse_openai_content(content);
    let local = parse_local_http_response(Some(vec![Some("Bonjour".to_owned())]), None)
        .expect("local response");

    assert_eq!(openai, ["Bonjour"]);
    assert_eq!(local, ["Bonjour"]);
}

#[test]
fn openai_content_that_is_not_a_list_is_one_trimmed_text() {
    let content = "  Bonjour le monde \n";

    assert_eq!(parse_openai_content(content), ["Bonjour le monde"]);
    assert_eq!(parse_openai_content(r#"["a", " b "]"#), ["a", " b "]);
    assert_eq!(parse_openai_content(r#"["a", 1]"#), [r#"["a", 1]"#]);
}

#[test]
fn local_http_response_rejects_non_string_entries_and_missing_fields() {
    let bad = parse_local_http_response(Some(vec![Some("a".to_owned()), None]), None)
        .expect_err("non-string entry");
    let missing = parse_local_http_response(None, None).expect_err("no texts");
    let single = parse_local_http_response(None, Some("Salut".to_owned())).expect("single text");

    assert!(bad
        .message()
        .contains("local_http translated_texts must be strings"));
    assert!(missing
        .message()
        .contains("local_http response must include translated_texts or translated_text"));
    assert_eq!(single, ["Salut"]);
}

#[test]
fn provider_reply_lists_report_missing_parts() {
    let deepl_missing = deepl_texts(None).expect_err("missing list");
    let google_item = google_texts(Some(vec![None])).expect_err("missing item");
    let google_ok = google_texts(Some(vec![Some("Hola".to_owned())])).expect("texts");

    assert!(deepl_missing
        .message()
        .contains("DeepL response missing translations"));
    assert!(google_item
        .message()
        .contains("Google translation missing translatedText"));
    assert_eq!(google_ok, ["Hola"]);
}

#[test]
fn http_status_error_names_status_and_body() {
    let err = http_status_error("500 Internal Server Error", "boom");

    assert_eq!(
        err.message(),
        "translation failed: HTTP 500 Internal Server Error: boom"
    );
}

#[test]
fn validate_translate_request_rejects_oversized_inputs() {
    let too_many = TranslateRequest {
        texts: vec![String::from("hello"); MAX_TRANSLATE_TEXTS + 1],
        source: None,
        target: Lang("fr".to_owned()),
    };
    let too_long_text = TranslateRequest {
        texts: vec!["a".repeat(MAX_TRANSLATE_TEXT_CHARS + 1)],
        source: None,
        target: Lang("fr".to_owned()),
    };
    let too_long_total = TranslateRequest {
        texts: vec![
            "a".repeat(MAX_TRANSLATE_TEXT_CHARS),
            "b".repeat(MAX_TRANSLATE_TEXT_CHARS),
            "c".to_owned(),
        ],
        source: None,
        target: Lang("fr".to_owned()),
    };

    let too_many_err = validate_translate_request(&too_many).expect_err("too many texts");
    let too_long_text_err =
        validate_translate_request(&too_long_text).expect_err("single text too long");
    let too_long_total_err =
        validate_translate_request(&too_long_total).expect_err("total text too long");

    assert!(too_many_err.message().contains("maximum is 8"));
    assert!(too_long_text_err
        .message()
        .contains("translation text is too long"));
    assert!(too_long_total_err
        .message()
        .contains("translation request is too long"));
}

#[test]
fn validate_translate_request_rejects_empty_inputs() {
    let no_texts = TranslateRequest {
        texts: Vec::new(),
        source: None,
        target: Lang("fr".to_owned()),
    };
    let blank_text = TranslateRequest {
        texts: vec!["hi".to_owned(), " \t".to_owned()],
        source: None,
        target: Lang("fr".to_owned()),
    };
    let blank_target = TranslateRequest {
        texts: vec!["hi".to_owned()],
        source: None,
        target: Lang("  ".to_owned()),
    };

    assert_eq!(
        validate_translate_request(&no_texts)
            .expect_err("no texts")
            .message(),
        "translation failed: translation request must contain at least one text"
    );
    assert_eq!(
        validate_translate_request(&blank_text)
            .expect_err("blank text")
            .message(),
        "translation failed: translation request cannot contain empty text"
    );
    assert_eq!(
        validate_translate_request(&blank_target)
            .expect_err("blank target")
            .message(),
        "translation failed: target language cannot be empty"
    );
    validate_translate_request(&sample_request()).expect("valid request");
}

#[test]
fn validate_translate_request_reports_exact_counts() {
    let too_many = TranslateRequest {
        texts: vec![String::from("hello"); 9],
        source: None,
        target: Lang("fr".to_owned()),
    };

    assert_eq!(
        validate_translate_request(&too_many)
            .expect_err("too many")
            .message(),
        "translation failed: translation request contains 9 texts; maximum is 8"
    );
}

#[test]
fn validate_translate_response_rejects_wrong_count_or_empty_text() {
    let wrong_count =
        validate_translate_response_texts(&vec!["Bonjour".to_owned()], 2).expect_err("wrong count");
    let empty_text =
        validate_translate_response_texts(&vec![" ".to_owned()], 1).expect_err("empty translation");

    assert!(wrong_count
        .message()
        .contains("translator returned 1 texts for 2 input texts"));
    assert!(empty_text
        .message()
        .contains("translator returned empty text"));
}

#[test]
fn first_translated_text_rejects_missing_or_empty_output() {
    let missing = first_translated_text(&Vec::new()).expect_err("missing output");
    let empty = first_translated_text(&vec!["\n\t ".to_owned()]).expect_err("empty output");

    assert!(missing.message().contains("translator returned no text"));
    assert!(empty.message().contains("translator returned empty text"));
}

#[test]
fn registry_plans_local_http_without_credentials() {
    let mut config = AppConfig::default().translator;
    config.provider = TranslatorProvider::LocalHttp;
    let expected_endpoint = config.local_http.endpoint.clone();
    let registry = TranslatorRegistry::new(config);

    let plan = registry.plan(&sample_request()).expect("plan");

    assert_eq!(registry.provider(), TranslatorProvider::LocalHttp);
    assert_eq!(plan.provider, TranslatorProvider::LocalHttp);
    assert_eq!(plan.endpoint, expected_endpoint);
    assert!(plan.api_key.is_none());
    assert!(plan.device_id.is_none());
}

#[test]
fn missing_provider_key_is_rejected_before_http() {
    let mut config = AppConfig::default().translator;
    config.provider = TranslatorProvider::OpenAiCompatible;
    config.openai_compatible.api_key = None;
    let registry = TranslatorRegistry::new(config);

    let err = registry.plan(&sample_request()).expect_err("missing API key");

    assert!(err.message().contains("API key is required"));
}

#[test]
fn registry_plans_openai_chat_endpoint_with_key() {
    let mut config = AppConfig::default().translator;
    config.provider = TranslatorProvider::OpenAiCompatible;
    config.openai_compatible.base_url = "http://127.0.0.1:9000/v1".to_owned();
    config.openai_compatible.api_key = Some("openai-key".to_owned());
    let registry = TranslatorRegistry::new(config);

    let plan = registry.plan(&sample_request()).expect("plan");

    assert_eq!(plan.endpoint, "http://127.0.0.1:9000/v1/chat/completions");
    assert_eq!(plan.api_key.as_deref(), Some("openai-key"));
}

#[test]
fn registry_plans_deepl_translate_endpoint() {
    let mut config = AppConfig::default().translator;
    config.provider = TranslatorProvider::DeepL;
    config.deepl.base_url = "http://127.0.0.1:9000/v2".to_owned();
    config.deepl.api_key = Some("deepl-key".to_owned());
    let registry = TranslatorRegistry::new(config);

    let plan = registry.plan(&sample_request()).expect("plan");

    assert_eq!(plan.endpoint, "http://127.0.0.1:9000/v2/translate");
    assert_eq!(plan.api_key.as_deref(), Some("deepl-key"));
}

#[test]
fn registry_finish_checks_the_reply() {
    let ok = TranslatorRegistry::finish(TranslatorProvider::Google, vec!["Hola".to_owned()], 1)
        .expect("reply");
    let err = TranslatorRegistry::finish(TranslatorProvider::Google, Vec::new(), 1)
        .expect_err("no reply");

    assert_eq!(ok.translated_texts, ["Hola"]);
    assert_eq!(ok.provider, TranslatorProvider::Google);
    assert!(err
        .message()
        .contains("translator returned 0 texts for 1 input texts"));
}
