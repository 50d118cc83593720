use snaptext::config::Lang;
use snaptext::history::HistorySource;
use snaptext::ocr::{BBox, TextLine};
use snaptext::pipeline::{
    finish_translation, ocr_text_result, single_text_request, TranslationResult,
};

fn line(text: &str, x: u32, y: u32) -> TextLine {
    TextLine {
        text: text.to_owned(),
        bbox: BBox {
            x,
            y,
            width: 10,
            height: 10,
        },
        confidence_bits: 0.99f32.to_bits(),
    }
}

#[test]
fn translation_result_converts_to_history_record() {
    let result = TranslationResult {
        source: HistorySource::Image,
        source_text: "hello".to_owned(),
        translated_text: "bonjour".to_owned(),
        target_lang: "fr".to_owned(),
        text_lines: vec![TextLine {
            text: "hello".to_owned(),
            bbox: BBox {
                x: 0,
                y: 0,
                width: 10,
                height: 10,
            },
            confidence_bits: 0.99f32.to_bits(),
        }],
    };

    let record = result.into_history_record();

    assert_eq!(record.source, HistorySource::Image);
    assert_eq!(record.source_text, "hello");
    assert_eq!(record.translated_text, "bonjour");
    assert_eq!(record.target_lang, "fr");
}

#[test]
fn translation_result_preserves_screenshot_source() {
    let result = TranslationResult {
        source: HistorySource::Screenshot,
        source_text: "hello".to_owned(),
        translated_text: "bonjour".to_owned(),
        target_lang: "fr".to_owned(),
        text_lines: Vec::new(),
    };

    let record = result.into_history_record();

    assert_eq!(record.source, HistorySource::Screenshot);
}

#[test]
fn ocr_lines_become_one_request_in_reading_order() {
    let ocr = ocr_text_result(vec![line("world", 0, 20), line("hello", 0, 10)]).expect("ocr text");
    let request = single_text_request(ocr.source_text.clone(), Lang("fr".to_owned()));

    assert_eq!(ocr.source_text, "hello\nworld");
    assert_eq!(ocr.text_lines.len(), 2);
    assert_eq!(request.texts, ["hello\nworld"]);
    assert!(request.source.is_none());
    assert_eq!(request.target.0, "fr");

    let result = finish_translation(
        HistorySource::Screenshot,
        ocr,
        "fr".to_owned(),
        &vec!["bonjour\nmonde".to_owned()],
    )
    .expect("translation result");

    assert_eq!(result.source, HistorySource::Screenshot);
    assert_eq!(result.source_text, "hello\nworld");
    assert_eq!(result.translated_text, "bonjour\nmonde");
    assert_eq!(result.target_lang, "fr");
    assert_eq!(result.text_lines.len(), 2);
}

#[test]
fn blank_ocr_output_is_rejected_before_any_request() {
    let err = ocr_text_result(vec![line("   ", 0, 10)]).expect_err("empty OCR text");

    assert!(err.message().contains("OCR did not detect"));
}

#[test]
fn blank_translator_output_is_rejected() {
    let ocr = ocr_text_result(vec![line("hello", 0, 10)]).expect("ocr text");
    let err = finish_translation(HistorySource::Image, ocr, "fr".to_owned(), &vec!["   ".to_owned()])
        .expect_err("empty translator output");

    assert!(err.message().contains("translator returned empty text"));
}

#[test]
fn missing_translator_output_is_rejected() {
    let ocr = ocr_text_result(vec![line("hello", 0, 10)]).expect("ocr text");
    let err = finish_translation(HistorySource::Image, ocr, "fr".to_owned(), &Vec::new())
        .expect_err("no translator output");

    assert!(err.message().contains("translator returned no text"));
}
