//! What the desktop shell tells its windows: the event names, the payloads they carry,
//! and the text shown when reading the selection fails.
use vstd::prelude::*;

use crate::error::{kind_prefix, Error};
use crate::history::{HistoryRecord, HistorySource};
use crate::ocr::BBox;
use crate::pipeline::{OcrTextResult, TranslationResult};
use crate::text::{contains, contains_str, owned};

verus! {

/// Label of the main window.
pub const MAIN_WINDOW_LABEL: &'static str = "main";

/// Label of the independent result window.
pub const RESULT_WINDOW_LABEL: &'static str = "result";

/// Label of the screenshot overlay window.
pub const OVERLAY_WINDOW_LABEL: &'static str = "overlay";

/// A finished translation for the result views.
pub const RESULT_TRANSLATION_EVENT: &'static str = "snaptext://result-translation";

/// A translated selection for the result views.
pub const RESULT_SELECTION_EVENT: &'static str = "snaptext://result-selection";

/// The latest result, for a result window that opens later.
pub const RESULT_SNAPSHOT_EVENT: &'static str = "snaptext://result-snapshot";

/// Selected text read from another application.
pub const SELECTION_TEXT_EVENT: &'static str = "snaptext://selection-text";

/// Reading the selection failed.
pub const RESULT_SELECTION_FAILED_EVENT: &'static str = "snaptext://result-selection-failed";

/// The result window was pinned or unpinned.
pub const RESULT_WINDOW_STATE_EVENT: &'static str = "snaptext://result-window-state";

/// A translation of an overlay selection.
pub const OVERLAY_TRANSLATION_EVENT: &'static str = "snaptext://overlay-translation";

/// A new screenshot for the overlay.
pub const OVERLAY_SCREENSHOT_EVENT: &'static str = "snaptext://overlay-screenshot";

/// OCR of a native selection started.
pub const OVERLAY_OCR_STARTED_EVENT: &'static str = "snaptext://overlay-ocr-started";

/// OCR of a native selection failed.
pub const OVERLAY_OCR_FAILED_EVENT: &'static str = "snaptext://overlay-ocr-failed";

/// OCR text of an overlay selection.
pub const OVERLAY_OCR_EVENT: &'static str = "snaptext://overlay-ocr";

/// Partial speech recognition text.
pub const VOICE_INPUT_PARTIAL_EVENT: &'static str = "snaptext://voice-input-partial";

/// The translation of an overlay selection and the selected region.
#[derive(Debug)]
pub struct OverlayTranslationPayload {
    pub result: TranslationResult,
    pub region: BBox,
}

/// OCR text of an overlay selection.
#[derive(Debug)]
pub struct OverlayOcrPayload {
    /// OCR output for the selected screen region.
    pub result: OcrTextResult,
    /// Whether the interface should translate once it shows the OCR text.
    pub translate_after_ocr: bool,
    /// Selected screen region in physical pixels.
    pub region: BBox,
}

/// Why reading the selection failed, as shown to the user.
#[derive(Debug)]
pub struct SelectionFailurePayload {
    pub message: String,
}

/// Selected text and the application it came from.
#[derive(Debug)]
pub struct SelectionTextPayload {
    pub text: String,
    pub app_bundle_id: Option<String>,
}

/// The latest translated result, for the independent result window.
#[derive(Debug)]
pub struct PinnedResultPayload {
    /// Whether the result came from text, a selection, a screenshot, or an image.
    pub source: HistorySource,
    /// The recognized or typed source text.
    pub source_text: String,
    /// The translated output shown to the user.
    pub translated_text: String,
    /// The language of the translated output.
    pub target_lang: String,
}

/// Partial or final speech recognition text.
#[derive(Debug)]
pub struct VoiceInputPartialPayload {
    pub text: String,
    pub final_result: bool,
}

impl PinnedResultPayload {
    /// The pinned payload of a translation result.
    pub fn from_result(result: &TranslationResult) -> (p: PinnedResultPayload)
        ensures
            p.source == result.source,
            p.source_text@ == result.source_text@,
            p.translated_text@ == result.translated_text@,
            p.target_lang@ == result.target_lang@,
    {
        PinnedResultPayload {
            source: result.source,
            source_text: result.source_text.clone(),
            translated_text: result.translated_text.clone(),
            target_lang: result.target_lang.clone(),
        }
    }

    /// The pinned payload of a history record.
    pub fn from_record(record: &HistoryRecord) -> (p: PinnedResultPayload)
        ensures
            p.source == record.source,
            p.source_text@ == record.source_text@,
            p.translated_text@ == record.translated_text@,
            p.target_lang@ == record.target_lang@,
    {
        PinnedResultPayload {
            source: record.source,
            source_text: record.source_text.clone(),
            translated_text: record.translated_text.clone(),
            target_lang: record.target_lang.clone(),
        }
    }
}

/// The event that carries an overlay translation.
pub fn overlay_translation_event() -> (r: &'static str)
    ensures
        r@ == OVERLAY_TRANSLATION_EVENT@,
{
    OVERLAY_TRANSLATION_EVENT
}

/// The windows told when the result window is pinned or unpinned: the main window.
pub fn result_window_state_targets() -> (r: Vec<&'static str>)
    ensures
        r@.len() == 1,
        r@[0]@ == MAIN_WINDOW_LABEL@,
{
    let mut v: Vec<&'static str> = Vec::new();
    v.push(MAIN_WINDOW_LABEL);
    v
}

/// The text shown when reading the selection fails: a guide for the three known causes,
/// else the error's own text.
pub open spec fn selection_failure_text(rendered: Seq<char>) -> Seq<char> {
    if contains(rendered, "Accessibility permission is required"@) {
        "需要先授权系统辅助功能权限。请在系统设置 -> 隐私与安全性 -> 辅助功能 中允许 SnapText，然后重新使用划词。"@
    } else if contains(rendered, "no selected text is available"@) {
        "未读取到选中文本，请先选中文本后再使用划词。"@
    } else if contains(rendered, "selected text could not be decoded correctly"@) {
        "选中文本解码失败，请重新选择文本后再试。"@
    } else {
        rendered
    }
}

/// The text shown for a failure to read the selection.
pub fn selection_failure_message(error: &Error) -> (r: String)
    ensures
        r@ == selection_failure_text(kind_prefix(error@.0) + error@.1),
{
    let message = error.message();
    if contains_str(message.as_str(), "Accessibility permission is required") {
        return owned(
            "需要先授权系统辅助功能权限。请在系统设置 -> 隐私与安全性 -> 辅助功能 中允许 SnapText，然后重新使用划词。",
        );
    }
    if contains_str(message.as_str(), "no selected text is available") {
        return owned("未读取到选中文本，请先选中文本后再使用划词。");
    }
    if contains_str(message.as_str(), "selected text could not be decoded correctly") {
        return owned("选中文本解码失败，请重新选择文本后再试。");
    }
    message
}

/// The translation result a history record shows as: its texts and no OCR lines.
pub fn history_record_to_translation_result(record: &HistoryRecord) -> (r: TranslationResult)
    ensures
        r.source == record.source,
        r.source_text@ == record.source_text@,
        r.translated_text@ == record.translated_text@,
        r.target_lang@ == record.target_lang@,
        r.text_lines@.len() == 0,
{
    TranslationResult {
        source: record.source,
        source_text: record.source_text.clone(),
        translated_text: record.translated_text.clone(),
        target_lang: record.target_lang.clone(),
        text_lines: Vec::new(),
    }
}

} // verus!
