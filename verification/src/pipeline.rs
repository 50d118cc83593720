//! The steps around OCR and translation: turning recognized lines into one translation
//! request, and the translation's result into a history record.
use vstd::prelude::*;

use crate::config::Lang;
use crate::error::{Error, ErrorKind};
use crate::history::{HistorySource, NewHistoryRecord};
use crate::ocr::{aggregate_text, aggregated, TextLine};
use crate::text::{is_blank, is_blank_str};
use crate::translate::{first_translated_text, TranslateRequest};

verus! {

/// A finished translation of recognized or typed text.
#[derive(Debug)]
pub struct TranslationResult {
    pub source: HistorySource,
    pub source_text: String,
    pub translated_text: String,
    pub target_lang: String,
    pub text_lines: Vec<TextLine>,
}

/// The text OCR read from an image, with the lines it came from.
#[derive(Debug)]
pub struct OcrTextResult {
    pub source_text: String,
    pub text_lines: Vec<TextLine>,
}

impl TranslationResult {
    /// The history record of this translation.
    pub fn into_history_record(self) -> (r: NewHistoryRecord)
        ensures
            r.source == self.source,
            r.source_text@ == self.source_text@,
            r.target_lang@ == self.target_lang@,
            r.translated_text@ == self.translated_text@,
    {
        NewHistoryRecord {
            source: self.source,
            source_text: self.source_text,
            target_lang: self.target_lang,
            translated_text: self.translated_text,
        }
    }
}

/// The OCR result of recognized lines: their text in reading order; text without any
/// visible character is an error.
pub fn ocr_text_result(text_lines: Vec<TextLine>) -> (r: Result<OcrTextResult, Error>)
    ensures
        is_blank(aggregated(text_lines@)) ==> (r matches Err(e) && e@ == (
            ErrorKind::Ocr,
            "OCR did not detect any translatable text"@,
        )),
        !is_blank(aggregated(text_lines@)) ==> (r matches Ok(o) && o.source_text@ == aggregated(
            text_lines@,
        ) && o.text_lines@ == text_lines@),
{
    let source_text = aggregate_text(&text_lines);
    if is_blank_str(source_text.as_str()) {
        return Err(Error::from_str(ErrorKind::Ocr, "OCR did not detect any translatable text"));
    }
    Ok(OcrTextResult { source_text, text_lines })
}

/// The request that translates `text` into `target`, the source language detected.
pub fn single_text_request(text: String, target: Lang) -> (r: TranslateRequest)
    ensures
        r.texts@.len() == 1,
        r.texts@[0]@ == text@,
        r.source is None,
        r.target.0@ == target.0@,
{
    let mut texts: Vec<String> = Vec::new();
    texts.push(text);
    TranslateRequest { texts, source: None, target }
}

/// The translation result once the translator answered `translated_texts` for the OCR
/// text `ocr`: the first translation, which must not be blank.
pub fn finish_translation(
    source: HistorySource,
    ocr: OcrTextResult,
    target_lang: String,
    translated_texts: &Vec<String>,
) -> (r: Result<TranslationResult, Error>)
    ensures
        translated_texts@.len() == 0 ==> (r matches Err(e) && e@ == (
            ErrorKind::Translate,
            "translator returned no text"@,
        )),
        translated_texts@.len() > 0 && is_blank(translated_texts@[0]@) ==> (r matches Err(e)
            && e@ == (ErrorKind::Translate, "translator returned empty text"@)),
        translated_texts@.len() > 0 && !is_blank(translated_texts@[0]@) ==> (r matches Ok(t) && t.source
            == source && t.source_text@ == ocr.source_text@ && t.translated_text@
            == translated_texts@[0]@ && t.target_lang@ == target_lang@ && t.text_lines@
            == ocr.text_lines@),
{
    let translated_text = match first_translated_text(translated_texts) {
        Ok(t) => t,
        Err(e) => {
            return Err(e);
        },
    };
    Ok(TranslationResult {
        source,
        source_text: ocr.source_text,
        translated_text,
        target_lang,
        text_lines: ocr.text_lines,
    })
}

} // verus!
