//! What each translation provider is sent and how its answer is read: the fields of
//! every request body, and the checks on the fields of every reply. The desktop shell
//! writes the bodies and picks the fields out of the replies; the list of texts an
//! OpenAI-compatible model answers with is read here.
use vstd::prelude::*;

use crate::config::Lang;
use crate::error::{Error, ErrorKind};
use crate::text::{owned, push_str, trim, trim_str};
use crate::translate::{texts_view, TranslateRequest};

verus! {

/// The instruction the OpenAI-compatible chat model is given.
pub const OPENAI_SYSTEM_PROMPT: &'static str = "Translate each input item into the target language. Return only a JSON array of translated strings in the same order.";

/// The source language a request names, or `auto` when it is detected.
pub open spec fn source_or_auto(source: Option<Lang>) -> Seq<char> {
    match source {
        Some(l) => l.0@,
        None => "auto"@,
    }
}

/// The source language of a request as sent: its code, or `auto`.
pub fn request_source_or_auto(req: &TranslateRequest) -> (r: String)
    ensures
        r@ == source_or_auto(req.source),
{
    match &req.source {
        Some(l) => l.0.clone(),
        None => owned("auto"),
    }
}

/// The body of one SnapText Cloud request: one text, its languages, and fixed scene,
/// mode and client version.
#[derive(Debug)]
pub struct SnapTextCloudPayload {
    pub text: String,
    pub source_lang: String,
    pub target_lang: String,
    pub scene: String,
    pub mode: String,
    pub client_version: String,
}

/// The SnapText Cloud body for `text` of `req`, sent by a client of version `version`.
pub fn snaptext_cloud_payload(req: &TranslateRequest, text: &str, version: &str) -> (p:
    SnapTextCloudPayload)
    ensures
        p.text@ == text@,
        p.source_lang@ == source_or_auto(req.source),
        p.target_lang@ == req.target.0@,
        p.scene@ == "text"@,
        p.mode@ == "balanced"@,
        p.client_version@ == version@,
{
    SnapTextCloudPayload {
        text: owned(text),
        source_lang: request_source_or_auto(req),
        target_lang: req.target.0.clone(),
        scene: owned("text"),
        mode: owned("balanced"),
        client_version: owned(version),
    }
}

/// What a DeepL request carries: all texts, and the languages upper-cased.
#[derive(Debug)]
pub struct DeepLPayload {
    pub text: Vec<String>,
    pub target_lang: String,
    pub source_lang: Option<String>,
}

/// What `str::to_uppercase` gives for `s`.
pub uninterp spec fn unicode_upper(s: Seq<char>) -> Seq<char>;

/// Unicode upper case; `str::to_uppercase`. The contract names the result.
#[verifier::external_body]
fn to_uppercase(s: &str) -> (r: String)
    ensures
        r@ == unicode_upper(s@),
{
    s.to_uppercase()
}

/// A copy of the texts of a request.
fn copy_texts(v: &Vec<String>) -> (r: Vec<String>)
    ensures
        texts_view(r@) == texts_view(v@),
{
    let mut r: Vec<String> = Vec::new();
    let mut k: usize = 0;
    while k < v.len()
        invariant
            k <= v@.len(),
            texts_view(r@) == texts_view(v@.take(k as int)),
        decreases v.len() - k,
    {
        r.push(v[k].clone());
        assert(texts_view(v@.take(k + 1)) =~= texts_view(v@.take(k as int)).push(v@[k as int]@));
        assert(texts_view(r@) =~= texts_view(v@.take(k as int)).push(v@[k as int]@));
        k += 1;
    }
    assert(v@.take(v@.len() as int) =~= v@);
    r
}

/// The DeepL body of `req`: the texts, and upper-cased target and source languages.
pub fn deepl_payload(req: &TranslateRequest) -> (p: DeepLPayload)
    ensures
        texts_view(p.text@) == texts_view(req.texts@),
        p.target_lang@ == unicode_upper(req.target.0@),
        match req.source {
            Some(l) => p.source_lang matches Some(s) && s@ == unicode_upper(l.0@),
            None => p.source_lang is None,
        },
{
    DeepLPayload {
        text: copy_texts(&req.texts),
        target_lang: to_uppercase(req.target.0.as_str()),
        source_lang: match &req.source {
            Some(l) => Some(to_uppercase(l.0.as_str())),
            None => None,
        },
    }
}

/// What a Google Translate request carries.
#[derive(Debug)]
pub struct GooglePayload {
    pub q: Vec<String>,
    pub target: String,
    pub format: String,
    pub key: String,
    pub source: Option<String>,
}

/// The Google Translate body of `req` with API key `api_key`, in plain-text format.
pub fn google_payload(req: &TranslateRequest, api_key: &str) -> (p: GooglePayload)
    ensures
        texts_view(p.q@) == texts_view(req.texts@),
        p.target@ == req.target.0@,
        p.format@ == "text"@,
        p.key@ == api_key@,
        match req.source {
            Some(l) => p.source matches Some(s) && s@ == l.0@,
            None => p.source is None,
        },
{
    GooglePayload {
        q: copy_texts(&req.texts),
        target: req.target.0.clone(),
        format: owned("text"),
        key: owned(api_key),
        source: match &req.source {
            Some(l) => Some(l.0.clone()),
            None => None,
        },
    }
}

/// What the OpenAI-compatible chat request carries: the model, the fixed instruction,
/// the languages and texts the user message encodes, and temperature 0.
#[derive(Debug)]
pub struct OpenAiPayload {
    pub model: String,
    pub system_prompt: String,
    pub source: String,
    pub target: String,
    pub texts: Vec<String>,
    pub temperature: u32,
}

/// The OpenAI-compatible body of `req` for chat model `model`.
pub fn openai_payload(model: &str, req: &TranslateRequest) -> (p: OpenAiPayload)
    ensures
        p.model@ == model@,
        p.system_prompt@ == OPENAI_SYSTEM_PROMPT@,
        p.source@ == source_or_auto(req.source),
        p.target@ == req.target.0@,
        texts_view(p.texts@) == texts_view(req.texts@),
        p.temperature == 0,
{
    OpenAiPayload {
        model: owned(model),
        system_prompt: owned(OPENAI_SYSTEM_PROMPT),
        source: request_source_or_auto(req),
        target: req.target.0.clone(),
        texts: copy_texts(&req.texts),
        temperature: 0,
    }
}

/// The texts of the entries of a reply list.
pub open spec fn entry_texts(v: Seq<Option<String>>) -> Seq<Option<Seq<char>>> {
    Seq::new(
        v.len(),
        |i: int|
            match v[i] {
                Some(t) => Some(t@),
                None => None,
            },
    )
}

/// The texts of a reply list, when there is one.
pub open spec fn opt_texts(items: Option<Vec<Option<String>>>) -> Option<Seq<Option<Seq<char>>>> {
    match items {
        Some(v) => Some(entry_texts(v@)),
        None => None,
    }
}

/// The translations read from a reply list: a missing list is the error `missing_list`,
/// and the first entry without text is the error `missing_item`.
pub open spec fn listed_texts(
    items: Option<Seq<Option<Seq<char>>>>,
    missing_list: Seq<char>,
    missing_item: Seq<char>,
) -> Result<Seq<Seq<char>>, Seq<char>> {
    match items {
        None => Err(missing_list),
        Some(s) => if forall|i: int| 0 <= i < s.len() ==> (#[trigger] s[i]) is Some {
            Ok(Seq::new(s.len(), |i: int| s[i]->0))
        } else {
            Err(missing_item)
        },
    }
}

/// The texts of a reply list, as `listed_texts` describes.
pub fn collect_texts(items: Option<Vec<Option<String>>>, missing_list: &str, missing_item: &str) -> (r:
    Result<Vec<String>, Error>)
    ensures
        match listed_texts(
            opt_texts(items),
            missing_list@,
            missing_item@,
        ) {
            Ok(t) => r matches Ok(v) && texts_view(v@) == t,
            Err(m) => r matches Err(e) && e@ == (ErrorKind::Translate, m),
        },
{
    let ghost expected = opt_texts(items);
    let list = match items {
        Some(v) => v,
        None => {
            return Err(Error::from_str(ErrorKind::Translate, missing_list));
        },
    };
    let ghost viewed = entry_texts(list@);
    let mut texts: Vec<String> = Vec::new();
    let mut k: usize = 0;
    while k < list.len()
        invariant
            k <= list@.len(),
            viewed == entry_texts(list@),
            expected == Some(viewed),
            expected == opt_texts(items),
            texts@.len() == k,
            forall|i: int| 0 <= i < k ==> (#[trigger] viewed[i]) is Some && viewed[i]->0 == texts@[i]@,
        decreases list.len() - k,
    {
        match &list[k] {
            Some(t) => {
                texts.push(t.clone());
            },
            None => {
                assert(list@[k as int] is None);
                assert(viewed[k as int] is None);
                assert(!(forall|i: int| 0 <= i < viewed.len() ==> (#[trigger] viewed[i]) is Some));
                return Err(Error::from_str(ErrorKind::Translate, missing_item));
            },
        }
        k += 1;
    }
    assert(texts_view(texts@) =~= Seq::new(viewed.len(), |i: int| viewed[i]->0));
    Ok(texts)
}

/// The translations in a DeepL reply's `translations` list.
pub fn deepl_texts(items: Option<Vec<Option<String>>>) -> (r: Result<Vec<String>, Error>)
    ensures
        match listed_texts(
            opt_texts(items),
            "DeepL response missing translations"@,
            "DeepL translation missing text"@,
        ) {
            Ok(t) => r matches Ok(v) && texts_view(v@) == t,
            Err(m) => r matches Err(e) && e@ == (ErrorKind::Translate, m),
        },
{
    collect_texts(items, "DeepL response missing translations", "DeepL translation missing text")
}

/// The translations in a Google reply's `data.translations` list.
pub fn google_texts(items: Option<Vec<Option<String>>>) -> (r: Result<Vec<String>, Error>)
    ensures
        match listed_texts(
            opt_texts(items),
            "Google response missing data.translations"@,
            "Google translation missing translatedText"@,
        ) {
            Ok(t) => r matches Ok(v) && texts_view(v@) == t,
            Err(m) => r matches Err(e) && e@ == (ErrorKind::Translate, m),
        },
{
    collect_texts(
        items,
        "Google response missing data.translations",
        "Google translation missing translatedText",
    )
}

/// The translation in a SnapText Cloud reply's `translated_text` field.
pub fn snaptext_cloud_text(translated_text: Option<String>) -> (r: Result<String, Error>)
    ensures
        match translated_text {
            Some(t) => r matches Ok(s) && s@ == t@,
            None => r matches Err(e) && e@ == (
                ErrorKind::Translate,
                "SnapText Cloud response missing translated_text"@,
            ),
        },
{
    match translated_text {
        Some(t) => Ok(t),
        None => Err(
            Error::from_str(ErrorKind::Translate, "SnapText Cloud response missing translated_text"),
        ),
    }
}

/// The message content of an OpenAI-compatible reply.
pub fn openai_message_content(content: Option<String>) -> (r: Result<String, Error>)
    ensures
        match content {
            Some(t) => r matches Ok(s) && s@ == t@,
            None => r matches Err(e) && e@ == (
                ErrorKind::Translate,
                "OpenAI response missing message content"@,
            ),
        },
{
    match content {
        Some(t) => Ok(t),
        None => Err(Error::from_str(ErrorKind::Translate, "OpenAI response missing message content")),
    }
}

/// What `serde_json::from_str::<Vec<String>>` gives for `content`: the strings, when the
/// content is a JSON array of strings, else `None`.
pub uninterp spec fn json_string_list(content: Seq<char>) -> Option<Seq<Seq<char>>>;

/// Reads `content` as a JSON array of strings; `serde_json::from_str::<Vec<String>>`,
/// with its error dropped. The contract names the result and claims nothing else of it.
#[verifier::external_body]
fn parse_json_string_list(content: &str) -> (r: Option<Vec<String>>)
    ensures
        match r {
            Some(v) => json_string_list(content@) == Some(v@.map_values(|s: String| s@)),
            None => json_string_list(content@) is None,
        },
{
    serde_json::from_str::<Vec<String>>(content).ok()
}

/// The translations in OpenAI message content: the JSON array of strings it holds, when
/// it is one, else the whole content trimmed as one text.
pub fn parse_openai_content(content: &str) -> (r: Vec<String>)
    ensures
        match json_string_list(content@) {
            Some(v) => r@.map_values(|s: String| s@) == v,
            None => r@.len() == 1 && r@[0]@ == trim(content@),
        },
{
    match parse_json_string_list(content) {
        Some(v) => v,
        None => {
            let mut r: Vec<String> = Vec::new();
            r.push(trim_str(content));
            r
        },
    }
}

/// The translations in a local HTTP reply: its `translated_texts` list, whose entries
/// must all be strings, else its single `translated_text`.
pub fn parse_local_http_response(
    translated_texts: Option<Vec<Option<String>>>,
    translated_text: Option<String>,
) -> (r: Result<Vec<String>, Error>)
    ensures
        translated_texts is Some ==> match listed_texts(
            opt_texts(translated_texts),
            ""@,
            "local_http translated_texts must be strings"@,
        ) {
            Ok(t) => r matches Ok(v) && texts_view(v@) == t,
            Err(m) => r matches Err(e) && e@ == (ErrorKind::Translate, m),
        },
        translated_texts is None ==> match translated_text {
            Some(t) => r matches Ok(v) && v@.len() == 1 && v@[0]@ == t@,
            None => r matches Err(e) && e@ == (
                ErrorKind::Translate,
                "local_http response must include translated_texts or translated_text"@,
            ),
        },
{
    if translated_texts.is_some() {
        return collect_texts(translated_texts, "", "local_http translated_texts must be strings");
    }
    match translated_text {
        Some(t) => {
            let mut v: Vec<String> = Vec::new();
            v.push(t);
            Ok(v)
        },
        None => Err(
            Error::from_str(
                ErrorKind::Translate,
                "local_http response must include translated_texts or translated_text",
            ),
        ),
    }
}

/// The error for a reply with a failing HTTP status, given the status as displayed (code
/// and reason) and the reply body.
pub fn http_status_error(status: &str, body: &str) -> (e: Error)
    ensures
        e@ == (ErrorKind::Translate, "HTTP "@ + status@ + ": "@ + body@),
{
    let mut m = owned("HTTP ");
    push_str(&mut m, status);
    push_str(&mut m, ": ");
    push_str(&mut m, body);
    Error::new(ErrorKind::Translate, m)
}

} // verus!
