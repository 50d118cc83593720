//! Translation requests: the bounds a request must respect, what a provider's answer
//! must look like, and which endpoint and credentials each provider call uses.
use vstd::prelude::*;

use crate::config::{Lang, TranslatorConfig, TranslatorProvider};
use crate::error::{Error, ErrorKind};
use crate::text::{chars_of, decimal, is_blank, is_blank_str, owned, push_decimal, push_str};
use crate::urls::{join_url, joined_url, invalid_url_message};

verus! {

/// Most texts one request may carry.
pub const MAX_TRANSLATE_TEXTS: usize = 8;

/// Most characters one text may have.
pub const MAX_TRANSLATE_TEXT_CHARS: usize = 12_000;

/// Most characters all texts of a request may have together.
pub const MAX_TRANSLATE_TOTAL_CHARS: usize = 24_000;

/// Texts to translate into `target`, from `source` or from a detected language.
#[derive(Debug)]
pub struct TranslateRequest {
    pub texts: Vec<String>,
    pub source: Option<Lang>,
    pub target: Lang,
}

/// A provider's translations, in request order.
#[derive(Debug)]
pub struct TranslateResponse {
    pub translated_texts: Vec<String>,
    pub provider: TranslatorProvider,
}

/// The texts of a vector of strings.
pub open spec fn texts_view(v: Seq<String>) -> Seq<Seq<char>> {
    v.map_values(|s: String| s@)
}

/// Characters in all of `t` together.
pub open spec fn total_chars(t: Seq<Seq<char>>) -> nat
    decreases t.len(),
{
    if t.len() == 0 {
        0
    } else {
        total_chars(t.drop_last()) + t.last().len()
    }
}

/// Index of the first text at or after `k` longer than the per-text limit, or `t.len()`.
pub open spec fn first_long(t: Seq<Seq<char>>, k: int) -> int
    decreases t.len() - k,
{
    if k < 0 || k >= t.len() {
        t.len() as int
    } else if t[k].len() > MAX_TRANSLATE_TEXT_CHARS {
        k
    } else {
        first_long(t, k + 1)
    }
}

/// What is wrong with a request of texts `t` into `target`, or `None` when it may be sent.
pub open spec fn request_problem(t: Seq<Seq<char>>, target: Seq<char>) -> Option<Seq<char>> {
    if t.len() == 0 {
        Some("translation request must contain at least one text"@)
    } else if t.len() > MAX_TRANSLATE_TEXTS {
        Some(
            "translation request contains "@ + decimal(t.len()) + " texts; maximum is "@ + decimal(
                MAX_TRANSLATE_TEXTS as nat,
            ),
        )
    } else if exists|i: int| 0 <= i < t.len() && is_blank(#[trigger] t[i]) {
        Some("translation request cannot contain empty text"@)
    } else if first_long(t, 0) < t.len() {
        Some(
            "translation text is too long: "@ + decimal(t[first_long(t, 0)].len())
                + " characters; maximum is "@ + decimal(MAX_TRANSLATE_TEXT_CHARS as nat),
        )
    } else if total_chars(t) > MAX_TRANSLATE_TOTAL_CHARS {
        Some(
            "translation request is too long: "@ + decimal(total_chars(t)) + " characters; maximum is "@
                + decimal(MAX_TRANSLATE_TOTAL_CHARS as nat),
        )
    } else if is_blank(target) {
        Some("target language cannot be empty"@)
    } else {
        None
    }
}

/// Rejects an empty or oversized request, blank texts, and a blank target language.
pub fn validate_translate_request(req: &TranslateRequest) -> (r: Result<(), Error>)
    ensures
        match r {
            Ok(()) => request_problem(texts_view(req.texts@), req.target.0@) is None,
            Err(e) => e@.0 == ErrorKind::Translate && request_problem(
                texts_view(req.texts@),
                req.target.0@,
            ) == Some(e@.1),
        },
{
    let ghost t = texts_view(req.texts@);
    let n = req.texts.len();
    if n == 0 {
        return Err(
            Error::from_str(ErrorKind::Translate, "translation request must contain at least one text"),
        );
    }
    if n > MAX_TRANSLATE_TEXTS {
        let mut m = owned("translation request contains ");
        push_decimal(&mut m, n as u64);
        push_str(&mut m, " texts; maximum is ");
        push_decimal(&mut m, MAX_TRANSLATE_TEXTS as u64);
        return Err(Error::new(ErrorKind::Translate, m));
    }
    let mut k: usize = 0;
    while k < n
        invariant
            k <= n == req.texts@.len() <= MAX_TRANSLATE_TEXTS,
            t == texts_view(req.texts@),
            forall|i: int| 0 <= i < k ==> !is_blank(#[trigger] t[i]),
        decreases n - k,
    {
        if is_blank_str(req.texts[k].as_str()) {
            assert(is_blank(t[k as int]));
            return Err(
                Error::from_str(ErrorKind::Translate, "translation request cannot contain empty text"),
            );
        }
        k += 1;
    }
    let mut total: usize = 0;
    let mut k: usize = 0;
    while k < n
        invariant
            k <= n == req.texts@.len() <= MAX_TRANSLATE_TEXTS,
            t == texts_view(req.texts@),
            t.len() == n,
            forall|i: int| 0 <= i < n ==> !is_blank(#[trigger] t[i]),
            first_long(t, 0) == first_long(t, k as int),
            total == total_chars(t.take(k as int)),
            total <= k * MAX_TRANSLATE_TEXT_CHARS,
        decreases n - k,
    {
        let count = chars_of(req.texts[k].as_str()).len();
        assert(count == t[k as int].len());
        if count > MAX_TRANSLATE_TEXT_CHARS {
            let mut m = owned("translation text is too long: ");
            push_decimal(&mut m, count as u64);
            push_str(&mut m, " characters; maximum is ");
            push_decimal(&mut m, MAX_TRANSLATE_TEXT_CHARS as u64);
            return Err(Error::new(ErrorKind::Translate, m));
        }
        assert(t.take(k + 1).drop_last() == t.take(k as int));
        total = total + count;
        k += 1;
    }
    assert(t.take(n as int) == t);
    if total > MAX_TRANSLATE_TOTAL_CHARS {
        let mut m = owned("translation request is too long: ");
        push_decimal(&mut m, total as u64);
        push_str(&mut m, " characters; maximum is ");
        push_decimal(&mut m, MAX_TRANSLATE_TOTAL_CHARS as u64);
        return Err(Error::new(ErrorKind::Translate, m));
    }
    if is_blank_str(req.target.0.as_str()) {
        return Err(Error::from_str(ErrorKind::Translate, "target language cannot be empty"));
    }
    Ok(())
}

/// What is wrong with `texts` as the answer to `expected` input texts, or `None`.
pub open spec fn response_problem(texts: Seq<Seq<char>>, expected: nat) -> Option<Seq<char>> {
    if texts.len() != expected {
        Some(
            "translator returned "@ + decimal(texts.len()) + " texts for "@ + decimal(expected)
                + " input texts"@,
        )
    } else if exists|i: int| 0 <= i < texts.len() && is_blank(#[trigger] texts[i]) {
        Some("translator returned empty text"@)
    } else {
        None
    }
}

/// Rejects an answer with the wrong number of texts or a blank translation.
pub fn validate_translate_response_texts(translated_texts: &Vec<String>, expected_count: usize) -> (r:
    Result<(), Error>)
    ensures
        match r {
            Ok(()) => response_problem(texts_view(translated_texts@), expected_count as nat) is None,
            Err(e) => e@.0 == ErrorKind::Translate && response_problem(
                texts_view(translated_texts@),
                expected_count as nat,
            ) == Some(e@.1),
        },
{
    let ghost t = texts_view(translated_texts@);
    if translated_texts.len() != expected_count {
        let mut m = owned("translator returned ");
        push_decimal(&mut m, translated_texts.len() as u64);
        push_str(&mut m, " texts for ");
        push_decimal(&mut m, expected_count as u64);
        push_str(&mut m, " input texts");
        return Err(Error::new(ErrorKind::Translate, m));
    }
    let mut k: usize = 0;
    while k < translated_texts.len()
        invariant
            k <= translated_texts@.len(),
            translated_texts@.len() == expected_count,
            t == texts_view(translated_texts@),
            forall|i: int| 0 <= i < k ==> !is_blank(#[trigger] t[i]),
        decreases translated_texts.len() - k,
    {
        if is_blank_str(translated_texts[k].as_str()) {
            assert(is_blank(t[k as int]));
            return Err(Error::from_str(ErrorKind::Translate, "translator returned empty text"));
        }
        k += 1;
    }
    Ok(())
}

/// The key when it is set and not blank; otherwise `<provider> API key is required`.
pub fn required_key<'a>(key: Option<&'a str>, provider: &str) -> (r: Result<&'a str, Error>)
    ensures
        match key {
            Some(k) => if is_blank(k@) {
                r matches Err(e) && e@ == (ErrorKind::Translate, provider@ + " API key is required"@)
            } else {
                r == Ok::<&str, Error>(k)
            },
            None => r matches Err(e) && e@ == (ErrorKind::Translate, provider@ + " API key is required"@),
        },
{
    match key {
        Some(k) => if !is_blank_str(k) {
            return Ok(k);
        },
        None => {},
    }
    let mut m = owned(provider);
    push_str(&mut m, " API key is required");
    Err(Error::new(ErrorKind::Translate, m))
}

/// The first translation; a missing or blank one is an error.
pub fn first_translated_text(translated_texts: &Vec<String>) -> (r: Result<String, Error>)
    ensures
        translated_texts@.len() == 0 ==> (r matches Err(e) && e@ == (
            ErrorKind::Translate,
            "translator returned no text"@,
        )),
        translated_texts@.len() > 0 ==> if is_blank(translated_texts@[0]@) {
            r matches Err(e) && e@ == (ErrorKind::Translate, "translator returned empty text"@)
        } else {
            r matches Ok(s) && s@ == translated_texts@[0]@
        },
{
    if translated_texts.len() == 0 {
        return Err(Error::from_str(ErrorKind::Translate, "translator returned no text"));
    }
    let first = translated_texts[0].clone();
    if is_blank_str(first.as_str()) {
        return Err(Error::from_str(ErrorKind::Translate, "translator returned empty text"));
    }
    Ok(first)
}

/// The chat-completions endpoint below an OpenAI-compatible base URL.
pub fn openai_chat_endpoint(base_url: &str) -> (r: Result<String, Error>)
    ensures
        match joined_url(base_url@, "chat/completions"@) {
            Some(u) => r matches Ok(s) && s@ == u,
            None => r matches Err(e) && e@ == (ErrorKind::Config, invalid_url_message(base_url@)),
        },
{
    join_url(base_url, "chat/completions")
}

/// The translate endpoint below a DeepL base URL.
pub fn deepl_translate_endpoint(base_url: &str) -> (r: Result<String, Error>)
    ensures
        match joined_url(base_url@, "translate"@) {
            Some(u) => r matches Ok(s) && s@ == u,
            None => r matches Err(e) && e@ == (ErrorKind::Config, invalid_url_message(base_url@)),
        },
{
    join_url(base_url, "translate")
}

/// The translate endpoint below the SnapText Cloud endpoint.
pub fn snaptext_cloud_translate_endpoint(endpoint: &str) -> (r: Result<String, Error>)
    ensures
        match joined_url(endpoint@, "v1/translate"@) {
            Some(u) => r matches Ok(s) && s@ == u,
            None => r matches Err(e) && e@ == (ErrorKind::Config, invalid_url_message(endpoint@)),
        },
{
    join_url(endpoint, "v1/translate")
}

/// How one provider call is made: the endpoint to post to, the API key to send, and the
/// device id to identify with.
#[derive(Debug)]
pub struct TranslationPlan {
    pub provider: TranslatorProvider,
    pub endpoint: String,
    pub api_key: Option<String>,
    pub device_id: Option<String>,
}

/// The outcome a provider call plan must have when the request itself is acceptable.
pub open spec fn plan_for(config: TranslatorConfig, plan: Result<TranslationPlan, Error>) -> bool {
    &&& plan_shape(config, plan)
    &&& (plan matches Ok(p) ==> p.provider == config.provider)
}

/// Endpoint, key and device id of the plan for each provider.
pub open spec fn plan_shape(config: TranslatorConfig, plan: Result<TranslationPlan, Error>) -> bool {
    match config.provider {
        TranslatorProvider::SnapTextCloud => if !config.snaptext_cloud.enabled {
            (plan matches Err(e) && e@ == (ErrorKind::Translate, "SnapText Cloud provider is disabled"@))
        } else {
            endpoint_plan(joined_url(config.snaptext_cloud.endpoint@, "v1/translate"@), config.snaptext_cloud.endpoint@, plan)
                && (plan matches Ok(p) ==> p.api_key is None && (p.device_id matches Some(d) && d@
                == config.snaptext_cloud.device_id@))
        },
        TranslatorProvider::OpenAiCompatible => keyed_plan(
            opt_str(config.openai_compatible.api_key),
            "OpenAI compatible"@,
            joined_url(config.openai_compatible.base_url@, "chat/completions"@),
            config.openai_compatible.base_url@,
            plan,
        ),
        TranslatorProvider::DeepL => keyed_plan(
            opt_str(config.deepl.api_key),
            "DeepL"@,
            joined_url(config.deepl.base_url@, "translate"@),
            config.deepl.base_url@,
            plan,
        ),
        TranslatorProvider::Google => keyed_plan(
            opt_str(config.google.api_key),
            "Google Translate"@,
            Some(config.google.base_url@),
            config.google.base_url@,
            plan,
        ),
        TranslatorProvider::LocalHttp => (plan matches Ok(p) && p.endpoint@ == config.local_http.endpoint@
            && p.api_key is None && p.device_id is None),
    }
}

/// The text of an optional key.
pub open spec fn opt_str(o: Option<String>) -> Option<Seq<char>> {
    match o {
        Some(s) => Some(s@),
        None => None,
    }
}

/// A plan posts to `endpoint`, or fails when the base URL `base` does not parse.
pub open spec fn endpoint_plan(
    endpoint: Option<Seq<char>>,
    base: Seq<char>,
    plan: Result<TranslationPlan, Error>,
) -> bool {
    match endpoint {
        Some(u) => (plan matches Ok(p) && p.endpoint@ == u),
        None => (plan matches Err(e) && e@ == (ErrorKind::Config, invalid_url_message(base))),
    }
}

/// A plan for a provider that needs an API key: the key must be set and not blank.
pub open spec fn keyed_plan(
    key: Option<Seq<char>>,
    provider_name: Seq<char>,
    endpoint: Option<Seq<char>>,
    base: Seq<char>,
    plan: Result<TranslationPlan, Error>,
) -> bool {
    match key {
        Some(k) if !is_blank(k) => endpoint_plan(endpoint, base, plan) && (plan matches Ok(p) ==> (
        p.api_key matches Some(a) && a@ == k) && p.device_id is None),
        _ => (plan matches Err(e) && e@ == (ErrorKind::Translate, provider_name + " API key is required"@)),
    }
}

/// The translation provider chosen by the configuration.
pub struct TranslatorRegistry {
    config: TranslatorConfig,
}

impl TranslatorRegistry {
    /// The configuration the registry routes by.
    pub closed spec fn config(&self) -> TranslatorConfig {
        self.config
    }

    /// A registry for `config`.
    pub fn new(config: TranslatorConfig) -> (r: TranslatorRegistry)
        ensures
            r.config() == config,
    {
        TranslatorRegistry { config }
    }

    /// The settings the registry routes by.
    pub fn settings(&self) -> (r: &TranslatorConfig)
        ensures
            *r == self.config(),
    {
        &self.config
    }

    /// The provider in use.
    pub fn provider(&self) -> (p: TranslatorProvider)
        ensures
            p == self.config().provider,
    {
        self.config.provider
    }

    /// Checks `req` and decides how the configured provider is called: its endpoint, and
    /// its API key or device id. The call itself is made by the caller.
    pub fn plan(&self, req: &TranslateRequest) -> (r: Result<TranslationPlan, Error>)
        ensures
            match request_problem(texts_view(req.texts@), req.target.0@) {
                Some(problem) => r matches Err(e) && e@ == (ErrorKind::Translate, problem),
                None => plan_for(self.config(), r),
            },
    {
        validate_translate_request(req)?;
        let config = &self.config;
        match config.provider {
            TranslatorProvider::SnapTextCloud => {
                if !config.snaptext_cloud.enabled {
                    return Err(Error::from_str(ErrorKind::Translate, "SnapText Cloud provider is disabled"));
                }
                let endpoint = snaptext_cloud_translate_endpoint(config.snaptext_cloud.endpoint.as_str())?;
                Ok(TranslationPlan {
                    provider: TranslatorProvider::SnapTextCloud,
                    endpoint,
                    api_key: None,
                    device_id: Some(config.snaptext_cloud.device_id.clone()),
                })
            },
            TranslatorProvider::OpenAiCompatible => {
                let key = match &config.openai_compatible.api_key {
                    Some(k) => Some(k.as_str()),
                    None => None,
                };
                let api_key = required_key(key, "OpenAI compatible")?;
                let endpoint = openai_chat_endpoint(config.openai_compatible.base_url.as_str())?;
                Ok(TranslationPlan {
                    provider: TranslatorProvider::OpenAiCompatible,
                    endpoint,
                    api_key: Some(owned(api_key)),
                    device_id: None,
                })
            },
            TranslatorProvider::DeepL => {
                let key = match &config.deepl.api_key {
                    Some(k) => Some(k.as_str()),
                    None => None,
                };
                let api_key = required_key(key, "DeepL")?;
                let endpoint = deepl_translate_endpoint(config.deepl.base_url.as_str())?;
                Ok(TranslationPlan {
                    provider: TranslatorProvider::DeepL,
                    endpoint,
                    api_key: Some(owned(api_key)),
                    device_id: None,
                })
            },
            TranslatorProvider::Google => {
                let key = match &config.google.api_key {
                    Some(k) => Some(k.as_str()),
                    None => None,
                };
                let api_key = required_key(key, "Google Translate")?;
                Ok(TranslationPlan {
                    provider: TranslatorProvider::Google,
                    endpoint: config.google.base_url.clone(),
                    api_key: Some(owned(api_key)),
                    device_id: None,
                })
            },
            TranslatorProvider::LocalHttp => Ok(TranslationPlan {
                provider: TranslatorProvider::LocalHttp,
                endpoint: config.local_http.endpoint.clone(),
                api_key: None,
                device_id: None,
            }),
        }
    }

    /// Accepts a provider's answer to a request of `expected_count` texts.
    pub fn finish(
        provider: TranslatorProvider,
        translated_texts: Vec<String>,
        expected_count: usize,
    ) -> (r: Result<TranslateResponse, Error>)
        ensures
            match response_problem(texts_view(translated_texts@), expected_count as nat) {
                Some(problem) => r matches Err(e) && e@ == (ErrorKind::Translate, problem),
                None => r matches Ok(resp) && resp.translated_texts@ == translated_texts@
                    && resp.provider == provider,
            },
    {
        validate_translate_response_texts(&translated_texts, expected_count)?;
        Ok(TranslateResponse { translated_texts, provider })
    }
}

} // verus!
