//! Decisions the desktop commands make around OCR and translation: which languages a
//! request uses, which inputs are refused, the developer override of the cloud endpoint,
//! the pending overlay, and the messages shown for platform failures.
use vstd::prelude::*;

use crate::capabilities::Platform;
use crate::config::{AppConfig, Lang, TranslatorConfig};
use crate::error::{Error, ErrorKind};
use crate::history::HistorySource;
use crate::payload::ScreenshotPayload;
use crate::text::{
    decimal, eq_ignore_case, eq_ignore_case_str, is_blank, is_blank_str, owned, push_decimal,
    push_str, str_eq, trim, trim_str,
};
use crate::translate::{TranslateRequest, TranslatorRegistry};
use crate::urls::{parse_url, url_parsed};

verus! {

/// The environment variable that selects the SnapText Cloud deployment in development.
pub const SNAPTEXT_CLOUD_ENV_VAR: &'static str = "SNAPTEXT_CLOUD_ENV";

/// The cloud endpoint a development build uses when that variable is `local`.
pub const SNAPTEXT_CLOUD_LOCAL_ENDPOINT: &'static str = "http://127.0.0.1:8080";

/// Milliseconds the shell waits for the main window to disappear before capturing.
pub const MAIN_WINDOW_HIDE_SETTLE_MS: u64 = 160;

/// How the cloud deployment variable `value` changes the cloud endpoint `endpoint`:
/// unset, blank, `production` or `prod` leave it; `local` sets the local endpoint; any
/// other value is refused.
pub open spec fn cloud_override(value: Option<Seq<char>>, endpoint: Seq<char>) -> Result<
    Seq<char>,
    Seq<char>,
> {
    match value {
        None => Ok(endpoint),
        Some(v) => {
            let env = trim(v);
            if env.len() == 0 || eq_ignore_case(env, "production"@) || eq_ignore_case(
                env,
                "prod"@,
            ) {
                Ok(endpoint)
            } else if !eq_ignore_case(env, "local"@) {
                Err(SNAPTEXT_CLOUD_ENV_VAR@ + " must be local or production"@)
            } else {
                match url_parsed(SNAPTEXT_CLOUD_LOCAL_ENDPOINT@) {
                    Ok(u) => Ok(u),
                    Err(m) => Err("invalid local SnapText Cloud endpoint: "@ + m),
                }
            }
        },
    }
}

/// Applies the development override of the cloud endpoint, given the value of
/// `SNAPTEXT_CLOUD_ENV` (`None` when unset). Only the endpoint may change.
pub fn apply_snaptext_cloud_runtime_override(
    translator: &mut TranslatorConfig,
    env_value: Option<String>,
) -> (r: Result<(), Error>)
    ensures
        match cloud_override(
            match env_value {
                Some(v) => Some(v@),
                None => None,
            },
            old(translator).snaptext_cloud.endpoint@,
        ) {
            Ok(e) => r is Ok && final(translator).snaptext_cloud.endpoint@ == e,
            Err(m) => r matches Err(err) && err@ == (ErrorKind::Config, m)
                && final(translator).snaptext_cloud.endpoint == old(translator).snaptext_cloud.endpoint,
        },
        final(translator).provider == old(translator).provider,
        final(translator).snaptext_cloud.device_id == old(translator).snaptext_cloud.device_id,
        final(translator).snaptext_cloud.enabled == old(translator).snaptext_cloud.enabled,
        final(translator).openai_compatible == old(translator).openai_compatible,
        final(translator).deepl == old(translator).deepl,
        final(translator).google == old(translator).google,
        final(translator).local_http == old(translator).local_http,
{
    let value = match env_value {
        None => {
            return Ok(());
        },
        Some(v) => v,
    };
    let env = trim_str(value.as_str());
    if env.as_str().is_empty() || eq_ignore_case_str(env.as_str(), "production")
        || eq_ignore_case_str(env.as_str(), "prod") {
        return Ok(());
    }
    if !eq_ignore_case_str(env.as_str(), "local") {
        let mut m = owned(SNAPTEXT_CLOUD_ENV_VAR);
        push_str(&mut m, " must be local or production");
        return Err(Error::new(ErrorKind::Config, m));
    }
    match parse_url(SNAPTEXT_CLOUD_LOCAL_ENDPOINT) {
        Ok(u) => {
            translator.snaptext_cloud.endpoint = u;
            Ok(())
        },
        Err(text) => {
            let mut m = owned("invalid local SnapText Cloud endpoint: ");
            push_str(&mut m, text.as_str());
            Err(Error::new(ErrorKind::Config, m))
        },
    }
}

/// The translator for `config`, with the development cloud override applied.
pub fn translator_registry_for_config(config: &AppConfig, env_value: Option<String>) -> (r: Result<
    TranslatorRegistry,
    Error,
>)
    ensures
        match cloud_override(
            match env_value {
                Some(v) => Some(v@),
                None => None,
            },
            config.translator.snaptext_cloud.endpoint@,
        ) {
            Ok(e) => r matches Ok(reg) && reg.config().snaptext_cloud.endpoint@ == e
                && reg.config().provider == config.translator.provider
                && reg.config().snaptext_cloud.device_id == config.translator.snaptext_cloud.device_id
                && reg.config().snaptext_cloud.enabled == config.translator.snaptext_cloud.enabled
                && reg.config().openai_compatible == config.translator.openai_compatible
                && reg.config().deepl == config.translator.deepl && reg.config().google
                == config.translator.google && reg.config().local_http
                == config.translator.local_http,
            Err(m) => r matches Err(err) && err@ == (ErrorKind::Config, m),
        },
{
    let mut translator = config.translator.duplicate();
    match apply_snaptext_cloud_runtime_override(&mut translator, env_value) {
        Ok(()) => Ok(TranslatorRegistry::new(translator)),
        Err(e) => Err(e),
    }
}

/// The target language of a request: the requested one, trimmed, unless it is missing
/// or blank, in which case the configured one.
pub open spec fn chosen_target(requested: Option<Seq<char>>, configured: Seq<char>) -> Seq<char> {
    match requested {
        Some(r) => if trim(r).len() == 0 {
            configured
        } else {
            trim(r)
        },
        None => configured,
    }
}

/// The target language of a translation command.
pub fn requested_target_lang(requested: Option<String>, configured: Lang) -> (r: Lang)
    ensures
        r.0@ == chosen_target(
            match requested {
                Some(s) => Some(s@),
                None => None,
            },
            configured.0@,
        ),
{
    match requested {
        Some(value) => {
            let t = trim_str(value.as_str());
            if t.as_str().is_empty() {
                configured
            } else {
                Lang(t)
            }
        },
        None => configured,
    }
}

/// The source language of a request: the requested one, trimmed, unless it is missing,
/// blank or `auto`, in which case it is detected.
pub open spec fn chosen_source(requested: Option<Seq<char>>) -> Option<Seq<char>> {
    match requested {
        Some(r) => if trim(r).len() == 0 || trim(r) == "auto"@ {
            None
        } else {
            Some(trim(r))
        },
        None => None,
    }
}

/// The source language of a translation command.
pub fn requested_source_lang(requested: Option<String>) -> (r: Option<Lang>)
    ensures
        match chosen_source(
            match requested {
                Some(s) => Some(s@),
                None => None,
            },
        ) {
            Some(s) => r matches Some(l) && l.0@ == s,
            None => r is None,
        },
{
    match requested {
        Some(value) => {
            let t = trim_str(value.as_str());
            if t.as_str().is_empty() || str_eq(t.as_str(), "auto") {
                None
            } else {
                Some(Lang(t))
            }
        },
        None => None,
    }
}

/// The request that translates the one text `text`.
pub fn text_translation_request(text: String, source: Option<Lang>, target: Lang) -> (r:
    TranslateRequest)
    ensures
        r.texts@.len() == 1,
        r.texts@[0]@ == text@,
        r.source == source,
        r.target == target,
{
    let mut texts: Vec<String> = Vec::new();
    texts.push(text);
    TranslateRequest { texts, source, target }
}

/// Rejects a blank target language before translating.
pub fn ensure_supported_target_lang_for_translation(target_lang: &Lang) -> (r: Result<(), Error>)
    ensures
        is_blank(target_lang.0@) ==> (r matches Err(e) && e@ == (
            ErrorKind::Config,
            "target language cannot be empty"@,
        )),
        !is_blank(target_lang.0@) ==> r is Ok,
{
    if is_blank_str(target_lang.0.as_str()) {
        return Err(Error::from_str(ErrorKind::Config, "target language cannot be empty"));
    }
    Ok(())
}

/// Rejects a blank text sent for retranslation.
pub fn ensure_retranslatable(source_text: &str) -> (r: Result<(), Error>)
    ensures
        is_blank(source_text@) ==> (r matches Err(e) && e@ == (
            ErrorKind::Translate,
            "source text for retranslating cannot be empty"@,
        )),
        !is_blank(source_text@) ==> r is Ok,
{
    if is_blank_str(source_text) {
        return Err(
            Error::from_str(ErrorKind::Translate, "source text for retranslating cannot be empty"),
        );
    }
    Ok(())
}

/// The message for a text source handed to an image translation.
pub open spec fn text_source_message() -> Seq<char> {
    "text sources cannot be translated "@ + "from image data"@
}

/// Rejects a text source for a translation of image data.
pub fn ensure_image_source(source: HistorySource) -> (r: Result<(), Error>)
    ensures
        (source == HistorySource::Selection || source == HistorySource::Text) ==> (r matches Err(e)
            && e@ == (ErrorKind::Image, text_source_message())),
        (source == HistorySource::Screenshot || source == HistorySource::Image) ==> r is Ok,
{
    match source {
        HistorySource::Selection | HistorySource::Text => {
            let mut m = owned("text sources cannot be translated ");
            push_str(&mut m, "from image data");
            Err(Error::new(ErrorKind::Image, m))
        },
        _ => Ok(()),
    }
}

/// A screenshot shown in the overlay, and whether the main window comes back after it.
#[derive(Debug)]
pub struct OverlaySession {
    pub screenshot: ScreenshotPayload,
    pub restore_main_window: bool,
}

/// Whether closing the overlay brings the main window back: only when a session asks.
pub fn overlay_restore_main_window(pending: &Option<OverlaySession>) -> (b: bool)
    ensures
        b == (pending matches Some(s) && s.restore_main_window),
{
    match pending {
        Some(s) => s.restore_main_window,
        None => false,
    }
}

/// The screenshot of the pending overlay; without one, selecting in it is an error.
pub fn pending_overlay_screenshot(pending: &Option<OverlaySession>) -> (r: Result<
    &ScreenshotPayload,
    Error,
>)
    ensures
        match pending {
            Some(s) => r matches Ok(p) && *p == s.screenshot,
            None => r matches Err(e) && e@ == (
                ErrorKind::Image,
                "no active screenshot overlay is available"@,
            ),
        },
{
    match pending {
        Some(s) => Ok(&s.screenshot),
        None => Err(Error::from_str(ErrorKind::Image, "no active screenshot overlay is available")),
    }
}

/// The macOS settings pane for a privacy section.
pub open spec fn settings_pane(platform: Platform, section: Seq<char>) -> Result<Seq<char>, Seq<char>> {
    if platform != Platform::MacOs {
        Err("system settings links are only available on macOS"@)
    } else if section == "screen_recording"@ {
        Ok("x-apple.systempreferences:com.apple.preference.security?Privacy_ScreenCapture"@)
    } else if section == "accessibility"@ {
        Ok("x-apple.systempreferences:com.apple.preference.security?Privacy_Accessibility"@)
    } else if section == "microphone"@ {
        Ok("x-apple.systempreferences:com.apple.preference.security?Privacy_Microphone"@)
    } else {
        Err("unsupported system settings section"@)
    }
}

/// The settings pane to open for `section`.
pub fn system_settings_pane(platform: Platform, section: &str) -> (r: Result<&'static str, Error>)
    ensures
        match settings_pane(platform, section@) {
            Ok(p) => r matches Ok(s) && s@ == p,
            Err(m) => r matches Err(e) && e@ == (ErrorKind::Config, m),
        },
{
    if platform != Platform::MacOs {
        return Err(
            Error::from_str(ErrorKind::Config, "system settings links are only available on macOS"),
        );
    }
    if str_eq(section, "screen_recording") {
        Ok("x-apple.systempreferences:com.apple.preference.security?Privacy_ScreenCapture")
    } else if str_eq(section, "accessibility") {
        Ok("x-apple.systempreferences:com.apple.preference.security?Privacy_Accessibility")
    } else if str_eq(section, "microphone") {
        Ok("x-apple.systempreferences:com.apple.preference.security?Privacy_Microphone")
    } else {
        Err(Error::from_str(ErrorKind::Config, "unsupported system settings section"))
    }
}

/// What `String::from_utf8_lossy` gives for `bytes`.
pub uninterp spec fn utf8_lossy(bytes: Seq<u8>) -> Seq<char>;

/// Decodes bytes as UTF-8, replacing invalid sequences; `String::from_utf8_lossy`.
/// The contract names the result.
#[verifier::external_body]
fn from_utf8_lossy(bytes: &[u8]) -> (r: String)
    ensures
        r@ == utf8_lossy(bytes@),
{
    String::from_utf8_lossy(bytes).into_owned()
}

/// The decimal rendering of a signed integer.
pub open spec fn signed_decimal(n: int) -> Seq<char> {
    if n < 0 {
        "-"@ + decimal((-n) as nat)
    } else {
        decimal(n as nat)
    }
}

/// The message for a failed native screenshot selection, from the selector's exit code
/// (`None` when it was terminated) and its error output.
pub open spec fn selection_error_text(status_code: Option<i32>, stderr: Seq<u8>) -> Seq<char> {
    let message = trim(utf8_lossy(stderr));
    if message.len() == 0 {
        "screenshot selection produced no image; status="@ + match status_code {
            Some(code) => signed_decimal(code as int),
            None => "terminated"@,
        }
    } else {
        "screenshot selection failed: "@ + message
    }
}

/// The message for a failed native screenshot selection.
pub fn mac_screenshot_selection_error(status_code: Option<i32>, stderr: &[u8]) -> (r: String)
    ensures
        r@ == selection_error_text(status_code, stderr@),
{
    let text = from_utf8_lossy(stderr);
    let message = trim_str(text.as_str());
    if message.as_str().is_empty() {
        let mut m = owned("screenshot selection produced no image; status=");
        match status_code {
            Some(code) => {
                if code < 0 {
                    push_str(&mut m, "-");
                    let magnitude: i64 = -(code as i64);
                    push_decimal(&mut m, magnitude as u64);
                } else {
                    push_decimal(&mut m, code as u64);
                }
            },
            None => push_str(&mut m, "terminated"),
        }
        return m;
    }
    let mut m = owned("screenshot selection failed: ");
    push_str(&mut m, message.as_str());
    m
}

/// The speech-recognition authorization the system reports.
#[derive(Debug, Clone, Copy, PartialEq, Eq, Structural)]
pub enum SpeechAuthorization {
    Authorized,
    Denied,
    Restricted,
    NotDetermined,
}

/// The message for speech recognition that is not authorized.
pub fn speech_authorization_error(status: SpeechAuthorization) -> (r: String)
    ensures
        r@ == match status {
            SpeechAuthorization::Denied => "speech recognition permission was denied"@,
            SpeechAuthorization::Restricted => "speech recognition is restricted on this device"@,
            _ => "speech recognition is not authorized"@,
        },
{
    match status {
        SpeechAuthorization::Denied => owned("speech recognition permission was denied"),
        SpeechAuthorization::Restricted => owned("speech recognition is restricted on this device"),
        _ => owned("speech recognition is not authorized"),
    }
}

} // verus!
