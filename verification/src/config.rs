//! Application configuration: its model, how user input is normalized before it is
//! saved, and the checks a configuration must pass.
use vstd::prelude::*;

use crate::cloud_auth::{
    default_snaptext_cloud_device_id, device_id_for, generated_device_id, normalize_cloud_device_id,
    valid_device_id,
};
use crate::error::{Error, ErrorKind};
use crate::ocr::{join_path, path_joined};
use crate::hotkey::{hotkey_problem, hotkeys_conflict, validate_hotkey, validate_hotkey_conflicts};
use crate::text::{is_blank, is_blank_str, owned, str_eq, trim, trim_str};
use crate::urls::{ensure_http_url, http_url_problem};

verus! {

/// Colour theme of the interface.
#[derive(Debug, Clone, Copy, PartialEq, Eq, Structural)]
pub enum Theme {
    System,
    Light,
    Dark,
}

/// Interface language.
#[derive(Debug, Clone, Copy, PartialEq, Eq, Structural)]
pub enum UiLanguage {
    ZhCn,
    En,
}

/// Where the result panel appears.
#[derive(Debug, Clone, Copy, PartialEq, Eq, Structural)]
pub enum ResultPanelDock {
    Cursor,
    Fixed,
}

/// Interface settings.
#[derive(Debug, Clone, Copy, PartialEq, Eq, Structural)]
pub struct UiConfig {
    pub theme: Theme,
    pub language: UiLanguage,
    pub result_panel_dock: ResultPanelDock,
}

/// The interface language a configuration without one uses.
pub fn default_ui_language() -> (l: UiLanguage)
    ensures
        l == UiLanguage::ZhCn,
{
    UiLanguage::ZhCn
}

/// Accelerator strings of the two global shortcuts.
#[derive(Debug)]
pub struct HotkeyConfig {
    pub screenshot: String,
    pub selection: String,
}

/// Where the OCR models live: the bundled set, or a directory path.
#[derive(Debug)]
pub enum ModelDir {
    Bundled(String),
    Custom(String),
}

/// OCR settings.
#[derive(Debug)]
pub struct OcrConfig {
    pub model_dir: ModelDir,
    pub use_gpu: bool,
}

/// A language code such as `fr` or `zh_cn`.
#[derive(Debug)]
pub struct Lang(pub String);

/// The translation service in use.
#[derive(Debug, Clone, Copy, PartialEq, Eq, Structural)]
pub enum TranslatorProvider {
    SnapTextCloud,
    OpenAiCompatible,
    DeepL,
    Google,
    LocalHttp,
}

/// SnapText Cloud settings; the endpoint is a URL.
#[derive(Debug)]
pub struct SnapTextCloudConfig {
    pub endpoint: String,
    pub device_id: String,
    pub enabled: bool,
}

/// OpenAI-compatible settings; the base URL is a URL.
#[derive(Debug)]
pub struct OpenAiCompatibleConfig {
    pub base_url: String,
    pub api_key: Option<String>,
    pub model: String,
}

/// DeepL settings; the base URL is a URL.
#[derive(Debug)]
pub struct DeepLConfig {
    pub api_key: Option<String>,
    pub base_url: String,
}

/// Google Translate settings; the base URL is a URL.
#[derive(Debug)]
pub struct GoogleConfig {
    pub api_key: Option<String>,
    pub base_url: String,
}

/// Local HTTP translator settings; the endpoint is a URL.
#[derive(Debug)]
pub struct LocalHttpConfig {
    pub endpoint: String,
}

/// Translation settings for every provider, and the one in use.
#[derive(Debug)]
pub struct TranslatorConfig {
    pub provider: TranslatorProvider,
    pub snaptext_cloud: SnapTextCloudConfig,
    pub openai_compatible: OpenAiCompatibleConfig,
    pub deepl: DeepLConfig,
    pub google: GoogleConfig,
    pub local_http: LocalHttpConfig,
}

/// English pronunciation variant for speech.
#[derive(Debug, Clone, Copy, PartialEq, Eq, Structural)]
pub enum EnglishAccent {
    American,
    British,
}

/// Speech settings (the rate and volume numbers are kept by the desktop shell).
#[derive(Debug)]
pub struct SpeechConfig {
    pub enabled: bool,
    pub english_accent: EnglishAccent,
    pub english_accents: Vec<EnglishAccent>,
}

/// The accent a configuration without one uses.
pub fn default_english_accent() -> (a: EnglishAccent)
    ensures
        a == EnglishAccent::American,
{
    EnglishAccent::American
}

/// The accents offered when a configuration lists none.
pub fn default_english_accents() -> (v: Vec<EnglishAccent>)
    ensures
        v@ == seq![EnglishAccent::American, EnglishAccent::British],
{
    let mut v = Vec::new();
    v.push(EnglishAccent::American);
    v.push(EnglishAccent::British);
    v
}

/// The whole application configuration.
#[derive(Debug)]
pub struct AppConfig {
    pub target_lang: Lang,
    pub ui: UiConfig,
    pub hotkeys: HotkeyConfig,
    pub translator: TranslatorConfig,
    pub ocr: OcrConfig,
    pub speech: SpeechConfig,
}

/// The model directory setting as text.
pub enum ModelDirView {
    Bundled(Seq<char>),
    Custom(Seq<char>),
}

/// The configuration as plain values.
pub struct AppConfigView {
    pub target_lang: Seq<char>,
    pub ui: UiConfig,
    pub screenshot_hotkey: Seq<char>,
    pub selection_hotkey: Seq<char>,
    pub provider: TranslatorProvider,
    pub cloud_endpoint: Seq<char>,
    pub cloud_device_id: Seq<char>,
    pub cloud_enabled: bool,
    pub openai_base_url: Seq<char>,
    pub openai_api_key: Option<Seq<char>>,
    pub openai_model: Seq<char>,
    pub deepl_api_key: Option<Seq<char>>,
    pub deepl_base_url: Seq<char>,
    pub google_api_key: Option<Seq<char>>,
    pub google_base_url: Seq<char>,
    pub local_endpoint: Seq<char>,
    pub model_dir: ModelDirView,
    pub use_gpu: bool,
    pub speech_enabled: bool,
    pub english_accent: EnglishAccent,
    pub english_accents: Seq<EnglishAccent>,
}

/// The text of an optional string.
pub open spec fn opt_view(o: Option<String>) -> Option<Seq<char>> {
    match o {
        Some(s) => Some(s@),
        None => None,
    }
}

impl View for ModelDir {
    type V = ModelDirView;

    open spec fn view(&self) -> ModelDirView {
        match self {
            ModelDir::Bundled(s) => ModelDirView::Bundled(s@),
            ModelDir::Custom(s) => ModelDirView::Custom(s@),
        }
    }
}

impl View for AppConfig {
    type V = AppConfigView;

    open spec fn view(&self) -> AppConfigView {
        AppConfigView {
            target_lang: self.target_lang.0@,
            ui: self.ui,
            screenshot_hotkey: self.hotkeys.screenshot@,
            selection_hotkey: self.hotkeys.selection@,
            provider: self.translator.provider,
            cloud_endpoint: self.translator.snaptext_cloud.endpoint@,
            cloud_device_id: self.translator.snaptext_cloud.device_id@,
            cloud_enabled: self.translator.snaptext_cloud.enabled,
            openai_base_url: self.translator.openai_compatible.base_url@,
            openai_api_key: opt_view(self.translator.openai_compatible.api_key),
            openai_model: self.translator.openai_compatible.model@,
            deepl_api_key: opt_view(self.translator.deepl.api_key),
            deepl_base_url: self.translator.deepl.base_url@,
            google_api_key: opt_view(self.translator.google.api_key),
            google_base_url: self.translator.google.base_url@,
            local_endpoint: self.translator.local_http.endpoint@,
            model_dir: self.ocr.model_dir@,
            use_gpu: self.ocr.use_gpu,
            speech_enabled: self.speech.enabled,
            english_accent: self.speech.english_accent,
            english_accents: self.speech.english_accents@,
        }
    }
}

/// The URL of the official SnapText Cloud service.
pub open spec fn production_endpoint() -> Seq<char> {
    "https://snaptext.uuidcx.com/"@
}

/// The URL of the official SnapText Cloud service.
pub fn snaptext_cloud_production_endpoint() -> (s: String)
    ensures
        s@ == production_endpoint(),
{
    owned("https://snaptext.uuidcx.com/")
}

/// Providers that were removed fall back to SnapText Cloud.
pub open spec fn migrated_provider(p: TranslatorProvider) -> TranslatorProvider {
    match p {
        TranslatorProvider::OpenAiCompatible | TranslatorProvider::LocalHttp => TranslatorProvider::SnapTextCloud,
        other => other,
    }
}

/// A secret is kept trimmed, and dropped when blank.
pub open spec fn trimmed_secret(o: Option<Seq<char>>) -> Option<Seq<char>> {
    match o {
        Some(s) => if trim(s).len() == 0 {
            None
        } else {
            Some(trim(s))
        },
        None => None,
    }
}

/// A model directory setting is kept trimmed; a blank one means the bundled models.
pub open spec fn normalized_model_dir(m: ModelDirView) -> ModelDirView {
    match m {
        ModelDirView::Bundled(v) => if trim(v).len() == 0 {
            ModelDirView::Bundled("bundled"@)
        } else {
            ModelDirView::Bundled(trim(v))
        },
        ModelDirView::Custom(p) => if trim(p).len() == 0 {
            ModelDirView::Bundled("bundled"@)
        } else {
            ModelDirView::Custom(trim(p))
        },
    }
}

/// `s` with later repeats removed, keeping first occurrences in order.
pub open spec fn dedup(s: Seq<EnglishAccent>) -> Seq<EnglishAccent>
    decreases s.len(),
{
    if s.len() == 0 {
        s
    } else {
        let d = dedup(s.drop_last());
        if d.contains(s.last()) {
            d
        } else {
            d.push(s.last())
        }
    }
}

/// The configuration as it is saved, given the device id that was kept or generated.
pub open spec fn normalized_view(c: AppConfigView, device_id: Seq<char>) -> AppConfigView {
    AppConfigView {
        target_lang: trim(c.target_lang),
        ui: c.ui,
        screenshot_hotkey: trim(c.screenshot_hotkey),
        selection_hotkey: trim(c.selection_hotkey),
        provider: migrated_provider(c.provider),
        cloud_endpoint: production_endpoint(),
        cloud_device_id: device_id,
        cloud_enabled: c.cloud_enabled,
        openai_base_url: c.openai_base_url,
        openai_api_key: trimmed_secret(c.openai_api_key),
        openai_model: trim(c.openai_model),
        deepl_api_key: trimmed_secret(c.deepl_api_key),
        deepl_base_url: c.deepl_base_url,
        google_api_key: trimmed_secret(c.google_api_key),
        google_base_url: c.google_base_url,
        local_endpoint: c.local_endpoint,
        model_dir: normalized_model_dir(c.model_dir),
        use_gpu: c.use_gpu,
        speech_enabled: c.speech_enabled,
        english_accent: c.english_accent,
        english_accents: dedup(c.english_accents),
    }
}

/// `out` is what normalizing `c` may give: every field normalized, and the device id
/// kept when valid or freshly generated.
pub open spec fn normalized_from(c: AppConfigView, out: AppConfigView) -> bool {
    &&& out == normalized_view(c, out.cloud_device_id)
    &&& device_id_for(c.cloud_device_id, out.cloud_device_id)
}

/// What is wrong with the translation settings, or `None`. Only the provider in use is checked.
pub open spec fn translator_problem(c: AppConfigView) -> Option<Seq<char>> {
    match c.provider {
        TranslatorProvider::SnapTextCloud => match http_url_problem(
            "SnapText Cloud endpoint"@,
            c.cloud_endpoint,
        ) {
            Some(p) => Some(p),
            None => if is_blank(c.cloud_device_id) {
                Some("SnapText Cloud device ID cannot be empty"@)
            } else {
                None
            },
        },
        TranslatorProvider::DeepL => http_url_problem("DeepL base URL"@, c.deepl_base_url),
        TranslatorProvider::Google => http_url_problem("Google base URL"@, c.google_base_url),
        TranslatorProvider::OpenAiCompatible | TranslatorProvider::LocalHttp => None,
    }
}

/// What is wrong with the model directory setting, or `None`.
pub open spec fn model_dir_problem(m: ModelDirView) -> Option<Seq<char>> {
    match m {
        ModelDirView::Bundled(v) => if is_blank(v) {
            Some("bundled model directory marker cannot be empty"@)
        } else {
            None
        },
        ModelDirView::Custom(p) => if p.len() == 0 {
            Some("custom model directory cannot be empty"@)
        } else {
            None
        },
    }
}

/// The first problem the configuration checks find, in the order they run, or `None`.
pub open spec fn config_problem(c: AppConfigView) -> Option<Seq<char>> {
    if is_blank(c.target_lang) {
        Some("target language cannot be empty"@)
    } else if hotkey_problem("screenshot"@, c.screenshot_hotkey) is Some {
        hotkey_problem("screenshot"@, c.screenshot_hotkey)
    } else if hotkey_problem("selection"@, c.selection_hotkey) is Some {
        hotkey_problem("selection"@, c.selection_hotkey)
    } else if hotkeys_conflict(c.screenshot_hotkey, c.selection_hotkey) {
        Some("screenshot and selection hotkeys must be different"@)
    } else if translator_problem(c) is Some {
        translator_problem(c)
    } else {
        model_dir_problem(c.model_dir)
    }
}

/// Rejects a blank target language.
pub fn ensure_supported_target_lang(lang: &Lang) -> (r: Result<(), Error>)
    ensures
        match r {
            Ok(()) => !is_blank(lang.0@),
            Err(e) => is_blank(lang.0@) && e@ == (ErrorKind::Config, "target language cannot be empty"@),
        },
{
    if is_blank_str(lang.0.as_str()) {
        return Err(Error::from_str(ErrorKind::Config, "target language cannot be empty"));
    }
    Ok(())
}

/// Checks the provider in use: its URL must be http(s), and SnapText Cloud needs a device id.
pub fn validate_translator_config(config: &TranslatorConfig) -> (r: Result<(), Error>)
    ensures
        forall|c: AppConfigView|
            c.provider == config.provider && c.cloud_endpoint == config.snaptext_cloud.endpoint@
                && c.cloud_device_id == config.snaptext_cloud.device_id@ && c.deepl_base_url
                == config.deepl.base_url@ && c.google_base_url == config.google.base_url@ ==> match r {
                Ok(()) => translator_problem(c) is None,
                Err(e) => e@.0 == ErrorKind::Config && translator_problem(c) == Some(e@.1),
            },
{
    match config.provider {
        TranslatorProvider::SnapTextCloud => {
            ensure_http_url("SnapText Cloud endpoint", config.snaptext_cloud.endpoint.as_str())?;
            if is_blank_str(config.snaptext_cloud.device_id.as_str()) {
                return Err(
                    Error::from_str(ErrorKind::Config, "SnapText Cloud device ID cannot be empty"),
                );
            }
            Ok(())
        },
        TranslatorProvider::DeepL => ensure_http_url("DeepL base URL", config.deepl.base_url.as_str()),
        TranslatorProvider::Google => ensure_http_url(
            "Google base URL",
            config.google.base_url.as_str(),
        ),
        TranslatorProvider::OpenAiCompatible | TranslatorProvider::LocalHttp => Ok(()),
    }
}

/// Rejects a blank bundled marker or an empty custom directory.
pub fn validate_model_dir(model_dir: &ModelDir) -> (r: Result<(), Error>)
    ensures
        match r {
            Ok(()) => model_dir_problem(model_dir@) is None,
            Err(e) => e@.0 == ErrorKind::Config && model_dir_problem(model_dir@) == Some(e@.1),
        },
{
    match model_dir {
        ModelDir::Bundled(value) => {
            if is_blank_str(value.as_str()) {
                return Err(
                    Error::from_str(ErrorKind::Config, "bundled model directory marker cannot be empty"),
                );
            }
        },
        ModelDir::Custom(path) => {
            if path.as_str().is_empty() {
                return Err(Error::from_str(ErrorKind::Config, "custom model directory cannot be empty"));
            }
        },
    }
    Ok(())
}

/// The trimmed secret, or `None` when it is blank.
pub fn trim_optional_secret(value: &mut Option<String>)
    ensures
        opt_view(*final(value)) == trimmed_secret(opt_view(*old(value))),
{
    let taken = value.take();
    match taken {
        Some(secret) => {
            let t = trim_str(secret.as_str());
            if t.as_str().is_empty() {
                *value = None;
            } else {
                *value = Some(t);
            }
        },
        None => {},
    }
}

/// A trimmed model directory setting; blank settings mean the bundled models.
pub fn normalize_model_dir(model_dir: ModelDir) -> (r: ModelDir)
    ensures
        r@ == normalized_model_dir(model_dir@),
{
    match model_dir {
        ModelDir::Bundled(value) => {
            let t = trim_str(value.as_str());
            if t.as_str().is_empty() {
                ModelDir::Bundled(owned("bundled"))
            } else {
                ModelDir::Bundled(t)
            }
        },
        ModelDir::Custom(path) => {
            let t = trim_str(path.as_str());
            if t.as_str().is_empty() {
                ModelDir::Bundled(owned("bundled"))
            } else {
                ModelDir::Custom(t)
            }
        },
    }
}

/// Removed providers become SnapText Cloud; the others stay.
pub fn normalize_translator_provider(provider: TranslatorProvider) -> (r: TranslatorProvider)
    ensures
        r == migrated_provider(provider),
{
    match provider {
        TranslatorProvider::OpenAiCompatible | TranslatorProvider::LocalHttp => TranslatorProvider::SnapTextCloud,
        other => other,
    }
}

/// The configured device id, or a generated one when it is not valid; only generating
/// one can fail.
pub fn normalize_device_id(device_id: String) -> (r: Result<String, Error>)
    ensures
        match r {
            Ok(s) => device_id_for(device_id@, s@) && valid_device_id(s@),
            Err(e) => !valid_device_id(trim(device_id@)) && e@.0 == ErrorKind::Config,
        },
        valid_device_id(trim(device_id@)) ==> r is Ok,
{
    normalize_cloud_device_id(device_id)
}

/// The accents with repeats removed, first occurrences kept in order.
pub fn dedup_accents(accents: &Vec<EnglishAccent>) -> (r: Vec<EnglishAccent>)
    ensures
        r@ == dedup(accents@),
{
    let mut r: Vec<EnglishAccent> = Vec::new();
    let mut k: usize = 0;
    while k < accents.len()
        invariant
            k <= accents.len(),
            r@ == dedup(accents@.take(k as int)),
        decreases accents.len() - k,
    {
        let a = accents[k];
        let mut present = false;
        let mut j: usize = 0;
        while j < r.len()
            invariant
                j <= r.len(),
                present == exists|i: int| 0 <= i < j && r@[i] == a,
            decreases r.len() - j,
        {
            if r[j] == a {
                present = true;
            }
            j += 1;
        }
        proof {
            assert(accents@.take(k + 1).drop_last() == accents@.take(k as int));
            assert(accents@.take(k + 1).last() == a);
            if present {
                let i = choose|i: int| 0 <= i < r@.len() && r@[i] == a;
                assert(r@.contains(a));
            } else {
                assert(!r@.contains(a));
            }
        }
        if !present {
            r.push(a);
        }
        k += 1;
    }
    assert(accents@.take(accents.len() as int) == accents@);
    r
}

impl AppConfig {
    /// The configuration a first start uses; its device id is generated, or left empty
    /// when the system's random source fails (which validation then reports, and the next
    /// normalization tries to fill again).
    pub fn default_config() -> (c: AppConfig)
        ensures
            c@ == default_view(c@.cloud_device_id),
            generated_device_id(c@.cloud_device_id) || c@.cloud_device_id.len() == 0,
    {
        let device_id = match default_snaptext_cloud_device_id() {
            Ok(id) => id,
            Err(_) => String::new(),
        };
        AppConfig {
            target_lang: Lang(owned("zh_cn")),
            ui: UiConfig {
                theme: Theme::System,
                language: UiLanguage::ZhCn,
                result_panel_dock: ResultPanelDock::Cursor,
            },
            hotkeys: HotkeyConfig { screenshot: owned("Alt+W"), selection: owned("Alt+E") },
            translator: TranslatorConfig {
                provider: TranslatorProvider::SnapTextCloud,
                snaptext_cloud: SnapTextCloudConfig {
                    endpoint: snaptext_cloud_production_endpoint(),
                    device_id,
                    enabled: true,
                },
                openai_compatible: OpenAiCompatibleConfig {
                    base_url: owned("https://api.openai.com/v1"),
                    api_key: None,
                    model: owned("gpt-4o-mini"),
                },
                deepl: DeepLConfig { api_key: None, base_url: owned("https://api-free.deepl.com/v2") },
                google: GoogleConfig {
                    api_key: None,
                    base_url: owned("https://translation.googleapis.com/language/translate/v2"),
                },
                local_http: LocalHttpConfig { endpoint: owned("http://127.0.0.1:8080/translate") },
            },
            ocr: OcrConfig { model_dir: ModelDir::Bundled(owned("bundled")), use_gpu: false },
            speech: SpeechConfig {
                enabled: true,
                english_accent: EnglishAccent::American,
                english_accents: default_english_accents(),
            },
        }
    }

    /// Trims every user-typed field, migrates removed providers, pins the official cloud
    /// endpoint, keeps or regenerates the device id, and removes repeated accents.
    /// Only generating a device id can fail, and only when the configured one is not valid.
    pub fn normalized_for_save(self) -> (r: Result<AppConfig, Error>)
        ensures
            match r {
                Ok(c) => normalized_from(self@, c@) && valid_device_id(c@.cloud_device_id),
                Err(e) => !valid_device_id(trim(self@.cloud_device_id)) && e@.0 == ErrorKind::Config,
            },
            valid_device_id(trim(self@.cloud_device_id)) ==> r is Ok,
    {
        let AppConfig { target_lang, ui, hotkeys, translator, ocr, speech } = self;
        let TranslatorConfig { provider, snaptext_cloud, openai_compatible, deepl, google, local_http } =
            translator;
        let device_id = match normalize_device_id(snaptext_cloud.device_id) {
            Ok(id) => id,
            Err(e) => {
                return Err(e);
            },
        };
        let mut openai_key = openai_compatible.api_key;
        trim_optional_secret(&mut openai_key);
        let mut deepl_key = deepl.api_key;
        trim_optional_secret(&mut deepl_key);
        let mut google_key = google.api_key;
        trim_optional_secret(&mut google_key);
        Ok(AppConfig {
            target_lang: Lang(trim_str(target_lang.0.as_str())),
            ui,
            hotkeys: HotkeyConfig {
                screenshot: trim_str(hotkeys.screenshot.as_str()),
                selection: trim_str(hotkeys.selection.as_str()),
            },
            translator: TranslatorConfig {
                provider: normalize_translator_provider(provider),
                snaptext_cloud: SnapTextCloudConfig {
                    endpoint: snaptext_cloud_production_endpoint(),
                    device_id,
                    enabled: snaptext_cloud.enabled,
                },
                openai_compatible: OpenAiCompatibleConfig {
                    base_url: openai_compatible.base_url,
                    api_key: openai_key,
                    model: trim_str(openai_compatible.model.as_str()),
                },
                deepl: DeepLConfig { api_key: deepl_key, base_url: deepl.base_url },
                google: GoogleConfig { api_key: google_key, base_url: google.base_url },
                local_http,
            },
            ocr: OcrConfig { model_dir: normalize_model_dir(ocr.model_dir), use_gpu: ocr.use_gpu },
            speech: SpeechConfig {
                enabled: speech.enabled,
                english_accent: speech.english_accent,
                english_accents: dedup_accents(&speech.english_accents),
            },
        })
    }

    /// Runs the configuration checks in order and reports the first problem.
    pub fn validate(&self) -> (r: Result<(), Error>)
        ensures
            match r {
                Ok(()) => config_problem(self@) is None,
                Err(e) => e@.0 == ErrorKind::Config && config_problem(self@) == Some(e@.1),
            },
    {
        ensure_supported_target_lang(&self.target_lang)?;
        validate_hotkey("screenshot", self.hotkeys.screenshot.as_str())?;
        validate_hotkey("selection", self.hotkeys.selection.as_str())?;
        validate_hotkey_conflicts(self.hotkeys.screenshot.as_str(), self.hotkeys.selection.as_str())?;
        validate_translator_config(&self.translator)?;
        validate_model_dir(&self.ocr.model_dir)?;
        Ok(())
    }
}

/// The configuration a first start uses, given its generated device id.
pub open spec fn default_view(device_id: Seq<char>) -> AppConfigView {
    AppConfigView {
        target_lang: "zh_cn"@,
        ui: UiConfig {
            theme: Theme::System,
            language: UiLanguage::ZhCn,
            result_panel_dock: ResultPanelDock::Cursor,
        },
        screenshot_hotkey: "Alt+W"@,
        selection_hotkey: "Alt+E"@,
        provider: TranslatorProvider::SnapTextCloud,
        cloud_endpoint: production_endpoint(),
        cloud_device_id: device_id,
        cloud_enabled: true,
        openai_base_url: "https://api.openai.com/v1"@,
        openai_api_key: None,
        openai_model: "gpt-4o-mini"@,
        deepl_api_key: None,
        deepl_base_url: "https://api-free.deepl.com/v2"@,
        google_api_key: None,
        google_base_url: "https://translation.googleapis.com/language/translate/v2"@,
        local_endpoint: "http://127.0.0.1:8080/translate"@,
        model_dir: ModelDirView::Bundled("bundled"@),
        use_gpu: false,
        speech_enabled: true,
        english_accent: EnglishAccent::American,
        english_accents: seq![EnglishAccent::American, EnglishAccent::British],
    }
}


/// The platform configuration directory of the application;
/// `directories::ProjectDirs::from("com", "SnapText", "SnapText")` and `config_dir`.
/// Which directory it is depends on the user's environment; the crate builds it by joining
/// the project's path onto a base directory, so the contract claims only that it is not
/// empty text.
#[verifier::external_body]
fn platform_config_dir() -> (r: Option<String>)
    ensures
        r matches Some(p) ==> p@.len() > 0,
{
    directories::ProjectDirs::from("com", "SnapText", "SnapText").map(
        |dirs| dirs.config_dir().to_string_lossy().into_owned(),
    )
}

/// The platform data directory of the application;
/// `directories::ProjectDirs::from("com", "SnapText", "SnapText")` and `data_dir`.
/// Which directory it is depends on the user's environment; the crate builds it by joining
/// the project's path onto a base directory, so the contract claims only that it is not
/// empty text.
#[verifier::external_body]
fn platform_data_dir() -> (r: Option<String>)
    ensures
        r matches Some(p) ==> p@.len() > 0,
{
    directories::ProjectDirs::from("com", "SnapText", "SnapText").map(
        |dirs| dirs.data_dir().to_string_lossy().into_owned(),
    )
}

/// The directory used for a platform directory `dir`: it, or `.snaptext` when the
/// platform has none.
pub open spec fn dir_or_fallback(dir: Option<Seq<char>>) -> Seq<char> {
    match dir {
        Some(d) => d,
        None => ".snaptext"@,
    }
}

/// The platform directory, or `.snaptext` when there is none.
pub fn platform_dir_or_fallback(dir: Option<String>) -> (r: String)
    ensures
        r@ == dir_or_fallback(opt_view(dir)),
{
    match dir {
        Some(d) => d,
        None => owned(".snaptext"),
    }
}

/// Where the configuration lives: the platform configuration directory, or `.snaptext`;
/// either way a directory path that is not empty.
pub fn app_config_dir() -> (r: String)
    ensures
        r@.len() > 0,
{
    proof {
        reveal_strlit(".snaptext");
    }
    platform_dir_or_fallback(platform_config_dir())
}

/// Where application data lives: the platform data directory, or `.snaptext`; either
/// way a directory path that is not empty.
pub fn app_data_dir() -> (r: String)
    ensures
        r@.len() > 0,
{
    proof {
        reveal_strlit(".snaptext");
    }
    platform_dir_or_fallback(platform_data_dir())
}

/// The configuration file: `config.yaml` in the data directory, beside the history.
pub fn default_config_path() -> (r: String)
    ensures
        exists|dir: Seq<char>| dir.len() > 0 && r@ == path_joined(dir, "config.yaml"@),
{
    let dir = app_data_dir();
    join_path(dir.as_str(), "config.yaml")
}

/// The history database: `history.sqlite3` in the data directory.
pub fn default_history_path() -> (r: String)
    ensures
        exists|dir: Seq<char>| dir.len() > 0 && r@ == path_joined(dir, "history.sqlite3"@),
{
    let dir = app_data_dir();
    join_path(dir.as_str(), "history.sqlite3")
}

impl AppConfig {
    /// The configuration as it is saved and loaded: normalized, then checked.
    pub fn normalized_and_validated(self) -> (r: Result<AppConfig, Error>)
        ensures
            match r {
                Ok(c) => normalized_from(self@, c@) && config_problem(c@) is None,
                Err(e) => e@.0 == ErrorKind::Config && (!valid_device_id(trim(self@.cloud_device_id))
                    || exists|c: AppConfigView| normalized_from(self@, c) && config_problem(c) == Some(
                    e@.1,
                )),
            },
    {
        let config = match self.normalized_for_save() {
            Ok(c) => c,
            Err(e) => {
                return Err(e);
            },
        };
        match config.validate() {
            Ok(()) => Ok(config),
            Err(e) => Err(e),
        }
    }
}


/// A copy of an optional string.
fn copy_opt(o: &Option<String>) -> (r: Option<String>)
    ensures
        r == *o,
{
    match o {
        Some(s) => Some(s.clone()),
        None => None,
    }
}

/// A copy of a list of accents.
fn copy_accents(v: &Vec<EnglishAccent>) -> (r: Vec<EnglishAccent>)
    ensures
        r@ == v@,
{
    let mut r: Vec<EnglishAccent> = Vec::new();
    let mut k: usize = 0;
    while k < v.len()
        invariant
            k <= v@.len(),
            r@ == v@.take(k as int),
        decreases v.len() - k,
    {
        r.push(v[k]);
        k += 1;
    }
    assert(v@.take(v@.len() as int) == v@);
    r
}

impl Lang {
    /// A copy of the language code.
    pub fn duplicate(&self) -> (r: Lang)
        ensures
            r == *self,
    {
        Lang(self.0.clone())
    }
}

/// The model directory a configuration file's text `value` names: blank text or
/// `bundled` is the bundled set, anything else a directory path.
pub open spec fn model_dir_setting(value: Seq<char>) -> ModelDirView {
    if is_blank(value) || value == "bundled"@ {
        ModelDirView::Bundled("bundled"@)
    } else {
        ModelDirView::Custom(value)
    }
}

impl ModelDir {
    /// The setting a configuration file's text `value` names.
    pub fn from_setting(value: String) -> (r: ModelDir)
        ensures
            r@ == model_dir_setting(value@),
    {
        if is_blank_str(value.as_str()) || str_eq(value.as_str(), "bundled") {
            ModelDir::Bundled(owned("bundled"))
        } else {
            ModelDir::Custom(value)
        }
    }

    /// The text a configuration file holds for the setting: the bundled marker or the path.
    pub fn setting_text(&self) -> (r: String)
        ensures
            r@ == match self@ {
                ModelDirView::Bundled(v) => v,
                ModelDirView::Custom(p) => p,
            },
    {
        match self {
            ModelDir::Bundled(v) => v.clone(),
            ModelDir::Custom(p) => p.clone(),
        }
    }

    /// A copy of the setting.
    pub fn duplicate(&self) -> (r: ModelDir)
        ensures
            r == *self,
    {
        match self {
            ModelDir::Bundled(s) => ModelDir::Bundled(s.clone()),
            ModelDir::Custom(s) => ModelDir::Custom(s.clone()),
        }
    }
}

impl TranslatorConfig {
    /// A copy of the settings.
    pub fn duplicate(&self) -> (r: TranslatorConfig)
        ensures
            r == *self,
    {
        TranslatorConfig {
            provider: self.provider,
            snaptext_cloud: SnapTextCloudConfig {
                endpoint: self.snaptext_cloud.endpoint.clone(),
                device_id: self.snaptext_cloud.device_id.clone(),
                enabled: self.snaptext_cloud.enabled,
            },
            openai_compatible: OpenAiCompatibleConfig {
                base_url: self.openai_compatible.base_url.clone(),
                api_key: copy_opt(&self.openai_compatible.api_key),
                model: self.openai_compatible.model.clone(),
            },
            deepl: DeepLConfig {
                api_key: copy_opt(&self.deepl.api_key),
                base_url: self.deepl.base_url.clone(),
            },
            google: GoogleConfig {
                api_key: copy_opt(&self.google.api_key),
                base_url: self.google.base_url.clone(),
            },
            local_http: LocalHttpConfig { endpoint: self.local_http.endpoint.clone() },
        }
    }
}

impl AppConfig {
    /// A copy of the configuration.
    pub fn duplicate(&self) -> (r: AppConfig)
        ensures
            r@ == self@,
    {
        AppConfig {
            target_lang: self.target_lang.duplicate(),
            ui: self.ui,
            hotkeys: HotkeyConfig {
                screenshot: self.hotkeys.screenshot.clone(),
                selection: self.hotkeys.selection.clone(),
            },
            translator: self.translator.duplicate(),
            ocr: OcrConfig { model_dir: self.ocr.model_dir.duplicate(), use_gpu: self.ocr.use_gpu },
            speech: SpeechConfig {
                enabled: self.speech.enabled,
                english_accent: self.speech.english_accent,
                english_accents: copy_accents(&self.speech.english_accents),
            },
        }
    }
}


impl Default for AppConfig {
    /// The configuration a first start uses; its device id is generated, or empty when
    /// the system's random source fails.
    fn default() -> (c: AppConfig)
        ensures
            c@ == default_view(c@.cloud_device_id),
            generated_device_id(c@.cloud_device_id) || c@.cloud_device_id.len() == 0,
    {
        AppConfig::default_config()
    }
}

} // verus!
