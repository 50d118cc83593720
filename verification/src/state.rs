//! The desktop application's state at start-up: the checked configuration, the history,
//! the OCR engine, the translator and the shortcut routes.
use vstd::prelude::*;

use crate::cloud_auth::valid_device_id;
use crate::commands::{cloud_override, translator_registry_for_config, OverlaySession};
use crate::config::{config_problem, normalized_from, normalized_view, AppConfig, AppConfigView};
use crate::desktop::{model_dir_for, resolve_model_dir, HotkeyRoutes};
use crate::error::{Error, ErrorKind};
use crate::history::HistoryStore;
use crate::ocr::OcrEngine;
use crate::screenshot::Screencap;
use crate::text::{is_blank, trim};
use crate::translate::TranslatorRegistry;

verus! {

/// Everything the desktop commands share. The shell adds its locks and platform handles.
pub struct AppState {
    pub config_path: Option<String>,
    pub resource_dir: Option<String>,
    pub config: AppConfig,
    pub history: HistoryStore,
    pub ocr: OcrEngine,
    pub screencap: Screencap,
    pub pending_overlay: Option<OverlaySession>,
    pub translator: TranslatorRegistry,
    pub hotkey_routes: HotkeyRoutes,
}

/// The text of an optional string.
pub open spec fn opt_text(o: Option<String>) -> Option<Seq<char>> {
    match o {
        Some(s) => Some(s@),
        None => None,
    }
}

/// Why the application cannot start with the normalized configuration `n`, the resource
/// directory `resource_dir` and the cloud deployment variable `cloud_env`, or `None`:
/// the configuration checks, then an empty model directory, then the cloud override.
pub open spec fn startup_problem(
    n: AppConfigView,
    resource_dir: Option<Seq<char>>,
    cloud_env: Option<Seq<char>>,
) -> Option<(ErrorKind, Seq<char>)> {
    match config_problem(n) {
        Some(p) => Some((ErrorKind::Config, p)),
        None => if model_dir_for(n.model_dir, resource_dir).len() == 0 {
            Some((ErrorKind::Ocr, "model directory cannot be empty"@))
        } else {
            match cloud_override(cloud_env, n.cloud_endpoint) {
                Err(m) => Some((ErrorKind::Config, m)),
                Ok(_) => None,
            }
        },
    }
}

/// A valid device id is not blank.
proof fn lemma_valid_id_not_blank(d: Seq<char>)
    requires
        valid_device_id(d),
    ensures
        !is_blank(d),
{
    assert(!crate::text::is_ws(d[0]));
}

/// Which valid device id normalization picked does not change whether start-up succeeds.
pub proof fn lemma_startup_ignores_device_id(
    c: AppConfigView,
    d1: Seq<char>,
    d2: Seq<char>,
    resource_dir: Option<Seq<char>>,
    cloud_env: Option<Seq<char>>,
)
    requires
        valid_device_id(d1),
        valid_device_id(d2),
    ensures
        startup_problem(normalized_view(c, d1), resource_dir, cloud_env) == startup_problem(
            normalized_view(c, d2),
            resource_dir,
            cloud_env,
        ),
{
    lemma_valid_id_not_blank(d1);
    lemma_valid_id_not_blank(d2);
}

/// Start-up stopped because the configured device id was not valid and the system's
/// random source failed while a new one was generated.
pub open spec fn id_generation_failed(config: AppConfigView, r: Result<AppState, Error>) -> bool {
    &&& !valid_device_id(trim(config.cloud_device_id))
    &&& r matches Err(e) && e@.0 == ErrorKind::Config
}

/// What a started state holds: the normalized configuration, which passes the checks;
/// the given history and paths; an engine for the resolved model directory; the
/// translator for the configuration with the cloud override applied; no overlay and no
/// shortcut routes yet.
pub open spec fn started_from(
    s: AppState,
    config: AppConfigView,
    history: HistoryStore,
    config_path: Option<Seq<char>>,
    resource_dir: Option<Seq<char>>,
    cloud_env: Option<Seq<char>>,
) -> bool {
    &&& normalized_from(config, s.config@)
    &&& valid_device_id(s.config@.cloud_device_id)
    &&& startup_problem(s.config@, resource_dir, cloud_env) is None
    &&& s.history == history
    &&& opt_text(s.config_path) == config_path
    &&& opt_text(s.resource_dir) == resource_dir
    &&& s.ocr.dir() == model_dir_for(s.config@.model_dir, resource_dir)
    &&& s.translator.config().provider == s.config.translator.provider
    &&& cloud_override(cloud_env, s.config@.cloud_endpoint) == Ok::<Seq<char>, Seq<char>>(
        s.translator.config().snaptext_cloud.endpoint@,
    )
    &&& s.translator.config().snaptext_cloud.device_id == s.config.translator.snaptext_cloud.device_id
    &&& s.translator.config().snaptext_cloud.enabled == s.config.translator.snaptext_cloud.enabled
    &&& s.translator.config().openai_compatible == s.config.translator.openai_compatible
    &&& s.translator.config().deepl == s.config.translator.deepl
    &&& s.translator.config().google == s.config.translator.google
    &&& s.translator.config().local_http == s.config.translator.local_http
    &&& s.pending_overlay is None
    &&& s.hotkey_routes.entries().len() == 0
}

/// A normalized, checked configuration with the translator and the OCR engine built for
/// it; each of the two is kept with the error building it gave, which the update reports
/// only when it reaches that step.
pub struct ConfigUpdate {
    pub config: AppConfig,
    pub translator: Result<TranslatorRegistry, Error>,
    pub ocr: Result<OcrEngine, Error>,
}

/// `reg` is the translator for `config`, with the cloud endpoint `endpoint`.
pub open spec fn translator_for(reg: TranslatorRegistry, config: AppConfig, endpoint: Seq<char>) -> bool {
    &&& reg.config().snaptext_cloud.endpoint@ == endpoint
    &&& reg.config().provider == config.translator.provider
    &&& reg.config().snaptext_cloud.device_id == config.translator.snaptext_cloud.device_id
    &&& reg.config().snaptext_cloud.enabled == config.translator.snaptext_cloud.enabled
    &&& reg.config().openai_compatible == config.translator.openai_compatible
    &&& reg.config().deepl == config.translator.deepl
    &&& reg.config().google == config.translator.google
    &&& reg.config().local_http == config.translator.local_http
}

/// What building the translator for `config` gives under the cloud deployment variable
/// `cloud_env`: the translator with the overridden endpoint, or the override's error.
pub open spec fn rebuilt_translator(
    config: AppConfig,
    cloud_env: Option<Seq<char>>,
    r: Result<TranslatorRegistry, Error>,
) -> bool {
    match cloud_override(cloud_env, config.translator.snaptext_cloud.endpoint@) {
        Ok(e) => r matches Ok(reg) && translator_for(reg, config, e),
        Err(m) => r matches Err(err) && err@ == (ErrorKind::Config, m),
    }
}

/// What building the OCR engine for `config` gives with the bundled resources in
/// `resource_dir`: an engine for the resolved model directory, or the error for an empty
/// one.
pub open spec fn rebuilt_engine(
    config: AppConfig,
    resource_dir: Option<Seq<char>>,
    r: Result<OcrEngine, Error>,
) -> bool {
    let dir = model_dir_for(config@.model_dir, resource_dir);
    if dir.len() == 0 {
        r matches Err(e) && e@ == (ErrorKind::Ocr, "model directory cannot be empty"@)
    } else {
        r matches Ok(engine) && engine.dir() == dir
    }
}

/// Which valid device id normalization picked does not change the configuration checks.
proof fn lemma_checks_ignore_device_id(c: AppConfigView, d1: Seq<char>, d2: Seq<char>)
    requires
        valid_device_id(d1),
        valid_device_id(d2),
    ensures
        config_problem(normalized_view(c, d1)) == config_problem(normalized_view(c, d2)),
{
    lemma_valid_id_not_blank(d1);
    lemma_valid_id_not_blank(d2);
}

impl AppState {
    /// The state for `config` and `history`, with neither a configuration path nor a
    /// resource directory.
    pub fn new(config: AppConfig, history: HistoryStore, cloud_env: Option<String>) -> (r: Result<
        AppState,
        Error,
    >)
        ensures
            forall|d: Seq<char>|
                valid_device_id(d) ==> match startup_problem(
                    normalized_view(config@, d),
                    None,
                    opt_text(cloud_env),
                ) {
                    Some(p) => (r matches Err(e) && e@ == p) || id_generation_failed(config@, r),
                    None => r is Ok || id_generation_failed(config@, r),
                },
            r matches Ok(s) ==> started_from(s, config@, history, None, None, opt_text(cloud_env)),
    {
        AppState::build(config, history, None, None, cloud_env)
    }

    /// The state for `config` and `history` with the bundled resources in `resource_dir`.
    pub fn with_resource_dir(
        config: AppConfig,
        history: HistoryStore,
        resource_dir: Option<String>,
        cloud_env: Option<String>,
    ) -> (r: Result<AppState, Error>)
        ensures
            forall|d: Seq<char>|
                valid_device_id(d) ==> match startup_problem(
                    normalized_view(config@, d),
                    opt_text(resource_dir),
                    opt_text(cloud_env),
                ) {
                    Some(p) => (r matches Err(e) && e@ == p) || id_generation_failed(config@, r),
                    None => r is Ok || id_generation_failed(config@, r),
                },
            r matches Ok(s) ==> started_from(
                s,
                config@,
                history,
                None,
                opt_text(resource_dir),
                opt_text(cloud_env),
            ),
    {
        AppState::build(config, history, None, resource_dir, cloud_env)
    }

    /// The state for `config` and `history`, saved back to `config_path`.
    pub fn with_config_path(
        config: AppConfig,
        history: HistoryStore,
        config_path: Option<String>,
        cloud_env: Option<String>,
    ) -> (r: Result<AppState, Error>)
        ensures
            forall|d: Seq<char>|
                valid_device_id(d) ==> match startup_problem(
                    normalized_view(config@, d),
                    None,
                    opt_text(cloud_env),
                ) {
                    Some(p) => (r matches Err(e) && e@ == p) || id_generation_failed(config@, r),
                    None => r is Ok || id_generation_failed(config@, r),
                },
            r matches Ok(s) ==> started_from(
                s,
                config@,
                history,
                opt_text(config_path),
                None,
                opt_text(cloud_env),
            ),
    {
        AppState::build(config, history, config_path, None, cloud_env)
    }

    /// The first half of a settings change: `config` normalized and checked, with the
    /// translator and the OCR engine built for it. The state is not touched; a refused
    /// configuration is reported here, before anything is saved.
    pub fn prepare_config_update(&self, config: AppConfig, cloud_env: Option<String>) -> (r: Result<
        ConfigUpdate,
        Error,
    >)
        ensures
            forall|d: Seq<char>|
                valid_device_id(d) ==> match config_problem(normalized_view(config@, d)) {
                    Some(p) => (r matches Err(e) && e@ == (ErrorKind::Config, p)) || (
                    !valid_device_id(trim(config@.cloud_device_id)) && (r matches Err(e) && e@.0
                        == ErrorKind::Config)),
                    None => r is Ok || (!valid_device_id(trim(config@.cloud_device_id)) && (
                    r matches Err(e) && e@.0 == ErrorKind::Config)),
                },
            r matches Ok(u) ==> normalized_from(config@, u.config@) && valid_device_id(
                u.config@.cloud_device_id,
            ) && config_problem(u.config@) is None && rebuilt_translator(
                u.config,
                opt_text(cloud_env),
                u.translator,
            ) && rebuilt_engine(u.config, opt_text(self.resource_dir), u.ocr),
    {
        let ghost original = config@;
        let config = match config.normalized_for_save() {
            Ok(c) => c,
            Err(e) => {
                return Err(e);
            },
        };
        let ghost n = config@;
        assert forall|d: Seq<char>| valid_device_id(d) implies config_problem(
            normalized_view(original, d),
        ) == config_problem(n) by {
            lemma_checks_ignore_device_id(original, d, n.cloud_device_id);
        }
        match config.validate() {
            Ok(()) => {},
            Err(e) => {
                return Err(e);
            },
        }
        let translator = translator_registry_for_config(&config, cloud_env);
        let model_dir = match &self.resource_dir {
            Some(dir) => resolve_model_dir(&config, Some(dir.as_str())),
            None => resolve_model_dir(&config, None),
        };
        let ocr = OcrEngine::new(model_dir);
        Ok(ConfigUpdate { config, translator, ocr })
    }

    /// The second half of a settings change, once the configuration is saved: the state
    /// takes the configuration, then the translator, then the engine, stopping at the
    /// first of the two that could not be built with its error. Nothing else changes.
    pub fn install_config_update(&mut self, update: ConfigUpdate) -> (r: Result<AppConfig, Error>)
        ensures
            final(self).config == update.config,
            final(self).config_path == old(self).config_path,
            final(self).resource_dir == old(self).resource_dir,
            final(self).history == old(self).history,
            final(self).screencap == old(self).screencap,
            final(self).pending_overlay == old(self).pending_overlay,
            final(self).hotkey_routes == old(self).hotkey_routes,
            match update.translator {
                Err(e) => r == Err::<AppConfig, Error>(e) && final(self).translator
                    == old(self).translator && final(self).ocr == old(self).ocr,
                Ok(t) => final(self).translator == t && match update.ocr {
                    Err(e) => r == Err::<AppConfig, Error>(e) && final(self).ocr == old(self).ocr,
                    Ok(o) => final(self).ocr == o && (r matches Ok(c) && c@ == update.config@),
                },
            },
    {
        let ConfigUpdate { config, translator, ocr } = update;
        let saved = config.duplicate();
        self.config = config;
        let translator = match translator {
            Ok(t) => t,
            Err(e) => {
                return Err(e);
            },
        };
        self.translator = translator;
        let ocr = match ocr {
            Ok(o) => o,
            Err(e) => {
                return Err(e);
            },
        };
        self.ocr = ocr;
        Ok(saved)
    }

    /// Normalizes and checks the configuration, then builds the engine, the translator and
    /// the capturer.
    fn build(
        config: AppConfig,
        history: HistoryStore,
        config_path: Option<String>,
        resource_dir: Option<String>,
        cloud_env: Option<String>,
    ) -> (r: Result<AppState, Error>)
        ensures
            forall|d: Seq<char>|
                valid_device_id(d) ==> match startup_problem(
                    normalized_view(config@, d),
                    opt_text(resource_dir),
                    opt_text(cloud_env),
                ) {
                    Some(p) => (r matches Err(e) && e@ == p) || id_generation_failed(config@, r),
                    None => r is Ok || id_generation_failed(config@, r),
                },
            r matches Ok(s) ==> started_from(
                s,
                config@,
                history,
                opt_text(config_path),
                opt_text(resource_dir),
                opt_text(cloud_env),
            ),
    {
        let ghost original = config@;
        let ghost rd = opt_text(resource_dir);
        let ghost env = opt_text(cloud_env);
        let config = match config.normalized_for_save() {
            Ok(c) => c,
            Err(e) => {
                return Err(e);
            },
        };
        let ghost n = config@;
        assert forall|d: Seq<char>| valid_device_id(d) implies startup_problem(
            normalized_view(original, d),
            rd,
            env,
        ) == startup_problem(n, rd, env) by {
            lemma_startup_ignores_device_id(original, d, n.cloud_device_id, rd, env);
        }
        match config.validate() {
            Ok(()) => {},
            Err(e) => {
                return Err(e);
            },
        }
        let model_dir = match &resource_dir {
            Some(dir) => resolve_model_dir(&config, Some(dir.as_str())),
            None => resolve_model_dir(&config, None),
        };
        let ocr = match OcrEngine::new(model_dir) {
            Ok(engine) => engine,
            Err(e) => {
                return Err(e);
            },
        };
        let translator = match translator_registry_for_config(&config, cloud_env) {
            Ok(t) => t,
            Err(e) => {
                return Err(e);
            },
        };
        let screencap = match Screencap::new() {
            Ok(s) => s,
            Err(e) => {
                return Err(e);
            },
        };
        Ok(
            AppState {
                config_path,
                resource_dir,
                config,
                history,
                ocr,
                screencap,
                pending_overlay: None,
                translator,
                hotkey_routes: HotkeyRoutes::empty(),
            },
        )
    }
}

} // verus!
