//! The desktop capability report: what each platform offers for screenshots and text
//! selection, and whether the local OCR models are ready.
use vstd::prelude::*;

use crate::error::{kind_prefix, Error, ErrorKind};
use crate::ocr::{
    dictionary_entries, missing_labels, ModelFilePresence, OcrEngine, CLS_MODEL_FILE,
    DET_MODEL_FILE, REC_DICT_FILE, REC_MODEL_FILE,
};
use crate::text::{join, owned, push_str};

verus! {

/// The desktop platform the application runs on.
#[derive(Debug, Clone, Copy, PartialEq, Eq, Structural)]
pub enum Platform {
    MacOs,
    Windows,
    Linux,
    Other,
}

/// Whether the OCR models are present, readable and loadable.
#[derive(Debug)]
pub struct OcrModelStatus {
    pub model_dir: String,
    pub valid: bool,
    pub missing_files: Vec<String>,
    pub recognition_dict_len: usize,
    pub loadable: bool,
    pub message: String,
}

/// One capability of the desktop shell, its state and what the user can do about it.
#[derive(Debug)]
pub struct DesktopCapabilityStatus {
    pub capability: String,
    pub status: String,
    pub action: String,
}

/// The screenshot capability state on `platform`.
pub open spec fn screenshot_status_text(platform: Platform) -> Seq<char> {
    match platform {
        Platform::MacOs => "requires_screen_recording_permission"@,
        Platform::Windows => "available"@,
        Platform::Linux => "depends_on_compositor_portal"@,
        Platform::Other => "unsupported_platform"@,
    }
}

/// The screenshot capability state on `platform`.
pub fn platform_screenshot_status(platform: Platform) -> (r: String)
    ensures
        r@ == screenshot_status_text(platform),
{
    match platform {
        Platform::MacOs => owned("requires_screen_recording_permission"),
        Platform::Windows => owned("available"),
        Platform::Linux => owned("depends_on_compositor_portal"),
        Platform::Other => owned("unsupported_platform"),
    }
}

/// What the user can do to make screenshots work on `platform`.
pub open spec fn screenshot_action_text(platform: Platform) -> Seq<char> {
    match platform {
        Platform::MacOs => "Grant Screen Recording permission to SnapText in System Settings -> Privacy & Security -> Screen & System Audio Recording, then restart SnapText."@,
        Platform::Windows => "No extra OS permission is normally required. If capture fails for an elevated app, restart SnapText with matching privileges."@,
        Platform::Linux => "Use an X11 session or a Wayland compositor/portal path supported by xcap; if capture fails, verify desktop portal and compositor screenshot permissions."@,
        Platform::Other => "SnapText only targets macOS, Windows, and Linux desktops."@,
    }
}

/// What the user can do to make screenshots work on `platform`.
pub fn platform_screenshot_action(platform: Platform) -> (r: String)
    ensures
        r@ == screenshot_action_text(platform),
{
    match platform {
        Platform::MacOs => owned(
            "Grant Screen Recording permission to SnapText in System Settings -> Privacy & Security -> Screen & System Audio Recording, then restart SnapText.",
        ),
        Platform::Windows => owned(
            "No extra OS permission is normally required. If capture fails for an elevated app, restart SnapText with matching privileges.",
        ),
        Platform::Linux => owned(
            "Use an X11 session or a Wayland compositor/portal path supported by xcap; if capture fails, verify desktop portal and compositor screenshot permissions.",
        ),
        Platform::Other => owned("SnapText only targets macOS, Windows, and Linux desktops."),
    }
}

/// The text-selection capability state on `platform`; on macOS it is the permission
/// state `macos_permission` that the system reports.
pub open spec fn selection_status_text(platform: Platform, macos_permission: Seq<char>) -> Seq<char> {
    match platform {
        Platform::MacOs => macos_permission,
        Platform::Windows => "uses_ui_automation"@,
        Platform::Linux => "requires_selection_tools"@,
        Platform::Other => "unsupported_platform"@,
    }
}

/// The text-selection capability state on `platform`.
pub fn platform_selection_status(platform: Platform, macos_permission: &str) -> (r: String)
    ensures
        r@ == selection_status_text(platform, macos_permission@),
{
    match platform {
        Platform::MacOs => owned(macos_permission),
        Platform::Windows => owned("uses_ui_automation"),
        Platform::Linux => owned("requires_selection_tools"),
        Platform::Other => owned("unsupported_platform"),
    }
}

/// What the user can do to make text selection work on `platform`.
pub open spec fn selection_action_text(platform: Platform) -> Seq<char> {
    match platform {
        Platform::MacOs => "Grant Accessibility permission to SnapText in System Settings -> Privacy & Security -> Accessibility, then restart SnapText."@,
        Platform::Windows => "UI Automation is used for focused text controls; elevated apps may need SnapText to run with matching privileges."@,
        Platform::Linux => "Install wl-clipboard for Wayland or xclip/xsel for X11, and ensure the selected text is available in PRIMARY or CLIPBOARD."@,
        Platform::Other => "SnapText only targets macOS, Windows, and Linux desktops."@,
    }
}

/// What the user can do to make text selection work on `platform`.
pub fn platform_selection_action(platform: Platform) -> (r: String)
    ensures
        r@ == selection_action_text(platform),
{
    match platform {
        Platform::MacOs => owned(
            "Grant Accessibility permission to SnapText in System Settings -> Privacy & Security -> Accessibility, then restart SnapText.",
        ),
        Platform::Windows => owned(
            "UI Automation is used for focused text controls; elevated apps may need SnapText to run with matching privileges.",
        ),
        Platform::Linux => owned(
            "Install wl-clipboard for Wayland or xclip/xsel for X11, and ensure the selected text is available in PRIMARY or CLIPBOARD.",
        ),
        Platform::Other => owned("SnapText only targets macOS, Windows, and Linux desktops."),
    }
}

/// The names of the model files that are missing, in manifest order.
pub fn missing_model_files(present: &ModelFilePresence) -> (r: Vec<String>)
    ensures
        r@.map_values(|s: String| s@) == missing_labels(*present),
{
    let mut r: Vec<String> = Vec::new();
    if !present.det {
        r.push(owned(DET_MODEL_FILE));
    }
    if !present.cls {
        r.push(owned(CLS_MODEL_FILE));
    }
    if !present.rec {
        r.push(owned(REC_MODEL_FILE));
    }
    if !present.rec_dict {
        r.push(owned(REC_DICT_FILE));
    }
    assert(r@.map_values(|s: String| s@) =~= missing_labels(*present));
    r
}

/// The model status of `engine`: files missing, files present but the dictionary
/// unusable (an error), sessions failing to load with `load_error`, or ready.
/// `present` tells which model files exist, `dict_content` is the dictionary text, and
/// `load_error` is the text of the session-loading failure, if any.
pub fn validate_ocr_models(
    engine: &OcrEngine,
    present: &ModelFilePresence,
    dict_content: &str,
    load_error: Option<String>,
) -> (r: Result<OcrModelStatus, Error>)
    ensures
        missing_labels(*present).len() > 0 ==> (r matches Ok(s) && s.model_dir@ == engine.dir()
            && !s.valid && !s.loadable && s.recognition_dict_len == 0 && s.missing_files@.map_values(
            |x: String| x@,
        ) == missing_labels(*present) && s.message@
            == "OCR model directory is missing required files."@),
        missing_labels(*present).len() == 0 && dictionary_entries(dict_content@).len() == 0 ==> (
        r matches Err(e) && e@ == (ErrorKind::Ocr, "recognition dictionary is empty"@)),
        missing_labels(*present).len() == 0 && dictionary_entries(dict_content@).len() > 0 ==> (
        r matches Ok(s) && s.model_dir@ == engine.dir() && s.missing_files@.len() == 0
            && s.recognition_dict_len == dictionary_entries(dict_content@).len() && match load_error {
            Some(err) => !s.valid && !s.loadable && s.message@
                == "OCR model files exist, but ONNX sessions failed to load: "@ + err@,
            None => s.valid && s.loadable && s.message@
                == "OCR model files and ONNX sessions are ready."@,
        }),
{
    let missing_files = missing_model_files(present);
    if missing_files.len() > 0 {
        assert(missing_files@.map_values(|s: String| s@).len() == missing_files@.len());
        return Ok(
            OcrModelStatus {
                model_dir: owned(engine.model_dir()),
                valid: false,
                missing_files,
                recognition_dict_len: 0,
                loadable: false,
                message: owned("OCR model directory is missing required files."),
            },
        );
    }
    assert(missing_files@.map_values(|s: String| s@).len() == missing_files@.len());
    let assets = match engine.validate_assets(present, dict_content) {
        Ok(a) => a,
        Err(e) => {
            return Err(e);
        },
    };
    match load_error {
        Some(err) => {
            let mut message = owned("OCR model files exist, but ONNX sessions failed to load: ");
            push_str(&mut message, err.as_str());
            Ok(
                OcrModelStatus {
                    model_dir: owned(engine.model_dir()),
                    valid: false,
                    missing_files,
                    recognition_dict_len: assets.recognition_dict_len,
                    loadable: false,
                    message,
                },
            )
        },
        None => Ok(
            OcrModelStatus {
                model_dir: owned(engine.model_dir()),
                valid: true,
                missing_files,
                recognition_dict_len: assets.recognition_dict_len,
                loadable: true,
                message: owned("OCR model files and ONNX sessions are ready."),
            },
        ),
    }
}

/// The OCR capability state for a model check's outcome.
pub open spec fn ocr_status_text(valid: bool, loadable: bool, missing: nat, failed: bool) -> Seq<char> {
    if failed {
        "error"@
    } else if valid && loadable {
        "ready"@
    } else if missing > 0 {
        "missing_models"@
    } else {
        "unloadable_models"@
    }
}

/// The OCR capability state of a model check's outcome.
pub open spec fn ocr_capability_status_text(status: Result<OcrModelStatus, Error>) -> Seq<char> {
    match status {
        Ok(s) => ocr_status_text(s.valid, s.loadable, s.missing_files@.len(), false),
        Err(_) => ocr_status_text(false, false, 0, true),
    }
}

/// The OCR capability advice of a model check's outcome.
pub open spec fn ocr_capability_action_text(status: Result<OcrModelStatus, Error>) -> Seq<char> {
    match status {
        Ok(s) => if s.valid && s.loadable {
            "Local ONNX OCR is ready: "@ + s.message@
        } else if s.missing_files@.len() > 0 {
            "Install bundled OCR assets in "@ + s.model_dir@ + ": "@ + join(
                s.missing_files@.map_values(|x: String| x@),
                ", "@,
            )
        } else {
            s.message@
        },
        Err(e) => "Validate local OCR models failed: "@ + kind_prefix(e@.0) + e@.1,
    }
}

/// The OCR capability state: `ready`, `missing_models`, `unloadable_models` or `error`.
pub fn ocr_models_capability_status(status: &Result<OcrModelStatus, Error>) -> (r: String)
    ensures
        r@ == ocr_capability_status_text(*status),
{
    match status {
        Ok(s) => {
            if s.valid && s.loadable {
                owned("ready")
            } else if s.missing_files.len() > 0 {
                owned("missing_models")
            } else {
                owned("unloadable_models")
            }
        },
        Err(_) => owned("error"),
    }
}

/// The OCR capability advice for a model check's outcome.
pub fn ocr_models_capability_action(status: &Result<OcrModelStatus, Error>) -> (r: String)
    ensures
        r@ == ocr_capability_action_text(*status),
{
    match status {
        Ok(s) => {
            if s.valid && s.loadable {
                let mut r = owned("Local ONNX OCR is ready: ");
                push_str(&mut r, s.message.as_str());
                r
            } else if s.missing_files.len() > 0 {
                let mut r = owned("Install bundled OCR assets in ");
                push_str(&mut r, s.model_dir.as_str());
                push_str(&mut r, ": ");
                let joined = join_strings(&s.missing_files, ", ");
                push_str(&mut r, joined.as_str());
                r
            } else {
                owned(s.message.as_str())
            }
        },
        Err(e) => {
            let mut r = owned("Validate local OCR models failed: ");
            let m = e.message();
            push_str(&mut r, m.as_str());
            r
        },
    }
}

/// The strings of `parts` joined with `sep`; `[String]::join`.
pub fn join_strings(parts: &Vec<String>, sep: &str) -> (r: String)
    ensures
        r@ == join(parts@.map_values(|x: String| x@), sep@),
{
    let ghost all = parts@.map_values(|x: String| x@);
    let mut r = String::new();
    let mut k: usize = 0;
    while k < parts.len()
        invariant
            k <= parts@.len(),
            all == parts@.map_values(|x: String| x@),
            r@ == join(all.take(k as int), sep@),
        decreases parts.len() - k,
    {
        proof {
            assert(all.take(k + 1).drop_last() == all.take(k as int));
            assert(all.take(k + 1).last() == parts@[k as int]@);
        }
        if k > 0 {
            push_str(&mut r, sep);
        }
        push_str(&mut r, parts[k].as_str());
        proof {
            if k == 0 {
                assert(join(all.take(1), sep@) == all.take(1)[0]);
            }
        }
        k += 1;
    }
    assert(all.take(parts.len() as int) == all);
    r
}

/// The capability report: screenshots, text selection, global hotkeys and OCR models.
pub fn desktop_capabilities(
    platform: Platform,
    macos_permission: &str,
    ocr_status: &Result<OcrModelStatus, Error>,
) -> (r: Vec<DesktopCapabilityStatus>)
    ensures
        r@.len() == 4,
        r@[0].capability@ == "screenshot"@,
        r@[0].status@ == screenshot_status_text(platform),
        r@[0].action@ == screenshot_action_text(platform),
        r@[1].capability@ == "selection"@,
        r@[1].status@ == selection_status_text(platform, macos_permission@),
        r@[1].action@ == selection_action_text(platform),
        r@[2].capability@ == "global_hotkey"@,
        r@[2].status@ == "configured"@,
        r@[2].action@ == "Registered through the Tauri global shortcut plugin."@,
        r@[3].capability@ == "ocr_models"@,
        r@[3].status@ == ocr_capability_status_text(*ocr_status),
        r@[3].action@ == ocr_capability_action_text(*ocr_status),
{
    let mut r: Vec<DesktopCapabilityStatus> = Vec::new();
    r.push(
        DesktopCapabilityStatus {
            capability: owned("screenshot"),
            status: platform_screenshot_status(platform),
            action: platform_screenshot_action(platform),
        },
    );
    r.push(
        DesktopCapabilityStatus {
            capability: owned("selection"),
            status: platform_selection_status(platform, macos_permission),
            action: platform_selection_action(platform),
        },
    );
    r.push(
        DesktopCapabilityStatus {
            capability: owned("global_hotkey"),
            status: owned("configured"),
            action: owned("Registered through the Tauri global shortcut plugin."),
        },
    );
    r.push(
        DesktopCapabilityStatus {
            capability: owned("ocr_models"),
            status: ocr_models_capability_status(ocr_status),
            action: ocr_models_capability_action(ocr_status),
        },
    );
    r
}

} // verus!
