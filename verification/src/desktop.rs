//! Decisions of the desktop shell: tray menu actions, where the OCR models are read
//! from, which shortcuts are registered and how their events are routed, and where the
//! result window is placed.
use vstd::prelude::*;

use crate::config::{AppConfig, ModelDir, ModelDirView};
use crate::error::{kind_prefix, Error, ErrorKind};
use crate::hotkey::HotkeyAction;
use crate::ocr::{join_path, path_joined};
use crate::text::{owned, push_str, str_eq, trim, trim_str};

verus! {

/// Tray menu item that shows the main window.
pub const TRAY_SHOW: &'static str = "show";

/// Tray menu item that hides the main window.
pub const TRAY_HIDE: &'static str = "hide";

/// Tray menu item that quits.
pub const TRAY_QUIT: &'static str = "quit";

/// How long after a selection shortcut another one is ignored, in milliseconds.
pub const SELECTION_HOTKEY_DEBOUNCE_MS: u64 = 800;

/// What a tray menu item does.
#[derive(Debug, Clone, Copy, PartialEq, Eq, Structural)]
pub enum TrayAction {
    Show,
    Hide,
    Quit,
}

/// The action of the tray menu item `id`, by exact id.
pub open spec fn tray_action(id: Seq<char>) -> Option<TrayAction> {
    if id == TRAY_SHOW@ {
        Some(TrayAction::Show)
    } else if id == TRAY_HIDE@ {
        Some(TrayAction::Hide)
    } else if id == TRAY_QUIT@ {
        Some(TrayAction::Quit)
    } else {
        None
    }
}

/// The action of the tray menu item `id`, or `None` for an unknown item.
pub fn tray_action_for_id(id: &str) -> (r: Option<TrayAction>)
    ensures
        r == tray_action(id@),
{
    if str_eq(id, TRAY_SHOW) {
        Some(TrayAction::Show)
    } else if str_eq(id, TRAY_HIDE) {
        Some(TrayAction::Hide)
    } else if str_eq(id, TRAY_QUIT) {
        Some(TrayAction::Quit)
    } else {
        None
    }
}

/// The model directory OCR reads: a custom path as configured, or `models` inside the
/// resource directory (in the working directory when there is none) for the bundled set.
pub open spec fn model_dir_for(model_dir: ModelDirView, resource_dir: Option<Seq<char>>) -> Seq<char> {
    match model_dir {
        ModelDirView::Custom(path) => path,
        ModelDirView::Bundled(_) => match resource_dir {
            Some(dir) => path_joined(dir, "models"@),
            None => "models"@,
        },
    }
}

/// The model directory OCR reads for `config`.
pub fn resolve_model_dir(config: &AppConfig, resource_dir: Option<&str>) -> (r: String)
    ensures
        r@ == model_dir_for(
            config.ocr.model_dir@,
            match resource_dir {
                Some(d) => Some(d@),
                None => None,
            },
        ),
{
    match &config.ocr.model_dir {
        ModelDir::Custom(path) => path.clone(),
        ModelDir::Bundled(_) => match resource_dir {
            Some(dir) => join_path(dir, "models"),
            None => owned("models"),
        },
    }
}

/// The shortcuts to register: each configured one, trimmed, with blank ones left out.
pub open spec fn configured_shortcuts(screenshot: Seq<char>, selection: Seq<char>) -> Seq<
    (HotkeyAction, Seq<char>),
> {
    let a = if trim(screenshot).len() == 0 {
        Seq::<(HotkeyAction, Seq<char>)>::empty()
    } else {
        seq![(HotkeyAction::Screenshot, trim(screenshot))]
    };
    if trim(selection).len() == 0 {
        a
    } else {
        a.push((HotkeyAction::Selection, trim(selection)))
    }
}

/// The shortcuts to register for `config`, screenshot first.
pub fn configured_hotkeys(config: &AppConfig) -> (r: Vec<(HotkeyAction, String)>)
    ensures
        r@.map_values(|p: (HotkeyAction, String)| (p.0, p.1@)) == configured_shortcuts(
            config.hotkeys.screenshot@,
            config.hotkeys.selection@,
        ),
{
    let mut r: Vec<(HotkeyAction, String)> = Vec::new();
    let screenshot = trim_str(config.hotkeys.screenshot.as_str());
    if !screenshot.as_str().is_empty() {
        r.push((HotkeyAction::Screenshot, screenshot));
    }
    let selection = trim_str(config.hotkeys.selection.as_str());
    if !selection.as_str().is_empty() {
        r.push((HotkeyAction::Selection, selection));
    }
    assert(r@.map_values(|p: (HotkeyAction, String)| (p.0, p.1@)) =~= configured_shortcuts(
        config.hotkeys.screenshot@,
        config.hotkeys.selection@,
    ));
    r
}

/// Routes from shortcut event ids to actions; no id occurs twice.
#[derive(Debug)]
pub struct HotkeyRoutes {
    routes: Vec<(u32, HotkeyAction)>,
}

/// No event id occurs twice in `routes`.
pub open spec fn distinct_ids(routes: Seq<(u32, HotkeyAction)>) -> bool {
    forall|i: int, j: int| 0 <= i < j < routes.len() ==> (#[trigger] routes[i]).0 != (
    #[trigger] routes[j]).0
}

/// The action routed from event id `id`.
pub open spec fn routed_action(routes: Seq<(u32, HotkeyAction)>, id: u32) -> Option<HotkeyAction> {
    if exists|i: int| 0 <= i < routes.len() && routes[i].0 == id {
        Some(routes[choose|i: int| 0 <= i < routes.len() && routes[i].0 == id].1)
    } else {
        None
    }
}

impl HotkeyRoutes {
    /// The routes, as event id and action pairs.
    pub closed spec fn entries(&self) -> Seq<(u32, HotkeyAction)> {
        self.routes@
    }

    #[verifier::type_invariant]
    spec fn ids_distinct(self) -> bool {
        distinct_ids(self.routes@)
    }

    /// No routes.
    pub fn empty() -> (r: HotkeyRoutes)
        ensures
            r.entries().len() == 0,
    {
        HotkeyRoutes { routes: Vec::new() }
    }

    /// Routes for the registered shortcuts, given each one's event id in order; two
    /// shortcuts with the same id are an error.
    pub fn from_ids(ids: &Vec<(HotkeyAction, u32)>) -> (r: Result<HotkeyRoutes, Error>)
        ensures
            distinct_ids(ids@.map_values(|p: (HotkeyAction, u32)| (p.1, p.0))) ==> (r matches Ok(
                routes,
            ) && routes.entries() == ids@.map_values(|p: (HotkeyAction, u32)| (p.1, p.0))),
            !distinct_ids(ids@.map_values(|p: (HotkeyAction, u32)| (p.1, p.0))) ==> (r matches Err(
                e,
            ) && e@ == (ErrorKind::Config, "screenshot and selection hotkeys must be different"@)),
    {
        let ghost flipped = ids@.map_values(|p: (HotkeyAction, u32)| (p.1, p.0));
        let mut routes: Vec<(u32, HotkeyAction)> = Vec::new();
        let mut k: usize = 0;
        while k < ids.len()
            invariant
                k <= ids@.len(),
                flipped == ids@.map_values(|p: (HotkeyAction, u32)| (p.1, p.0)),
                routes@ == flipped.take(k as int),
                distinct_ids(routes@),
            decreases ids.len() - k,
        {
            let (action, id) = ids[k];
            let mut j: usize = 0;
            while j < routes.len()
                invariant
                    j <= routes@.len(),
                    routes@.len() == k,
                    k < ids@.len(),
                    flipped == ids@.map_values(|p: (HotkeyAction, u32)| (p.1, p.0)),
                    routes@ == flipped.take(k as int),
                    id == ids@[k as int].1,
                    forall|i: int| 0 <= i < j ==> (#[trigger] routes@[i]).0 != id,
                decreases routes.len() - j,
            {
                if routes[j].0 == id {
                    assert(flipped[j as int].0 == flipped[k as int].0);
                    assert(!distinct_ids(flipped)) by {
                        assert(j < k);
                        assert((flipped[j as int]).0 == (flipped[k as int]).0);
                    }
                    return Err(Error::from_str(
                        ErrorKind::Config,
                        "screenshot and selection hotkeys must be different",
                    ));
                }
                j += 1;
            }
            routes.push((id, action));
            assert(routes@ =~= flipped.take(k + 1));
            k += 1;
        }
        assert(flipped.take(ids@.len() as int) =~= flipped);
        Ok(HotkeyRoutes { routes })
    }

    /// The action for a shortcut event id, or `None` for an id that is not routed.
    pub fn action_for_event_id(&self, id: u32) -> (r: Option<HotkeyAction>)
        ensures
            r == routed_action(self.entries(), id),
    {
        proof {
            use_type_invariant(self);
        }
        let mut k: usize = 0;
        while k < self.routes.len()
            invariant
                k <= self.routes@.len(),
                distinct_ids(self.routes@),
                forall|i: int| 0 <= i < k ==> (#[trigger] self.routes@[i]).0 != id,
            decreases self.routes.len() - k,
        {
            if self.routes[k].0 == id {
                let ghost ch = choose|i: int| 0 <= i < self.routes@.len() && self.routes@[i].0 == id;
                assert(ch == k as int) by {
                    if ch != k as int {
                        assert(distinct_ids(self.routes@));
                        if ch < k {
                            assert(self.routes@[ch].0 != id);
                        } else {
                            assert((self.routes@[k as int]).0 != (self.routes@[ch]).0);
                        }
                    }
                }
                return Some(self.routes[k].1);
            }
            k += 1;
        }
        None
    }
}

/// Whether a selection shortcut comes too soon after the last one, given the
/// milliseconds since it (`None` when there was none).
pub fn should_ignore_selection_hotkey(since_last_ms: Option<u128>) -> (b: bool)
    ensures
        b == (since_last_ms matches Some(ms) && ms < SELECTION_HOTKEY_DEBOUNCE_MS),
{
    match since_last_ms {
        Some(ms) => ms < SELECTION_HOTKEY_DEBOUNCE_MS as u128,
        None => false,
    }
}

/// Which step of a shortcut refresh failed.
#[derive(Debug, Clone, Copy, PartialEq, Eq, Structural)]
pub enum RefreshStep {
    Register,
    UpdateRoutes,
}

/// The error a failed shortcut refresh reports: the step's error, or, when restoring the
/// previous shortcuts failed too, both errors in one configuration error.
pub open spec fn refresh_failure(
    step: RefreshStep,
    error: (ErrorKind, Seq<char>),
    restore_error: Option<(ErrorKind, Seq<char>)>,
) -> (ErrorKind, Seq<char>) {
    match restore_error {
        None => match step {
            RefreshStep::Register => (ErrorKind::Config, kind_prefix(error.0) + error.1),
            RefreshStep::UpdateRoutes => error,
        },
        Some(re) => (
            ErrorKind::Config,
            match step {
                RefreshStep::Register => "failed to register shortcut: "@,
                RefreshStep::UpdateRoutes => "failed to update shortcut routes: "@,
            } + kind_prefix(error.0) + error.1 + "; failed to restore previous shortcuts: "@
                + kind_prefix(re.0) + re.1,
        ),
    }
}

/// The error of a failed shortcut refresh.
pub fn shortcut_refresh_error(step: RefreshStep, error: Error, restore_error: Option<Error>) -> (r:
    Error)
    ensures
        r@ == refresh_failure(
            step,
            error@,
            match restore_error {
                Some(e) => Some(e@),
                None => None,
            },
        ),
{
    match restore_error {
        None => match step {
            RefreshStep::Register => Error::new(ErrorKind::Config, error.message()),
            RefreshStep::UpdateRoutes => error,
        },
        Some(re) => {
            let mut m = match step {
                RefreshStep::Register => owned("failed to register shortcut: "),
                RefreshStep::UpdateRoutes => owned("failed to update shortcut routes: "),
            };
            let first = error.message();
            push_str(&mut m, first.as_str());
            push_str(&mut m, "; failed to restore previous shortcuts: ");
            let second = re.message();
            push_str(&mut m, second.as_str());
            Error::new(ErrorKind::Config, m)
        },
    }
}

/// The routes after a failed refresh: the previous configuration's routes when the
/// native shortcuts were restored and those routes could be built, else `current`.
pub fn routes_after_failed_refresh(
    current: HotkeyRoutes,
    native_restore_succeeded: bool,
    previous: Option<Result<HotkeyRoutes, Error>>,
) -> (r: HotkeyRoutes)
    ensures
        native_restore_succeeded ==> (previous matches Some(Ok(p)) ==> r.entries() == p.entries()),
        native_restore_succeeded ==> (!(previous matches Some(Ok(_))) ==> r.entries()
            == current.entries()),
        !native_restore_succeeded ==> r.entries() == current.entries(),
{
    if !native_restore_succeeded {
        return current;
    }
    match previous {
        Some(Ok(p)) => p,
        _ => current,
    }
}

/// Where the result window goes next to the cursor at (`x`, `y`): 18 pixels right and
/// below.
pub fn cursor_anchor(x: i32, y: i32) -> (r: (i32, i32))
    requires
        x + 18 <= i32::MAX,
        y + 18 <= i32::MAX,
    ensures
        r.0 == x + 18,
        r.1 == y + 18,
{
    (x + 18, y + 18)
}

/// Half of `d`, rounded toward zero as integer division does.
pub open spec fn half_toward_zero(d: int) -> int {
    if d >= 0 {
        d / 2
    } else {
        -((-d) / 2)
    }
}

/// The top-left corner that centres a `result_width` × `result_height` window over a
/// `main_width` × `main_height` window at (`main_x`, `main_y`).
pub fn centered_anchor(
    main_x: i32,
    main_y: i32,
    main_width: u32,
    main_height: u32,
    result_width: u32,
    result_height: u32,
) -> (r: (i32, i32))
    requires
        main_width <= i32::MAX,
        main_height <= i32::MAX,
        result_width <= i32::MAX,
        result_height <= i32::MAX,
        i32::MIN <= main_x + half_toward_zero(main_width - result_width) <= i32::MAX,
        i32::MIN <= main_y + half_toward_zero(main_height - result_height) <= i32::MAX,
    ensures
        r.0 == main_x + half_toward_zero(main_width - result_width),
        r.1 == main_y + half_toward_zero(main_height - result_height),
{
    let dx = half_i32(main_width as i32 - result_width as i32);
    let dy = half_i32(main_height as i32 - result_height as i32);
    (main_x + dx, main_y + dy)
}

/// Half of `d`, rounded toward zero.
fn half_i32(d: i32) -> (r: i32)
    requires
        d > i32::MIN,
    ensures
        r == half_toward_zero(d as int),
{
    if d >= 0 {
        d / 2
    } else {
        let m = -d;
        -(m / 2)
    }
}

/// `v` limited to `[lo, hi]` for `lo <= hi`.
pub open spec fn clamp_int(v: int, lo: int, hi: int) -> int {
    if v < lo {
        lo
    } else if v > hi {
        hi
    } else {
        v
    }
}

/// A size as an `i32`, saturated at `i32::MAX`.
pub open spec fn sat_i32(v: u32) -> int {
    if v > i32::MAX {
        i32::MAX as int
    } else {
        v as int
    }
}

/// The highest coordinate a window of extent `size` may start at in an area starting at
/// `start` with extent `area`, never below `start`.
pub open spec fn max_start(start: int, area: u32, size: u32) -> int {
    if start + sat_i32(area) - sat_i32(size) < start {
        start
    } else {
        start + sat_i32(area) - sat_i32(size)
    }
}

/// Moves a `width` × `height` window at (`x`, `y`) inside the work area at
/// (`area_x`, `area_y`) of `area_width` × `area_height`; a window larger than the area
/// keeps its left or top edge on the area's.
pub fn clamp_to_work_area(
    x: i32,
    y: i32,
    width: u32,
    height: u32,
    area_x: i32,
    area_y: i32,
    area_width: u32,
    area_height: u32,
) -> (r: (i32, i32))
    requires
        area_x + sat_i32(area_width) <= i32::MAX,
        area_y + sat_i32(area_height) <= i32::MAX,
        i32::MIN <= area_x + sat_i32(area_width) - sat_i32(width),
        i32::MIN <= area_y + sat_i32(area_height) - sat_i32(height),
    ensures
        r.0 == clamp_int(x as int, area_x as int, max_start(area_x as int, area_width, width)),
        r.1 == clamp_int(y as int, area_y as int, max_start(area_y as int, area_height, height)),
{
    let w = saturate_i32(width);
    let h = saturate_i32(height);
    let aw = saturate_i32(area_width);
    let ah = saturate_i32(area_height);
    let max_x_raw = area_x + aw - w;
    let max_x = if max_x_raw < area_x {
        area_x
    } else {
        max_x_raw
    };
    let max_y_raw = area_y + ah - h;
    let max_y = if max_y_raw < area_y {
        area_y
    } else {
        max_y_raw
    };
    let cx = if x < area_x {
        area_x
    } else if x > max_x {
        max_x
    } else {
        x
    };
    let cy = if y < area_y {
        area_y
    } else if y > max_y {
        max_y
    } else {
        y
    };
    (cx, cy)
}

/// `v` as an `i32`, saturated at `i32::MAX`.
fn saturate_i32(v: u32) -> (r: i32)
    ensures
        r == sat_i32(v),
{
    if v > i32::MAX as u32 {
        i32::MAX
    } else {
        v as i32
    }
}

} // verus!
