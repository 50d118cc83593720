//! Global shortcut grammar: which accelerator strings the configuration accepts,
//! and on which key edge each configured action fires.
use vstd::prelude::*;

use crate::error::{Error, ErrorKind};
use crate::text::{
    chars_of, eq_ignore_case, eq_ignore_case_str, is_ascii_alnum, owned, push_str, split, split_chars,
    string_of_chars, trim, trim_chars, trim_str,
};

verus! {

/// What a global shortcut starts.
#[derive(Debug, Clone, Copy, PartialEq, Eq, Structural)]
pub enum HotkeyAction {
    Screenshot,
    Selection,
}

/// A shortcut modifier after folding its spellings together.
#[derive(Debug, Clone, Copy, PartialEq, Eq, Structural)]
pub enum HotkeyModifier {
    CmdOrCtrl,
    Cmd,
    Ctrl,
    Shift,
    Alt,
}

/// The modifier that a shortcut segment names, compared without ASCII case.
pub open spec fn modifier_of(v: Seq<char>) -> Option<HotkeyModifier> {
    if eq_ignore_case(v, "cmdorctrl"@) || eq_ignore_case(v, "commandorcontrol"@) || eq_ignore_case(
        v,
        "super"@,
    ) || eq_ignore_case(v, "meta"@) {
        Some(HotkeyModifier::CmdOrCtrl)
    } else if eq_ignore_case(v, "cmd"@) || eq_ignore_case(v, "command"@) {
        Some(HotkeyModifier::Cmd)
    } else if eq_ignore_case(v, "ctrl"@) || eq_ignore_case(v, "control"@) {
        Some(HotkeyModifier::Ctrl)
    } else if eq_ignore_case(v, "shift"@) {
        Some(HotkeyModifier::Shift)
    } else if eq_ignore_case(v, "alt"@) || eq_ignore_case(v, "option"@) {
        Some(HotkeyModifier::Alt)
    } else {
        None
    }
}

/// The named (multi-character) keys a shortcut may end with.
pub open spec fn named_key(k: Seq<char>) -> bool {
    ||| eq_ignore_case(k, "space"@)
    ||| eq_ignore_case(k, "enter"@)
    ||| eq_ignore_case(k, "return"@)
    ||| eq_ignore_case(k, "tab"@)
    ||| eq_ignore_case(k, "escape"@)
    ||| eq_ignore_case(k, "esc"@)
    ||| eq_ignore_case(k, "backspace"@)
    ||| eq_ignore_case(k, "delete"@)
    ||| eq_ignore_case(k, "insert"@)
    ||| eq_ignore_case(k, "home"@)
    ||| eq_ignore_case(k, "end"@)
    ||| eq_ignore_case(k, "pageup"@)
    ||| eq_ignore_case(k, "pagedown"@)
    ||| eq_ignore_case(k, "up"@)
    ||| eq_ignore_case(k, "down"@)
    ||| eq_ignore_case(k, "left"@)
    ||| eq_ignore_case(k, "right"@)
    ||| eq_ignore_case(k, "f1"@)
    ||| eq_ignore_case(k, "f2"@)
    ||| eq_ignore_case(k, "f3"@)
    ||| eq_ignore_case(k, "f4"@)
    ||| eq_ignore_case(k, "f5"@)
    ||| eq_ignore_case(k, "f6"@)
    ||| eq_ignore_case(k, "f7"@)
    ||| eq_ignore_case(k, "f8"@)
    ||| eq_ignore_case(k, "f9"@)
    ||| eq_ignore_case(k, "f10"@)
    ||| eq_ignore_case(k, "f11"@)
    ||| eq_ignore_case(k, "f12"@)
}

/// A key a shortcut may end with: one ASCII letter or digit, or a named key.
pub open spec fn supported_key(v: Seq<char>) -> bool {
    let k = trim(v);
    if k.len() == 1 {
        is_ascii_alnum(k[0])
    } else {
        named_key(k)
    }
}

/// The trimmed `+`-separated segments of a trimmed shortcut.
pub open spec fn hotkey_parts(value: Seq<char>) -> Seq<Seq<char>> {
    split(trim(value), '+').map_values(|p: Seq<char>| trim(p))
}

/// The first problem among the modifiers `mods[i..]`, given the folded modifiers `seen` before them.
pub open spec fn modifiers_problem(
    name: Seq<char>,
    mods: Seq<Seq<char>>,
    i: int,
    seen: Seq<HotkeyModifier>,
) -> Option<Seq<char>>
    decreases mods.len() - i,
{
    if i < 0 || i >= mods.len() {
        None
    } else {
        match modifier_of(mods[i]) {
            None => Some(name + " hotkey modifier `"@ + mods[i] + "` is not supported"@),
            Some(m) => if seen.contains(m) {
                Some(name + " hotkey modifier `"@ + mods[i] + "` is duplicated"@)
            } else {
                modifiers_problem(name, mods, i + 1, seen.push(m))
            },
        }
    }
}

/// What is wrong with the shortcut `value` of the `name` action, or `None` when it is accepted.
pub open spec fn hotkey_problem(name: Seq<char>, value: Seq<char>) -> Option<Seq<char>> {
    let parts = hotkey_parts(value);
    if trim(value).len() == 0 {
        Some(name + " hotkey cannot be empty"@)
    } else if exists|i: int| 0 <= i < parts.len() && (#[trigger] parts[i]).len() == 0 {
        Some(name + " hotkey contains an empty key segment"@)
    } else if parts.len() < 2 {
        Some(name + " hotkey must include at least one modifier and one key"@)
    } else if modifier_of(parts.last()) is Some {
        Some(name + " hotkey must end with a non-modifier key"@)
    } else if !supported_key(parts.last()) {
        Some(name + " hotkey key `"@ + parts.last() + "` is not supported"@)
    } else {
        modifiers_problem(name, parts.drop_last(), 0, Seq::empty())
    }
}

/// Folds the spellings of a shortcut modifier; `None` for anything else.
pub fn normalize_hotkey_modifier(value: &str) -> (r: Option<HotkeyModifier>)
    ensures
        r == modifier_of(value@),
{
    if eq_ignore_case_str(value, "cmdorctrl") || eq_ignore_case_str(value, "commandorcontrol")
        || eq_ignore_case_str(value, "super") || eq_ignore_case_str(value, "meta") {
        Some(HotkeyModifier::CmdOrCtrl)
    } else if eq_ignore_case_str(value, "cmd") || eq_ignore_case_str(value, "command") {
        Some(HotkeyModifier::Cmd)
    } else if eq_ignore_case_str(value, "ctrl") || eq_ignore_case_str(value, "control") {
        Some(HotkeyModifier::Ctrl)
    } else if eq_ignore_case_str(value, "shift") {
        Some(HotkeyModifier::Shift)
    } else if eq_ignore_case_str(value, "alt") || eq_ignore_case_str(value, "option") {
        Some(HotkeyModifier::Alt)
    } else {
        None
    }
}

/// Whether `value` names a shortcut modifier.
pub fn is_hotkey_modifier(value: &str) -> (b: bool)
    ensures
        b == modifier_of(value@) is Some,
{
    normalize_hotkey_modifier(value).is_some()
}

/// Whether a trimmed, multi-character key is one of the named keys.
fn is_named_key(k: &str) -> (b: bool)
    ensures
        b == named_key(k@),
{
    eq_ignore_case_str(k, "space") || eq_ignore_case_str(k, "enter") || eq_ignore_case_str(
        k,
        "return",
    ) || eq_ignore_case_str(k, "tab") || eq_ignore_case_str(k, "escape") || eq_ignore_case_str(
        k,
        "esc",
    ) || eq_ignore_case_str(k, "backspace") || eq_ignore_case_str(k, "delete")
        || eq_ignore_case_str(k, "insert") || eq_ignore_case_str(k, "home") || eq_ignore_case_str(
        k,
        "end",
    ) || eq_ignore_case_str(k, "pageup") || eq_ignore_case_str(k, "pagedown")
        || eq_ignore_case_str(k, "up") || eq_ignore_case_str(k, "down") || eq_ignore_case_str(
        k,
        "left",
    ) || eq_ignore_case_str(k, "right") || eq_ignore_case_str(k, "f1") || eq_ignore_case_str(
        k,
        "f2",
    ) || eq_ignore_case_str(k, "f3") || eq_ignore_case_str(k, "f4") || eq_ignore_case_str(k, "f5")
        || eq_ignore_case_str(k, "f6") || eq_ignore_case_str(k, "f7") || eq_ignore_case_str(k, "f8")
        || eq_ignore_case_str(k, "f9") || eq_ignore_case_str(k, "f10") || eq_ignore_case_str(
        k,
        "f11",
    ) || eq_ignore_case_str(k, "f12")
}

/// Whether a shortcut may end with `value`.
pub fn is_supported_hotkey_key(value: &str) -> (b: bool)
    ensures
        b == supported_key(value@),
{
    let k = trim_chars(&chars_of(value));
    if k.len() == 1 {
        let c = k[0];
        ('0' <= c && c <= '9') || ('a' <= c && c <= 'z') || ('A' <= c && c <= 'Z')
    } else {
        let ks = string_of_chars(&k);
        is_named_key(ks.as_str())
    }
}

/// The text `name` followed by `tail`.
fn message2(name: &str, tail: &str) -> (s: String)
    ensures
        s@ == name@ + tail@,
{
    let mut s = owned(name);
    push_str(&mut s, tail);
    s
}

/// The text `name` followed by `middle` and `tail`.
fn message3(name: &str, middle: &str, tail: &str) -> (s: String)
    ensures
        s@ == name@ + middle@ + tail@,
{
    let mut s = owned(name);
    push_str(&mut s, middle);
    push_str(&mut s, tail);
    s
}

/// Checks one configured shortcut, reporting the first problem the grammar finds.
pub fn validate_hotkey(name: &str, value: &str) -> (r: Result<(), Error>)
    ensures
        match r {
            Ok(()) => hotkey_problem(name@, value@) is None,
            Err(e) => e@.0 == ErrorKind::Config && hotkey_problem(name@, value@) == Some(e@.1),
        },
{
    let trimmed = trim_chars(&chars_of(value));
    if trimmed.len() == 0 {
        return Err(Error::new(ErrorKind::Config, message2(name, " hotkey cannot be empty")));
    }
    let raw = split_chars(&trimmed, '+');
    let ghost spec_parts = hotkey_parts(value@);
    let mut parts: Vec<Vec<char>> = Vec::new();
    let mut any_empty = false;
    let mut k: usize = 0;
    while k < raw.len()
        invariant
            k <= raw.len(),
            trimmed@ == trim(value@),
            raw@.len() == split(trimmed@, '+').len(),
            forall|i: int| 0 <= i < raw@.len() ==> (#[trigger] raw@[i])@ == split(trimmed@, '+')[i],
            spec_parts == hotkey_parts(value@),
            spec_parts.len() == raw@.len(),
            parts@.len() == k,
            forall|i: int| 0 <= i < k ==> (#[trigger] parts@[i])@ == spec_parts[i],
            any_empty == exists|i: int| 0 <= i < k && (#[trigger] spec_parts[i]).len() == 0,
        decreases raw.len() - k,
    {
        let p = trim_chars(&raw[k]);
        assert(p@ == spec_parts[k as int]);
        if p.len() == 0 {
            any_empty = true;
        }
        parts.push(p);
        k += 1;
    }
    if any_empty {
        return Err(
            Error::new(ErrorKind::Config, message2(name, " hotkey contains an empty key segment")),
        );
    }
    if parts.len() < 2 {
        return Err(
            Error::new(
                ErrorKind::Config,
                message2(name, " hotkey must include at least one modifier and one key"),
            ),
        );
    }
    let last = parts.len() - 1;
    let key = string_of_chars(&parts[last]);
    assert(key@ == spec_parts.last());
    if is_hotkey_modifier(key.as_str()) {
        return Err(
            Error::new(ErrorKind::Config, message2(name, " hotkey must end with a non-modifier key")),
        );
    }
    if !is_supported_hotkey_key(key.as_str()) {
        let mut m = message3(name, " hotkey key `", key.as_str());
        push_str(&mut m, "` is not supported");
        return Err(Error::new(ErrorKind::Config, m));
    }
    let ghost mods = spec_parts.drop_last();
    assert(hotkey_problem(name@, value@) == modifiers_problem(name@, mods, 0, Seq::empty()));
    let mut seen: Vec<HotkeyModifier> = Vec::new();
    let mut i: usize = 0;
    while i < last
        invariant
            last == parts@.len() - 1,
            i <= last,
            mods == spec_parts.drop_last(),
            hotkey_problem(name@, value@) == modifiers_problem(name@, mods, 0, Seq::empty()),
            spec_parts.len() == parts@.len(),
            forall|j: int| 0 <= j < parts@.len() ==> (#[trigger] parts@[j])@ == spec_parts[j],
            modifiers_problem(name@, mods, 0, Seq::empty()) == modifiers_problem(
                name@,
                mods,
                i as int,
                seen@,
            ),
        decreases last - i,
    {
        let modifier = string_of_chars(&parts[i]);
        assert(modifier@ == mods[i as int]);
        match normalize_hotkey_modifier(modifier.as_str()) {
            None => {
                let mut m = message3(name, " hotkey modifier `", modifier.as_str());
                push_str(&mut m, "` is not supported");
                return Err(Error::new(ErrorKind::Config, m));
            },
            Some(normalized) => {
                if contains_modifier(&seen, normalized) {
                    let mut m = message3(name, " hotkey modifier `", modifier.as_str());
                    push_str(&mut m, "` is duplicated");
                    return Err(Error::new(ErrorKind::Config, m));
                }
                seen.push(normalized);
            },
        }
        i += 1;
    }
    Ok(())
}

/// Whether `m` occurs in `seen`.
fn contains_modifier(seen: &Vec<HotkeyModifier>, m: HotkeyModifier) -> (b: bool)
    ensures
        b == seen@.contains(m),
{
    let mut k: usize = 0;
    while k < seen.len()
        invariant
            k <= seen.len(),
            forall|j: int| 0 <= j < k ==> seen@[j] != m,
        decreases seen.len() - k,
    {
        if seen[k] == m {
            assert(seen@[k as int] == m);
            return true;
        }
        k += 1;
    }
    false
}

/// The two configured shortcuts clash when they agree after trimming, ignoring ASCII case.
pub open spec fn hotkeys_conflict(screenshot: Seq<char>, selection: Seq<char>) -> bool {
    eq_ignore_case(trim(screenshot), trim(selection))
}

/// Rejects a configuration whose two shortcuts are the same key combination text.
pub fn validate_hotkey_conflicts(screenshot: &str, selection: &str) -> (r: Result<(), Error>)
    ensures
        match r {
            Ok(()) => !hotkeys_conflict(screenshot@, selection@),
            Err(e) => hotkeys_conflict(screenshot@, selection@) && e@ == (
                ErrorKind::Config,
                "screenshot and selection hotkeys must be different"@,
            ),
        },
{
    let a = trim_str(screenshot);
    let b = trim_str(selection);
    if eq_ignore_case_str(a.as_str(), b.as_str()) {
        Err(Error::from_str(ErrorKind::Config, "screenshot and selection hotkeys must be different"))
    } else {
        Ok(())
    }
}

/// On which shortcut edge an action starts: screenshots on press; selections on press,
/// or on release where Windows needs the modifiers up first.
pub open spec fn dispatches(action: HotkeyAction, pressed: bool, release_windows_selection: bool) -> bool {
    match action {
        HotkeyAction::Screenshot => pressed,
        HotkeyAction::Selection => if release_windows_selection {
            !pressed
        } else {
            pressed
        },
    }
}

/// Decides which native shortcut edge starts an action.
pub fn should_dispatch_hotkey(
    action: HotkeyAction,
    shortcut_pressed: bool,
    release_windows_selection: bool,
) -> (b: bool)
    ensures
        b == dispatches(action, shortcut_pressed, release_windows_selection),
{
    match action {
        HotkeyAction::Screenshot => shortcut_pressed,
        HotkeyAction::Selection => if release_windows_selection {
            !shortcut_pressed
        } else {
            shortcut_pressed
        },
    }
}

} // verus!
