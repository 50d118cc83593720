use snaptext::hotkey::{should_dispatch_hotkey, validate_hotkey_conflicts, HotkeyAction};

#[test]
fn screenshot_dispatches_only_when_pressed() {
    assert!(should_dispatch_hotkey(HotkeyAction::Screenshot, true, true));
    assert!(!should_dispatch_hotkey(HotkeyAction::Screenshot, false, true));
}

#[test]
fn windows_selection_dispatches_only_when_released() {
    assert!(!should_dispatch_hotkey(HotkeyAction::Selection, true, true));
    assert!(should_dispatch_hotkey(HotkeyAction::Selection, false, true));
}

#[test]
fn non_windows_selection_dispatches_only_when_pressed() {
    assert!(should_dispatch_hotkey(HotkeyAction::Selection, true, false));
    assert!(!should_dispatch_hotkey(HotkeyAction::Selection, false, false));
}

#[test]
fn each_shortcut_cycle_dispatches_once() {
    for action in [HotkeyAction::Screenshot, HotkeyAction::Selection] {
        for windows in [true, false] {
            assert_ne!(
                should_dispatch_hotkey(action, true, windows),
                should_dispatch_hotkey(action, false, windows)
            );
        }
    }
}

#[test]
fn hotkey_conflicts_do_not_depend_on_order() {
    assert!(validate_hotkey_conflicts("Alt+W", " alt+w ").is_err());
    assert!(validate_hotkey_conflicts(" alt+w ", "Alt+W").is_err());
    assert!(validate_hotkey_conflicts("Alt+W", "Alt+E").is_ok());
}
