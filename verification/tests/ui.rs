use echo::ui::{menu_action, paste_outcome, ptt_event, tray_click_shows_main, KeyPhase, MenuAction};

#[test]
fn hotkey_phases_become_events() {
    assert_eq!(ptt_event(KeyPhase::Pressed), "ptt-pressed");
    assert_eq!(ptt_event(KeyPhase::Released), "ptt-released");
}

#[test]
fn tray_menu_items() {
    assert!(matches!(menu_action("show"), MenuAction::ShowMain));
    assert!(matches!(menu_action("quit"), MenuAction::Quit));
    assert!(matches!(menu_action("other"), MenuAction::Ignore));
    assert!(matches!(menu_action(""), MenuAction::Ignore));
}

#[test]
fn tray_left_release_shows_window() {
    assert!(tray_click_shows_main(true, true));
    assert!(!tray_click_shows_main(true, false));
    assert!(!tray_click_shows_main(false, true));
}

#[test]
fn paste_outcomes() {
    assert_eq!(paste_outcome(true), "pasted");
    assert_eq!(paste_outcome(false), "copied");
}
