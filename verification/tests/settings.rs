use echo::settings::{
    plan_hotkey_change, startup_hotkey, transcription_model, HotkeyChange, Settings,
    DEFAULT_SILENCE_DURATION_BITS,
};

#[test]
fn default_settings() {
    let s = Settings::default();
    assert_eq!(s.hotkey, "ctrl+shift+r");
    assert_eq!(s.model, "large-v3-turbo");
    assert_eq!(f32::from_bits(s.silence_duration_bits), 3.0f32);
    assert!(s.auto_paste);
    assert_eq!(DEFAULT_SILENCE_DURATION_BITS, 3.0f32.to_bits());
}

#[test]
fn stored_settings_override_defaults() {
    let s = Settings::from_stored(
        Some("alt+space".to_string()),
        None,
        Some(1.5f32.to_bits()),
        Some(false),
    );
    assert_eq!(s.hotkey, "alt+space");
    assert_eq!(s.model, "large-v3-turbo");
    assert_eq!(f32::from_bits(s.silence_duration_bits), 1.5);
    assert!(!s.auto_paste);
    let d = Settings::from_stored(None, Some("small.en".to_string()), None, None);
    assert_eq!(d.hotkey, "ctrl+shift+r");
    assert_eq!(d.model, "small.en");
    assert_eq!(d.silence_duration_bits, 3.0f32.to_bits());
    assert!(d.auto_paste);
}

#[test]
fn startup_and_transcription_defaults() {
    assert_eq!(startup_hotkey(None), "ctrl+shift+r");
    assert_eq!(startup_hotkey(Some("f9".to_string())), "f9");
    assert_eq!(transcription_model(None), "base.en");
    assert_eq!(transcription_model(Some("medium.en".to_string())), "medium.en");
}

#[test]
fn hotkey_change_plans() {
    assert!(matches!(plan_hotkey_change("ctrl+shift+r", "ctrl+shift+r", false), Ok(HotkeyChange::Keep)));
    assert!(matches!(plan_hotkey_change("ctrl+shift+r", "alt+r", true), Ok(HotkeyChange::Replace)));
    match plan_hotkey_change("ctrl+shift+r", "nonsense", false) {
        Err(e) => assert_eq!(e, "Invalid hotkey format. Use format like: ctrl+shift+r"),
        Ok(_) => panic!("an invalid hotkey was accepted"),
    }
}
