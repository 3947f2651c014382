//! User settings: their defaults, reading them back from storage, and what a
//! change of hotkey asks for.

use vstd::prelude::*;
use crate::text::same_text;

verus! {

/// Hotkey used when none is stored.
pub const DEFAULT_HOTKEY: &'static str = "ctrl+shift+r";

/// Model chosen in the settings when none is stored.
pub const DEFAULT_MODEL: &'static str = "large-v3-turbo";

/// Model used for transcription when the settings name none.
pub const DEFAULT_TRANSCRIPTION_MODEL: &'static str = "base.en";

/// IEEE-754 bits of the default silence duration, 3.0 seconds.
pub const DEFAULT_SILENCE_DURATION_BITS: u32 = 0x4040_0000;

/// Message for a hotkey that does not parse.
pub const INVALID_HOTKEY: &'static str = "Invalid hotkey format. Use format like: ctrl+shift+r";

/// The user's settings.
pub struct Settings {
    /// The push-to-talk hotkey, such as `ctrl+shift+r`.
    pub hotkey: String,
    /// Id of the whisper model to use.
    pub model: String,
    /// IEEE-754 bits of the silence duration in seconds (an `f32`).
    pub silence_duration_bits: u32,
    /// Whether the transcript is pasted at the cursor.
    pub auto_paste: bool,
}

/// The settings as plain values.
pub struct SettingsView {
    pub hotkey: Seq<char>,
    pub model: Seq<char>,
    pub silence_duration_bits: u32,
    pub auto_paste: bool,
}

impl View for Settings {
    type V = SettingsView;

    open spec fn view(&self) -> SettingsView {
        SettingsView {
            hotkey: self.hotkey@,
            model: self.model@,
            silence_duration_bits: self.silence_duration_bits,
            auto_paste: self.auto_paste,
        }
    }
}

/// The default settings.
pub open spec fn default_settings() -> SettingsView {
    SettingsView {
        hotkey: DEFAULT_HOTKEY@,
        model: DEFAULT_MODEL@,
        silence_duration_bits: DEFAULT_SILENCE_DURATION_BITS,
        auto_paste: true,
    }
}

/// A stored value, or `default` when none is stored.
pub open spec fn stored_or<T>(stored: Option<T>, default: T) -> T {
    match stored {
        Some(v) => v,
        None => default,
    }
}

/// A stored text, or `default` when none is stored.
pub open spec fn stored_text(stored: Option<String>, default: Seq<char>) -> Seq<char> {
    stored_or(text_view(stored), default)
}

/// The characters of an optional text.
pub open spec fn text_view(t: Option<String>) -> Option<Seq<char>> {
    match t {
        Some(v) => Some(v@),
        None => None,
    }
}

/// The settings read back from stored values: each one that is there, else
/// its default.
pub open spec fn stored_settings(
    hotkey: Option<Seq<char>>,
    model: Option<Seq<char>>,
    silence_duration_bits: Option<u32>,
    auto_paste: Option<bool>,
) -> SettingsView {
    SettingsView {
        hotkey: stored_or(hotkey, DEFAULT_HOTKEY@),
        model: stored_or(model, DEFAULT_MODEL@),
        silence_duration_bits: stored_or(silence_duration_bits, DEFAULT_SILENCE_DURATION_BITS),
        auto_paste: stored_or(auto_paste, true),
    }
}

/// Settings read back from a store that holds all of them are the settings
/// that were stored; from a store that holds none, they are the defaults.
pub proof fn lemma_settings_round_trip(s: SettingsView)
    ensures
        stored_settings(Some(s.hotkey), Some(s.model), Some(s.silence_duration_bits), Some(s.auto_paste)) == s,
        stored_settings(None, None, None, None) == default_settings(),
{
}

fn text_or(stored: Option<String>, default: &str) -> (s: String)
    ensures
        s@ == stored_text(stored, default@),
{
    match stored {
        Some(v) => v,
        None => default.to_owned(),
    }
}

impl Default for Settings {
    fn default() -> (s: Self)
        ensures
            s@ == default_settings(),
    {
        Settings {
            hotkey: DEFAULT_HOTKEY.to_owned(),
            model: DEFAULT_MODEL.to_owned(),
            silence_duration_bits: DEFAULT_SILENCE_DURATION_BITS,
            auto_paste: true,
        }
    }
}

impl Settings {
    /// The settings read back from storage: each stored value where there is
    /// one of the right kind, else its default.
    pub fn from_stored(
        hotkey: Option<String>,
        model: Option<String>,
        silence_duration_bits: Option<u32>,
        auto_paste: Option<bool>,
    ) -> (s: Settings)
        ensures
            s@ == stored_settings(text_view(hotkey), text_view(model), silence_duration_bits, auto_paste),
    {
        Settings {
            hotkey: text_or(hotkey, DEFAULT_HOTKEY),
            model: text_or(model, DEFAULT_MODEL),
            silence_duration_bits: match silence_duration_bits {
                Some(b) => b,
                None => DEFAULT_SILENCE_DURATION_BITS,
            },
            auto_paste: match auto_paste {
                Some(b) => b,
                None => true,
            },
        }
    }
}

/// The hotkey to register at start-up: the stored one, else the default.
pub fn startup_hotkey(stored: Option<String>) -> (hotkey: String)
    ensures
        hotkey@ == stored_text(stored, DEFAULT_HOTKEY@),
{
    text_or(stored, DEFAULT_HOTKEY)
}

/// The model to transcribe with: the stored one, else `base.en`.
pub fn transcription_model(stored: Option<String>) -> (model: String)
    ensures
        model@ == stored_text(stored, DEFAULT_TRANSCRIPTION_MODEL@),
{
    text_or(stored, DEFAULT_TRANSCRIPTION_MODEL)
}

/// What saving the settings asks of the hotkey registration.
pub enum HotkeyChange {
    /// The hotkey is the one registered: leave it.
    Keep,
    /// Unregister the current hotkey and register the requested one.
    Replace,
}

/// Decides what saving settings does to the registered hotkey: nothing when
/// it is unchanged, else a replacement, which needs the requested hotkey to
/// parse (`requested_parses`).
pub fn plan_hotkey_change(current: &str, requested: &str, requested_parses: bool) -> (plan: Result<
    HotkeyChange,
    String,
>)
    ensures
        current@ == requested@ ==> plan matches Ok(HotkeyChange::Keep),
        current@ != requested@ && requested_parses ==> plan matches Ok(HotkeyChange::Replace),
        current@ != requested@ && !requested_parses ==> (plan matches Err(e) && e@
            == INVALID_HOTKEY@),
{
    if same_text(current, requested) {
        Ok(HotkeyChange::Keep)
    } else if requested_parses {
        Ok(HotkeyChange::Replace)
    } else {
        Err(INVALID_HOTKEY.to_owned())
    }
}

} // verus!
