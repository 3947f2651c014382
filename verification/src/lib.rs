//! Decision logic of the Echo voice-to-text recorder: silence detection,
//! recording sessions, transcript clean-up, model catalogue, settings and
//! history, all proved with Verus.

pub mod silence;
pub mod text;
pub mod whisper;
pub mod models;
pub mod history;
pub mod settings;
pub mod recording;
pub mod ui;
pub mod resample;
