# echo

The decision logic of Echo, a push-to-talk voice-to-text recorder, as a
library proved with Verus.

- `src/silence.rs`: silence detection after speech, on a monotonic clock.
- `src/recording.rs`: push-to-talk session flags, pacing of level updates,
  and refusal of empty recordings.
- `src/whisper.rs`: finding whisper.cpp (or choosing OpenAI's API when it is
  missing and `OPENAI_API_KEY` is set), the model file next to the
  executable, the command line, and the transcript extracted from its output.
- `src/resample.rs`: positions for taking a recording to the 16 kHz that
  whisper reads.
- `src/text.rs`: whitespace, trimming, line splitting and joining over
  sequences of characters.
- `src/models.rs`: the model catalogue, model file paths and download URLs.
- `src/settings.rs`: default and stored settings, hotkey changes.
- `src/history.rs`: the bounded, newest-first transcription history.
- `src/ui.rs`: hotkey events, tray menu and icon, paste outcome.
- `app/`: the Tauri application that does the I/O (audio capture, WAV files,
  the store, windows, processes, downloads) and the floating-point level
  arithmetic, and calls the library for every decision.
- `tests/`: tests of the library.
