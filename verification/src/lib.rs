//! Core of a voice dictation daemon: batching of captured audio, and the
//! system tray that shows and changes its state.

pub mod audio;
pub mod settings;
pub mod text;
pub mod transcription;
pub mod tray;

pub use settings::{DictationPreferences, OutputMode, State};
