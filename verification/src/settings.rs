//! State of the daemon, and what the user can set from the tray.

use vstd::prelude::*;

verus! {

/// What the daemon is doing.
#[derive(Debug, Clone, Copy, PartialEq, Eq, Structural)]
pub enum State {
    /// Ready to record.
    Idle,
    /// Capturing audio.
    Recording,
    /// Turning audio into text.
    Transcribing,
    /// Turning text into speech.
    Synthesizing,
    /// Playing speech.
    Speaking,
}

/// How a transcript reaches the focused window.
#[derive(Debug, Clone, Copy, PartialEq, Eq, Structural)]
pub enum OutputMode {
    /// Key by key.
    Type,
    /// Through the clipboard, all at once.
    Paste,
}

impl OutputMode {
    /// The name of the mode in the configuration and in the tray.
    pub open spec fn name(self) -> Seq<char> {
        match self {
            OutputMode::Type => "type"@,
            OutputMode::Paste => "paste"@,
        }
    }

    /// The name of the mode in the configuration and in the tray.
    pub fn as_str(&self) -> (name: &'static str)
        ensures
            name@ == self.name(),
    {
        match self {
            OutputMode::Type => "type",
            OutputMode::Paste => "paste",
        }
    }
}

/// The settings that the tray controls.
#[derive(Debug)]
pub struct DictationPreferences {
    /// How a transcript reaches the focused window.
    pub output_mode: OutputMode,
    /// Id of the input device.
    pub audio_device: String,
}

/// The settings that the tray controls, as the contracts see them.
pub struct PreferencesView {
    /// How a transcript reaches the focused window.
    pub output_mode: OutputMode,
    /// Id of the input device.
    pub audio_device: Seq<char>,
}

impl View for DictationPreferences {
    type V = PreferencesView;

    open spec fn view(&self) -> PreferencesView {
        PreferencesView { output_mode: self.output_mode, audio_device: self.audio_device@ }
    }
}

impl Clone for DictationPreferences {
    fn clone(&self) -> (copy: Self)
        ensures
            copy@ == self@,
    {
        DictationPreferences {
            output_mode: self.output_mode,
            audio_device: self.audio_device.clone(),
        }
    }
}

/// The two modes are named `type` and `paste`.
pub proof fn law_mode_names(mode: OutputMode, name: &'static str)
    requires
        call_ensures(OutputMode::as_str, (&mode,), name),
    ensures
        call_requires(OutputMode::as_str, (&mode,)),
        mode is Type ==> name@ == "type"@,
        mode is Paste ==> name@ == "paste"@,
        mode.name() == name@,
{
}

/// A copy of preferences has the same mode and device.
pub proof fn law_copied_preferences(preferences: &DictationPreferences, copy: DictationPreferences)
    requires
        call_ensures(DictationPreferences::clone, (preferences,), copy),
    ensures
        copy.output_mode == preferences.output_mode,
        copy.audio_device@ == preferences.audio_device@,
{
}

} // verus!
