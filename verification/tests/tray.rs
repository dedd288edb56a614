use whisrs::audio::capture::InputDeviceChoice;
use whisrs::tray::copy::{copy_notification, last_transcription, CopyError};
use whisrs::tray::document::{
    set_preferences, try_update_preferences_document, update_preferences_document, DocumentError,
};
use whisrs::tray::icons;
use whisrs::tray::persist::{
    failure_context, first_step, next_step, temporary_name, Progress, Stage,
};
use whisrs::tray::retry::{RetryStep, TrayRetry};
use whisrs::tray::service::{
    MenuCommand, MenuItem, PreferenceChange, RadioChoice, TrayState, WhisrsTray, MENU_ON_ACTIVATE,
};
use whisrs::{DictationPreferences, OutputMode, State};

const STATES: [State; 5] = [
    State::Idle,
    State::Recording,
    State::Transcribing,
    State::Speaking,
    State::Synthesizing,
];

fn device(id: &str, label: &str) -> InputDeviceChoice {
    InputDeviceChoice {
        id: id.to_string(),
        label: label.to_string(),
    }
}

fn tray(state: State, audio_devices: Vec<InputDeviceChoice>) -> WhisrsTray {
    WhisrsTray {
        state: TrayState { current: state },
        audio_devices,
    }
}

fn preferences(output_mode: OutputMode, audio_device: &str) -> DictationPreferences {
    DictationPreferences {
        output_mode,
        audio_device: audio_device.to_string(),
    }
}

#[test]
fn cancellation_is_separate_and_only_enabled_during_dictation() {
    for state in STATES {
        let tray = tray(state, vec![]);
        let menu = tray.menu(Some(&preferences(OutputMode::Paste, "default")), None);
        let index = menu
            .iter()
            .position(|item| matches!(item, MenuItem::Standard { label, .. } if label == "Cancel current transcription"))
            .unwrap();
        let MenuItem::Standard {
            enabled, command, ..
        } = &menu[index]
        else {
            unreachable!()
        };
        assert_eq!(
            *enabled,
            matches!(state, State::Recording | State::Transcribing)
        );
        assert_eq!(*command, MenuCommand::Cancel);
        assert!(matches!(menu[index - 1], MenuItem::Separator));
        assert!(matches!(menu[index + 1], MenuItem::Separator));
    }
}

#[test]
fn preference_update_preserves_unrelated_config_and_comments() {
    let source = r#"# keep this comment
[general]
backend = "groq"

[groq]
api_key = "secret-value"

[audio]
device = "default" # existing comment

[input]
key_delay_ms = 7
"#;
    let updated = update_preferences_document(
        source,
        &DictationPreferences {
            output_mode: OutputMode::Paste,
            audio_device: "USB Microphone".to_string(),
        },
    )
    .unwrap();

    assert!(updated.contains("# keep this comment"));
    assert!(updated.contains("api_key = \"secret-value\""));
    assert!(updated.contains("device = \"USB Microphone\" # existing comment"));
    assert!(updated.contains("output_mode = \"paste\""));
    assert!(updated.contains("key_delay_ms = 7"));
}

#[test]
fn preference_update_changes_nothing_else() {
    let source = "# top\n[audio]   # header\n# above\ndevice   =   'mic'   # behind\nrate = 16000\n\n[input]\noutput_mode = \"type\"# tight\n# the end\n";
    let updated =
        update_preferences_document(source, &preferences(OutputMode::Paste, "hw:1")).unwrap();
    assert_eq!(
        updated,
        "# top\n[audio]   # header\n# above\ndevice   =   \"hw:1\"   # behind\nrate = 16000\n\n[input]\noutput_mode = \"paste\"# tight\n# the end\n"
    );
}

#[test]
fn last_preference_update_alone_decides() {
    let first = preferences(OutputMode::Paste, "hw:1");
    let last = preferences(OutputMode::Type, "USB \"Mic\"");
    for source in [
        "# top\n[audio]   # header\ndevice   =   'mic'   # behind\n[input]\noutput_mode = \"type\"# tight\n",
        "audio = { rate = 1, device = 3, }\n[input]\n",
        "[input]\nkey_delay_ms = 7\n",
        "",
    ] {
        let once = update_preferences_document(source, &first).unwrap();
        assert_eq!(update_preferences_document(&once, &first).unwrap(), once);
        assert_eq!(
            update_preferences_document(&once, &last).unwrap(),
            update_preferences_document(source, &last).unwrap()
        );
    }
}

#[test]
fn preferences_can_be_set_again() {
    let first = preferences(OutputMode::Paste, "hw:1");
    let last = preferences(OutputMode::Type, "default");
    for source in ["", "[audio]\ndevice = 3 # c\n", "input = { a = 1, }\n"] {
        let mut once = source.parse::<toml_edit::DocumentMut>().unwrap();
        let mut twice = once.clone();
        set_preferences(&mut once, &last);
        set_preferences(&mut twice, &first);
        set_preferences(&mut twice, &last);
        assert_eq!(twice.to_string(), once.to_string());
        set_preferences(&mut twice, &last);
        assert_eq!(twice.to_string(), once.to_string());
    }
}

#[test]
fn other_root_entries_and_their_order_are_kept() {
    let source = "z = 1 # last letter first\na = [1,2] # array\n\n[[rule]]\nx = 1\n[[rule]]\nx = 2\n\n[ audio ] # header\ndevice = \"a\"\n";
    let updated = update_preferences_document(source, &preferences(OutputMode::Type, "b")).unwrap();
    assert_eq!(
        updated,
        "z = 1 # last letter first\na = [1,2] # array\ninput = { output_mode = \"type\" }\n\n[[rule]]\nx = 1\n[[rule]]\nx = 2\n\n[ audio ] # header\ndevice = \"b\"\n"
    );
}

#[test]
fn missing_tables_are_made() {
    let updated = update_preferences_document("", &preferences(OutputMode::Type, "a")).unwrap();
    assert_eq!(
        updated,
        "input = { output_mode = \"type\" }\naudio = { device = \"a\" }\n"
    );
    let updated =
        update_preferences_document("audio.device = 3 # c\n", &preferences(OutputMode::Type, "a"))
            .unwrap();
    assert!(updated.contains("audio.device = \"a\" # c"));
}

#[test]
fn invalid_documents_are_refused() {
    let wanted = preferences(OutputMode::Type, "a");
    assert!(matches!(
        update_preferences_document("[audio", &wanted),
        Err(DocumentError::Invalid(_))
    ));
    assert!(matches!(
        try_update_preferences_document("[audio", &wanted),
        Err(DocumentError::Invalid(_))
    ));
    for source in ["input = 1", "audio = \"x\"", "[[input]]\na = 1\n"] {
        assert!(matches!(
            try_update_preferences_document(source, &wanted),
            Err(DocumentError::NotATable)
        ));
    }
    assert_eq!(
        try_update_preferences_document("[audio]\n", &wanted).unwrap(),
        update_preferences_document("[audio]\n", &wanted).unwrap()
    );
}

/// The same icon, computed with floats.
fn float_icon(argb: u32) -> Vec<u8> {
    let size = 16;
    let center = size as f32 / 2.0;
    let radius = 6.0;
    let mut pixels = Vec::with_capacity(size * size * 4);
    for y in 0..size {
        for x in 0..size {
            let dx = x as f32 + 0.5 - center;
            let dy = y as f32 + 0.5 - center;
            let dist = (dx * dx + dy * dy).sqrt();
            if dist <= radius {
                pixels.extend_from_slice(&argb.to_be_bytes());
            } else if dist <= radius + 1.0 {
                let alpha = ((radius + 1.0 - dist) * 255.0) as u8;
                let [_, r, g, b] = argb.to_be_bytes();
                pixels.extend_from_slice(&[alpha, r, g, b]);
            } else {
                pixels.extend_from_slice(&[0, 0, 0, 0]);
            }
        }
    }
    pixels
}

#[test]
fn icons_match_float_geometry() {
    for argb in [0, u32::MAX, 0x12_34_56_78, 0xFF_88_88_88] {
        assert_eq!(icons::circle_icon(argb), float_icon(argb));
    }
    assert_eq!(icons::idle(), float_icon(0xFF_88_88_88));
    assert_eq!(icons::recording(), float_icon(0xFF_E0_40_40));
    assert_eq!(icons::transcribing(), float_icon(0xFF_E0_A0_20));
    assert_eq!(icons::synthesizing(), float_icon(0xFF_7C_5C_FF));
    assert_eq!(icons::speaking(), float_icon(0xFF_34_D3_99));
}

#[test]
fn icon_pixels_have_exact_values() {
    let pixels = icons::circle_icon(0x80_01_02_03);
    assert_eq!(pixels.len(), 1024);
    let pixel = |x: usize, y: usize| pixels[(y * 16 + x) * 4..(y * 16 + x) * 4 + 4].to_vec();
    assert_eq!(pixel(8, 8), [0x80, 1, 2, 3]);
    assert_eq!(pixel(0, 0), [0, 0, 0, 0]);
    assert_eq!(pixel(1, 7), [122, 1, 2, 3]);
    assert_eq!(pixel(13, 10), [244, 1, 2, 3]);
    assert_eq!(pixel(1, 5), [9, 1, 2, 3]);
    for y in 0..16 {
        for x in 0..16 {
            assert_eq!(pixel(x, y), pixel(15 - x, y));
            assert_eq!(pixel(x, y), pixel(y, x));
        }
    }
}

#[test]
fn every_state_looks_different() {
    assert!(MENU_ON_ACTIVATE);
    for a in STATES {
        for b in STATES {
            let (one, other) = (tray(a, vec![]), tray(b, vec![]));
            let (left, right) = (one.icon_pixmap(), other.icon_pixmap());
            assert_eq!((left[0].width, left[0].height), (16, 16));
            assert_eq!(left[0].data == right[0].data, a == b);
            assert_eq!(one.title() == other.title(), a == b);
        }
    }
}

#[test]
fn titles_and_tooltips() {
    let devices = || vec![device("default", "System default"), device("hw:1", "USB")];
    let mut shown = tray(State::Idle, devices());
    assert_eq!(shown.id(), "whisrs");
    assert_eq!(shown.title(), "whisrs — idle");
    let tip = shown.tool_tip(Some(&preferences(OutputMode::Paste, "hw:1")));
    assert_eq!(tip.title, "whisrs");
    assert_eq!(
        tip.description,
        "Idle — ready to record\nOutput: paste · Microphone: USB"
    );
    assert!(tip.icon_name.is_empty() && tip.icon_pixmap.is_empty());
    shown.set_state(State::Speaking);
    assert_eq!(shown.title(), "whisrs — speaking");
    assert_eq!(shown.tool_tip(None).description, "Reading aloud…");
    shown.set_state(State::Recording);
    assert_eq!(shown.tool_tip(None).description, "Recording...");
    shown.set_state(State::Transcribing);
    assert_eq!(shown.tool_tip(None).description, "Transcribing...");
    shown.set_state(State::Synthesizing);
    assert_eq!(
        shown
            .tool_tip(Some(&preferences(OutputMode::Type, "gone")))
            .description,
        "Synthesizing…\nOutput: type · Microphone: gone"
    );
}

#[test]
fn device_labels_fall_back_to_ids() {
    let shown = tray(
        State::Idle,
        vec![device("a", "First"), device("b", "Second"), device("a", "Third")],
    );
    assert_eq!(shown.device_label("a"), "First");
    assert_eq!(shown.device_label("b"), "Second");
    assert_eq!(shown.device_label("c"), "c");
}

#[test]
fn menu_shows_preferences() {
    let shown = tray(
        State::Idle,
        vec![device("default", "System default"), device("hw:1", "USB")],
    );
    let menu = shown.menu(Some(&preferences(OutputMode::Paste, "hw:1")), Some(1));
    assert_eq!(menu.len(), 9);
    assert!(
        matches!(&menu[0], MenuItem::Standard { label, enabled: false, .. } if label == "Microphone — USB")
    );
    let MenuItem::RadioGroup {
        selected,
        options,
        choice,
    } = &menu[1]
    else {
        unreachable!()
    };
    assert_eq!((*selected, *choice), (1, RadioChoice::Microphone));
    let labels: Vec<&str> = options.iter().map(|option| option.label.as_str()).collect();
    assert_eq!(labels, ["System default", "USB"]);
    assert!(options.iter().all(|option| option.enabled));
    assert!(
        matches!(&menu[3], MenuItem::Standard { label, enabled: false, .. } if label == "Output — paste")
    );
    let MenuItem::RadioGroup {
        selected,
        options,
        choice,
    } = &menu[4]
    else {
        unreachable!()
    };
    assert_eq!((*selected, *choice), (1, RadioChoice::Output));
    let labels: Vec<&str> = options.iter().map(|option| option.label.as_str()).collect();
    assert_eq!(labels, ["Type individual keys", "Paste all at once"]);
    assert!(
        matches!(&menu[8], MenuItem::Standard { label, enabled: true, icon_name, command: MenuCommand::CopyLast } if label == "Copy last transcription" && icon_name == "edit-copy")
    );

    // Preferences that cannot be read are shown as the defaults.
    let menu = tray(State::Speaking, vec![device("x", "X")]).menu(None, Some(0));
    assert!(
        matches!(&menu[0], MenuItem::Standard { label, .. } if label == "Microphone — default")
    );
    assert!(
        matches!(&menu[1], MenuItem::RadioGroup { selected: 0, options, .. } if !options[0].enabled)
    );
    assert!(matches!(&menu[3], MenuItem::Standard { label, .. } if label == "Output — type"));
    assert!(matches!(&menu[8], MenuItem::Standard { enabled: false, .. }));
    let menu = tray(State::Idle, vec![]).menu(None, None);
    assert!(matches!(&menu[8], MenuItem::Standard { enabled: false, .. }));
}

#[test]
fn choices_change_preferences() {
    let shown = tray(State::Idle, vec![device("default", "D"), device("hw:1", "USB")]);
    let mut current = preferences(OutputMode::Type, "default");
    assert!(shown.select_device(2).is_none());
    let change = shown.select_device(1).unwrap();
    assert!(matches!(&change, PreferenceChange::AudioDevice(id) if id == "hw:1"));
    let snapshot = shown.update_preferences(&mut current, change);
    assert_eq!(snapshot.audio_device, "hw:1");
    assert_eq!(snapshot.output_mode, OutputMode::Type);
    let snapshot = shown.update_preferences(&mut current, shown.select_output(1));
    assert_eq!(snapshot.output_mode, OutputMode::Paste);
    assert_eq!(current.output_mode, OutputMode::Paste);
    assert_eq!(current.audio_device, "hw:1");
    let menu = shown.menu(Some(&current), None);
    assert!(matches!(&menu[1], MenuItem::RadioGroup { selected: 1, .. }));
    assert!(matches!(&menu[4], MenuItem::RadioGroup { selected: 1, .. }));
    for other in [0, 2, 7] {
        assert!(matches!(
            shown.select_output(other),
            PreferenceChange::Output(OutputMode::Type)
        ));
    }
}

#[test]
fn retries_back_off_and_end() {
    let mut retry = TrayRetry::new();
    let mut delays = Vec::new();
    for attempt in 1..=9 {
        assert_eq!(retry.attempt(), attempt);
        match retry.failed() {
            RetryStep::Wait(seconds) => delays.push(seconds),
            RetryStep::GiveUp => panic!("gave up after attempt {}", attempt),
        }
    }
    assert_eq!(delays, [1, 2, 4, 8, 10, 10, 10, 10, 10]);
    assert_eq!(retry.attempt(), 10);
    assert_eq!(retry.failed(), RetryStep::GiveUp);
}

#[test]
fn copying_reports_its_outcome() {
    let text = last_transcription(Ok(vec!["new".to_string(), "old".to_string()])).unwrap();
    assert_eq!(text, "new");
    let done = copy_notification(&Ok(()));
    assert_eq!(done.summary, "Last transcription copied");
    assert_eq!(done.body, "Ready to paste.");
    let empty = last_transcription(Ok(vec![])).unwrap_err();
    let unread = last_transcription(Err("no such file".to_string())).unwrap_err();
    for (error, body) in [
        (empty, "no previous transcription is available yet"),
        (unread, "no such file"),
        (CopyError::Clipboard, "failed to copy the last transcription"),
    ] {
        let failed = copy_notification(&Err(error));
        assert_eq!(failed.summary, "Could not copy last transcription");
        assert_eq!(failed.body, body);
    }
}

#[test]
fn saving_goes_through_every_step() {
    let stages = [
        Stage::Read,
        Stage::Update,
        Stage::Locate,
        Stage::Create,
        Stage::Write,
        Stage::Sync,
        Stage::Replace,
    ];
    let mut progress = first_step();
    for stage in stages {
        assert_eq!(progress, Progress::Due(stage));
        progress = next_step(progress, true);
    }
    assert_eq!(progress, Progress::Saved);
    for (i, stage) in stages.iter().enumerate() {
        let failed = next_step(Progress::Due(*stage), false);
        if i < 3 {
            assert_eq!(failed, Progress::Failed(*stage));
        } else {
            assert_eq!(failed, Progress::CleanUp(*stage));
            assert_eq!(next_step(failed, true), Progress::Failed(*stage));
            assert_eq!(next_step(failed, false), Progress::Failed(*stage));
        }
    }
}

#[test]
fn failed_steps_are_put_in_context() {
    let context = |stage| failure_context(stage, "/c/config.toml", "/c/tmp");
    assert_eq!(
        context(Stage::Read).unwrap(),
        "failed to read /c/config.toml"
    );
    assert_eq!(
        context(Stage::Update).unwrap(),
        "failed to parse /c/config.toml"
    );
    assert_eq!(
        context(Stage::Locate).unwrap(),
        "config path does not have a parent directory"
    );
    assert_eq!(context(Stage::Create).unwrap(), "failed to create /c/tmp");
    assert!(context(Stage::Write).is_none());
    assert!(context(Stage::Sync).is_none());
    assert_eq!(
        context(Stage::Replace).unwrap(),
        "failed to replace /c/config.toml"
    );
    assert_eq!(
        temporary_name(42, 1_700_000_000_123_456_789),
        ".config.toml.whisrs-42-1700000000123456789.tmp"
    );
}
