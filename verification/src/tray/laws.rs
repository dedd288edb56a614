//! What the tray shows and does, entry by entry.

use vstd::prelude::*;

use crate::audio::capture::InputDeviceChoice;
use crate::settings::{DictationPreferences, OutputMode, State};
use crate::tray::icons::circle_icon;
use crate::tray::service::{
    device_position, lemma_device_position, menu_views, radio_views, Icon, MenuCommand, MenuItem,
    PreferenceChange, RadioChoice, ToolTip, WhisrsTray, MENU_ON_ACTIVATE,
};

verus! {

/// The `i`-th device is the first one with this id.
pub open spec fn is_first_device(devices: Seq<InputDeviceChoice>, id: Seq<char>, i: int) -> bool {
    &&& 0 <= i < devices.len()
    &&& devices[i].id@ == id
    &&& forall|j: int| 0 <= j < i ==> (#[trigger] devices[j]).id@ != id
}

/// No device has this id.
pub open spec fn is_unknown_device(devices: Seq<InputDeviceChoice>, id: Seq<char>) -> bool {
    forall|j: int| 0 <= j < devices.len() ==> (#[trigger] devices[j]).id@ != id
}

/// `label` is how a device with this id is shown: the label of the first device
/// with the id, or the id itself where none has it.
pub open spec fn is_shown_as(
    devices: Seq<InputDeviceChoice>,
    id: Seq<char>,
    label: Seq<char>,
) -> bool {
    &&& forall|i: int| #[trigger]
        is_first_device(devices, id, i) ==> label == devices[i].label@
    &&& is_unknown_device(devices, id) ==> label == id
}

/// The position of a device, told by what makes it the first.
proof fn lemma_first_device(devices: Seq<InputDeviceChoice>, id: Seq<char>)
    ensures
        forall|i: int| #[trigger]
            is_first_device(devices, id, i) ==> device_position(devices, id) == Some(i),
        is_unknown_device(devices, id) ==> device_position(devices, id) is None,
{
    lemma_device_position(devices, id);
    if let Some(k) = device_position(devices, id) {
        assert forall|i: int| #[trigger] is_first_device(devices, id, i) implies i == k by {
            if i < k {
                assert(devices[i].id@ != id);
            }
            if k < i {
                assert(devices[k].id@ != id);
            }
        }
    }
}

/// A device is shown by the label of the first device with its id, or by the id
/// itself.
pub proof fn law_device_label(tray: &WhisrsTray, id: &str, label: String)
    requires
        call_ensures(WhisrsTray::device_label, (tray, id), label),
    ensures
        call_requires(WhisrsTray::device_label, (tray, id)),
        is_shown_as(tray.audio_devices@, id@, label@),
{
    lemma_first_device(tray.audio_devices@, id@);
}

/// An entry that can be read but not clicked.
pub open spec fn is_heading(item: MenuItem, front: Seq<char>, rest: Seq<char>) -> bool {
    item matches MenuItem::Standard { label, enabled, icon_name, command } && label@ == front + rest
        && !enabled && icon_name@.len() == 0 && command is Nothing
}

/// Nine entries: the microphone and the devices, the output and its two modes, the
/// cancellation and the copying, with a line between each two groups. `id` is the
/// device that the preferences name, or `default` where they cannot be read.
pub proof fn law_menu(
    tray: &WhisrsTray,
    preferences: Option<&DictationPreferences>,
    history_entries: Option<usize>,
    menu: Vec<MenuItem>,
    id: Seq<char>,
) -> (shown: Seq<char>)
    requires
        call_ensures(WhisrsTray::menu, (tray, preferences, history_entries), menu),
        preferences matches Some(p) ==> id == p.audio_device@,
        preferences is None ==> id == "default"@,
    ensures
        call_requires(WhisrsTray::menu, (tray, preferences, history_entries)),
        menu@.len() == 9,
        is_shown_as(tray.audio_devices@, id, shown),
        is_heading(menu@[0], "Microphone — "@, shown),
        menu@[1] matches MenuItem::RadioGroup { selected, options, choice } && {
            &&& choice is Microphone
            &&& forall|i: int| #[trigger]
                is_first_device(tray.audio_devices@, id, i) ==> selected == i
            &&& is_unknown_device(tray.audio_devices@, id) ==> selected == 0
            &&& options@.len() == tray.audio_devices@.len()
            &&& forall|i: int|
                0 <= i < options@.len() ==> (#[trigger] options@[i]).label@
                    == tray.audio_devices@[i].label@ && options@[i].enabled == (
                tray.state.current is Idle)
        },
        menu@[2] is Separator,
        preferences matches Some(p) && p.output_mode is Paste ==> is_heading(
            menu@[3],
            "Output — "@,
            "paste"@,
        ),
        preferences matches Some(p) && p.output_mode is Type ==> is_heading(
            menu@[3],
            "Output — "@,
            "type"@,
        ),
        preferences is None ==> is_heading(menu@[3], "Output — "@, "type"@),
        menu@[4] matches MenuItem::RadioGroup { selected, options, choice } && {
            &&& choice is Output
            &&& selected == (if preferences matches Some(p) && p.output_mode is Paste {
                1int
            } else {
                0int
            })
            &&& options@.len() == 2
            &&& options@[0].label@ == "Type individual keys"@
            &&& options@[1].label@ == "Paste all at once"@
            &&& options@[0].enabled == (tray.state.current is Idle)
            &&& options@[1].enabled == (tray.state.current is Idle)
        },
        menu@[5] is Separator,
        menu@[6] matches MenuItem::Standard { label, enabled, icon_name, command } && label@
            == "Cancel current transcription"@ && enabled == (tray.state.current is Recording
            || tray.state.current is Transcribing) && icon_name@.len() == 0 && command is Cancel,
        menu@[7] is Separator,
        menu@[8] matches MenuItem::Standard { label, enabled, icon_name, command } && label@
            == "Copy last transcription"@ && enabled == (history_entries matches Some(n) && n > 0)
            && icon_name@ == "edit-copy"@ && command is CopyLast,
{
    let views = menu_views(menu@);
    lemma_first_device(tray.audio_devices@, id);
    lemma_device_position(tray.audio_devices@, id);
    assert(views.len() == menu@.len());
    assert(views[0] == menu@[0]@ && views[1] == menu@[1]@ && views[2] == menu@[2]@);
    assert(views[3] == menu@[3]@ && views[4] == menu@[4]@ && views[5] == menu@[5]@);
    assert(views[6] == menu@[6]@ && views[7] == menu@[7]@ && views[8] == menu@[8]@);
    if let MenuItem::RadioGroup { selected, options, choice } = menu@[1] {
        let shown_options = radio_views(options@);
        assert(shown_options.len() == options@.len());
        assert forall|i: int| 0 <= i < options@.len() implies (#[trigger] options@[i]).label@
            == tray.audio_devices@[i].label@ && options@[i].enabled == (
        tray.state.current is Idle) by {
            assert(shown_options[i] == (options@[i].label@, options@[i].enabled));
        }
    }
    if let MenuItem::RadioGroup { selected, options, choice } = menu@[4] {
        let shown_options = radio_views(options@);
        assert(shown_options.len() == options@.len());
        assert(shown_options[0] == (options@[0].label@, options@[0].enabled));
        assert(shown_options[1] == (options@[1].label@, options@[1].enabled));
    }
    match device_position(tray.audio_devices@, id) {
        Some(i) => tray.audio_devices@[i].label@,
        None => id,
    }
}

/// In every state, exactly the entry labelled so cancels, and exactly the entry
/// labelled so copies; every other line does nothing when it is clicked.
pub proof fn law_menu_commands(
    tray: &WhisrsTray,
    preferences: Option<&DictationPreferences>,
    history_entries: Option<usize>,
    menu: Vec<MenuItem>,
    i: int,
)
    requires
        call_ensures(WhisrsTray::menu, (tray, preferences, history_entries), menu),
        0 <= i < menu@.len(),
    ensures
        menu@[i] matches MenuItem::Standard { label, enabled, icon_name, command } ==> {
            &&& command is Cancel <==> label@ == "Cancel current transcription"@
            &&& command is CopyLast <==> label@ == "Copy last transcription"@
            &&& command is Cancel ==> enabled == (tray.state.current is Recording
                || tray.state.current is Transcribing)
            &&& command is CopyLast ==> enabled == (history_entries matches Some(n) && n > 0)
            &&& command is Nothing ==> !enabled
        },
        exists|k: int|
            0 <= k < menu@.len() && ((#[trigger] menu@[k]) matches MenuItem::Standard {
                label,
                enabled,
                icon_name,
                command,
            } && command is Cancel),
        exists|k: int|
            0 <= k < menu@.len() && ((#[trigger] menu@[k]) matches MenuItem::Standard {
                label,
                enabled,
                icon_name,
                command,
            } && command is CopyLast),
{
    let id = match preferences {
        Some(preferences) => preferences.audio_device@,
        None => "default"@,
    };
    law_menu(tray, preferences, history_entries, menu, id);
    reveal_strlit("Microphone — ");
    reveal_strlit("Output — ");
    reveal_strlit("Cancel current transcription");
    reveal_strlit("Copy last transcription");
    assert("Cancel current transcription"@[0] == 'C' && "Copy last transcription"@[0] == 'C');
    assert("Cancel current transcription"@[1] == 'a' && "Copy last transcription"@[1] == 'o');
    assert("Microphone — "@[0] == 'M' && "Output — "@[0] == 'O');
    if let MenuItem::Standard { label, enabled, icon_name, command } = menu@[i] {
        assert(i == 0 || i == 3 || i == 6 || i == 8);
        if i == 0 {
            assert(label@[0] == 'M');
        }
        if i == 3 {
            assert(label@[0] == 'O');
        }
    }
    assert(menu@[6] is Standard && menu@[8] is Standard);
}

/// Clicking a device asks for its id, and clicking a mode for that mode.
pub proof fn law_choices(
    tray: &WhisrsTray,
    selected: usize,
    device: Option<PreferenceChange>,
    mode: PreferenceChange,
)
    requires
        call_ensures(WhisrsTray::select_device, (tray, selected), device),
        call_ensures(WhisrsTray::select_output, (tray, selected), mode),
    ensures
        call_requires(WhisrsTray::select_device, (tray, selected)),
        call_requires(WhisrsTray::select_output, (tray, selected)),
        device is None <==> selected >= tray.audio_devices@.len(),
        device matches Some(change) ==> (change matches PreferenceChange::AudioDevice(id) && id@
            == tray.audio_devices@[selected as int].id@),
        selected == 1 ==> mode == PreferenceChange::Output(OutputMode::Paste),
        selected != 1 ==> mode == PreferenceChange::Output(OutputMode::Type),
{
}

/// A change of the input device leaves the output mode as it was, and a change of
/// the output mode leaves the input device as it was. What is saved is what is set.
pub proof fn law_one_preference_changes(
    tray: &WhisrsTray,
    preferences: &mut DictationPreferences,
    update: PreferenceChange,
    snapshot: DictationPreferences,
)
    requires
        call_ensures(WhisrsTray::update_preferences, (tray, preferences, update), snapshot),
    ensures
        call_requires(WhisrsTray::update_preferences, (tray, preferences, update)),
        update matches PreferenceChange::AudioDevice(device) ==> {
            &&& final(preferences).audio_device@ == device@
            &&& final(preferences).output_mode == old(preferences).output_mode
        },
        update matches PreferenceChange::Output(mode) ==> {
            &&& final(preferences).output_mode == mode
            &&& final(preferences).audio_device@ == old(preferences).audio_device@
        },
        snapshot.output_mode == final(preferences).output_mode,
        snapshot.audio_device@ == final(preferences).audio_device@,
{
}

/// Another state replaces the one that is shown; the devices stay.
pub proof fn law_set_state(tray: &mut WhisrsTray, state: State)
    requires
        call_ensures(WhisrsTray::set_state, (tray, state), ()),
    ensures
        call_requires(WhisrsTray::set_state, (tray, state)),
        final(tray).state.current == state,
        final(tray).audio_devices@ == old(tray).audio_devices@,
{
}

/// The tray is called whisrs, says what the daemon is doing, and opens its menu on
/// a click.
pub proof fn law_title(tray: &WhisrsTray, id: String, title: String)
    requires
        call_ensures(WhisrsTray::id, (tray,), id),
        call_ensures(WhisrsTray::title, (tray,), title),
    ensures
        call_requires(WhisrsTray::id, (tray,)),
        call_requires(WhisrsTray::title, (tray,)),
        MENU_ON_ACTIVATE,
        id@ == "whisrs"@,
        tray.state.current is Idle ==> title@ == "whisrs — idle"@,
        tray.state.current is Recording ==> title@ == "whisrs — recording"@,
        tray.state.current is Transcribing ==> title@ == "whisrs — transcribing"@,
        tray.state.current is Synthesizing ==> title@ == "whisrs — synthesizing"@,
        tray.state.current is Speaking ==> title@ == "whisrs — speaking"@,
{
}

/// The tooltip says what the daemon is doing and, where the preferences can be
/// read, the output mode and the microphone.
pub proof fn law_tool_tip(
    tray: &WhisrsTray,
    preferences: Option<&DictationPreferences>,
    tip: ToolTip,
    label: String,
    device: &str,
)
    requires
        call_ensures(WhisrsTray::tool_tip, (tray, preferences), tip),
        call_ensures(WhisrsTray::device_label, (tray, device), label),
        preferences matches Some(p) ==> device@ == p.audio_device@,
    ensures
        call_requires(WhisrsTray::tool_tip, (tray, preferences)),
        tip.title@ == "whisrs"@,
        tip.icon_name@.len() == 0,
        tip.icon_pixmap@.len() == 0,
        ({
            let doing = match tray.state.current {
                State::Idle => "Idle — ready to record"@,
                State::Recording => "Recording..."@,
                State::Transcribing => "Transcribing..."@,
                State::Synthesizing => "Synthesizing…"@,
                State::Speaking => "Reading aloud…"@,
            };
            match preferences {
                None => tip.description@ == doing,
                Some(p) => tip.description@ == doing + "\nOutput: "@ + (if p.output_mode is Paste {
                    "paste"@
                } else {
                    "type"@
                }) + " · Microphone: "@ + label@,
            }
        }),
{
}

/// The icon is one circle of 16 by 16 pixels in the color of the state.
pub proof fn law_icon_pixmap(tray: &WhisrsTray, pixmap: Vec<Icon>, color: u32, pixels: Vec<u8>)
    requires
        call_ensures(WhisrsTray::icon_pixmap, (tray,), pixmap),
        call_ensures(circle_icon, (color,), pixels),
        tray.state.current is Idle ==> color == 0xFF888888,
        tray.state.current is Recording ==> color == 0xFFE04040,
        tray.state.current is Transcribing ==> color == 0xFFE0A020,
        tray.state.current is Synthesizing ==> color == 0xFF7C5CFF,
        tray.state.current is Speaking ==> color == 0xFF34D399,
    ensures
        call_requires(WhisrsTray::icon_pixmap, (tray,)),
        pixmap@.len() == 1,
        pixmap@[0].width == 16,
        pixmap@[0].height == 16,
        pixmap@[0].data@ == pixels@,
{
}

} // verus!
