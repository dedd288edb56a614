//! What the system tray shows, and what its menu does.

use vstd::prelude::*;

use crate::audio::capture::InputDeviceChoice;
use crate::settings::{DictationPreferences, OutputMode, PreferencesView, State};
use crate::tray::icons;

verus! {

/// A click on the top-bar icon should expose the controls directly.
pub const MENU_ON_ACTIVATE: bool = true;

/// Small mutable state owned by the tray service itself.
///
/// Keeping this directly on the tray object is important: the tray host learns
/// which properties changed when the tray object is mutated. When the state
/// lives out-of-band, some hosts miss icon refreshes and leave the old color
/// visible.
#[derive(Debug)]
pub struct TrayState {
    /// What the daemon is doing.
    pub current: State,
}

/// The tray: the state it shows and the input devices it offers.
#[derive(Debug)]
pub struct WhisrsTray {
    /// The state that is shown.
    pub state: TrayState,
    /// The input devices that are offered, in order.
    pub audio_devices: Vec<InputDeviceChoice>,
}

/// A bitmap for the tray host.
#[derive(Debug)]
pub struct Icon {
    /// Width in pixels.
    pub width: i32,
    /// Height in pixels.
    pub height: i32,
    /// Pixels row by row, four bytes each: alpha, red, green, blue.
    pub data: Vec<u8>,
}

/// The text that appears when the pointer rests on the icon.
#[derive(Debug)]
pub struct ToolTip {
    /// First line.
    pub title: String,
    /// Rest of the text.
    pub description: String,
    /// Name of an icon in the desktop's theme.
    pub icon_name: String,
    /// Icons of its own.
    pub icon_pixmap: Vec<Icon>,
}

/// What a menu entry does when it is clicked.
#[derive(Debug, Clone, Copy, PartialEq, Eq, Structural)]
pub enum MenuCommand {
    /// Nothing.
    Nothing,
    /// Cancel the recording or transcription under way.
    Cancel,
    /// Copy the most recent transcription to the clipboard.
    CopyLast,
}

/// What a group of radio buttons chooses.
#[derive(Debug, Clone, Copy, PartialEq, Eq, Structural)]
pub enum RadioChoice {
    /// The input device.
    Microphone,
    /// The output mode.
    Output,
}

/// One radio button.
#[derive(Debug)]
pub struct RadioItem {
    /// Its text.
    pub label: String,
    /// Whether it can be clicked.
    pub enabled: bool,
}

/// An entry of the menu.
#[derive(Debug)]
pub enum MenuItem {
    /// A line of text that can be clicked.
    Standard { label: String, enabled: bool, icon_name: String, command: MenuCommand },
    /// A group of radio buttons, of which one is selected.
    RadioGroup { selected: usize, options: Vec<RadioItem>, choice: RadioChoice },
    /// A line between groups.
    Separator,
}

/// A change of the preferences that the menu asks for.
#[derive(Debug)]
pub enum PreferenceChange {
    /// Use this input device.
    AudioDevice(String),
    /// Use this output mode.
    Output(OutputMode),
}

/// An entry of the menu, as the contracts see it.
pub enum MenuItemView {
    /// A line of text that can be clicked.
    Standard { label: Seq<char>, enabled: bool, icon_name: Seq<char>, command: MenuCommand },
    /// A group of radio buttons: their texts and whether they can be clicked.
    RadioGroup { selected: int, options: Seq<(Seq<char>, bool)>, choice: RadioChoice },
    /// A line between groups.
    Separator,
}

/// The texts of radio buttons and whether they can be clicked.
pub open spec fn radio_views(options: Seq<RadioItem>) -> Seq<(Seq<char>, bool)> {
    options.map_values(|option: RadioItem| (option.label@, option.enabled))
}

impl View for MenuItem {
    type V = MenuItemView;

    open spec fn view(&self) -> MenuItemView {
        match *self {
            MenuItem::Standard { label, enabled, icon_name, command } => MenuItemView::Standard {
                label: label@,
                enabled,
                icon_name: icon_name@,
                command,
            },
            MenuItem::RadioGroup { selected, options, choice } => MenuItemView::RadioGroup {
                selected: selected as int,
                options: radio_views(options@),
                choice,
            },
            MenuItem::Separator => MenuItemView::Separator,
        }
    }
}

/// The entries of a menu, as the contracts see them.
pub open spec fn menu_views(items: Seq<MenuItem>) -> Seq<MenuItemView> {
    items.map_values(|item: MenuItem| item@)
}

/// Position of the first device with this id.
pub open spec fn device_position(devices: Seq<InputDeviceChoice>, id: Seq<char>) -> Option<int>
    decreases devices.len(),
{
    if devices.len() == 0 {
        None
    } else {
        match device_position(devices.drop_last(), id) {
            Some(i) => Some(i),
            None => if devices.last().id@ == id {
                Some(devices.len() - 1)
            } else {
                None
            },
        }
    }
}

/// The position of a device is that of a device with this id, and no earlier one
/// has it; there is no position exactly if no device has the id.
pub proof fn lemma_device_position(devices: Seq<InputDeviceChoice>, id: Seq<char>)
    ensures
        match device_position(devices, id) {
            Some(i) => {
                &&& 0 <= i < devices.len()
                &&& devices[i].id@ == id
                &&& forall|j: int| 0 <= j < i ==> (#[trigger] devices[j]).id@ != id
            },
            None => forall|j: int| 0 <= j < devices.len() ==> (#[trigger] devices[j]).id@ != id,
        },
    decreases devices.len(),
{
    if devices.len() > 0 {
        let front = devices.drop_last();
        lemma_device_position(front, id);
        assert forall|j: int| 0 <= j < front.len() implies front[j] == #[trigger] devices[j] by {}
    }
}

/// How a device is shown: by the label of the first device with this id, or by
/// the id itself where no device has it.
pub open spec fn label_of(devices: Seq<InputDeviceChoice>, id: Seq<char>) -> Seq<char> {
    match device_position(devices, id) {
        Some(i) => devices[i].label@,
        None => id,
    }
}

/// The title of the tray in a state.
pub open spec fn title_of(state: State) -> Seq<char> {
    match state {
        State::Idle => "whisrs — idle"@,
        State::Recording => "whisrs — recording"@,
        State::Transcribing => "whisrs — transcribing"@,
        State::Synthesizing => "whisrs — synthesizing"@,
        State::Speaking => "whisrs — speaking"@,
    }
}

/// What the tooltip says of a state.
pub open spec fn description_of(state: State) -> Seq<char> {
    match state {
        State::Idle => "Idle — ready to record"@,
        State::Recording => "Recording..."@,
        State::Transcribing => "Transcribing..."@,
        State::Synthesizing => "Synthesizing…"@,
        State::Speaking => "Reading aloud…"@,
    }
}

/// The preferences that are shown when the current ones cannot be read.
pub open spec fn fallback_preferences() -> PreferencesView {
    PreferencesView { output_mode: OutputMode::Type, audio_device: "default"@ }
}

/// The preferences that a menu shows.
pub open spec fn shown_preferences(preferences: Option<&DictationPreferences>) -> PreferencesView {
    match preferences {
        Some(preferences) => preferences@,
        None => fallback_preferences(),
    }
}

/// The preferences after a change.
pub open spec fn changed(preferences: PreferencesView, change: PreferenceChange) -> PreferencesView {
    match change {
        PreferenceChange::AudioDevice(device) => PreferencesView {
            audio_device: device@,
            ..preferences
        },
        PreferenceChange::Output(mode) => PreferencesView { output_mode: mode, ..preferences },
    }
}

/// A line of the menu that only tells something.
pub open spec fn heading(label: Seq<char>) -> MenuItemView {
    MenuItemView::Standard {
        label,
        enabled: false,
        icon_name: Seq::empty(),
        command: MenuCommand::Nothing,
    }
}

impl WhisrsTray {
    /// The radio buttons for the input devices.
    pub open spec fn device_options(self) -> Seq<(Seq<char>, bool)> {
        self.audio_devices@.map_values(
            |device: InputDeviceChoice| (device.label@, self.state.current is Idle),
        )
    }

    /// The whole menu: the input devices, the output modes, the cancellation of a
    /// dictation, and copying, in groups with a line between each two.
    ///
    /// Preferences can be changed while the daemon is idle. A dictation can be
    /// cancelled while it is recorded or transcribed. Copying is possible once
    /// something was transcribed.
    pub open spec fn menu_of(
        self,
        preferences: PreferencesView,
        has_transcription: bool,
    ) -> Seq<MenuItemView> {
        seq![
            heading(
                "Microphone — "@ + label_of(self.audio_devices@, preferences.audio_device),
            ),
            MenuItemView::RadioGroup {
                selected: match device_position(
                    self.audio_devices@,
                    preferences.audio_device,
                ) {
                    Some(i) => i,
                    None => 0,
                },
                options: self.device_options(),
                choice: RadioChoice::Microphone,
            },
            MenuItemView::Separator,
            heading("Output — "@ + preferences.output_mode.name()),
            MenuItemView::RadioGroup {
                selected: match preferences.output_mode {
                    OutputMode::Type => 0,
                    OutputMode::Paste => 1,
                },
                options: seq![
                    ("Type individual keys"@, self.state.current is Idle),
                    ("Paste all at once"@, self.state.current is Idle),
                ],
                choice: RadioChoice::Output,
            },
            MenuItemView::Separator,
            MenuItemView::Standard {
                label: "Cancel current transcription"@,
                enabled: self.state.current is Recording || self.state.current is Transcribing,
                icon_name: Seq::empty(),
                command: MenuCommand::Cancel,
            },
            MenuItemView::Separator,
            MenuItemView::Standard {
                label: "Copy last transcription"@,
                enabled: has_transcription,
                icon_name: "edit-copy"@,
                command: MenuCommand::CopyLast,
            },
        ]
    }

    /// The id under which the tray registers.
    pub fn id(&self) -> (id: String)
        ensures
            id@ == "whisrs"@,
    {
        "whisrs".to_string()
    }

    /// The title of the tray.
    pub fn title(&self) -> (title: String)
        ensures
            title@ == title_of(self.state.current),
    {
        match self.state.current {
            State::Idle => "whisrs — idle".to_string(),
            State::Recording => "whisrs — recording".to_string(),
            State::Transcribing => "whisrs — transcribing".to_string(),
            State::Synthesizing => "whisrs — synthesizing".to_string(),
            State::Speaking => "whisrs — speaking".to_string(),
        }
    }

    /// The icon of the tray, which shows the state by its color.
    pub fn icon_pixmap(&self) -> (pixmap: Vec<Icon>)
        ensures
            pixmap@.len() == 1,
            pixmap@[0].width == icons::ICON_SIZE,
            pixmap@[0].height == icons::ICON_SIZE,
            pixmap@[0].data@ == icons::icon(icons::state_color(self.state.current)),
    {
        let data: Vec<u8> = match self.state.current {
            State::Idle => icons::idle(),
            State::Recording => icons::recording(),
            State::Transcribing => icons::transcribing(),
            State::Synthesizing => icons::synthesizing(),
            State::Speaking => icons::speaking(),
        };
        vec![Icon { width: 16, height: 16, data }]
    }

    /// The tooltip: the state, and the preferences where they can be read.
    pub fn tool_tip(&self, preferences: Option<&DictationPreferences>) -> (tip: ToolTip)
        ensures
            tip.title@ == "whisrs"@,
            tip.description@ == (match preferences {
                Some(preferences) => description_of(self.state.current) + "\nOutput: "@
                    + preferences.output_mode.name() + " · Microphone: "@ + label_of(
                    self.audio_devices@,
                    preferences.audio_device@,
                ),
                None => description_of(self.state.current),
            }),
            tip.icon_name@.len() == 0,
            tip.icon_pixmap@.len() == 0,
    {
        let mut description: String = match self.state.current {
            State::Idle => "Idle — ready to record".to_string(),
            State::Recording => "Recording...".to_string(),
            State::Transcribing => "Transcribing...".to_string(),
            State::Synthesizing => "Synthesizing…".to_string(),
            State::Speaking => "Reading aloud…".to_string(),
        };
        if let Some(preferences) = preferences {
            description.append("\nOutput: ");
            description.append(preferences.output_mode.as_str());
            description.append(" · Microphone: ");
            description.append(self.device_label(preferences.audio_device.as_str()).as_str());
        }
        ToolTip {
            title: "whisrs".to_string(),
            description,
            icon_name: String::new(),
            icon_pixmap: Vec::new(),
        }
    }

    /// The menu, for the current preferences (`None` where they cannot be read)
    /// and the number of history entries (`None` where the history cannot be
    /// read).
    pub fn menu(
        &self,
        preferences: Option<&DictationPreferences>,
        history_entries: Option<usize>,
    ) -> (menu: Vec<MenuItem>)
        ensures
            menu_views(menu@) == self.menu_of(
                shown_preferences(preferences),
                history_entries matches Some(n) && n > 0,
            ),
    {
        let preferences: DictationPreferences = match preferences {
            Some(preferences) => preferences.clone(),
            None => DictationPreferences {
                output_mode: OutputMode::Type,
                audio_device: "default".to_string(),
            },
        };
        let enabled: bool = match self.state.current {
            State::Idle => true,
            _ => false,
        };
        let selected_device: usize = match self.find_device(&preferences.audio_device) {
            Some(i) => i,
            None => 0,
        };
        let has_transcription: bool = match history_entries {
            Some(n) => n > 0,
            None => false,
        };
        let microphone: MenuItem = MenuItem::Standard {
            label: "Microphone — ".to_string().concat(
                self.device_label(preferences.audio_device.as_str()).as_str(),
            ),
            enabled: false,
            icon_name: String::new(),
            command: MenuCommand::Nothing,
        };
        let devices: MenuItem = MenuItem::RadioGroup {
            selected: selected_device,
            options: self.device_items(enabled),
            choice: RadioChoice::Microphone,
        };
        let output: MenuItem = MenuItem::Standard {
            label: "Output — ".to_string().concat(preferences.output_mode.as_str()),
            enabled: false,
            icon_name: String::new(),
            command: MenuCommand::Nothing,
        };
        let modes: MenuItem = MenuItem::RadioGroup {
            selected: match preferences.output_mode {
                OutputMode::Type => 0,
                OutputMode::Paste => 1,
            },
            options: vec![
                RadioItem { label: "Type individual keys".to_string(), enabled },
                RadioItem { label: "Paste all at once".to_string(), enabled },
            ],
            choice: RadioChoice::Output,
        };
        let cancel: MenuItem = MenuItem::Standard {
            label: "Cancel current transcription".to_string(),
            enabled: match self.state.current {
                State::Recording | State::Transcribing => true,
                _ => false,
            },
            icon_name: String::new(),
            command: MenuCommand::Cancel,
        };
        let copy: MenuItem = MenuItem::Standard {
            label: "Copy last transcription".to_string(),
            enabled: has_transcription,
            icon_name: "edit-copy".to_string(),
            command: MenuCommand::CopyLast,
        };
        let menu: Vec<MenuItem> = vec![
            microphone,
            devices,
            MenuItem::Separator,
            output,
            modes,
            MenuItem::Separator,
            cancel,
            MenuItem::Separator,
            copy,
        ];
        proof {
            let model = self.menu_of(preferences@, has_transcription);
            assert(menu_views(menu@)[4]->options =~= model[4]->options);
            assert(menu_views(menu@) =~= model);
        }
        menu
    }

    fn device_items(&self, enabled: bool) -> (options: Vec<RadioItem>)
        requires
            enabled == (self.state.current is Idle),
        ensures
            radio_views(options@) == self.device_options(),
    {
        let mut options: Vec<RadioItem> = Vec::new();
        let mut i: usize = 0;
        while i < self.audio_devices.len()
            invariant
                i <= self.audio_devices.len(),
                enabled == (self.state.current is Idle),
                radio_views(options@) == self.device_options().take(i as int),
            decreases self.audio_devices.len() - i,
        {
            let ghost before = options@;
            options.push(RadioItem { label: self.audio_devices[i].label.clone(), enabled });
            assert(radio_views(options@) =~= radio_views(before).push(
                (self.audio_devices@[i as int].label@, enabled),
            ));
            assert(self.device_options().take(i + 1) =~= self.device_options().take(i as int).push(
                self.device_options()[i as int],
            ));
            i += 1;
        }
        assert(self.device_options().take(i as int) =~= self.device_options());
        options
    }

    fn find_device(&self, id: &String) -> (position: Option<usize>)
        ensures
            device_position(self.audio_devices@, id@) == (match position {
                Some(i) => Some(i as int),
                None => None,
            }),
    {
        let mut i: usize = 0;
        while i < self.audio_devices.len()
            invariant
                i <= self.audio_devices.len(),
                forall|j: int| 0 <= j < i ==> (#[trigger] self.audio_devices@[j]).id@ != id@,
            decreases self.audio_devices.len() - i,
        {
            if self.audio_devices[i].id == *id {
                proof {
                    lemma_device_position(self.audio_devices@, id@);
                }
                return Some(i);
            }
            i += 1;
        }
        proof {
            lemma_device_position(self.audio_devices@, id@);
        }
        None
    }

    /// How the device with this id is shown.
    pub fn device_label(&self, id: &str) -> (label: String)
        ensures
            label@ == label_of(self.audio_devices@, id@),
    {
        proof {
            lemma_device_position(self.audio_devices@, id@);
        }
        let id: String = id.to_string();
        match self.find_device(&id) {
            Some(i) => self.audio_devices[i].label.clone(),
            None => id,
        }
    }

    /// The change that clicking the `selected`-th input device asks for.
    pub fn select_device(&self, selected: usize) -> (change: Option<PreferenceChange>)
        ensures
            change is Some <==> selected < self.audio_devices@.len(),
            change matches Some(c) ==> c is AudioDevice && c->AudioDevice_0@
                == self.audio_devices@[selected as int].id@,
    {
        if selected < self.audio_devices.len() {
            Some(PreferenceChange::AudioDevice(self.audio_devices[selected].id.clone()))
        } else {
            None
        }
    }

    /// The change that clicking the `selected`-th output mode asks for.
    pub fn select_output(&self, selected: usize) -> (change: PreferenceChange)
        ensures
            change == PreferenceChange::Output(
                if selected == 1 {
                    OutputMode::Paste
                } else {
                    OutputMode::Type
                },
            ),
    {
        if selected == 1 {
            PreferenceChange::Output(OutputMode::Paste)
        } else {
            PreferenceChange::Output(OutputMode::Type)
        }
    }

    /// Change the preferences, and return a copy of them to be saved.
    pub fn update_preferences(
        &self,
        preferences: &mut DictationPreferences,
        update: PreferenceChange,
    ) -> (snapshot: DictationPreferences)
        ensures
            final(preferences)@ == changed(old(preferences)@, update),
            snapshot@ == final(preferences)@,
    {
        match update {
            PreferenceChange::AudioDevice(device) => {
                preferences.audio_device = device;
            },
            PreferenceChange::Output(mode) => {
                preferences.output_mode = mode;
            },
        }
        preferences.clone()
    }

    /// Show another state.
    pub fn set_state(&mut self, state: State)
        ensures
            final(self).state.current == state,
            final(self).audio_devices == old(self).audio_devices,
    {
        self.state.current = state;
    }
}

/// The selected input device is one that the menu offers, if it offers any. If the
/// preferences name an offered device, it is that device, shown under its label.
pub proof fn law_selected_device_is_current(
    tray: WhisrsTray,
    preferences: PreferencesView,
    has_transcription: bool,
)
    ensures
        ({
            let group = tray.menu_of(preferences, has_transcription)[1];
            let selected = group->selected;
            &&& tray.audio_devices@.len() > 0 ==> 0 <= selected < group->options.len()
            &&& device_position(tray.audio_devices@, preferences.audio_device) is Some ==> {
                &&& tray.audio_devices@[selected].id@ == preferences.audio_device
                &&& group->options[selected].0 == label_of(
                    tray.audio_devices@,
                    preferences.audio_device,
                )
            }
        }),
{
    lemma_device_position(tray.audio_devices@, preferences.audio_device);
}

/// What is chosen in the menu is what the menu then shows as selected: an output
/// mode by its position, and an input device that the menu offers by the first
/// position with its id.
pub proof fn law_choice_is_shown(
    tray: WhisrsTray,
    preferences: PreferencesView,
    has_transcription: bool,
    mode: OutputMode,
    device: String,
    i: int,
)
    ensures
        ({
            let after = changed(preferences, PreferenceChange::Output(mode));
            tray.menu_of(after, has_transcription)[4]->selected == (if mode is Paste {
                1int
            } else {
                0int
            })
        }),
        ({
            let after = changed(preferences, PreferenceChange::AudioDevice(device));
            let selected = tray.menu_of(after, has_transcription)[1]->selected;
            0 <= i < tray.audio_devices@.len() && tray.audio_devices@[i].id@ == device@ ==> 0
                <= selected <= i && tray.audio_devices@[selected].id@ == device@
        }),
{
    lemma_device_position(tray.audio_devices@, device@);
}

/// Cancelling stands apart, between two separators, and is possible exactly while
/// a dictation is recorded or transcribed. Everything that changes preferences is
/// disabled unless the daemon is idle.
pub proof fn law_menu_follows_state(
    tray: WhisrsTray,
    preferences: PreferencesView,
    has_transcription: bool,
)
    ensures
        ({
            let menu = tray.menu_of(preferences, has_transcription);
            &&& menu.len() == 9
            &&& menu[5] is Separator && menu[7] is Separator
            &&& menu[6]->label == "Cancel current transcription"@
            &&& menu[6]->Standard_enabled <==> (tray.state.current is Recording
                || tray.state.current is Transcribing)
            &&& forall|i: int|
                0 <= i < menu[1]->options.len() ==> (#[trigger] menu[1]->options[i]).1 == (
                tray.state.current is Idle)
            &&& forall|i: int|
                0 <= i < menu[4]->options.len() ==> (#[trigger] menu[4]->options[i]).1 == (
                tray.state.current is Idle)
        }),
{
}

} // verus!
