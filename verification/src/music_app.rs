//! The queued sender's screen state and key handling: the player screen with its queue,
//! the settings form with its editor and interface picker, and the path input with its
//! completions. What needs the file system, the network interfaces or the settings file
//! is asked of the caller through the returned action; the caller reports back.

use vstd::prelude::*;
use crate::music::{
    active_track, address_missing, clamp_index, field_edit_text, field_label, field_value_text,
    interface_missing, playback_toggled, start_requested, stop_requested, stream_finished,
    FieldError, MusicPlayerSettings, PickerOption, PlaybackState, QueueNotice, QueuePlayer,
    SettingsError, SettingsField, SettingsPicker, StreamSettings,
};
use crate::paths::{
    browses_folder, completion_option_label, display_name, display_path_name,
    is_supported_audio_path, option_label,
};
use crate::sdp::chars_of;
use crate::stream::{decimal_text, ipv4_text};
use crate::text::string_from_chars;

verus! {

/// The most path completions the add-music dialog lists at once.
pub const COMPLETION_LIST_LIMIT: usize = 10;

/// Which screen is shown.
#[derive(Debug, Clone, Copy, PartialEq, Eq, Structural)]
pub enum AppScreen {
    Player,
    Settings,
}

/// A settings field being edited as text.
#[derive(Debug, Clone)]
pub struct SettingEdit {
    pub field: SettingsField,
    pub value: Vec<char>,
}

/// The path being typed, with the completions offered for it.
#[derive(Debug, Clone)]
pub struct PathInput {
    pub value: Vec<char>,
    pub completions: Vec<String>,
    pub completion_index: usize,
    pub show_completions: bool,
    pub browse_completions: bool,
}

/// A local IPv4 interface offered by the picker.
#[derive(Debug, Clone)]
pub struct NetworkInterface {
    pub name: String,
    pub ipv4: [u8; 4],
    pub is_loopback: bool,
}

/// A key press. `Interrupt` is Ctrl+C; other keys with modifiers count as the plain key.
#[derive(Debug, Clone, Copy, PartialEq, Eq, Structural)]
pub enum AppKey {
    Char(char),
    Enter,
    Esc,
    Tab,
    BackTab,
    Up,
    Down,
    Backspace,
    Delete,
    Interrupt,
    Other,
}

/// Work that the caller does for the app after a key: write the settings file, list the
/// interfaces (then call `interfaces_refreshed`), list path completions for the path
/// input's value (then call `apply_path_completions`), or look at a path to add (then call
/// `apply_path_probe`).
#[derive(Debug, Clone)]
pub enum AppAction {
    Nothing,
    SaveSettings,
    RefreshInterfaces,
    ListCompletions,
    ProbePath(String),
}

/// What the file system says of a path to add: whether it exists and is a file or a
/// folder, the path with `~` expanded, and for a folder the paths of its file entries.
#[derive(Debug, Clone)]
pub struct PathProbe {
    pub exists: bool,
    pub is_file: bool,
    pub is_dir: bool,
    pub path: String,
    pub files: Vec<String>,
}

/// The queued sender's state.
#[derive(Debug, Clone)]
pub struct MusicPlayerApp {
    pub settings: MusicPlayerSettings,
    pub interface_options: Vec<NetworkInterface>,
    pub screen: AppScreen,
    pub settings_required: bool,
    pub settings_focus: SettingsField,
    pub player: QueuePlayer,
    pub path_input: Option<PathInput>,
    pub edit: Option<SettingEdit>,
    pub picker: Option<SettingsPicker>,
    pub status: String,
    pub should_quit: bool,
}

impl PathInput {
    /// The completion index points into the completions when there are any.
    pub open spec fn wf(&self) -> bool {
        self.completions@.len() == 0 || self.completion_index < self.completions@.len()
    }

    /// An empty input without completions.
    pub fn new() -> (p: Self)
        ensures
            p.value@.len() == 0,
            p.completions@.len() == 0,
            p.completion_index == 0,
            !p.show_completions,
            !p.browse_completions,
    {
        PathInput {
            value: Vec::new(),
            completions: Vec::new(),
            completion_index: 0,
            show_completions: false,
            browse_completions: false,
        }
    }

    /// Forget the completions (the typed value stays).
    pub fn clear_completions(&mut self)
        ensures
            final(self).value@ == old(self).value@,
            final(self).completions@.len() == 0,
            final(self).completion_index == 0,
            !final(self).show_completions,
            !final(self).browse_completions,
    {
        self.completions.clear();
        self.completion_index = 0;
        self.show_completions = false;
        self.browse_completions = false;
    }

    /// A single completion equal to the typed folder path, found while not browsing:
    /// the next Tab should list that folder instead.
    pub fn should_restart_as_browse_completion(&self) -> (r: bool)
        requires
            self.wf(),
        ensures
            r == (!self.browse_completions && self.completions@.len() == 1 && browses_folder(
                self.value@,
            ) && self.completions@[self.completion_index as int]@ == self.value@),
    {
        if self.browse_completions || self.completions.len() != 1 {
            return false;
        }
        let value = string_from_chars(self.value.as_slice());
        if !crate::paths::is_browse_completion_input(value.as_str()) {
            return false;
        }
        let c = chars_of(self.completions[self.completion_index].as_str());
        if c.len() != self.value.len() {
            return false;
        }
        let r = crate::text::starts_with(c.as_slice(), self.value.as_slice());
        assert(c@.take(self.value@.len() as int) =~= c@);
        r
    }
}

/// The text of a missing-setting error.
pub open spec fn settings_error_text(e: SettingsError) -> Seq<char> {
    match e {
        SettingsError::AddressRequired => "Stream address is required"@,
        SettingsError::InterfaceRequired => "Interface is required"@,
    }
}

/// The text of a missing-setting error.
pub fn settings_error_message(e: SettingsError) -> (s: String)
    ensures
        s@ == settings_error_text(e),
{
    match e {
        SettingsError::AddressRequired => "Stream address is required".to_owned(),
        SettingsError::InterfaceRequired => "Interface is required".to_owned(),
    }
}

/// The label of a playback state.
pub open spec fn state_label(s: PlaybackState) -> Seq<char> {
    match s {
        PlaybackState::Stopped => "stopped"@,
        PlaybackState::Starting { .. } => "starting"@,
        PlaybackState::Streaming { .. } => "streaming"@,
        PlaybackState::Stopping { .. } => "stopping"@,
        PlaybackState::Error { .. } => "error"@,
    }
}

/// What Space does in a playback state.
pub open spec fn action_label(s: PlaybackState) -> Seq<char> {
    match s {
        PlaybackState::Stopped => "play"@,
        PlaybackState::Error { .. } => "play"@,
        _ => "stop"@,
    }
}

/// The status line of a fresh app.
pub open spec fn initial_status(settings: MusicPlayerSettings, settings_created: bool) -> Seq<char> {
    if settings_created {
        "First launch: set stream address and interface, then press s."@
    } else if address_missing(settings.stream) || interface_missing(settings.stream) {
        "Complete required stream settings, then press s."@
    } else {
        "Ready"@
    }
}

/// The label of an interface option: name, address and a loopback mark.
pub open spec fn interface_label(i: NetworkInterface) -> Seq<char> {
    i.name@ + "  "@ + ipv4_text(i.ipv4@) + if i.is_loopback {
        " loopback"@
    } else {
        Seq::<char>::empty()
    }
}

/// The picker options for a list of interfaces.
pub open spec fn options_match(interfaces: Seq<NetworkInterface>, options: Seq<PickerOption>) -> bool {
    &&& options.len() == interfaces.len()
    &&& forall|k: int| 0 <= k < options.len() ==> (#[trigger] options[k]).label@ == interface_label(interfaces[k])
        && options[k].interface_name@ == interfaces[k].name@
}

/// An option stands for the configured interface `chosen`: by name, or as the name of an
/// interface whose address is `chosen`.
pub open spec fn option_stands_for(interfaces: Seq<NetworkInterface>, o: PickerOption, chosen: Seq<char>) -> bool {
    o.interface_name@ == chosen || exists|k: int| 0 <= k < interfaces.len() && #[trigger] interfaces[k].name@ == o.interface_name@ && ipv4_text(interfaces[k].ipv4@) == chosen
}

/// The option the picker opens on: the first that stands for the configured interface,
/// else the first.
pub open spec fn opening_option(interfaces: Seq<NetworkInterface>, options: Seq<PickerOption>, chosen: Option<Seq<char>>, r: int) -> bool {
    match chosen {
        None => r == 0,
        Some(c) => if exists|k: int| 0 <= k < options.len() && option_stands_for(interfaces, #[trigger] options[k], c) {
            &&& 0 <= r < options.len()
            &&& option_stands_for(interfaces, options[r], c)
            &&& forall|k: int| 0 <= k < r ==> !option_stands_for(interfaces, #[trigger] options[k], c)
        } else {
            r == 0
        },
    }
}

/// An interface matches the configured one by name or by address.
pub open spec fn interface_is(i: NetworkInterface, chosen: Seq<char>) -> bool {
    i.name@ == chosen || ipv4_text(i.ipv4@) == chosen
}

/// How the form shows the configured interface: the first known interface it names (by
/// name or address) with its address, else as configured; `Select interface` when unset.
pub open spec fn interface_description(interfaces: Seq<NetworkInterface>, chosen: Option<Seq<char>>) -> Seq<char> {
    match chosen {
        None => "Select interface"@,
        Some(c) => if exists|k: int| 0 <= k < interfaces.len() && interface_is(#[trigger] interfaces[k], c) {
            let k = choose|k: int| 0 <= k < interfaces.len() && interface_is(interfaces[k], c) && forall|j: int| 0 <= j < k ==> !interface_is(#[trigger] interfaces[j], c);
            interfaces[k].name@ + "  "@ + ipv4_text(interfaces[k].ipv4@)
        } else {
            c
        },
    }
}

/// The stream target shown on the player: `address:port`, or a request to set it.
pub open spec fn target_text(s: StreamSettings) -> Seq<char> {
    if address_missing(s) {
        "Set stream address"@
    } else {
        s.address@ + ":"@ + decimal_text(s.port as nat)
    }
}

/// The value the form shows for a field.
pub open spec fn display_value_text(interfaces: Seq<NetworkInterface>, s: StreamSettings, f: SettingsField) -> Seq<char> {
    if f == SettingsField::Address && address_missing(s) {
        "Set stream address"@
    } else if f == SettingsField::Interface {
        interface_description(interfaces, crate::sdp::opt_text(s.interface))
    } else {
        field_value_text(f, s)
    }
}

/// The name of the track that is playing.
pub open spec fn now_playing_text(q: QueuePlayer, files: Seq<String>) -> Seq<char> {
    match active_track(q.playback_state) {
        None => "No track playing"@,
        Some(i) => if i < files.len() {
            display_name(files[i as int]@)
        } else {
            "Unknown track"@
        },
    }
}

fn ipv4_string(a: [u8; 4]) -> (s: String)
    ensures
        s@ == ipv4_text(a@),
{
    let mut out: Vec<char> = Vec::new();
    crate::stream::push_ipv4(&mut out, a);
    assert(out@ =~= ipv4_text(a@));
    string_from_chars(out.as_slice())
}

fn same_text(a: &str, b: &str) -> (r: bool)
    ensures
        r == (a@ == b@),
{
    let x = chars_of(a);
    let y = chars_of(b);
    crate::music::equals_word(x.as_slice(), y.as_slice())
}

fn interface_is_exec(i: &NetworkInterface, chosen: &str) -> (r: bool)
    ensures
        r == interface_is(*i, chosen@),
{
    if same_text(i.name.as_str(), chosen) {
        return true;
    }
    let ip = ipv4_string(i.ipv4);
    same_text(ip.as_str(), chosen)
}

impl MusicPlayerApp {
    /// The completion index and the picker selection point into their lists.
    pub open spec fn wf(&self) -> bool {
        &&& match self.path_input {
            Some(p) => p.wf(),
            None => true,
        }
        &&& match self.picker {
            Some(p) => p.options@.len() == 0 || p.selected < p.options@.len(),
            None => true,
        }
    }

    /// A fresh app: the settings form opens first when the settings were just created or
    /// a required setting is missing.
    pub fn new_with_interfaces(settings: MusicPlayerSettings, settings_created: bool, interface_options: Vec<NetworkInterface>) -> (app: Self)
        ensures
            app.wf(),
            app.settings == settings,
            app.interface_options@ == interface_options@,
            app.settings_required == (settings_created || address_missing(settings.stream)
                || interface_missing(settings.stream)),
            app.screen == if app.settings_required {
                AppScreen::Settings
            } else {
                AppScreen::Player
            },
            app.settings_focus == SettingsField::SessionName,
            app.player.queue_selected == 0,
            app.player.playback_state == PlaybackState::Stopped,
            app.player.pending_command.is_none(),
            app.player.started_at_ns.is_none(),
            app.player.duration_ns.is_none(),
            app.path_input.is_none(),
            app.edit.is_none(),
            app.picker.is_none(),
            app.status@ == initial_status(settings, settings_created),
            !app.should_quit,
    {
        let missing = crate::music::settings_required_at_start(&settings.stream, false);
        let required = settings_created || missing;
        let status = if settings_created {
            "First launch: set stream address and interface, then press s.".to_owned()
        } else if missing {
            "Complete required stream settings, then press s.".to_owned()
        } else {
            "Ready".to_owned()
        };
        MusicPlayerApp {
            settings,
            interface_options,
            screen: if required {
                AppScreen::Settings
            } else {
                AppScreen::Player
            },
            settings_required: required,
            settings_focus: SettingsField::SessionName,
            player: QueuePlayer::new(),
            path_input: None,
            edit: None,
            picker: None,
            status,
            should_quit: false,
        }
    }

    /// The label of the playback state.
    pub fn playback_state_label(&self) -> (s: String)
        ensures
            s@ == state_label(self.player.playback_state),
    {
        match self.player.playback_state {
            PlaybackState::Stopped => "stopped".to_owned(),
            PlaybackState::Starting { .. } => "starting".to_owned(),
            PlaybackState::Streaming { .. } => "streaming".to_owned(),
            PlaybackState::Stopping { .. } => "stopping".to_owned(),
            PlaybackState::Error { .. } => "error".to_owned(),
        }
    }

    /// What Space would do now.
    pub fn playback_action_label(&self) -> (s: String)
        ensures
            s@ == action_label(self.player.playback_state),
    {
        match self.player.playback_state {
            PlaybackState::Stopped | PlaybackState::Error { .. } => "play".to_owned(),
            _ => "stop".to_owned(),
        }
    }

    /// The track playback is on, if any.
    pub fn active_track_index(&self) -> (r: Option<usize>)
        ensures
            r == active_track(self.player.playback_state),
    {
        self.player.active_track_index()
    }

    /// The name of the track that is playing.
    pub fn now_playing_track_name(&self) -> (s: String)
        ensures
            s@ == now_playing_text(self.player, self.settings.playlist.files@),
    {
        match self.player.active_track_index() {
            None => "No track playing".to_owned(),
            Some(i) => {
                if i < self.settings.playlist.files.len() {
                    display_path_name(self.settings.playlist.files[i].as_str())
                } else {
                    "Unknown track".to_owned()
                }
            },
        }
    }

    /// The name of the selected queue entry, if the selection is within the queue.
    pub fn selected_track_name(&self) -> (r: Option<String>)
        ensures
            match r {
                Some(s) => self.player.queue_selected < self.settings.playlist.files@.len()
                    && s@ == display_name(self.settings.playlist.files@[self.player.queue_selected as int]@),
                None => self.player.queue_selected >= self.settings.playlist.files@.len(),
            },
    {
        if self.player.queue_selected < self.settings.playlist.files.len() {
            Some(display_path_name(self.settings.playlist.files[self.player.queue_selected].as_str()))
        } else {
            None
        }
    }

    /// Whether the form flags `field` as a missing required value.
    pub fn is_required_setting_missing(&self, field: SettingsField) -> (r: bool)
        ensures
            r == match field {
                SettingsField::Address => address_missing(self.settings.stream),
                SettingsField::Interface => interface_missing(self.settings.stream),
                _ => false,
            },
    {
        crate::music::is_required_setting_missing(&self.settings.stream, field)
    }

    /// The picker options for the known interfaces.
    pub fn interface_picker_options(&self) -> (options: Vec<PickerOption>)
        ensures
            options_match(self.interface_options@, options@),
    {
        let mut options: Vec<PickerOption> = Vec::new();
        let mut k: usize = 0;
        while k < self.interface_options.len()
            invariant
                k <= self.interface_options@.len(),
                options@.len() == k,
                forall|j: int| 0 <= j < k ==> (#[trigger] options@[j]).label@ == interface_label(self.interface_options@[j])
                    && options@[j].interface_name@ == self.interface_options@[j].name@,
            decreases self.interface_options@.len() - k,
        {
            let i = &self.interface_options[k];
            let mut label = i.name.clone();
            label.append("  ");
            let ip = ipv4_string(i.ipv4);
            label.append(ip.as_str());
            if i.is_loopback {
                label.append(" loopback");
            } else {
                assert(label@ + Seq::<char>::empty() =~= label@);
            }
            options.push(PickerOption { label, interface_name: i.name.clone() });
            k = k + 1;
        }
        options
    }

    fn stands_for_exec(&self, o: &PickerOption, chosen: &str) -> (r: bool)
        ensures
            r == option_stands_for(self.interface_options@, *o, chosen@),
    {
        if same_text(o.interface_name.as_str(), chosen) {
            return true;
        }
        let mut k: usize = 0;
        while k < self.interface_options.len()
            invariant
                k <= self.interface_options@.len(),
                o.interface_name@ != chosen@,
                forall|j: int| 0 <= j < k ==> !(#[trigger] self.interface_options@[j].name@ == o.interface_name@ && ipv4_text(self.interface_options@[j].ipv4@) == chosen@),
            decreases self.interface_options@.len() - k,
        {
            let c = &self.interface_options[k];
            if same_text(c.name.as_str(), o.interface_name.as_str()) {
                let ip = ipv4_string(c.ipv4);
                if same_text(ip.as_str(), chosen) {
                    return true;
                }
            }
            k = k + 1;
        }
        false
    }

    /// The option the picker opens on: the first that stands for the configured
    /// interface, else the first.
    pub fn selected_interface_option(&self, options: &Vec<PickerOption>) -> (r: usize)
        ensures
            opening_option(self.interface_options@, options@, crate::sdp::opt_text(self.settings.stream.interface), r as int),
    {
        let chosen = match &self.settings.stream.interface {
            Some(c) => c,
            None => return 0,
        };
        let mut k: usize = 0;
        while k < options.len()
            invariant
                k <= options@.len(),
                crate::sdp::opt_text(self.settings.stream.interface) == Some(chosen@),
                forall|j: int| 0 <= j < k ==> !option_stands_for(self.interface_options@, #[trigger] options@[j], chosen@),
            decreases options@.len() - k,
        {
            if self.stands_for_exec(&options[k], chosen.as_str()) {
                assert(option_stands_for(self.interface_options@, options@[k as int], chosen@));
                return k;
            }
            k = k + 1;
        }
        0
    }

    /// How the form shows the configured interface.
    pub fn describe_interface_setting(&self) -> (s: String)
        ensures
            s@ == interface_description(self.interface_options@, crate::sdp::opt_text(self.settings.stream.interface)),
    {
        let chosen = match &self.settings.stream.interface {
            Some(c) => c,
            None => return "Select interface".to_owned(),
        };
        let mut k: usize = 0;
        while k < self.interface_options.len()
            invariant
                k <= self.interface_options@.len(),
                crate::sdp::opt_text(self.settings.stream.interface) == Some(chosen@),
                forall|j: int| 0 <= j < k ==> !interface_is(#[trigger] self.interface_options@[j], chosen@),
            decreases self.interface_options@.len() - k,
        {
            let i = &self.interface_options[k];
            if interface_is_exec(i, chosen.as_str()) {
                proof {
                    let opts = self.interface_options@;
                    let c = chosen@;
                    let kk = k as int;
                    assert(interface_is(opts[kk], c));
                    assert(forall|j: int| 0 <= j < kk ==> !interface_is(#[trigger] opts[j], c));
                    assert(exists|m: int| 0 <= m < opts.len() && interface_is(opts[m], c) && forall|j: int| 0 <= j < m ==> !interface_is(#[trigger] opts[j], c));
                    let ks = choose|m: int| 0 <= m < opts.len() && interface_is(opts[m], c) && forall|j: int| 0 <= j < m ==> !interface_is(#[trigger] opts[j], c);
                    if ks < kk {
                        assert(!interface_is(opts[ks], c));
                    } else if ks > kk {
                        assert(!interface_is(opts[kk], c));
                    }
                    assert(ks == kk);
                    assert(exists|m: int| 0 <= m < opts.len() && interface_is(#[trigger] opts[m], c));
                }
                let mut s = i.name.clone();
                s.append("  ");
                let ip = ipv4_string(i.ipv4);
                s.append(ip.as_str());
                return s;
            }
            k = k + 1;
        }
        chosen.clone()
    }

    /// The stream target shown on the player.
    pub fn stream_target_label(&self) -> (s: String)
        ensures
            s@ == target_text(self.settings.stream),
    {
        if crate::music::is_required_setting_missing(&self.settings.stream, SettingsField::Address) {
            return "Set stream address".to_owned();
        }
        let mut s = self.settings.stream.address.clone();
        s.append(":");
        let port = crate::music::decimal_string(self.settings.stream.port as u64);
        s.append(port.as_str());
        s
    }

    /// The value the form shows for a field.
    pub fn setting_display_value(&self, field: SettingsField) -> (s: String)
        ensures
            s@ == display_value_text(self.interface_options@, self.settings.stream, field),
    {
        if field == SettingsField::Address && crate::music::is_required_setting_missing(&self.settings.stream, SettingsField::Address) {
            return "Set stream address".to_owned();
        }
        if field == SettingsField::Interface {
            return self.describe_interface_setting();
        }
        field.value(&self.settings.stream)
    }
}

/// `new` is `old` with only the player and the status line changed.
pub open spec fn only_playback_changed(old: MusicPlayerApp, new: MusicPlayerApp) -> bool {
    new == (MusicPlayerApp { player: new.player, status: new.status, ..old })
}

/// `new` is `old` with only the status line changed.
pub open spec fn only_status_changed(old: MusicPlayerApp, new: MusicPlayerApp) -> bool {
    new == (MusicPlayerApp { status: new.status, ..old })
}

/// The status line after a start request that gave notice `n`.
pub open spec fn start_status(n: QueueNotice, files: Seq<String>) -> Seq<char> {
    match n {
        QueueNotice::SettingsIncomplete(e) => settings_error_text(e),
        QueueNotice::QueueEmpty => "Queue is empty"@,
        QueueNotice::Starting { track_index } => "Starting "@ + display_name(files[track_index as int]@),
        _ => Seq::<char>::empty(),
    }
}

/// `new` is `old` after asking to stream the selected track.
pub open spec fn app_start_requested(old: MusicPlayerApp, new: MusicPlayerApp) -> bool {
    let n = crate::music::start_notice(old.player, old.settings);
    &&& only_playback_changed(old, new)
    &&& start_requested(old.player, old.settings, new.player, n)
    &&& new.status@ == start_status(n, old.settings.playlist.files@)
}

/// `new` is `old` after asking the stream on `t` to stop.
pub open spec fn app_stop_requested(old: MusicPlayerApp, t: usize, new: MusicPlayerApp) -> bool {
    &&& only_playback_changed(old, new)
    &&& stop_requested(old.player, t, new.player)
    &&& new.status@ == "Stopping current stream..."@
}

/// `new` is `old` after Space on the player screen.
pub open spec fn app_playback_toggled(old: MusicPlayerApp, new: MusicPlayerApp) -> bool {
    match old.player.playback_state {
        PlaybackState::Starting { track_index } => app_stop_requested(old, track_index, new),
        PlaybackState::Streaming { track_index } => app_stop_requested(old, track_index, new),
        PlaybackState::Stopping { .. } => only_status_changed(old, new) && new.status@ == "Stopping current stream..."@,
        _ => app_start_requested(old, new),
    }
}

/// The notice of the end of a stream.
pub open spec fn finish_notice(q: QueuePlayer, settings: MusicPlayerSettings, t: usize, result: Result<(), String>) -> QueueNotice {
    match result {
        Err(_) => QueueNotice::Failed,
        Ok(_) => if q.playback_state matches PlaybackState::Stopping { .. } {
            QueueNotice::Stopped
        } else if t + 1 < settings.playlist.files@.len() {
            crate::music::start_notice(
                QueuePlayer { queue_selected: (t + 1) as usize, started_at_ns: None, duration_ns: None, ..q },
                settings,
            )
        } else {
            QueueNotice::QueueFinished
        },
    }
}

/// The status line at the end of a stream.
pub open spec fn finish_status(result: Result<(), String>, n: QueueNotice, files: Seq<String>) -> Seq<char> {
    match result {
        Err(m) => "Streaming failed: "@ + m@,
        Ok(_) => match n {
            QueueNotice::Stopped => "Stopped"@,
            QueueNotice::QueueFinished => "Queue finished"@,
            _ => start_status(n, files),
        },
    }
}

/// The status line when a stream starts on `t`.
pub open spec fn streaming_status(t: usize, files: Seq<String>) -> Seq<char> {
    "Streaming "@ + if t < files.len() {
        display_name(files[t as int]@)
    } else {
        "track"@
    }
}

fn start_status_message(n: QueueNotice, files: &Vec<String>) -> (s: String)
    requires
        (n matches QueueNotice::Starting { track_index } ==> track_index < files@.len()),
    ensures
        s@ == start_status(n, files@),
{
    match n {
        QueueNotice::SettingsIncomplete(e) => settings_error_message(e),
        QueueNotice::QueueEmpty => "Queue is empty".to_owned(),
        QueueNotice::Starting { track_index } => {
            let mut s = "Starting ".to_owned();
            let name = display_path_name(files[track_index].as_str());
            s.append(name.as_str());
            s
        },
        _ => String::new(),
    }
}

impl MusicPlayerApp {
    /// Ask to stream the selected track (the settings must be complete and the queue not
    /// empty).
    pub fn request_stream_start(&mut self)
        ensures
            app_start_requested(*old(self), *final(self)),
    {
        let n = self.player.request_stream_start(&self.settings);
        self.status = start_status_message(n, &self.settings.playlist.files);
    }

    /// Ask the stream on `track_index` to stop.
    pub fn request_stream_stop(&mut self, track_index: usize)
        ensures
            app_stop_requested(*old(self), track_index, *final(self)),
    {
        self.player.request_stream_stop(track_index);
        self.status = "Stopping current stream...".to_owned();
    }

    /// Space on the player screen: start when stopped or failed, stop when starting or
    /// streaming, keep waiting while stopping.
    pub fn toggle_playback(&mut self)
        ensures
            app_playback_toggled(*old(self), *final(self)),
    {
        match &self.player.playback_state {
            PlaybackState::Stopped | PlaybackState::Error { .. } => self.request_stream_start(),
            PlaybackState::Starting { track_index } | PlaybackState::Streaming { track_index } => {
                let t = *track_index;
                self.request_stream_stop(t);
            },
            PlaybackState::Stopping { .. } => {
                self.status = "Stopping current stream...".to_owned();
            },
        }
    }

    /// Take the command waiting for the stream task.
    pub fn take_playback_command(&mut self) -> (c: Option<crate::music::PlaybackCommand>)
        ensures
            c == old(self).player.pending_command,
            *final(self) == (MusicPlayerApp {
                player: QueuePlayer { pending_command: None, ..old(self).player },
                ..*old(self)
            }),
    {
        self.player.take_playback_command()
    }

    /// The stream task started `track_index` at monotonic time `started_at_ns`, for a
    /// track of `duration_ns` when known.
    pub fn mark_stream_started_with_duration(&mut self, track_index: usize, started_at_ns: u64, duration_ns: Option<u64>)
        ensures
            only_playback_changed(*old(self), *final(self)),
            final(self).player == (QueuePlayer {
                queue_selected: clamp_index(track_index as int, old(self).settings.playlist.files@.len() as int) as usize,
                playback_state: PlaybackState::Streaming { track_index },
                started_at_ns: Some(started_at_ns),
                duration_ns,
                ..old(self).player
            }),
            final(self).status@ == streaming_status(track_index, old(self).settings.playlist.files@),
    {
        self.player.mark_stream_started(self.settings.playlist.files.len(), track_index, started_at_ns, duration_ns);
        let mut s = "Streaming ".to_owned();
        if track_index < self.settings.playlist.files.len() {
            let name = display_path_name(self.settings.playlist.files[track_index].as_str());
            s.append(name.as_str());
        } else {
            s.append("track");
        }
        self.status = s;
    }

    /// The stream task on `track_index` ended with `result` (its error text on failure).
    pub fn mark_stream_finished(&mut self, track_index: usize, result: Result<(), String>)
        ensures
            only_playback_changed(*old(self), *final(self)),
            stream_finished(old(self).player, old(self).settings, track_index, result, final(self).player,
                finish_notice(old(self).player, old(self).settings, track_index, result)),
            final(self).status@ == finish_status(result, finish_notice(old(self).player, old(self).settings, track_index, result), old(self).settings.playlist.files@),
    {
        let failure = match &result {
            Err(m) => Some(m.clone()),
            Ok(_) => None,
        };
        let n = self.player.mark_stream_finished(&self.settings, track_index, result);
        self.status = match failure {
            Some(m) => {
                let mut s = "Streaming failed: ".to_owned();
                s.append(m.as_str());
                s
            },
            None => match n {
                QueueNotice::Stopped => "Stopped".to_owned(),
                QueueNotice::QueueFinished => "Queue finished".to_owned(),
                _ => start_status_message(n, &self.settings.playlist.files),
            },
        };
    }

    /// A stop was asked for while no stream task runs: playback is stopped at once.
    pub fn stop_without_stream(&mut self)
        ensures
            only_playback_changed(*old(self), *final(self)),
            final(self).player == (QueuePlayer {
                playback_state: PlaybackState::Stopped,
                started_at_ns: None,
                duration_ns: None,
                ..old(self).player
            }),
            final(self).status@ == "Stopped"@,
    {
        self.player.playback_state = PlaybackState::Stopped;
        self.player.started_at_ns = None;
        self.player.duration_ns = None;
        self.status = "Stopped".to_owned();
    }
}

/// `new` is `old` with the settings form opened (required when `required` or already so).
pub open spec fn settings_opened(old: MusicPlayerApp, required: bool, new: MusicPlayerApp) -> bool {
    &&& new == (MusicPlayerApp {
        screen: AppScreen::Settings,
        settings_required: old.settings_required || required,
        settings_focus: SettingsField::SessionName,
        edit: None,
        picker: None,
        status: new.status,
        ..old
    })
    &&& new.status@ == "Review stream settings."@
}

/// `new` is `old` after Esc on the settings form: required settings keep it open with a
/// warning; otherwise the player comes back.
pub open spec fn settings_closed_or_warned(old: MusicPlayerApp, new: MusicPlayerApp) -> bool {
    if old.settings_required {
        only_status_changed(old, new) && new.status@ == "Save settings to continue, or press q to quit."@
    } else {
        new == (MusicPlayerApp { screen: AppScreen::Player, status: new.status, ..old })
            && new.status@ == "Settings unchanged"@
    }
}

/// `new` and `a` after saving the form: a missing setting is reported; otherwise the form
/// closes and the settings are to be written.
pub open spec fn settings_saved(old: MusicPlayerApp, new: MusicPlayerApp, a: AppAction) -> bool {
    if address_missing(old.settings.stream) {
        a is Nothing && only_status_changed(old, new) && new.status@ == settings_error_text(SettingsError::AddressRequired)
    } else if interface_missing(old.settings.stream) {
        a is Nothing && only_status_changed(old, new) && new.status@ == settings_error_text(SettingsError::InterfaceRequired)
    } else {
        &&& a is SaveSettings
        &&& new == (MusicPlayerApp {
            settings_required: false,
            screen: AppScreen::Player,
            edit: None,
            picker: None,
            status: new.status,
            ..old
        })
        &&& new.status@ == "Settings saved"@
    }
}

/// `new` is `old` with the focused field open in the text editor.
pub open spec fn text_edit_started(old: MusicPlayerApp, new: MusicPlayerApp) -> bool {
    &&& new == (MusicPlayerApp { edit: new.edit, status: new.status, ..old })
    &&& (new.edit matches Some(e) && e.field == old.settings_focus && e.value@ == field_edit_text(old.settings_focus, old.settings.stream))
    &&& new.status@ == "Editing "@ + field_label(old.settings_focus)
}

/// `new` is `old` with SAP announcements switched.
pub open spec fn sap_toggled(old: MusicPlayerApp, new: MusicPlayerApp) -> bool {
    &&& new == (MusicPlayerApp {
        settings: MusicPlayerSettings {
            stream: StreamSettings { sap: !old.settings.stream.sap, ..old.settings.stream },
            ..old.settings
        },
        status: new.status,
        ..old
    })
    &&& new.status@ == if !old.settings.stream.sap {
        "SAP announcements enabled"@
    } else {
        "SAP announcements disabled"@
    }
}

/// `p` offers the interfaces `interfaces` and opens on the configured one.
pub open spec fn picker_offers(p: SettingsPicker, interfaces: Seq<NetworkInterface>, stream: StreamSettings) -> bool {
    &&& options_match(interfaces, p.options@)
    &&& opening_option(interfaces, p.options@, crate::sdp::opt_text(stream.interface), p.selected as int)
    &&& (p.options@.len() == 0 || p.selected < p.options@.len())
}

/// `new` is `old` with the interface picker open.
pub open spec fn picker_opened(old: MusicPlayerApp, new: MusicPlayerApp) -> bool {
    &&& new == (MusicPlayerApp { picker: new.picker, status: new.status, ..old })
    &&& (new.picker matches Some(p) && picker_offers(p, old.interface_options@, old.settings.stream))
    &&& new.status@ == "Choose a network interface."@
}

/// `new` is `old` after Enter on the focused field: SAP switches, the interface picker
/// opens, any other field opens in the editor.
pub open spec fn edit_or_toggle_started(old: MusicPlayerApp, new: MusicPlayerApp) -> bool {
    if old.settings_focus == SettingsField::Sap {
        sap_toggled(old, new)
    } else if old.settings_focus == SettingsField::Interface {
        picker_opened(old, new)
    } else {
        text_edit_started(old, new)
    }
}

/// `new` is `old` after choosing the picker's selection.
pub open spec fn picker_selection_applied(old: MusicPlayerApp, new: MusicPlayerApp) -> bool {
    match old.picker {
        None => new == old,
        Some(p) => if p.selected < p.options@.len() {
            let name = p.options@[p.selected as int].interface_name@;
            &&& new == (MusicPlayerApp {
                settings: MusicPlayerSettings {
                    stream: StreamSettings { interface: new.settings.stream.interface, ..old.settings.stream },
                    ..old.settings
                },
                picker: None,
                status: new.status,
                ..old
            })
            &&& crate::sdp::opt_text(new.settings.stream.interface) == Some(name)
            &&& new.status@ == "Selected interface "@ + name
        } else {
            new == (MusicPlayerApp { picker: None, status: new.status, ..old })
                && new.status@ == "No interface option selected"@
        },
    }
}

impl MusicPlayerApp {
    /// Open the settings form; `required` keeps it open until the settings are saved.
    pub fn open_settings(&mut self, required: bool)
        ensures
            settings_opened(*old(self), required, *final(self)),
    {
        self.screen = AppScreen::Settings;
        self.settings_required = self.settings_required || required;
        self.settings_focus = SettingsField::SessionName;
        self.edit = None;
        self.picker = None;
        self.status = "Review stream settings.".to_owned();
    }

    /// Esc on the settings form.
    pub fn close_settings_or_warn(&mut self)
        ensures
            settings_closed_or_warned(*old(self), *final(self)),
    {
        if self.settings_required {
            self.status = "Save settings to continue, or press q to quit.".to_owned();
        } else {
            self.screen = AppScreen::Player;
            self.status = "Settings unchanged".to_owned();
        }
    }

    /// Check the required settings; their error text on failure.
    pub fn validate_settings(&self) -> (r: Result<(), String>)
        ensures
            address_missing(self.settings.stream) ==> (r matches Err(m) && m@ == settings_error_text(SettingsError::AddressRequired)),
            !address_missing(self.settings.stream) && interface_missing(self.settings.stream) ==> (r matches Err(m) && m@ == settings_error_text(SettingsError::InterfaceRequired)),
            !address_missing(self.settings.stream) && !interface_missing(self.settings.stream) ==> r is Ok,
    {
        match crate::music::validate_settings(&self.settings.stream) {
            Ok(()) => Ok(()),
            Err(e) => Err(settings_error_message(e)),
        }
    }

    /// Save the form: with the required settings present it closes and the settings are
    /// to be written (`SaveSettings`).
    pub fn save_and_close_settings(&mut self) -> (a: AppAction)
        ensures
            settings_saved(*old(self), *final(self), a),
    {
        if let Err(message) = self.validate_settings() {
            self.status = message;
            return AppAction::Nothing;
        }
        self.settings_required = false;
        self.screen = AppScreen::Player;
        self.edit = None;
        self.picker = None;
        self.status = "Settings saved".to_owned();
        AppAction::SaveSettings
    }

    /// Open the focused field in the text editor.
    pub fn start_text_edit(&mut self)
        ensures
            text_edit_started(*old(self), *final(self)),
    {
        let value = self.settings_focus.edit_value(&self.settings.stream);
        self.edit = Some(SettingEdit { field: self.settings_focus, value: chars_of(value.as_str()) });
        let mut s = "Editing ".to_owned();
        let label = self.settings_focus.label();
        s.append(label.as_str());
        self.status = s;
    }

    /// Switch SAP announcements.
    pub fn toggle_sap(&mut self)
        ensures
            sap_toggled(*old(self), *final(self)),
    {
        self.settings.stream.sap = !self.settings.stream.sap;
        self.status = if self.settings.stream.sap {
            "SAP announcements enabled".to_owned()
        } else {
            "SAP announcements disabled".to_owned()
        };
    }

    /// Open the interface picker on the configured interface.
    pub fn open_interface_picker(&mut self)
        ensures
            picker_opened(*old(self), *final(self)),
    {
        let options = self.interface_picker_options();
        let selected = self.selected_interface_option(&options);
        let picker = SettingsPicker::new_interface(options, selected);
        self.picker = Some(picker);
        self.status = "Choose a network interface.".to_owned();
    }

    /// Enter on the form.
    pub fn start_edit_or_toggle(&mut self)
        ensures
            edit_or_toggle_started(*old(self), *final(self)),
    {
        if self.settings_focus == SettingsField::Sap {
            self.toggle_sap();
            return;
        }
        if self.settings_focus == SettingsField::Interface {
            self.open_interface_picker();
            return;
        }
        self.start_text_edit();
    }

    /// The interfaces were listed again: reopen the picker on them.
    pub fn interfaces_refreshed(&mut self, interfaces: Vec<NetworkInterface>)
        ensures
            *final(self) == (MusicPlayerApp {
                interface_options: final(self).interface_options,
                picker: final(self).picker,
                status: final(self).status,
                ..*old(self)
            }),
            final(self).interface_options@ == interfaces@,
            (final(self).picker matches Some(p) && picker_offers(p, interfaces@, old(self).settings.stream)),
            final(self).status@ == "Interface list refreshed"@,
    {
        self.interface_options = interfaces;
        self.open_interface_picker();
        self.status = "Interface list refreshed".to_owned();
    }

    /// Take the picker's selection as the interface.
    pub fn apply_picker_selection(&mut self)
        ensures
            picker_selection_applied(*old(self), *final(self)),
    {
        let picker = match self.picker.take() {
            Some(p) => p,
            None => return,
        };
        if picker.selected < picker.options.len() {
            let name = picker.options[picker.selected].interface_name.clone();
            self.settings.stream.interface = Some(name.clone());
            let mut s = "Selected interface ".to_owned();
            s.append(name.as_str());
            self.status = s;
        } else {
            self.status = "No interface option selected".to_owned();
        }
    }

    /// Set a field from the text typed for it.
    pub fn apply_field_value(&mut self, field: SettingsField, value: &str) -> (r: Result<(), FieldError>)
        ensures
            *final(self) == (MusicPlayerApp {
                settings: MusicPlayerSettings { stream: final(self).settings.stream, ..old(self).settings },
                ..*old(self)
            }),
            crate::music::field_value_accepted(old(self).settings.stream, field, value@, r, final(self).settings.stream),
    {
        crate::music::apply_field_value(&mut self.settings.stream, field, value)
    }
}

/// `new` is `old` with an empty path input open.
pub open spec fn path_input_opened(old: MusicPlayerApp, new: MusicPlayerApp) -> bool {
    &&& new == (MusicPlayerApp { path_input: new.path_input, status: new.status, ..old })
    &&& (new.path_input matches Some(p) && p.value@.len() == 0 && p.completions@.len() == 0
        && p.completion_index == 0 && !p.show_completions && !p.browse_completions)
    &&& new.status@ == "Enter a music file or folder path."@
}

/// The status line after a completion step left `p`.
pub open spec fn completion_status(p: PathInput) -> Seq<char> {
    let count = decimal_text(p.completions@.len());
    if !p.browse_completions && p.completions@.len() == 1 {
        "Completed path"@
    } else if p.show_completions {
        "Showing "@ + count + " matches, press Tab to cycle"@
    } else {
        count + " matches, press Tab again to show options"@
    }
}

/// `new` is `old` once a completion step left the non-empty completions of `p`: a
/// browsed folder only reports them; otherwise the chosen one becomes the typed path.
pub open spec fn completion_finished(old: MusicPlayerApp, p: PathInput, new: MusicPlayerApp) -> bool {
    &&& new == (MusicPlayerApp { path_input: new.path_input, status: new.status, ..old })
    &&& new.status@ == completion_status(p)
    &&& if p.browse_completions {
        new.path_input == Some(p)
    } else {
        new.path_input matches Some(q) && q == (PathInput { value: q.value, ..p })
            && q.value@ == p.completions@[p.completion_index as int]@
    }
}

/// `new` and `a` after Tab in the path input: with no completions yet they are to be
/// listed (browsing when the input names a folder); a listed folder is shown on the
/// second Tab; further Tabs cycle through the completions.
pub open spec fn path_completion_stepped(old: MusicPlayerApp, new: MusicPlayerApp, a: AppAction) -> bool {
    match old.path_input {
        None => new == old && a is Nothing,
        Some(p0) => {
            let restart = !p0.browse_completions && p0.completions@.len() == 1 && browses_folder(p0.value@)
                && p0.completions@[p0.completion_index as int]@ == p0.value@;
            if restart || p0.completions@.len() == 0 {
                &&& a is ListCompletions
                &&& new == (MusicPlayerApp { path_input: new.path_input, ..old })
                &&& (new.path_input matches Some(p) && p.value@ == p0.value@ && p.completions@.len() == 0
                    && p.completion_index == 0 && !p.show_completions
                    && p.browse_completions == browses_folder(p0.value@))
            } else {
                let len = p0.completions@.len();
                let p2 = if p0.browse_completions && !p0.show_completions {
                    PathInput { show_completions: true, ..p0 }
                } else {
                    PathInput {
                        completion_index: ((p0.completion_index + 1) % (len as int)) as usize,
                        show_completions: p0.browse_completions || len > 1,
                        ..p0
                    }
                };
                a is Nothing && completion_finished(old, p2, new)
            }
        },
    }
}

/// `new` is `old` once the completions `list` were listed for the path input.
pub open spec fn path_completions_applied(old: MusicPlayerApp, list: Seq<String>, new: MusicPlayerApp) -> bool {
    match old.path_input {
        None => new == old,
        Some(p0) => {
            let p1 = PathInput { completions: new.path_input.unwrap().completions, completion_index: 0, show_completions: false, ..p0 };
            if list.len() == 0 {
                &&& new == (MusicPlayerApp { path_input: new.path_input, status: new.status, ..old })
                &&& (new.path_input matches Some(p) && p == p1 && p.completions@ == list)
                &&& new.status@ == "No matching files or folders"@
            } else {
                &&& new.path_input is Some
                &&& new.path_input.unwrap().completions@ == list
                &&& completion_finished(old, p1, new)
            }
        },
    }
}

/// `new` and `r` after Enter with completions shown: the highlighted one becomes the
/// typed path.
pub open spec fn visible_completion_selected(old: MusicPlayerApp, new: MusicPlayerApp, r: bool) -> bool {
    match old.path_input {
        Some(p) => if p.show_completions && p.completions@.len() > 0 {
            let c = p.completions@[p.completion_index as int]@;
            &&& r
            &&& new == (MusicPlayerApp { path_input: new.path_input, status: new.status, ..old })
            &&& (new.path_input matches Some(q) && q.value@ == c && q.completions@.len() == 0
                && q.completion_index == 0 && !q.show_completions && !q.browse_completions)
            &&& new.status@ == "Selected "@ + option_label(c)
        } else {
            !r && new == old
        },
        None => !r && new == old,
    }
}

/// `new` is `old` with the highlighted completion moved one step (wrapping), when
/// completions are shown.
pub open spec fn visible_completion_moved(old: MusicPlayerApp, forward: bool, new: MusicPlayerApp) -> bool {
    match old.path_input {
        Some(p) => if p.show_completions && p.completions@.len() > 0 {
            let len = p.completions@.len() as int;
            let i = if forward {
                (p.completion_index + 1) % len
            } else {
                (p.completion_index + len - 1) % len
            };
            &&& new == (MusicPlayerApp {
                path_input: Some(PathInput { completion_index: i as usize, ..p }),
                status: new.status,
                ..old
            })
            &&& new.status@ == "Selected "@ + option_label(p.completions@[i]@)
        } else {
            new == old
        },
        None => new == old,
    }
}

fn count_status(count: usize, show: bool, browse: bool) -> (s: String)
    ensures
        s@ == if !browse && count == 1 {
            "Completed path"@
        } else if show {
            "Showing "@ + decimal_text(count as nat) + " matches, press Tab to cycle"@
        } else {
            decimal_text(count as nat) + " matches, press Tab again to show options"@
        },
{
    if !browse && count == 1 {
        return "Completed path".to_owned();
    }
    let n = crate::music::decimal_string(count as u64);
    if show {
        let mut s = "Showing ".to_owned();
        s.append(n.as_str());
        s.append(" matches, press Tab to cycle");
        s
    } else {
        let mut s = n;
        s.append(" matches, press Tab again to show options");
        s
    }
}

impl MusicPlayerApp {
    /// Open an empty path input.
    pub fn open_path_input(&mut self)
        ensures
            path_input_opened(*old(self), *final(self)),
    {
        self.path_input = Some(PathInput::new());
        self.status = "Enter a music file or folder path.".to_owned();
    }

    fn finish_completion(&mut self, p: PathInput)
        requires
            p.wf(),
            p.completions@.len() > 0,
        ensures
            completion_finished(*old(self), p, *final(self)),
    {
        let status = count_status(p.completions.len(), p.show_completions, p.browse_completions);
        if p.browse_completions {
            self.path_input = Some(p);
        } else {
            let mut q = p;
            let chosen = chars_of(q.completions[q.completion_index].as_str());
            q.value = chosen;
            self.path_input = Some(q);
        }
        self.status = status;
    }

    /// Tab in the path input.
    pub fn complete_path_input(&mut self) -> (a: AppAction)
        requires
            old(self).wf(),
        ensures
            path_completion_stepped(*old(self), *final(self), a),
    {
        let mut p = match self.path_input.take() {
            Some(p) => p,
            None => return AppAction::Nothing,
        };
        let restart = p.should_restart_as_browse_completion();
        if restart || p.completions.len() == 0 {
            p.clear_completions();
            let value = string_from_chars(p.value.as_slice());
            p.browse_completions = crate::paths::is_browse_completion_input(value.as_str());
            self.path_input = Some(p);
            return AppAction::ListCompletions;
        }
        let len = p.completions.len();
        if p.browse_completions && !p.show_completions {
            p.show_completions = true;
        } else {
            p.completion_index = (p.completion_index + 1) % len;
            p.show_completions = p.browse_completions || len > 1;
        }
        self.finish_completion(p);
        AppAction::Nothing
    }

    /// The completions listed for the path input (after `ListCompletions`).
    pub fn apply_path_completions(&mut self, list: Vec<String>)
        ensures
            path_completions_applied(*old(self), list@, *final(self)),
    {
        let mut p = match self.path_input.take() {
            Some(p) => p,
            None => return,
        };
        p.completions = list;
        p.completion_index = 0;
        p.show_completions = false;
        if p.completions.len() == 0 {
            self.path_input = Some(p);
            self.status = "No matching files or folders".to_owned();
            return;
        }
        self.finish_completion(p);
    }

    /// Enter with completions shown: take the highlighted one.
    pub fn select_visible_path_completion(&mut self) -> (r: bool)
        requires
            old(self).wf(),
        ensures
            visible_completion_selected(*old(self), *final(self), r),
    {
        let shown = match &self.path_input {
            Some(p) => p.show_completions && p.completions.len() > 0,
            None => false,
        };
        if !shown {
            return false;
        }
        let mut p = self.path_input.take().unwrap();
        let selected = p.completions[p.completion_index].clone();
        let label = completion_option_label(selected.as_str());
        p.value = chars_of(selected.as_str());
        p.clear_completions();
        self.path_input = Some(p);
        let mut s = "Selected ".to_owned();
        s.append(label.as_str());
        self.status = s;
        true
    }

    /// Move the highlighted completion one step, wrapping.
    pub fn move_visible_path_completion(&mut self, forward: bool)
        requires
            old(self).wf(),
        ensures
            visible_completion_moved(*old(self), forward, *final(self)),
    {
        let shown = match &self.path_input {
            Some(p) => p.show_completions && p.completions.len() > 0,
            None => false,
        };
        if !shown {
            return;
        }
        let mut p = self.path_input.take().unwrap();
        let len = p.completions.len();
        let i = if forward {
            if p.completion_index + 1 == len { 0 } else { p.completion_index + 1 }
        } else {
            if p.completion_index == 0 { len - 1 } else { p.completion_index - 1 }
        };
        proof {
            let c = p.completion_index as int;
            let n = len as int;
            assert(0 <= c < n);
            if forward {
                if c + 1 == n {
                    vstd::arithmetic::div_mod::lemma_fundamental_div_mod_converse(c + 1, n, 1, 0);
                } else {
                    vstd::arithmetic::div_mod::lemma_fundamental_div_mod_converse(c + 1, n, 0, c + 1);
                }
            } else {
                if c == 0 {
                    vstd::arithmetic::div_mod::lemma_fundamental_div_mod_converse(c + n - 1, n, 0, n - 1);
                } else {
                    vstd::arithmetic::div_mod::lemma_fundamental_div_mod_converse(c + n - 1, n, 1, c - 1);
                }
            }
        }
        p.completion_index = i;
        let label = completion_option_label(p.completions[i].as_str());
        self.path_input = Some(p);
        let mut s = "Selected ".to_owned();
        s.append(label.as_str());
        self.status = s;
    }

    /// Down in the path input.
    pub fn move_path_completion_next(&mut self)
        requires
            old(self).wf(),
        ensures
            visible_completion_moved(*old(self), true, *final(self)),
    {
        self.move_visible_path_completion(true);
    }

    /// Up in the path input.
    pub fn move_path_completion_previous(&mut self)
        requires
            old(self).wf(),
        ensures
            visible_completion_moved(*old(self), false, *final(self)),
    {
        self.move_visible_path_completion(false);
    }
}

/// The files that a probed path adds, as texts: the file itself, or a folder's supported
/// audio files in path order.
pub open spec fn probe_adds(probe: PathProbe, added: Seq<Seq<char>>) -> bool {
    if probe.is_file {
        added == seq![probe.path@]
    } else if probe.is_dir {
        &&& crate::paths::sorted_texts(added)
        &&& added.to_multiset() == crate::paths::audio_texts(crate::paths::text_views(probe.files@)).to_multiset()
    } else {
        added.len() == 0
    }
}

/// `new` and `a` once the path to add was probed: a missing path or an unsupported file
/// is reported; otherwise its audio files are queued (the selection moves to the first
/// entry of a queue that was empty) and the settings are to be written.
pub open spec fn path_probe_applied(old: MusicPlayerApp, probe: PathProbe, new: MusicPlayerApp, a: AppAction) -> bool {
    if !probe.exists {
        a is Nothing && only_status_changed(old, new) && new.status@ == "Path does not exist"@
    } else if probe.is_file && !is_supported_audio_path(probe.path@) {
        a is Nothing && only_status_changed(old, new) && new.status@ == "Unsupported audio file type"@
    } else {
        let old_files = crate::paths::text_views(old.settings.playlist.files@);
        let new_files = crate::paths::text_views(new.settings.playlist.files@);
        let added = new_files.skip(old_files.len() as int);
        if added.len() == 0 {
            &&& a is Nothing
            &&& only_status_changed(old, new)
            &&& probe_adds(probe, Seq::<Seq<char>>::empty())
            &&& new.status@ == if probe.is_dir {
                "No supported audio files found in folder"@
            } else {
                "No supported audio files found"@
            }
        } else {
            &&& a is SaveSettings
            &&& new == (MusicPlayerApp {
                settings: MusicPlayerSettings {
                    playlist: crate::music::PlaylistSettings { files: new.settings.playlist.files },
                    ..old.settings
                },
                player: QueuePlayer {
                    queue_selected: if old_files.len() == 0 { 0 } else { old.player.queue_selected },
                    ..old.player
                },
                status: new.status,
                ..old
            })
            &&& new_files.len() > old_files.len()
            &&& new_files.take(old_files.len() as int) == old_files
            &&& probe_adds(probe, added)
            &&& new.status@ == if added.len() == 1 {
                "Added 1 track"@
            } else {
                "Added "@ + decimal_text(added.len()) + " tracks"@
            }
        }
    }
}

/// `new` and `a` after removing the selected queue entry.
pub open spec fn queue_item_removed(old: MusicPlayerApp, new: MusicPlayerApp, a: AppAction) -> bool {
    let files = old.settings.playlist.files@;
    if files.len() == 0 {
        a is Nothing && only_status_changed(old, new) && new.status@ == "Queue is empty"@
    } else {
        let i = clamp_index(old.player.queue_selected as int, files.len() as int);
        &&& a is SaveSettings
        &&& new == (MusicPlayerApp {
            settings: MusicPlayerSettings {
                playlist: crate::music::PlaylistSettings { files: new.settings.playlist.files },
                ..old.settings
            },
            player: QueuePlayer {
                queue_selected: clamp_index(old.player.queue_selected as int, files.len() - 1) as usize,
                ..old.player
            },
            status: new.status,
            ..old
        })
        &&& new.settings.playlist.files@ == files.remove(i)
        &&& new.status@ == "Removed "@ + display_name(files[i]@)
    }
}

/// `new` is `old` with the queue selection moved one step (wrapping).
pub open spec fn queue_selection_moved(old: MusicPlayerApp, forward: bool, new: MusicPlayerApp) -> bool {
    let len = old.settings.playlist.files@.len() as int;
    let s = old.player.queue_selected as int;
    new == (MusicPlayerApp {
        player: QueuePlayer {
            queue_selected: if len == 0 {
                old.player.queue_selected
            } else if forward {
                ((s + 1) % len) as usize
            } else {
                ((s + len - 1) % len) as usize
            },
            ..old.player
        },
        ..old
    })
}

impl MusicPlayerApp {
    /// Enter in the path input with no completion shown: a blank path is refused;
    /// otherwise the trimmed path is to be probed.
    pub fn add_playlist_path(&mut self, value: &str) -> (a: AppAction)
        ensures
            crate::music::trimmed(value@).len() == 0 ==> a is Nothing && only_status_changed(*old(self), *final(self))
                && final(self).status@ == "Enter a file or folder path"@,
            crate::music::trimmed(value@).len() > 0 ==> *final(self) == *old(self)
                && (a matches AppAction::ProbePath(p) && p@ == crate::music::trimmed(value@)),
    {
        let t = crate::music::trim_text(value);
        if t.len() == 0 {
            self.status = "Enter a file or folder path".to_owned();
            return AppAction::Nothing;
        }
        AppAction::ProbePath(string_from_chars(t.as_slice()))
    }

    /// The path to add was probed.
    pub fn apply_path_probe(&mut self, probe: PathProbe) -> (a: AppAction)
        ensures
            path_probe_applied(*old(self), probe, *final(self), a),
    {
        let ghost old_files = crate::paths::text_views(self.settings.playlist.files@);
        if !probe.exists {
            self.status = "Path does not exist".to_owned();
            return AppAction::Nothing;
        }
        let supported = crate::paths::is_supported_audio_file(probe.path.as_str());
        if probe.is_file && !supported {
            self.status = "Unsupported audio file type".to_owned();
            return AppAction::Nothing;
        }
        let files: Vec<String> = if probe.is_file {
            let mut v: Vec<String> = Vec::new();
            v.push(probe.path.clone());
            v
        } else if probe.is_dir {
            crate::paths::collect_audio_files(&probe.files)
        } else {
            Vec::new()
        };
        assert(probe_adds(probe, crate::paths::text_views(files@))) by {
            if probe.is_file {
                assert(crate::paths::text_views(files@) =~= seq![probe.path@]);
            } else if !probe.is_dir {
                assert(crate::paths::text_views(files@) =~= Seq::<Seq<char>>::empty());
            }
        }
        if files.len() == 0 {
            assert(crate::paths::text_views(files@) =~= Seq::<Seq<char>>::empty());
            assert(crate::paths::text_views(self.settings.playlist.files@).skip(old_files.len() as int) =~= Seq::<Seq<char>>::empty());
            self.status = if probe.is_dir {
                "No supported audio files found in folder".to_owned()
            } else {
                "No supported audio files found".to_owned()
            };
            return AppAction::Nothing;
        }
        let was_empty = self.settings.playlist.files.len() == 0;
        let count = files.len();
        let ghost before = self.settings.playlist.files@;
        let mut k: usize = 0;
        while k < files.len()
            invariant
                k <= files@.len(),
                self.settings.playlist.files@ == before + files@.take(k as int),
                *self == (MusicPlayerApp {
                    settings: MusicPlayerSettings {
                        playlist: crate::music::PlaylistSettings { files: self.settings.playlist.files },
                        ..old(self).settings
                    },
                    ..*old(self)
                }),
                before == old(self).settings.playlist.files@,
                probe_adds(probe, crate::paths::text_views(files@)),
                count == files@.len(),
                was_empty == (before.len() == 0),
            decreases files@.len() - k,
        {
            self.settings.playlist.files.push(files[k].clone());
            assert(files@.take(k + 1) =~= files@.take(k as int).push(files@[k as int]));
            k = k + 1;
        }
        assert(files@.take(files@.len() as int) =~= files@);
        if was_empty {
            self.player.queue_selected = 0;
        }
        proof {
            let nv = crate::paths::text_views(self.settings.playlist.files@);
            assert(nv =~= crate::paths::text_views(before) + crate::paths::text_views(files@));
            assert(nv.skip(old_files.len() as int) =~= crate::paths::text_views(files@));
            assert(nv.take(old_files.len() as int) =~= old_files);
        }
        self.status = if count == 1 {
            "Added 1 track".to_owned()
        } else {
            let mut s = "Added ".to_owned();
            let n = crate::music::decimal_string(count as u64);
            s.append(n.as_str());
            s.append(" tracks");
            s
        };
        AppAction::SaveSettings
    }

    /// Remove the selected queue entry; the settings are then to be written.
    pub fn remove_selected_queue_item(&mut self) -> (a: AppAction)
        ensures
            queue_item_removed(*old(self), *final(self), a),
    {
        if self.settings.playlist.files.len() == 0 {
            self.status = "Queue is empty".to_owned();
            return AppAction::Nothing;
        }
        let removed = self.player.remove_selected_queue_item(&mut self.settings.playlist.files);
        let removed = removed.unwrap();
        let mut s = "Removed ".to_owned();
        let name = display_path_name(removed.as_str());
        s.append(name.as_str());
        self.status = s;
        AppAction::SaveSettings
    }

    /// Down on the player: select the next queue entry, wrapping.
    pub fn move_queue_selection_next(&mut self)
        ensures
            queue_selection_moved(*old(self), true, *final(self)),
    {
        self.player.move_queue_selection_next(self.settings.playlist.files.len());
    }

    /// Up on the player: select the previous queue entry, wrapping.
    pub fn move_queue_selection_previous(&mut self)
        ensures
            queue_selection_moved(*old(self), false, *final(self)),
    {
        self.player.move_queue_selection_previous(self.settings.playlist.files.len());
    }
}

/// The typed text after Backspace.
pub open spec fn backspaced(v: Seq<char>) -> Seq<char> {
    if v.len() > 0 {
        v.drop_last()
    } else {
        v
    }
}

/// `new` and `r` after a key in the settings editor: Esc cancels, Enter applies the typed
/// value (its error ends the key), Backspace and characters edit the text.
pub open spec fn edit_key_handled(old: MusicPlayerApp, key: AppKey, new: MusicPlayerApp, r: Result<AppAction, FieldError>) -> bool {
    match old.edit {
        None => new == old && (r matches Ok(AppAction::Nothing)),
        Some(e) => match key {
            AppKey::Esc => (r matches Ok(AppAction::Nothing))
                && new == (MusicPlayerApp { edit: None, status: new.status, ..old })
                && new.status@ == "Edit canceled"@,
            AppKey::Enter => {
                &&& new == (MusicPlayerApp {
                    settings: MusicPlayerSettings { stream: new.settings.stream, ..old.settings },
                    edit: None,
                    status: new.status,
                    ..old
                })
                &&& crate::music::field_value_accepted(old.settings.stream, e.field, e.value@, match r {
                    Ok(_) => Ok::<(), FieldError>(()),
                    Err(x) => Err::<(), FieldError>(x),
                }, new.settings.stream)
                &&& match r {
                    Ok(a) => (a matches AppAction::Nothing) && new.status@ == "Updated "@ + field_label(e.field),
                    Err(_) => new.status == old.status,
                }
            },
            AppKey::Backspace => (r matches Ok(AppAction::Nothing))
                && new == (MusicPlayerApp { edit: new.edit, ..old })
                && (new.edit matches Some(n) && n.field == e.field && n.value@ == backspaced(e.value@)),
            AppKey::Char(c) => (r matches Ok(AppAction::Nothing))
                && new == (MusicPlayerApp { edit: new.edit, ..old })
                && (new.edit matches Some(n) && n.field == e.field && n.value@ == e.value@.push(c)),
            _ => new == old && (r matches Ok(AppAction::Nothing)),
        },
    }
}

/// `new` and `r` after a key on the settings form.
pub open spec fn settings_key_handled(old: MusicPlayerApp, key: AppKey, new: MusicPlayerApp, r: Result<AppAction, FieldError>) -> bool {
    if old.edit is Some {
        edit_key_handled(old, key, new, r)
    } else {
        match key {
            AppKey::Esc => (r matches Ok(AppAction::Nothing)) && settings_closed_or_warned(old, new),
            AppKey::Char('q') => (r matches Ok(AppAction::Nothing)) && if old.settings_required {
                new == (MusicPlayerApp { should_quit: true, ..old })
            } else {
                new == (MusicPlayerApp { screen: AppScreen::Player, status: new.status, ..old })
                    && new.status@ == "Settings unchanged"@
            },
            AppKey::Char('s') => r matches Ok(a) && settings_saved(old, new, a),
            AppKey::Char('e') => (r matches Ok(AppAction::Nothing)) && text_edit_started(old, new),
            AppKey::Enter => (r matches Ok(AppAction::Nothing)) && edit_or_toggle_started(old, new),
            AppKey::Down | AppKey::Tab => (r matches Ok(AppAction::Nothing))
                && new == (MusicPlayerApp { settings_focus: new.settings_focus, ..old })
                && crate::music::field_index(new.settings_focus) == (crate::music::field_index(old.settings_focus) + 1) % 9,
            AppKey::Up | AppKey::BackTab => (r matches Ok(AppAction::Nothing))
                && new == (MusicPlayerApp { settings_focus: new.settings_focus, ..old })
                && crate::music::field_index(new.settings_focus) == (crate::music::field_index(old.settings_focus) + 8) % 9,
            AppKey::Char(' ') => (r matches Ok(AppAction::Nothing)) && if old.settings_focus == SettingsField::Sap {
                sap_toggled(old, new)
            } else {
                new == old
            },
            _ => (r matches Ok(AppAction::Nothing)) && new == old,
        }
    }
}

/// `new` and `a` after a key in the interface picker.
pub open spec fn picker_key_handled(old: MusicPlayerApp, key: AppKey, new: MusicPlayerApp, a: AppAction) -> bool {
    match old.picker {
        None => new == old && a is Nothing,
        Some(p) => {
            let len = p.options@.len() as int;
            match key {
                AppKey::Esc => a is Nothing && new == (MusicPlayerApp { picker: None, status: new.status, ..old })
                    && new.status@ == "Selection canceled"@,
                AppKey::Down | AppKey::Tab => a is Nothing && new == (MusicPlayerApp {
                    picker: Some(SettingsPicker {
                        selected: if len == 0 { p.selected } else { ((p.selected + 1) % len) as usize },
                        ..p
                    }),
                    ..old
                }),
                AppKey::Up | AppKey::BackTab => a is Nothing && new == (MusicPlayerApp {
                    picker: Some(SettingsPicker {
                        selected: if len == 0 { p.selected } else { ((p.selected + len - 1) % len) as usize },
                        ..p
                    }),
                    ..old
                }),
                AppKey::Char('r') => a is RefreshInterfaces && new == old,
                AppKey::Enter => a is Nothing && picker_selection_applied(old, new),
                _ => a is Nothing && new == old,
            }
        },
    }
}

/// Stepping back through the open picker's choices stays within `usize` (the step adds
/// the selection and the number of choices).
pub open spec fn picker_step_fits(app: MusicPlayerApp) -> bool {
    match app.picker {
        Some(p) => p.selected + p.options@.len() <= usize::MAX,
        None => true,
    }
}

/// `new` and `a` after a key on the player screen.
pub open spec fn player_key_handled(old: MusicPlayerApp, key: AppKey, new: MusicPlayerApp, a: AppAction) -> bool {
    match key {
        AppKey::Char('q') | AppKey::Esc => a is Nothing && new == (MusicPlayerApp { should_quit: true, ..old }),
        AppKey::Char('s') | AppKey::Char('c') => a is Nothing && settings_opened(old, false, new),
        AppKey::Char('a') => a is Nothing && path_input_opened(old, new),
        AppKey::Char('d') | AppKey::Delete => queue_item_removed(old, new, a),
        AppKey::Down | AppKey::Char('j') => a is Nothing && queue_selection_moved(old, true, new),
        AppKey::Up | AppKey::Char('k') => a is Nothing && queue_selection_moved(old, false, new),
        AppKey::Char(' ') => a is Nothing && app_playback_toggled(old, new),
        _ => a is Nothing && new == old,
    }
}

/// `new` and `a` after a key in the path input.
pub open spec fn path_key_handled(old: MusicPlayerApp, key: AppKey, new: MusicPlayerApp, a: AppAction) -> bool {
    match old.path_input {
        None => new == old && a is Nothing,
        Some(p) => match key {
            AppKey::Esc => a is Nothing && new == (MusicPlayerApp { path_input: None, status: new.status, ..old })
                && new.status@ == "Add canceled"@,
            AppKey::Enter => if p.show_completions && p.completions@.len() > 0 {
                a is Nothing && visible_completion_selected(old, new, true)
            } else if crate::music::trimmed(p.value@).len() == 0 {
                a is Nothing && new == (MusicPlayerApp { path_input: None, status: new.status, ..old })
                    && new.status@ == "Enter a file or folder path"@
            } else {
                new == (MusicPlayerApp { path_input: None, ..old })
                    && (a matches AppAction::ProbePath(t) && t@ == crate::music::trimmed(p.value@))
            },
            AppKey::Tab => path_completion_stepped(old, new, a),
            AppKey::Down => a is Nothing && visible_completion_moved(old, true, new),
            AppKey::Up => a is Nothing && visible_completion_moved(old, false, new),
            AppKey::Backspace => a is Nothing && new == (MusicPlayerApp { path_input: new.path_input, ..old })
                && (new.path_input matches Some(q) && q.value@ == backspaced(p.value@)
                    && q.completions@.len() == 0 && q.completion_index == 0
                    && !q.show_completions && !q.browse_completions),
            AppKey::Char(c) => a is Nothing && new == (MusicPlayerApp { path_input: new.path_input, ..old })
                && (new.path_input matches Some(q) && q.value@ == p.value@.push(c)
                    && q.completions@.len() == 0 && q.completion_index == 0
                    && !q.show_completions && !q.browse_completions),
            _ => a is Nothing && new == old,
        },
    }
}

/// `new` and `r` after a key: Ctrl+C quits; otherwise the path input, the picker, or the
/// screen shown takes the key.
pub open spec fn key_handled(old: MusicPlayerApp, key: AppKey, new: MusicPlayerApp, r: Result<AppAction, FieldError>) -> bool {
    if key == AppKey::Interrupt {
        (r matches Ok(AppAction::Nothing)) && new == (MusicPlayerApp { should_quit: true, ..old })
    } else if old.path_input is Some {
        r matches Ok(a) && path_key_handled(old, key, new, a)
    } else if old.picker is Some {
        r matches Ok(a) && picker_key_handled(old, key, new, a)
    } else if old.screen == AppScreen::Player {
        r matches Ok(a) && player_key_handled(old, key, new, a)
    } else {
        settings_key_handled(old, key, new, r)
    }
}

impl MusicPlayerApp {
    /// A key in the settings editor.
    pub fn handle_edit_key(&mut self, key: AppKey) -> (r: Result<AppAction, FieldError>)
        requires
            old(self).wf(),
        ensures
            edit_key_handled(*old(self), key, *final(self), r),
            final(self).wf(),
    {
        let mut e = match self.edit.take() {
            Some(e) => e,
            None => return Ok(AppAction::Nothing),
        };
        match key {
            AppKey::Esc => {
                self.status = "Edit canceled".to_owned();
                Ok(AppAction::Nothing)
            },
            AppKey::Enter => {
                let value = string_from_chars(e.value.as_slice());
                match self.apply_field_value(e.field, value.as_str()) {
                    Ok(()) => {
                        let mut s = "Updated ".to_owned();
                        let label = e.field.label();
                        s.append(label.as_str());
                        self.status = s;
                        Ok(AppAction::Nothing)
                    },
                    Err(x) => Err(x),
                }
            },
            AppKey::Backspace => {
                if e.value.len() > 0 {
                    e.value.pop();
                }
                self.edit = Some(e);
                Ok(AppAction::Nothing)
            },
            AppKey::Char(c) => {
                e.value.push(c);
                self.edit = Some(e);
                Ok(AppAction::Nothing)
            },
            _ => {
                self.edit = Some(e);
                Ok(AppAction::Nothing)
            },
        }
    }

    /// A key on the settings form.
    pub fn handle_settings_key(&mut self, key: AppKey) -> (r: Result<AppAction, FieldError>)
        requires
            old(self).wf(),
        ensures
            settings_key_handled(*old(self), key, *final(self), r),
            final(self).wf(),
    {
        if self.edit.is_some() {
            return self.handle_edit_key(key);
        }
        match key {
            AppKey::Esc => self.close_settings_or_warn(),
            AppKey::Char('q') => {
                if self.settings_required {
                    self.should_quit = true;
                } else {
                    self.screen = AppScreen::Player;
                    self.status = "Settings unchanged".to_owned();
                }
            },
            AppKey::Char('s') => return Ok(self.save_and_close_settings()),
            AppKey::Char('e') => self.start_text_edit(),
            AppKey::Enter => self.start_edit_or_toggle(),
            AppKey::Down | AppKey::Tab => self.settings_focus = self.settings_focus.next(),
            AppKey::Up | AppKey::BackTab => self.settings_focus = self.settings_focus.previous(),
            AppKey::Char(' ') => {
                if self.settings_focus == SettingsField::Sap {
                    self.toggle_sap();
                }
            },
            _ => {},
        }
        Ok(AppAction::Nothing)
    }

    /// A key in the interface picker.
    pub fn handle_picker_key(&mut self, key: AppKey) -> (a: AppAction)
        requires
            old(self).wf(),
            picker_step_fits(*old(self)),
        ensures
            picker_key_handled(*old(self), key, *final(self), a),
            final(self).wf(),
    {
        if self.picker.is_none() {
            return AppAction::Nothing;
        }
        match key {
            AppKey::Esc => {
                self.picker = None;
                self.status = "Selection canceled".to_owned();
            },
            AppKey::Down | AppKey::Tab => {
                let mut p = self.picker.take().unwrap();
                p.move_next();
                self.picker = Some(p);
            },
            AppKey::Up | AppKey::BackTab => {
                let mut p = self.picker.take().unwrap();
                p.move_previous();
                self.picker = Some(p);
            },
            AppKey::Char('r') => return AppAction::RefreshInterfaces,
            AppKey::Enter => self.apply_picker_selection(),
            _ => {},
        }
        AppAction::Nothing
    }

    /// A key on the player screen.
    pub fn handle_player_key(&mut self, key: AppKey) -> (a: AppAction)
        requires
            old(self).wf(),
        ensures
            player_key_handled(*old(self), key, *final(self), a),
            final(self).wf(),
    {
        match key {
            AppKey::Char('q') | AppKey::Esc => self.should_quit = true,
            AppKey::Char('s') | AppKey::Char('c') => self.open_settings(false),
            AppKey::Char('a') => self.open_path_input(),
            AppKey::Char('d') | AppKey::Delete => return self.remove_selected_queue_item(),
            AppKey::Down | AppKey::Char('j') => self.move_queue_selection_next(),
            AppKey::Up | AppKey::Char('k') => self.move_queue_selection_previous(),
            AppKey::Char(' ') => self.toggle_playback(),
            _ => {},
        }
        AppAction::Nothing
    }

    /// A key in the path input.
    pub fn handle_path_input_key(&mut self, key: AppKey) -> (a: AppAction)
        requires
            old(self).wf(),
        ensures
            path_key_handled(*old(self), key, *final(self), a),
            final(self).wf(),
    {
        if self.path_input.is_none() {
            return AppAction::Nothing;
        }
        match key {
            AppKey::Esc => {
                self.path_input = None;
                self.status = "Add canceled".to_owned();
                AppAction::Nothing
            },
            AppKey::Enter => {
                if self.select_visible_path_completion() {
                    return AppAction::Nothing;
                }
                let input = self.path_input.take().unwrap();
                let value = string_from_chars(input.value.as_slice());
                self.add_playlist_path(value.as_str())
            },
            AppKey::Tab => self.complete_path_input(),
            AppKey::Down => {
                self.move_path_completion_next();
                AppAction::Nothing
            },
            AppKey::Up => {
                self.move_path_completion_previous();
                AppAction::Nothing
            },
            AppKey::Backspace => {
                let mut p = self.path_input.take().unwrap();
                if p.value.len() > 0 {
                    p.value.pop();
                }
                p.clear_completions();
                self.path_input = Some(p);
                AppAction::Nothing
            },
            AppKey::Char(c) => {
                let mut p = self.path_input.take().unwrap();
                p.value.push(c);
                p.clear_completions();
                self.path_input = Some(p);
                AppAction::Nothing
            },
            _ => AppAction::Nothing,
        }
    }

    /// A key press.
    pub fn handle_key(&mut self, key: AppKey) -> (r: Result<AppAction, FieldError>)
        requires
            old(self).wf(),
            picker_step_fits(*old(self)),
        ensures
            key_handled(*old(self), key, *final(self), r),
            final(self).wf(),
    {
        if key == AppKey::Interrupt {
            self.should_quit = true;
            return Ok(AppAction::Nothing);
        }
        if self.path_input.is_some() {
            return Ok(self.handle_path_input_key(key));
        }
        if self.picker.is_some() {
            return Ok(self.handle_picker_key(key));
        }
        match self.screen {
            AppScreen::Player => Ok(self.handle_player_key(key)),
            AppScreen::Settings => self.handle_settings_key(key),
        }
    }
}

} // verus!
