use aes67_tools::music::{
    FieldError, MusicPlayerSettings, PlaybackCommand, PlaybackStartRequest, PlaybackState,
    SettingsField,
};
use aes67_tools::music_app::{
    AppAction, AppKey, AppScreen, MusicPlayerApp, NetworkInterface, PathProbe,
};
use aes67_tools::paths::{
    completion_plan, completion_values, expand_user_path_with_home, DirEntryInfo,
};

/// A small in-memory file tree standing in for the disk: folders with their entries, and
/// files.
struct FakeFs {
    dirs: Vec<(String, Vec<DirEntryInfo>)>,
    files: Vec<String>,
    home: Option<String>,
}

impl FakeFs {
    fn new() -> Self {
        FakeFs { dirs: Vec::new(), files: Vec::new(), home: Some("/home/me".to_string()) }
    }

    fn add_dir(&mut self, path: &str) {
        let trimmed = path.trim_end_matches('/');
        if self.dirs.iter().any(|(d, _)| d == trimmed) {
            return;
        }
        self.dirs.push((trimmed.to_string(), Vec::new()));
        if let Some((parent, name)) = trimmed.rsplit_once('/') {
            let parent = if parent.is_empty() { "/" } else { parent };
            self.add_dir(parent);
            self.entry(parent, name, true);
        }
    }

    fn add_file(&mut self, path: &str) {
        self.files.push(path.to_string());
        let (parent, name) = path.rsplit_once('/').unwrap();
        self.add_dir(parent);
        self.entry(parent, name, false);
    }

    fn entry(&mut self, parent: &str, name: &str, is_dir: bool) {
        let parent = parent.trim_end_matches('/');
        let parent = if parent.is_empty() { "/" } else { parent };
        for (d, entries) in self.dirs.iter_mut() {
            if d == parent && !entries.iter().any(|e| e.name == name) {
                entries.push(DirEntryInfo { name: name.to_string(), is_dir, is_file: !is_dir });
            }
        }
    }

    fn dir_entries(&self, path: &str) -> Option<&Vec<DirEntryInfo>> {
        let trimmed = path.trim_end_matches('/');
        let trimmed = if trimmed.is_empty() { "/" } else { trimmed };
        self.dirs.iter().find(|(d, _)| d == trimmed).map(|(_, e)| e)
    }

    fn expand(&self, path: &str) -> String {
        expand_user_path_with_home(path, self.home.as_deref()).unwrap_or_else(|| path.to_string())
    }

    fn completions(&self, input: &str) -> Vec<String> {
        let Some(plan) = completion_plan(input, self.home.as_deref()) else {
            return Vec::new();
        };
        let Some(entries) = self.dir_entries(&plan.fs_parent) else {
            return Vec::new();
        };
        completion_values(entries, &plan.fs_parent, plan.display_parent.as_deref(), &plan.prefix)
    }

    fn probe(&self, path: &str) -> PathProbe {
        let expanded = self.expand(path);
        let is_file = self.files.contains(&expanded);
        let entries = self.dir_entries(&expanded);
        let files = entries
            .map(|entries| {
                entries
                    .iter()
                    .filter(|e| e.is_file)
                    .map(|e| format!("{}/{}", expanded.trim_end_matches('/'), e.name))
                    .collect()
            })
            .unwrap_or_default();
        PathProbe {
            exists: is_file || entries.is_some(),
            is_file,
            is_dir: entries.is_some(),
            path: expanded,
            files,
        }
    }
}

fn press(app: &mut MusicPlayerApp, fs: &FakeFs, key: AppKey) -> Result<(), FieldError> {
    let mut action = app.handle_key(key)?;
    loop {
        action = match action {
            AppAction::Nothing | AppAction::SaveSettings => return Ok(()),
            AppAction::RefreshInterfaces => {
                app.interfaces_refreshed(app.interface_options.clone());
                return Ok(());
            }
            AppAction::ListCompletions => {
                let value: String = app.path_input.as_ref().unwrap().value.iter().collect();
                app.apply_path_completions(fs.completions(&value));
                return Ok(());
            }
            AppAction::ProbePath(path) => app.apply_path_probe(fs.probe(&path)),
        };
    }
}

fn type_text(app: &mut MusicPlayerApp, fs: &FakeFs, text: &str) {
    for ch in text.chars() {
        press(app, fs, AppKey::Char(ch)).unwrap();
    }
}

fn input_value(app: &MusicPlayerApp) -> String {
    app.path_input.as_ref().expect("input should remain open").value.iter().collect()
}

fn interface(name: &str, ipv4: [u8; 4]) -> NetworkInterface {
    NetworkInterface { name: name.to_string(), ipv4, is_loopback: false }
}

fn configured_app() -> MusicPlayerApp {
    let mut settings = MusicPlayerSettings::default();
    settings.stream.address = "239.69.83.1".to_string();
    settings.stream.interface = Some("en0".to_string());
    MusicPlayerApp::new_with_interfaces(settings, false, vec![interface("en0", [192, 168, 1, 42])])
}

#[test]
fn missing_settings_launches_with_settings_modal_open() {
    let app = MusicPlayerApp::new_with_interfaces(MusicPlayerSettings::default(), true, Vec::new());

    assert_eq!(app.screen, AppScreen::Settings);
    assert!(app.settings_required);
    assert_eq!(app.status, "First launch: set stream address and interface, then press s.");
}

#[test]
fn existing_settings_launches_on_player_screen() {
    let app = configured_app();

    assert_eq!(app.screen, AppScreen::Player);
    assert!(!app.settings_required);
    assert_eq!(app.status, "Ready");
}

#[test]
fn existing_settings_without_address_reopens_required_settings() {
    let mut settings = MusicPlayerSettings::default();
    settings.stream.interface = Some("en0".to_string());
    let app = MusicPlayerApp::new_with_interfaces(settings, false, Vec::new());

    assert_eq!(app.screen, AppScreen::Settings);
    assert!(app.settings_required);
    assert_eq!(app.status, "Complete required stream settings, then press s.");
}

#[test]
fn existing_settings_without_interface_reopens_required_settings() {
    let mut settings = MusicPlayerSettings::default();
    settings.stream.address = "239.69.83.1".to_string();
    let app = MusicPlayerApp::new_with_interfaces(settings, false, Vec::new());

    assert_eq!(app.screen, AppScreen::Settings);
    assert!(app.settings_required);
}

#[test]
fn settings_key_reopens_same_settings_modal() {
    let fs = FakeFs::new();
    let mut app = MusicPlayerApp::new_with_interfaces(MusicPlayerSettings::default(), false, Vec::new());

    press(&mut app, &fs, AppKey::Char('s')).unwrap();

    assert_eq!(app.screen, AppScreen::Settings);
    assert_eq!(app.settings_focus, SettingsField::SessionName);
    assert_eq!(app.status, "Stream address is required");
}

#[test]
fn interface_field_enter_opens_interface_picker() {
    let fs = FakeFs::new();
    let mut app = MusicPlayerApp::new_with_interfaces(
        MusicPlayerSettings::default(),
        false,
        vec![interface("en0", [192, 168, 1, 42])],
    );
    app.open_settings(false);
    app.settings_focus = SettingsField::Interface;

    press(&mut app, &fs, AppKey::Enter).unwrap();

    let picker = app.picker.as_ref().expect("picker should be open");
    assert!(!picker.options.iter().any(|option| option.label == "Default route"));
    assert!(picker
        .options
        .iter()
        .any(|option| option.label.contains("en0") && option.label.contains("192.168.1.42")));
    assert_eq!(picker.options[0].label, "en0  192.168.1.42");
    assert_eq!(app.status, "Choose a network interface.");
}

#[test]
fn interface_picker_selects_interface_name_through_keys() {
    let fs = FakeFs::new();
    let mut app = MusicPlayerApp::new_with_interfaces(
        MusicPlayerSettings::default(),
        false,
        vec![interface("en0", [192, 168, 1, 42]), interface("en1", [10, 0, 0, 2])],
    );
    app.open_settings(false);
    app.settings_focus = SettingsField::Interface;
    press(&mut app, &fs, AppKey::Enter).unwrap();
    press(&mut app, &fs, AppKey::Down).unwrap();
    press(&mut app, &fs, AppKey::Enter).unwrap();

    assert_eq!(app.settings.stream.interface.as_deref(), Some("en1"));
    assert!(app.picker.is_none());
    assert_eq!(app.status, "Selected interface en1");
}

#[test]
fn picker_opens_on_the_interface_named_by_address() {
    let mut app = configured_app();
    app.interface_options.push(interface("eth1", [10, 0, 0, 9]));
    app.settings.stream.interface = Some("10.0.0.9".to_string());
    app.open_interface_picker();
    assert_eq!(app.picker.as_ref().unwrap().selected, 1);
    assert_eq!(app.describe_interface_setting(), "eth1  10.0.0.9");
    app.settings.stream.interface = Some("wlan7".to_string());
    assert_eq!(app.describe_interface_setting(), "wlan7");
    app.settings.stream.interface = None;
    assert_eq!(app.describe_interface_setting(), "Select interface");
}

#[test]
fn settings_save_requires_interface_through_keys() {
    let fs = FakeFs::new();
    let mut settings = MusicPlayerSettings::default();
    settings.stream.address = "239.69.83.1".to_string();
    let mut app = MusicPlayerApp::new_with_interfaces(settings, true, vec![interface("en0", [192, 168, 1, 42])]);

    press(&mut app, &fs, AppKey::Char('s')).unwrap();

    assert_eq!(app.screen, AppScreen::Settings);
    assert!(app.settings_required);
    assert!(app.status.contains("Interface is required"));
}

#[test]
fn field_edit_through_keys_updates_stream_address_and_saves() {
    let fs = FakeFs::new();
    let mut settings = MusicPlayerSettings::default();
    settings.stream.interface = Some("en0".to_string());
    let mut app = MusicPlayerApp::new_with_interfaces(settings, false, Vec::new());
    press(&mut app, &fs, AppKey::Down).unwrap();
    assert_eq!(app.settings_focus, SettingsField::Address);
    press(&mut app, &fs, AppKey::Enter).unwrap();
    assert_eq!(app.status, "Editing Stream address");
    type_text(&mut app, &fs, "239.69.83.9");
    press(&mut app, &fs, AppKey::Enter).unwrap();
    assert_eq!(app.settings.stream.address, "239.69.83.9");
    assert_eq!(app.status, "Updated Stream address");

    assert!(matches!(app.handle_key(AppKey::Char('s')), Ok(AppAction::SaveSettings)));
    assert_eq!(app.screen, AppScreen::Player);
    assert_eq!(app.status, "Settings saved");
}

#[test]
fn invalid_field_value_is_an_error() {
    let mut app = configured_app();
    app.open_settings(false);
    app.settings_focus = SettingsField::Port;
    app.start_text_edit();
    assert_eq!(app.edit.as_ref().unwrap().value, vec!['5', '0', '0', '4']);
    for _ in 0..4 {
        app.handle_key(AppKey::Backspace).unwrap();
    }
    app.handle_key(AppKey::Char('0')).unwrap();
    assert_eq!(app.handle_key(AppKey::Enter).unwrap_err(), FieldError::ZeroPort);
    assert!(app.edit.is_none());
    assert_eq!(app.settings.stream.port, 5004);
}

#[test]
fn settings_escape_warns_while_required_and_space_toggles_sap() {
    let fs = FakeFs::new();
    let mut app = MusicPlayerApp::new_with_interfaces(MusicPlayerSettings::default(), true, Vec::new());
    press(&mut app, &fs, AppKey::Esc).unwrap();
    assert_eq!(app.status, "Save settings to continue, or press q to quit.");
    for _ in 0..4 {
        press(&mut app, &fs, AppKey::Tab).unwrap();
    }
    assert_eq!(app.settings_focus, SettingsField::Sap);
    press(&mut app, &fs, AppKey::Char(' ')).unwrap();
    assert!(!app.settings.stream.sap);
    assert_eq!(app.status, "SAP announcements disabled");
    press(&mut app, &fs, AppKey::Char('q')).unwrap();
    assert!(app.should_quit);
}

#[test]
fn add_audio_file_from_path_input_persists_queue() {
    let mut fs = FakeFs::new();
    fs.add_file("/tmp/t/track.wav");
    let mut app = configured_app();

    press(&mut app, &fs, AppKey::Char('a')).unwrap();
    type_text(&mut app, &fs, "/tmp/t/track.wav");
    assert!(matches!(app.handle_key(AppKey::Enter), Ok(AppAction::ProbePath(_))));
    let action = app.apply_path_probe(fs.probe("/tmp/t/track.wav"));

    assert!(matches!(action, AppAction::SaveSettings));
    assert_eq!(app.settings.playlist.files, vec!["/tmp/t/track.wav".to_string()]);
    assert_eq!(app.status, "Added 1 track");
}

#[test]
fn add_folder_adds_supported_audio_files_in_sorted_order() {
    let mut fs = FakeFs::new();
    fs.add_file("/tmp/t/music/b.flac");
    fs.add_file("/tmp/t/music/notes.txt");
    fs.add_file("/tmp/t/music/a.WAV");
    let mut app = configured_app();

    press(&mut app, &fs, AppKey::Char('a')).unwrap();
    type_text(&mut app, &fs, "/tmp/t/music");
    press(&mut app, &fs, AppKey::Enter).unwrap();

    assert_eq!(
        app.settings.playlist.files,
        vec!["/tmp/t/music/a.WAV".to_string(), "/tmp/t/music/b.flac".to_string()]
    );
    assert_eq!(app.status, "Added 2 tracks");
}

#[test]
fn unsupported_playlist_path_does_not_modify_queue() {
    let mut fs = FakeFs::new();
    fs.add_file("/tmp/t/notes.txt");
    let mut app = configured_app();

    press(&mut app, &fs, AppKey::Char('a')).unwrap();
    type_text(&mut app, &fs, "/tmp/t/notes.txt");
    press(&mut app, &fs, AppKey::Enter).unwrap();

    assert!(app.settings.playlist.files.is_empty());
    assert!(app.status.contains("Unsupported audio file type"));
}

#[test]
fn missing_playlist_path_does_not_modify_queue() {
    let fs = FakeFs::new();
    let mut app = configured_app();

    press(&mut app, &fs, AppKey::Char('a')).unwrap();
    type_text(&mut app, &fs, "/tmp/t/missing.wav");
    press(&mut app, &fs, AppKey::Enter).unwrap();

    assert!(app.settings.playlist.files.is_empty());
    assert!(app.status.contains("Path does not exist"));
}

#[test]
fn blank_path_and_empty_folder_are_reported() {
    let mut fs = FakeFs::new();
    fs.add_dir("/tmp/t/empty");
    let mut app = configured_app();
    press(&mut app, &fs, AppKey::Char('a')).unwrap();
    type_text(&mut app, &fs, "   ");
    press(&mut app, &fs, AppKey::Enter).unwrap();
    assert_eq!(app.status, "Enter a file or folder path");
    press(&mut app, &fs, AppKey::Char('a')).unwrap();
    type_text(&mut app, &fs, "/tmp/t/empty");
    press(&mut app, &fs, AppKey::Enter).unwrap();
    assert_eq!(app.status, "No supported audio files found in folder");
    press(&mut app, &fs, AppKey::Char('a')).unwrap();
    press(&mut app, &fs, AppKey::Esc).unwrap();
    assert!(app.path_input.is_none());
    assert_eq!(app.status, "Add canceled");
}

#[test]
fn tab_completes_matching_folder_with_trailing_separator() {
    let mut fs = FakeFs::new();
    fs.add_dir("/tmp/t/Music");
    let mut app = configured_app();

    press(&mut app, &fs, AppKey::Char('a')).unwrap();
    type_text(&mut app, &fs, "/tmp/t/mu");
    press(&mut app, &fs, AppKey::Tab).unwrap();

    assert_eq!(input_value(&app), "/tmp/t/Music/");
    assert_eq!(app.status, "Completed path");
}

#[test]
fn tab_completion_expands_home_directory_prefix() {
    let mut fs = FakeFs::new();
    fs.add_dir("/home/me/Music");

    assert_eq!(fs.completions("~/mu"), vec!["~/Music/".to_string()]);
}

#[test]
fn empty_path_tab_lists_without_selecting_first_completion() {
    let mut fs = FakeFs::new();
    fs.add_dir("./Album");
    let mut app = configured_app();

    press(&mut app, &fs, AppKey::Char('a')).unwrap();
    press(&mut app, &fs, AppKey::Tab).unwrap();
    let input = app.path_input.as_ref().unwrap();
    assert_eq!(input_value(&app), "");
    assert!(!input.show_completions);
    assert_eq!(input.completions, vec!["Album/".to_string()]);

    press(&mut app, &fs, AppKey::Tab).unwrap();
    let input = app.path_input.as_ref().unwrap();
    assert_eq!(input_value(&app), "");
    assert!(input.show_completions);
}

#[test]
fn folder_path_tab_lists_without_selecting_first_completion() {
    let mut fs = FakeFs::new();
    fs.add_dir("/tmp/t/music/Album");
    fs.add_file("/tmp/t/music/intro.wav");
    let mut app = configured_app();

    press(&mut app, &fs, AppKey::Char('a')).unwrap();
    type_text(&mut app, &fs, "/tmp/t/music/");
    press(&mut app, &fs, AppKey::Tab).unwrap();
    assert_eq!(input_value(&app), "/tmp/t/music/");
    assert!(!app.path_input.as_ref().unwrap().show_completions);
    assert_eq!(app.status, "2 matches, press Tab again to show options");

    press(&mut app, &fs, AppKey::Tab).unwrap();
    assert_eq!(input_value(&app), "/tmp/t/music/");
    assert!(app.path_input.as_ref().unwrap().show_completions);
    assert_eq!(app.status, "Showing 2 matches, press Tab to cycle");
}

#[test]
fn folder_path_single_match_still_shows_option_on_second_tab() {
    let mut fs = FakeFs::new();
    fs.add_dir("/tmp/t/music/Album");
    let mut app = configured_app();

    press(&mut app, &fs, AppKey::Char('a')).unwrap();
    type_text(&mut app, &fs, "/tmp/t/music/");
    press(&mut app, &fs, AppKey::Tab).unwrap();
    press(&mut app, &fs, AppKey::Tab).unwrap();

    let input = app.path_input.as_ref().unwrap();
    assert_eq!(input_value(&app), "/tmp/t/music/");
    assert!(input.show_completions);
    assert_eq!(input.completions.len(), 1);
    assert!(app.status.contains("Showing 1 matches"));
    assert!(!app.status.contains("Completed path"));
}

#[test]
fn folder_path_options_ignore_hidden_entries() {
    let mut fs = FakeFs::new();
    fs.add_dir("/tmp/t/music/.Trash");
    fs.add_dir("/tmp/t/music/Album");
    fs.add_file("/tmp/t/music/.draft.wav");
    fs.add_file("/tmp/t/music/intro.wav");

    let completions = fs.completions("/tmp/t/music/");

    assert_eq!(
        completions,
        vec!["/tmp/t/music/Album/".to_string(), "/tmp/t/music/intro.wav".to_string()]
    );
}

#[test]
fn completed_folder_path_can_be_browsed_with_next_tabs() {
    let mut fs = FakeFs::new();
    fs.add_dir("/tmp/t/Music/Album");
    let mut app = configured_app();

    press(&mut app, &fs, AppKey::Char('a')).unwrap();
    type_text(&mut app, &fs, "/tmp/t/Mu");
    press(&mut app, &fs, AppKey::Tab).unwrap();
    assert_eq!(input_value(&app), "/tmp/t/Music/");
    assert!(app.status.contains("Completed path"));

    press(&mut app, &fs, AppKey::Tab).unwrap();
    let input = app.path_input.as_ref().unwrap();
    assert_eq!(input_value(&app), "/tmp/t/Music/");
    assert!(!input.show_completions);
    assert!(input.completions.iter().any(|path| path.ends_with("Album/")));
    assert!(!app.status.contains("Completed path"));

    press(&mut app, &fs, AppKey::Tab).unwrap();
    assert!(app.path_input.as_ref().unwrap().show_completions);
}

#[test]
fn arrow_keys_move_visible_path_completion_selection() {
    let mut fs = FakeFs::new();
    fs.add_dir("/tmp/t/music/Album");
    fs.add_dir("/tmp/t/music/Mixes");
    let mut app = configured_app();

    press(&mut app, &fs, AppKey::Char('a')).unwrap();
    type_text(&mut app, &fs, "/tmp/t/music/");
    press(&mut app, &fs, AppKey::Tab).unwrap();
    press(&mut app, &fs, AppKey::Tab).unwrap();
    assert_eq!(app.path_input.as_ref().unwrap().completion_index, 0);

    press(&mut app, &fs, AppKey::Down).unwrap();
    assert_eq!(app.path_input.as_ref().unwrap().completion_index, 1);
    assert_eq!(app.status, "Selected Mixes/");

    press(&mut app, &fs, AppKey::Up).unwrap();
    assert_eq!(app.path_input.as_ref().unwrap().completion_index, 0);
}

#[test]
fn enter_selects_visible_path_completion() {
    let mut fs = FakeFs::new();
    fs.add_dir("/tmp/t/music/Album");
    fs.add_dir("/tmp/t/music/Mixes");
    let mut app = configured_app();

    press(&mut app, &fs, AppKey::Char('a')).unwrap();
    type_text(&mut app, &fs, "/tmp/t/music/");
    press(&mut app, &fs, AppKey::Tab).unwrap();
    press(&mut app, &fs, AppKey::Tab).unwrap();
    press(&mut app, &fs, AppKey::Down).unwrap();
    press(&mut app, &fs, AppKey::Enter).unwrap();

    let input = app.path_input.as_ref().unwrap();
    assert_eq!(input_value(&app), "/tmp/t/music/Mixes/");
    assert!(input.completions.is_empty());
    assert!(!input.show_completions);
}

#[test]
fn tab_cycles_matching_audio_files_and_folders() {
    let mut fs = FakeFs::new();
    fs.add_dir("/tmp/t/album");
    fs.add_file("/tmp/t/alpha.wav");
    fs.add_file("/tmp/t/ambient.flac");
    let mut app = configured_app();

    press(&mut app, &fs, AppKey::Char('a')).unwrap();
    type_text(&mut app, &fs, "/tmp/t/a");
    press(&mut app, &fs, AppKey::Tab).unwrap();
    let first_completion = input_value(&app);
    press(&mut app, &fs, AppKey::Tab).unwrap();
    let second_completion = input_value(&app);

    assert_eq!(first_completion, "/tmp/t/album/");
    assert_eq!(second_completion, "/tmp/t/alpha.wav");
    assert_eq!(app.status, "Showing 3 matches, press Tab to cycle");
}

#[test]
fn tab_completion_ignores_unsupported_files() {
    let mut fs = FakeFs::new();
    fs.add_file("/tmp/t/ambient.txt");
    fs.add_file("/tmp/t/ambient.wav");
    let mut app = configured_app();

    press(&mut app, &fs, AppKey::Char('a')).unwrap();
    type_text(&mut app, &fs, "/tmp/t/amb");
    press(&mut app, &fs, AppKey::Tab).unwrap();

    assert_eq!(input_value(&app), "/tmp/t/ambient.wav");
}

#[test]
fn no_matching_completion_is_reported() {
    let fs = FakeFs::new();
    let mut app = configured_app();
    press(&mut app, &fs, AppKey::Char('a')).unwrap();
    type_text(&mut app, &fs, "/nowhere/x");
    press(&mut app, &fs, AppKey::Tab).unwrap();
    assert_eq!(app.status, "No matching files or folders");
}

#[test]
fn player_keys_drive_the_queue() {
    let fs = FakeFs::new();
    let mut app = configured_app();
    app.settings.playlist.files = vec!["/m/one.wav".to_string(), "/m/two.wav".to_string()];

    press(&mut app, &fs, AppKey::Down).unwrap();
    assert_eq!(app.player.queue_selected, 1);
    assert_eq!(app.selected_track_name().as_deref(), Some("two.wav"));
    assert_eq!(app.now_playing_track_name(), "No track playing");
    assert_eq!(app.playback_action_label(), "play");

    press(&mut app, &fs, AppKey::Char(' ')).unwrap();
    assert_eq!(app.player.playback_state, PlaybackState::Starting { track_index: 1 });
    assert_eq!(app.status, "Starting two.wav");
    assert_eq!(app.playback_state_label(), "starting");
    assert_eq!(
        app.take_playback_command(),
        Some(PlaybackCommand::Start(PlaybackStartRequest {
            track_index: 1,
            path: "/m/two.wav".to_string(),
            stream: app.settings.stream.clone(),
        }))
    );

    app.mark_stream_started_with_duration(1, 0, Some(5_000_000_000));
    assert_eq!(app.status, "Streaming two.wav");
    assert_eq!(app.now_playing_track_name(), "two.wav");

    press(&mut app, &fs, AppKey::Char(' ')).unwrap();
    assert_eq!(app.status, "Stopping current stream...");
    assert!(matches!(app.take_playback_command(), Some(PlaybackCommand::Stop)));
    app.mark_stream_finished(1, Ok(()));
    assert_eq!(app.player.playback_state, PlaybackState::Stopped);
    assert_eq!(app.status, "Stopped");

    press(&mut app, &fs, AppKey::Char('d')).unwrap();
    assert_eq!(app.settings.playlist.files, vec!["/m/one.wav".to_string()]);
    assert_eq!(app.status, "Removed two.wav");
    assert_eq!(app.player.queue_selected, 0);

    press(&mut app, &fs, AppKey::Interrupt).unwrap();
    assert!(app.should_quit);
}

#[test]
fn failed_stream_shows_its_error_and_stop_without_stream_stops() {
    let mut app = configured_app();
    app.settings.playlist.files = vec!["/m/one.wav".to_string()];
    app.request_stream_start();
    app.mark_stream_finished(0, Err("device lost".to_string()));
    assert_eq!(app.status, "Streaming failed: device lost");
    assert_eq!(app.playback_state_label(), "error");
    app.request_stream_start();
    app.request_stream_stop(0);
    app.stop_without_stream();
    assert_eq!(app.player.playback_state, PlaybackState::Stopped);
    assert_eq!(app.status, "Stopped");
}

#[test]
fn labels_and_targets_follow_the_settings() {
    let mut app = configured_app();
    assert_eq!(app.stream_target_label(), "239.69.83.1:5004");
    assert_eq!(app.setting_display_value(SettingsField::PacketTimeMs), "1 ms");
    assert_eq!(app.setting_display_value(SettingsField::Interface), "en0  192.168.1.42");
    app.settings.stream.address = " ".to_string();
    assert_eq!(app.stream_target_label(), "Set stream address");
    assert_eq!(app.setting_display_value(SettingsField::Address), "Set stream address");
    assert!(app.is_required_setting_missing(SettingsField::Address));
}
