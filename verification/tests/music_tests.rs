use aes67_tools::music::{
    apply_field_value, is_required_setting_missing, settings_required_at_start, validate_settings,
    FieldError, MusicPlayerSettings, PickerOption, PlaybackCommand, PlaybackState, QueueNotice,
    PlaybackStartRequest, QueuePlayer, SettingsError, SettingsField, SettingsPicker,
};
use aes67_tools::music_app::{AppKey, MusicPlayerApp, NetworkInterface};

const MS: u64 = 1_000_000;

fn configured_settings(files: &[&str]) -> MusicPlayerSettings {
    let mut settings = MusicPlayerSettings::default();
    settings.stream.address = "239.69.83.1".to_string();
    settings.stream.interface = Some("en0".to_string());
    settings.playlist.files = files.iter().map(|f| f.to_string()).collect();
    settings
}

fn option(name: &str) -> PickerOption {
    PickerOption { label: format!("{name} (192.168.1.42)"), interface_name: name.to_string() }
}

#[test]
fn default_settings_do_not_include_stream_address() {
    assert_eq!(MusicPlayerSettings::default().stream.address, "");
}

#[test]
fn default_settings_use_stream_defaults() {
    let settings = MusicPlayerSettings::default();
    assert_eq!(settings.stream.port, 5004);
    assert_eq!(settings.stream.interface, None);
    assert_eq!(settings.stream.session_name, "AES67 Music Player");
    assert!(settings.stream.sap);
    assert_eq!(settings.stream.payload_type, 97);
    assert_eq!(settings.stream.packet_time_ms, 1);
    assert_eq!(settings.stream.ttl, 32);
    assert!(settings.playlist.files.is_empty());
}

#[test]
fn field_edit_updates_stream_address() {
    let mut settings = MusicPlayerSettings::default();
    settings.stream.interface = Some("en0".to_string());

    apply_field_value(&mut settings.stream, SettingsField::Address, "239.69.83.9")
        .expect("field edit should apply");

    assert_eq!(settings.stream.address, "239.69.83.9");
    assert_eq!(validate_settings(&settings.stream), Ok(()));
}

#[test]
fn field_edits_follow_the_form_rules() {
    let mut stream = MusicPlayerSettings::default().stream;
    assert_eq!(apply_field_value(&mut stream, SettingsField::Address, "  "), Err(FieldError::EmptyAddress));
    assert_eq!(apply_field_value(&mut stream, SettingsField::SessionName, ""), Err(FieldError::EmptySessionName));
    assert_eq!(apply_field_value(&mut stream, SettingsField::Port, "0"), Err(FieldError::ZeroPort));
    assert_eq!(
        apply_field_value(&mut stream, SettingsField::Port, "70000"),
        Err(FieldError::NotAnInteger { field: SettingsField::Port })
    );
    assert_eq!(apply_field_value(&mut stream, SettingsField::Port, " 6000 "), Ok(()));
    assert_eq!(stream.port, 6000);
    assert_eq!(
        apply_field_value(&mut stream, SettingsField::PayloadType, "95"),
        Err(FieldError::PayloadTypeOutOfRange)
    );
    assert_eq!(apply_field_value(&mut stream, SettingsField::PayloadType, "101"), Ok(()));
    assert_eq!(stream.payload_type, 101);
    assert_eq!(apply_field_value(&mut stream, SettingsField::PacketTimeMs, "0"), Err(FieldError::ZeroPacketTime));
    assert_eq!(apply_field_value(&mut stream, SettingsField::Ttl, "0"), Err(FieldError::ZeroTtl));
    assert_eq!(apply_field_value(&mut stream, SettingsField::Sap, "maybe"), Err(FieldError::NotABoolean));
    assert_eq!(apply_field_value(&mut stream, SettingsField::Sap, "Off"), Ok(()));
    assert!(!stream.sap);
    assert_eq!(apply_field_value(&mut stream, SettingsField::Interface, " en1 "), Ok(()));
    assert_eq!(stream.interface.as_deref(), Some("en1"));
    assert_eq!(apply_field_value(&mut stream, SettingsField::Interface, "none"), Ok(()));
    assert_eq!(stream.interface, None);
    assert_eq!(stream.port, 6000);
}

#[test]
fn settings_cannot_save_without_interface() {
    let mut settings = MusicPlayerSettings::default();
    settings.stream.address = "239.69.83.1".to_string();

    assert_eq!(validate_settings(&settings.stream), Err(SettingsError::InterfaceRequired));
    assert!(settings_required_at_start(&settings.stream, false));
    assert!(is_required_setting_missing(&settings.stream, SettingsField::Interface));
}

#[test]
fn settings_cannot_save_without_address() {
    let mut settings = MusicPlayerSettings::default();
    settings.stream.interface = Some("en0".to_string());

    assert_eq!(validate_settings(&settings.stream), Err(SettingsError::AddressRequired));
    assert!(is_required_setting_missing(&settings.stream, SettingsField::Address));
    assert!(!is_required_setting_missing(&settings.stream, SettingsField::Port));
}

#[test]
fn existing_settings_launch_on_player_screen() {
    let settings = configured_settings(&[]);
    assert!(!settings_required_at_start(&settings.stream, false));
    assert!(settings_required_at_start(&settings.stream, true));
}

#[test]
fn settings_fields_cycle_in_form_order() {
    assert_eq!(SettingsField::SessionName.next(), SettingsField::Address);
    assert_eq!(SettingsField::Ttl.next(), SettingsField::SessionName);
    assert_eq!(SettingsField::SessionName.previous(), SettingsField::Ttl);
    assert_eq!(SettingsField::Port.previous().next(), SettingsField::Port);
}

#[test]
fn interface_picker_selects_interface_name() {
    let mut picker = SettingsPicker::new_interface(vec![option("en0"), option("en1")], 5);
    assert_eq!(picker.selected, 1);
    picker.move_next();
    assert_eq!(picker.selected, 0);
    picker.move_previous();
    assert_eq!(picker.selected, 1);
    assert_eq!(picker.options[picker.selected].interface_name, "en1");
}

#[test]
fn queue_selection_moves_with_player_arrow_keys() {
    let settings = configured_settings(&["one.wav", "two.wav"]);
    let mut player = QueuePlayer::new();

    player.move_queue_selection_next(settings.playlist.files.len());
    assert_eq!(player.queue_selected, 1);

    player.move_queue_selection_previous(settings.playlist.files.len());
    assert_eq!(player.queue_selected, 0);
}

#[test]
fn remove_selected_queue_item_persists_queue() {
    let mut settings = configured_settings(&["one.wav", "two.wav"]);
    let mut player = QueuePlayer::new();

    player.move_queue_selection_next(settings.playlist.files.len());
    let removed = player.remove_selected_queue_item(&mut settings.playlist.files);

    assert_eq!(removed.as_deref(), Some("two.wav"));
    assert_eq!(settings.playlist.files, vec!["one.wav".to_string()]);
    assert_eq!(player.queue_selected, 0);
}

#[test]
fn space_on_empty_queue_does_not_start_playback() {
    let settings = configured_settings(&[]);
    let mut player = QueuePlayer::new();

    let notice = player.toggle_playback(&settings);

    assert_eq!(notice, QueueNotice::QueueEmpty);
    assert_eq!(player.playback_state, PlaybackState::Stopped);
    assert!(player.take_playback_command().is_none());
}

#[test]
fn space_requires_stream_settings_before_playback() {
    let mut settings = MusicPlayerSettings::default();
    settings.playlist.files = vec!["track.wav".to_string()];
    let mut player = QueuePlayer::new();

    let notice = player.toggle_playback(&settings);

    assert_eq!(notice, QueueNotice::SettingsIncomplete(SettingsError::AddressRequired));
    assert_eq!(player.playback_state, PlaybackState::Stopped);
    assert!(player.take_playback_command().is_none());
}

#[test]
fn space_starts_selected_queue_item() {
    let settings = configured_settings(&["one.wav", "two.wav"]);
    let en0 = NetworkInterface { name: "en0".to_string(), ipv4: [192, 168, 1, 42], is_loopback: false };
    let mut app = MusicPlayerApp::new_with_interfaces(settings, false, vec![en0]);
    app.player.queue_selected = 1;

    app.handle_key(AppKey::Char(' ')).expect("space should request playback start");

    assert_eq!(app.player.playback_state, PlaybackState::Starting { track_index: 1 });
    assert_eq!(
        app.take_playback_command(),
        Some(PlaybackCommand::Start(PlaybackStartRequest {
            track_index: 1,
            path: "two.wav".to_string(),
            stream: app.settings.stream.clone(),
        }))
    );
    assert_eq!(app.take_playback_command(), None);
}

#[test]
fn space_stops_active_stream() {
    let settings = configured_settings(&["one.wav"]);
    let mut player = QueuePlayer::new();
    player.mark_stream_started(settings.playlist.files.len(), 0, 0, None);

    player.toggle_playback(&settings);

    assert_eq!(player.playback_state, PlaybackState::Stopping { track_index: 0 });
    assert!(matches!(player.take_playback_command(), Some(PlaybackCommand::Stop)));
}

#[test]
fn now_playing_does_not_follow_queue_selection_when_stopped() {
    let settings = configured_settings(&["one.wav", "two.wav"]);
    let mut player = QueuePlayer::new();

    player.move_queue_selection_next(settings.playlist.files.len());

    assert_eq!(player.queue_selected, 1);
    assert_eq!(player.active_track_index(), None);
}

#[test]
fn now_playing_keeps_active_track_when_selection_moves() {
    let settings = configured_settings(&["one.wav", "two.wav"]);
    let mut player = QueuePlayer::new();
    player.mark_stream_started(settings.playlist.files.len(), 0, 0, None);

    player.move_queue_selection_next(settings.playlist.files.len());

    assert_eq!(player.queue_selected, 1);
    assert_eq!(player.active_track_index(), Some(0));
}

#[test]
fn completed_track_advances_to_next_queue_item() {
    let settings = configured_settings(&["one.wav", "two.wav"]);
    let mut player = QueuePlayer::new();
    player.mark_stream_started(settings.playlist.files.len(), 0, 0, None);

    player.mark_stream_finished(&settings, 0, Ok(()));

    assert_eq!(player.queue_selected, 1);
    assert_eq!(player.playback_state, PlaybackState::Starting { track_index: 1 });
    assert_eq!(
        player.take_playback_command(),
        Some(PlaybackCommand::Start(PlaybackStartRequest {
            track_index: 1,
            path: "two.wav".to_string(),
            stream: settings.stream.clone(),
        }))
    );
}

#[test]
fn last_track_finishing_stops_and_errors_are_shown() {
    let settings = configured_settings(&["one.wav"]);
    let mut player = QueuePlayer::new();
    player.mark_stream_started(1, 0, 0, None);
    assert_eq!(player.mark_stream_finished(&settings, 0, Ok(())), QueueNotice::QueueFinished);
    assert_eq!(player.playback_state, PlaybackState::Stopped);

    player.mark_stream_started(1, 0, 0, None);
    assert_eq!(
        player.mark_stream_finished(&settings, 0, Err("device lost".to_string())),
        QueueNotice::Failed
    );
    assert_eq!(player.playback_state, PlaybackState::Error { message: "device lost".to_string() });
}

#[test]
fn playback_meter_reports_elapsed_target_packets_and_rate() {
    let settings = configured_settings(&["one.wav"]);
    let mut player = QueuePlayer::new();
    let started_at = 10_000 * MS;
    player.mark_stream_started(settings.playlist.files.len(), 0, started_at, None);

    let meter = player.playback_meter_at(started_at + 2_345 * MS, 1);

    assert_eq!(meter.elapsed_ns, 2_345 * MS);
    assert_eq!(meter.target_packets, 2_345);
    assert_eq!(meter.target_packet_rate, 1_000);
}

#[test]
fn playback_meter_reports_song_playhead_progress() {
    let mut player = QueuePlayer::new();
    let started_at = 10_000 * MS;
    player.mark_stream_started(1, 0, started_at, Some(120_000 * MS));

    let meter = player.playback_meter_at(started_at + 30_000 * MS, 1);

    assert_eq!(meter.playhead_ns, 30_000 * MS);
    assert_eq!(meter.duration_ns, Some(120_000 * MS));
    let progress_ratio = meter.playhead_ns as f64 / meter.duration_ns.unwrap() as f64;
    assert_eq!(progress_ratio, 0.25);

    let late = player.playback_meter_at(started_at + 200_000 * MS, 1);
    assert_eq!(late.playhead_ns, 120_000 * MS);
}

#[test]
fn picker_steps_wrap_from_any_selection() {
    let mut picker = SettingsPicker { options: vec![option("en0"), option("en1"), option("lo0")], selected: 5 };
    picker.move_next();
    assert_eq!(picker.selected, 0);
    picker.selected = 5;
    picker.move_previous();
    assert_eq!(picker.selected, 1);
    picker.move_previous();
    assert_eq!(picker.selected, 0);
    picker.move_previous();
    assert_eq!(picker.selected, 2);
}
