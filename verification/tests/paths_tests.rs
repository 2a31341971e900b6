use aes67_tools::music::{
    parse_bool, parse_positive_u32, parse_u16, parse_u8, stream_config_from_settings, FieldError,
    MusicPlayerSettings, SettingsField,
};
use aes67_tools::paths::{
    collect_audio_files, completion_context, completion_option_label, completion_value,
    display_path_name, expand_user_path_with_home, format_elapsed, is_browse_completion_input,
    is_supported_audio_file, is_supported_audio_name,
};

#[test]
fn supported_audio_files_are_recognised_by_extension() {
    assert!(is_supported_audio_file("/music/a.WAV"));
    assert!(is_supported_audio_file("b.flac"));
    assert!(is_supported_audio_file("c.mp3"));
    assert!(is_supported_audio_file("d.aiff"));
    assert!(is_supported_audio_file("e.Aif"));
    assert!(!is_supported_audio_file("notes.txt"));
    assert!(!is_supported_audio_file(".wav"));
    assert!(!is_supported_audio_file("wav"));
    assert!(!is_supported_audio_file("/music/"));
}

#[test]
fn display_names_use_the_last_component() {
    assert_eq!(display_path_name("/music/one.wav"), "one.wav");
    assert_eq!(display_path_name("one.wav"), "one.wav");
    assert_eq!(display_path_name("/music/album/"), "album");
    assert_eq!(display_path_name(".."), "..");
}

#[test]
fn completion_labels_keep_the_folder_mark() {
    assert_eq!(completion_option_label("/music/Album/"), "Album/");
    assert_eq!(completion_option_label("/music/intro.wav"), "intro.wav");
    assert_eq!(completion_option_label("Album/"), "Album/");
}

#[test]
fn home_prefix_is_expanded() {
    assert_eq!(expand_user_path_with_home("~", Some("/home/me")).as_deref(), Some("/home/me"));
    assert_eq!(
        expand_user_path_with_home("~/Music", Some("/home/me")).as_deref(),
        Some("/home/me/Music")
    );
    assert_eq!(expand_user_path_with_home("~/Music", None), None);
    assert_eq!(expand_user_path_with_home("/abs", None).as_deref(), Some("/abs"));
    assert_eq!(expand_user_path_with_home("~x", Some("/h")).as_deref(), Some("~x"));
}

#[test]
fn browse_inputs_are_blank_or_folders() {
    assert!(is_browse_completion_input(""));
    assert!(is_browse_completion_input("  "));
    assert!(is_browse_completion_input("/music/ "));
    assert!(!is_browse_completion_input("/music/a"));
}

#[test]
fn completion_context_splits_folder_and_prefix() {
    let c = completion_context("/music/al", None).unwrap();
    assert_eq!(c.fs_parent, "/music");
    assert_eq!(c.display_parent.as_deref(), Some("/music"));
    assert_eq!(c.prefix, "al");

    let c = completion_context("al", None).unwrap();
    assert_eq!(c.fs_parent, ".");
    assert_eq!(c.display_parent, None);
    assert_eq!(c.prefix, "al");

    let c = completion_context("~/Music/", Some("/home/me")).unwrap();
    assert_eq!(c.fs_parent, "/home/me/Music/");
    assert_eq!(c.display_parent.as_deref(), Some("~/Music"));
    assert_eq!(c.prefix, "");

    assert!(completion_context("~/x", None).is_none());
}

#[test]
fn completion_values_join_the_shown_parent() {
    assert_eq!(completion_value("/home/me/Music", true, Some("~")), "~/Music/");
    assert_eq!(completion_value("./a.wav", false, Some("")), "a.wav");
    assert_eq!(completion_value("./Album", true, None), "./Album/");
}

#[test]
fn folder_files_are_filtered_and_sorted() {
    let entries = vec![
        "/m/b.flac".to_string(),
        "/m/notes.txt".to_string(),
        "/m/a.WAV".to_string(),
        "/m/B.mp3".to_string(),
    ];
    assert_eq!(
        collect_audio_files(&entries),
        vec!["/m/B.mp3".to_string(), "/m/a.WAV".to_string(), "/m/b.flac".to_string()]
    );
}

#[test]
fn elapsed_time_is_minutes_and_seconds() {
    assert_eq!(format_elapsed(0), "00:00");
    assert_eq!(format_elapsed(65), "01:05");
    assert_eq!(format_elapsed(600), "10:00");
    assert_eq!(format_elapsed(6000), "100:00");
}

#[test]
fn setting_values_parse_like_the_form() {
    assert_eq!(parse_bool(" Yes "), Ok(true));
    assert_eq!(parse_bool("off"), Ok(false));
    assert_eq!(parse_bool("maybe"), Err(FieldError::NotABoolean));
    assert_eq!(parse_u8("255", SettingsField::Ttl), Ok(255));
    assert_eq!(parse_u8("256", SettingsField::Ttl), Err(FieldError::NotAnInteger { field: SettingsField::Ttl }));
    assert_eq!(parse_u16("+80", SettingsField::Port), Ok(80));
    assert_eq!(parse_u16("-1", SettingsField::Port), Err(FieldError::NotAnInteger { field: SettingsField::Port }));
    assert_eq!(parse_positive_u32("0", SettingsField::PacketTimeMs), Err(FieldError::NotPositive { field: SettingsField::PacketTimeMs }));
    assert_eq!(parse_positive_u32(" 4 ", SettingsField::PacketTimeMs), Ok(4));
}

#[test]
fn field_texts_describe_the_settings() {
    let settings = MusicPlayerSettings::default();
    assert_eq!(SettingsField::Port.label(), "Port");
    assert_eq!(SettingsField::PayloadType.hint(), "Dynamic RTP payload type, 96-127.");
    assert_eq!(SettingsField::Port.value(&settings.stream), "5004");
    assert_eq!(SettingsField::Sap.value(&settings.stream), "enabled");
    assert_eq!(SettingsField::PacketTimeMs.value(&settings.stream), "1 ms");
    assert_eq!(SettingsField::PacketTimeMs.edit_value(&settings.stream), "1");
    assert_eq!(SettingsField::Interface.value(&settings.stream), "");
}

#[test]
fn stream_settings_build_streamer_config_for_music_mode() {
    let mut settings = MusicPlayerSettings::default();
    settings.stream.address = "239.69.83.1".to_string();
    settings.stream.port = 5006;
    settings.stream.interface = Some("en0".to_string());
    settings.stream.session_name = "Set".to_string();
    settings.stream.sap = false;
    settings.stream.ptp_domain = 12;
    settings.stream.payload_type = 101;
    settings.stream.packet_time_ms = 2;
    settings.stream.ttl = 8;

    let config = stream_config_from_settings(&settings.stream);

    assert_eq!(config.target_sample_rate, 48_000);
    assert_eq!(config.packet_time_ms, 2);
    assert_eq!(config.ptp_domain, 12);
    assert_eq!(config.duration, None);
    assert!(!config.loop_playback);
    assert_eq!(config.ttl, 8);
    assert!(!config.sap);
    assert_eq!(config.payload_type, 101);
    assert_eq!(config.ssrc, None);
    assert_eq!(config.session_name, "Set");
}

#[test]
fn file_names_are_checked_by_their_extension_alone() {
    assert!(is_supported_audio_name(Some("song.FLAC")));
    assert!(is_supported_audio_name(Some("take.aif")));
    assert!(!is_supported_audio_name(Some("notes.txt")));
    assert!(!is_supported_audio_name(Some(".wav")));
    assert!(!is_supported_audio_name(None));
}
