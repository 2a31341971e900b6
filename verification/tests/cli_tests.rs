use aes67_tools::config::{
    merged_interface, merged_loop_playback, merged_packet_time_ms, merged_payload_type, merged_port,
    merged_ptp_domain, merged_required, merged_sap, merged_session_name, merged_ssrc, merged_ttl, merged_verbose,
    ConfigError, RuntimeTable, StreamTable,
};
use aes67_tools::router::{route, unknown_command_text, CommandScope, HelpTopic, Route, RouteError, Workflow};

fn args(values: &[&str]) -> Vec<Option<String>> {
    values.iter().map(|v| Some(v.to_string())).collect()
}

fn route_from(values: &[&str]) -> Route {
    route(&args(values)).expect("route should succeed")
}

#[test]
fn routes_send_to_engine_workflows() {
    let line = ["send", "file", "--file", "tone.wav", "--address", "239.1.1.1"];
    assert_eq!(
        route_from(&line),
        Route::Dispatch { workflow: Workflow::SendFile, first_arg: 2 }
    );
    assert_eq!(&line[2..], &["--file", "tone.wav", "--address", "239.1.1.1"]);
    assert_eq!(
        route_from(&["send", "queue"]),
        Route::Dispatch { workflow: Workflow::SendQueue, first_arg: 2 }
    );
}

#[test]
fn routes_receive_to_engine_workflows() {
    assert_eq!(
        route_from(&["receive", "discover", "--interface", "en0"]),
        Route::Dispatch { workflow: Workflow::ReceiveDiscover, first_arg: 2 }
    );
    assert_eq!(
        route_from(&["receive", "listen", "--sdp", "main.sdp"]),
        Route::Dispatch { workflow: Workflow::ReceiveListen, first_arg: 2 }
    );
    assert_eq!(
        route_from(&["receive", "devices"]),
        Route::Dispatch { workflow: Workflow::ReceiveDevices, first_arg: 2 }
    );
}

#[test]
fn help_uses_the_two_product_lines() {
    assert_eq!(route_from(&["receive", "listen", "--help"]), Route::Help(HelpTopic::ReceiveListen));
    assert_eq!(route_from(&["send", "file", "--version"]), Route::Version);
    assert_eq!(route_from(&[]), Route::Help(HelpTopic::Root));
    assert_eq!(route_from(&["send"]), Route::Help(HelpTopic::Send));
    assert_eq!(route_from(&["receive", "-h"]), Route::Help(HelpTopic::Receive));
    assert_eq!(route_from(&["-V"]), Route::Version);
}

#[test]
fn invalid_commands_have_a_clear_error() {
    let error = route(&args(&["receive", "play"])).expect_err("unknown command should fail");

    assert_eq!(
        error,
        RouteError::UnknownCommand { scope: CommandScope::Receive, command: "play".to_string() }
    );
    assert_eq!(route(&args(&["receive", "devices", "--x"])), Err(RouteError::DevicesTakesNoOptions));
    assert_eq!(route(&vec![None]), Err(RouteError::CommandNotUtf8));
    assert_eq!(
        route(&args(&["verify"])),
        Err(RouteError::UnknownCommand { scope: CommandScope::Root, command: "verify".to_string() })
    );
}

#[test]
fn test_default_config() {
    let stream = StreamTable::default();
    let runtime = RuntimeTable::default();
    assert_eq!(stream.port, Some(5004));
    assert_eq!(stream.payload_type, Some(97));
    assert_eq!(stream.ssrc, None);
    assert_eq!(runtime.verbose, Some(false));
    assert_eq!(stream.address.as_deref(), Some("239.192.1.1"));
}

#[test]
fn cli_values_override_config_file_values() {
    assert_eq!(merged_port(Some(7000), Some(6000), Some(5004)), 7000);
    assert_eq!(merged_port(None, Some(6000), Some(5004)), 6000);
    assert_eq!(merged_port(None, None, None), 5004);
    assert_eq!(
        merged_required(Some("239.30.20.10".to_string()), Some("239.10.20.30".to_string()))
            .as_deref(),
        Some("239.30.20.10")
    );
    assert_eq!(merged_required(None, Some("configured.wav".to_string())).as_deref(), Some("configured.wav"));
    assert_eq!(merged_required(None, None), None);
    assert!(!merged_loop_playback(false, Some(false)));
    assert_eq!(
        merged_interface(Some("127.0.0.1".to_string()), Some("lo0".to_string())).as_deref(),
        Some("127.0.0.1")
    );
    assert_eq!(merged_ptp_domain(Some(9), Some(7)), Some(9));
}

#[test]
fn interface_and_ptp_domain_fall_back_to_the_config_file_then_none() {
    assert_eq!(merged_interface(None, Some("127.0.0.1".to_string())).as_deref(), Some("127.0.0.1"));
    assert_eq!(merged_interface(None, None), None);
    assert_eq!(merged_ptp_domain(None, Some(7)), Some(7));
    assert_eq!(merged_ptp_domain(None, None), None);
}

#[test]
fn loop_playback_cli_flag_enables_looping() {
    assert!(merged_loop_playback(true, Some(false)));
    assert!(merged_loop_playback(false, Some(true)));
    assert!(!merged_loop_playback(false, None));
}

#[test]
fn config_file_supplies_stream_metadata() {
    assert_eq!(merged_ttl(Some(12)), Ok(12));
    assert_eq!(merged_payload_type(Some(101)), Ok(101));
    assert_eq!(merged_ssrc(Some(3735928559)), Some(3735928559));
    assert_eq!(merged_session_name(Some("Configured Stream".to_string())), "Configured Stream");
    assert_eq!(merged_packet_time_ms(Some(2)), Ok(2));
    assert!(!merged_sap(Some(false)));
    assert!(merged_verbose(false, Some(true)));
}

#[test]
fn config_defaults_apply_when_values_are_absent() {
    assert_eq!(merged_ttl(None), Ok(32));
    assert_eq!(merged_payload_type(None), Ok(97));
    assert_eq!(merged_session_name(None), "AES67 Stream");
    assert_eq!(merged_packet_time_ms(None), Ok(1));
    assert!(merged_sap(None));
    assert!(!merged_verbose(false, None));
}

#[test]
fn invalid_config_metadata_is_an_error() {
    assert_eq!(merged_ttl(Some(0)), Err(ConfigError::ZeroTtl));
    assert_eq!(
        merged_payload_type(Some(128)),
        Err(ConfigError::PayloadTypeOutOfRange { payload_type: 128 })
    );
    assert_eq!(merged_packet_time_ms(Some(0)), Err(ConfigError::ZeroPacketTime));
}

#[test]
fn missing_required_value_names_flag_and_key() {
    assert_eq!(
        aes67_tools::config::missing_required_value("audio file", "--file", "audio.file"),
        "missing audio file; pass --file or set audio.file in the config file"
    );
}

#[test]
fn unknown_command_points_to_help() {
    let error = aes67_tools::router::unknown_command("aes67 receive", "play");
    assert!(error.contains("unknown command"));
    assert!(error.contains("aes67 receive --help"));
    assert_eq!(error, "unknown command \"play\" for aes67 receive; run `aes67 receive --help`");
}

#[test]
fn unknown_command_message_wraps_the_quoted_command() {
    assert_eq!(
        unknown_command_text("aes67 send", "\"stream\""),
        "unknown command \"stream\" for aes67 send; run `aes67 send --help`"
    );
}
