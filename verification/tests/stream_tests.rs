use std::time::Duration;

use aes67_tools::ptp_messages::ClockIdentity;
use aes67_tools::sdp::parse_sdp;
use aes67_tools::stream::{
    build_sdp, duration_reached, end_of_audio, refresh_sdp_for_clock_identity, resolve_ssrc,
    rtp_packet_capacity, samples_per_packet, validate_stream_audio_format, AudioInfo, EndOfAudio,
    PipelineConfig, SdpContext, SendSchedule, StreamConfig, StreamFormatError, TimingDriftStats,
};

const MS: u64 = 1_000_000;

fn info_with_channels(channels: u32) -> AudioInfo {
    AudioInfo {
        sample_rate: 48_000,
        channels,
        duration: None,
        bit_depth: Some(24),
        format: "test".to_string(),
    }
}

#[test]
fn test_stream_config_default() {
    let config = StreamConfig::default();
    assert_eq!(config.target_sample_rate, 48000);
    assert_eq!(config.packet_time_ms, 1);
    assert_eq!(config.ptp_domain, 0);
    assert_eq!(config.duration, None);
    assert!(!config.loop_playback);
    assert_eq!(config.ttl, 32);
    assert!(config.sap);
    assert_eq!(config.payload_type, 97);
    assert_eq!(config.ssrc, None);
    assert_eq!(config.session_name, "AES67 Stream");
    assert!(!config.verbose);
}

#[test]
fn generated_ssrc_when_unspecified_is_nonzero_and_not_legacy_default() {
    let generated = resolve_ssrc(None);

    assert_ne!(generated, 0);
    assert_ne!(generated, 0x12345678);
}

#[test]
fn generated_ssrcs_vary_between_calls() {
    let draws: Vec<u32> = (0..8).map(|_| resolve_ssrc(None)).collect();
    assert!(draws.iter().any(|&d| d != draws[0]));
}

#[test]
fn configured_ssrc_is_used_without_randomization() {
    assert_eq!(resolve_ssrc(Some(0xDEADBEEF)), 0xDEADBEEF);
}

#[test]
fn test_sdp_uses_stream_metadata() {
    let config = StreamConfig {
        payload_type: 101,
        session_name: "Configured Stream".to_string(),
        packet_time_ms: 2,
        ttl: 12,
        ..Default::default()
    };
    let context = SdpContext {
        local_ip: [127, 0, 0, 1],
        multicast_ip: [239, 10, 20, 30],
        port: 6000,
        audio_channels: 8,
    };
    let sdp = build_sdp(
        &context,
        ClockIdentity::from_bytes([0x00, 0x1d, 0xc1, 0xff, 0xfe, 0x12, 0x34, 0x56]),
        &config,
    );

    assert!(sdp.contains("s=Configured Stream\r\n"));
    assert!(sdp.contains("c=IN IP4 239.10.20.30/12\r\n"));
    assert!(sdp.contains("m=audio 6000 RTP/AVP 101\r\n"));
    assert!(sdp.contains("a=rtpmap:101 L24/48000/8\r\n"));
    assert!(sdp.contains("a=ptime:2\r\n"));
    assert!(sdp.contains("a=ts-refclk:ptp=IEEE1588-2008:00-1D-C1-FF-FE-12-34-56:0\r\n"));
    assert!(sdp.contains("o=- "));
    assert!(sdp.contains("IN IP4 127.0.0.1\r\n"));
}

#[test]
fn built_sdp_parses_back_to_the_stream() {
    let config = StreamConfig { payload_type: 101, ttl: 12, packet_time_ms: 2, ..Default::default() };
    let context = SdpContext {
        local_ip: [10, 0, 0, 5],
        multicast_ip: [239, 10, 20, 30],
        port: 6000,
        audio_channels: 8,
    };
    let sdp = build_sdp(&context, ClockIdentity::from_bytes([0, 1, 2, 3, 4, 5, 6, 7]), &config);
    let session = parse_sdp(&sdp).expect("built SDP should parse");
    assert_eq!(session.session_name.as_deref(), Some("AES67 Stream"));
    assert_eq!(session.address, [239, 10, 20, 30]);
    assert_eq!(session.ttl, Some(12));
    assert_eq!(session.port, 6000);
    assert_eq!(session.payload_type, 101);
    assert_eq!(session.channels, 8);
    assert_eq!(session.packet_time_ms, 2);
    assert_eq!(session.sample_rate, 48_000);
    assert_eq!(session.ts_refclk.as_deref(), Some("ptp=IEEE1588-2008:00-01-02-03-04-05-06-07:0"));
    assert_eq!(session.mediaclk.as_deref(), Some("direct=0"));
}

#[test]
fn test_samples_per_packet_uses_packet_time() {
    assert_eq!(samples_per_packet(48_000, 1), 48);
    assert_eq!(samples_per_packet(48_000, 2), 96);
}

#[test]
fn timing_drift_stats_tracks_late_packets() {
    let base = 1_000 * MS;
    let mut stats = TimingDriftStats::default();

    stats.observe(base, base + MS);
    stats.observe(base + 3 * MS, base + MS);
    stats.observe(base + 8 * MS, base + 5 * MS);

    assert_eq!(stats.get_packets_observed(), 3);
    assert_eq!(stats.get_late_packets(), 2);
    assert_eq!(stats.get_max_lateness_ns(), 3 * MS);
    let average_ms =
        stats.get_total_lateness_ns() as f64 / stats.get_late_packets() as f64 / MS as f64;
    assert_eq!(average_ms, 2.5);
}

#[test]
fn timing_drift_stats_reports_zero_when_no_packets_are_late() {
    let base = 1_000 * MS;
    let mut stats = TimingDriftStats::default();

    stats.observe(base, base);
    stats.observe(base + MS, base + 2 * MS);

    assert_eq!(stats.get_packets_observed(), 2);
    assert_eq!(stats.get_late_packets(), 0);
    assert_eq!(stats.get_max_lateness_ns(), 0);
    assert_eq!(stats.get_total_lateness_ns(), 0);
}

#[test]
fn audio_format_validation_accepts_release_target_eight_channels() {
    let info = info_with_channels(8);

    validate_stream_audio_format(&info, 48).expect("8-channel 1ms L24 should be supported");
}

#[test]
fn audio_format_validation_rejects_more_than_eight_channels() {
    let info = info_with_channels(9);

    let error = validate_stream_audio_format(&info, 48)
        .expect_err("first release supports up to 8 channels");

    assert!(
        matches!(error, StreamFormatError::UnsupportedChannels { channels: 9 }),
        "unexpected error: {error:?}"
    );
}

#[test]
fn audio_format_validation_rejects_zero_channels() {
    assert_eq!(
        validate_stream_audio_format(&info_with_channels(0), 48),
        Err(StreamFormatError::UnsupportedChannels { channels: 0 })
    );
}

#[test]
fn audio_format_validation_rejects_payloads_that_exceed_standard_mtu() {
    let info = info_with_channels(8);

    let error = validate_stream_audio_format(&info, 96)
        .expect_err("8-channel 2ms L24 should exceed one RTP packet payload");

    assert!(
        matches!(error, StreamFormatError::PayloadTooLarge { payload_bytes: 2304 }),
        "unexpected error: {error:?}"
    );
}

#[test]
fn refresh_sdp_when_clock_identity_changes_builds_updated_sdp_once() {
    let mut current_identity =
        ClockIdentity::from_bytes([0x02, 0x00, 0x00, 0xff, 0xfe, 0x00, 0x00, 0x01]);
    let next_identity = ClockIdentity::from_bytes([0x00, 0x1d, 0xc1, 0xff, 0xfe, 0x12, 0x34, 0x56]);
    let context = SdpContext {
        local_ip: [127, 0, 0, 1],
        multicast_ip: [239, 10, 20, 30],
        port: 6000,
        audio_channels: 2,
    };
    let config = StreamConfig::default();

    let refreshed =
        refresh_sdp_for_clock_identity(&mut current_identity, next_identity, &context, &config)
            .expect("identity change should rebuild SDP");

    assert_eq!(current_identity, next_identity);
    assert!(refreshed.contains("a=ts-refclk:ptp=IEEE1588-2008:00-1D-C1-FF-FE-12-34-56:0\r\n"));
    assert!(refresh_sdp_for_clock_identity(&mut current_identity, next_identity, &context, &config)
        .is_none());
}

#[test]
fn test_pipeline_config_default() {
    let config = PipelineConfig::default();
    assert_eq!(config.target_sample_rate, 48000);
    assert_eq!(config.audio_buffer_frames, 1024);
    assert_eq!(config.rtp_queue_size, 128);
    assert_eq!(config.network_priority, 3);
    assert_eq!(config.audio_priority, 3);
    assert!(!config.verbose);
}

#[test]
fn test_audio_info_creation() {
    let info = AudioInfo {
        sample_rate: 48000,
        channels: 2,
        duration: Some(Duration::from_secs(30)),
        bit_depth: Some(24),
        format: "PCM".to_string(),
    };

    assert_eq!(info.sample_rate, 48000);
    assert_eq!(info.channels, 2);
    assert_eq!(info.bit_depth, Some(24));
}

#[test]
fn rtp_packet_capacity_counts_header_and_l24_payload() {
    assert_eq!(rtp_packet_capacity(48, 2), 12 + 48 * 2 * 3);
    assert_eq!(rtp_packet_capacity(48, 8), 1164);
}

#[test]
fn end_of_audio_rewinds_only_when_looping_a_whole_packet() {
    assert_eq!(end_of_audio(true, true), EndOfAudio::Rewind);
    assert_eq!(end_of_audio(true, false), EndOfAudio::StopTooShortToLoop);
    assert_eq!(end_of_audio(false, true), EndOfAudio::Stop);
}

#[test]
fn duration_limit_is_checked_against_elapsed_time() {
    assert!(!duration_reached(100, 150, None));
    assert!(!duration_reached(100, 150, Some(60)));
    assert!(duration_reached(100, 160, Some(60)));
}

#[test]
fn send_schedule_paces_packets_and_reports_lateness() {
    let start = 5_000 * MS;
    let mut schedule = SendSchedule::new(start, 1);
    let first = schedule.packet_sent(start + MS / 2);
    assert_eq!(first.wait_ns, Some(MS / 2));
    assert!(!first.check_sdp);
    assert_eq!(schedule.packets_sent, 1);
    assert_eq!(schedule.drift.late_packets, 0);

    let second = schedule.packet_sent(start + 3 * MS);
    assert_eq!(second.wait_ns, None);
    assert_eq!(schedule.drift.late_packets, 1);
    assert_eq!(schedule.drift.max_lateness_ns, MS);

    let third = schedule.packet_sent(start + 10_000 * MS);
    assert!(third.check_sdp);
    assert_eq!(schedule.next_sdp_check_ns, start + 20_000 * MS);
}
