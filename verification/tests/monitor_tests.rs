use aes67_tools::socket::{AddressError, InterfaceChoice};
use aes67_tools::tester::{
    default_payload_type, default_report_interval_seconds, default_session_name, default_ttl,
    validate_endpoint, EndpointError,
};
use aes67_tools::rtp::RtpHeader;
use aes67_tools::tester::{
    check_frame_count, check_packet_identity, receiver_may_observe_transmitter,
    validate_payload_type, validate_report_interval, MonitorError, RtpContinuity,
    TesterConfigError,
};

fn header(payload_type: u8, ssrc: u32) -> RtpHeader {
    RtpHeader::new(payload_type, ssrc)
}

#[test]
fn monitor_counts_packet_loss_and_resets_audio_boundary_check() {
    let mut monitor = RtpContinuity::new();
    assert!(monitor.observe_rtp_continuity(0, 0));
    assert!(!monitor.observe_rtp_continuity(2, 96));

    assert_eq!(monitor.sequence_gap_packets, 1);
    assert_eq!(monitor.timestamp_discontinuities, 1);
    assert!(monitor.has_failures());
}

#[test]
fn monitor_reports_a_sequence_gap_once_when_a_packet_arrives_late() {
    let mut monitor = RtpContinuity::new();
    monitor.observe_rtp_continuity(0, 0);
    monitor.observe_rtp_continuity(2, 96);
    monitor.observe_rtp_continuity(1, 48);
    monitor.observe_rtp_continuity(3, 144);

    assert_eq!(monitor.sequence_gap_packets, 1);
    assert_eq!(monitor.reordered_packets, 1);
    assert_eq!(monitor.timestamp_discontinuities, 1);
}

#[test]
fn in_order_packets_are_continuous_across_wraparound() {
    let mut monitor = RtpContinuity::new();
    assert!(monitor.observe_rtp_continuity(0xffff, u32::MAX - 47));
    assert!(monitor.observe_rtp_continuity(0, 0));
    assert!(monitor.observe_rtp_continuity(1, 48));
    assert!(!monitor.has_failures());
}

#[test]
fn monitor_rejects_unexpected_ssrc() {
    let error = check_packet_identity(&header(97, 0x12345678), 97, Some(2)).unwrap_err();

    assert_eq!(error, MonitorError::UnexpectedSsrc { received: 0x12345678, expected: 2 });
    assert_eq!(
        check_packet_identity(&header(96, 2), 97, Some(2)),
        Err(MonitorError::UnexpectedPayloadType { received: 96, expected: 97 })
    );
    assert_eq!(check_packet_identity(&header(97, 7), 97, None), Ok(()));
}

#[test]
fn monitor_requires_whole_tester_packets() {
    assert_eq!(check_frame_count(48), Ok(()));
    assert_eq!(check_frame_count(47), Err(MonitorError::UnexpectedFrameCount { frames: 47 }));
}

#[test]
fn tester_config_values_are_checked() {
    assert_eq!(validate_payload_type(97), Ok(()));
    assert_eq!(
        validate_payload_type(95),
        Err(TesterConfigError::PayloadTypeNotDynamic { payload_type: 95 })
    );
    assert_eq!(validate_report_interval(0), Err(TesterConfigError::ZeroReportInterval));
    assert_eq!(validate_report_interval(5), Ok(()));
}

#[test]
fn receiver_sees_transmitter_only_on_the_same_unfiltered_stream() {
    let a = "127.0.0.1".to_string();
    let b = "239.1.1.1".to_string();
    assert!(receiver_may_observe_transmitter(&a, 5004, &a, 5004, &None));
    assert!(!receiver_may_observe_transmitter(&a, 5004, &a, 5005, &None));
    assert!(!receiver_may_observe_transmitter(&a, 5004, &b, 5004, &None));
    assert!(!receiver_may_observe_transmitter(&a, 5004, &a, 5004, &Some(a.clone())));
}

#[test]
fn tester_defaults_and_endpoints() {
    assert_eq!(default_payload_type(), 97);
    assert_eq!(default_ttl(), 32);
    assert_eq!(default_session_name(), "AES67 Tester 100 Hz");
    assert_eq!(default_report_interval_seconds(), 1);
    assert_eq!(
        validate_endpoint("127.0.0.1", "lo", 97),
        Ok(([127, 0, 0, 1], InterfaceChoice::Address([127, 0, 0, 1])))
    );
    assert_eq!(
        validate_endpoint("10.0.0.1", "lo", 97),
        Err(EndpointError::Address(AddressError::NotMulticastOrLoopback { address: [10, 0, 0, 1] }))
    );
    assert_eq!(validate_endpoint("239.1.1.1", " ", 97), Err(EndpointError::Interface(AddressError::EmptyInterface)));
    assert_eq!(
        validate_endpoint("239.1.1.1", "en0", 12),
        Err(EndpointError::PayloadType(TesterConfigError::PayloadTypeNotDynamic { payload_type: 12 }))
    );
}
