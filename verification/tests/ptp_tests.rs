use aes67_tools::ptp::{
    announce_timeout, ptp_socket_defaults, GeneralAction, MasterCandidate, MasterSelection,
    PendingDelayRequest, PtpClient, PtpConfig, PtpState,
};
use aes67_tools::ptp_messages::{
    AnnounceMessage, ClockIdentity, DelayRespMessage, MessageType, PtpError, PtpHeader, Timestamp,
};

fn local_id() -> ClockIdentity {
    ClockIdentity::from_bytes([0x02, 0x00, 0x00, 0xff, 0xfe, 0x00, 0x00, 0x01])
}

fn client_in_domain(domain: u8) -> PtpClient {
    PtpClient::new(
        PtpConfig { domain, clock_identity: Some(local_id()), ..Default::default() },
        None,
    )
}

fn announce_packet(
    domain: u8,
    grandmaster_identity: ClockIdentity,
    priority1: u8,
    clock_class: u8,
    clock_accuracy: u8,
    offset_scaled_log_variance: u16,
    priority2: u8,
) -> Vec<u8> {
    let mut bytes = vec![0u8; 64];
    bytes[0] = 0x0b;
    bytes[1] = 0x02;
    bytes[4] = domain;
    bytes[33] = 1;
    bytes[47] = priority1;
    bytes[48] = clock_class;
    bytes[49] = clock_accuracy;
    bytes[50..52].copy_from_slice(&offset_scaled_log_variance.to_be_bytes());
    bytes[52] = priority2;
    bytes[53..61].copy_from_slice(&grandmaster_identity.as_bytes());
    bytes
}

fn delay_resp_packet(
    domain: u8,
    sequence_id: u16,
    receive_timestamp_ns: u64,
    requesting_port_identity: [u8; 10],
) -> Vec<u8> {
    let mut bytes = vec![0u8; 54];
    bytes[0] = 0x09;
    bytes[1] = 0x02;
    bytes[4] = domain;
    bytes[30..32].copy_from_slice(&sequence_id.to_be_bytes());
    bytes[34..44].copy_from_slice(&Timestamp::from_nanos(receive_timestamp_ns).to_bytes());
    bytes[44..54].copy_from_slice(&requesting_port_identity);
    bytes
}

fn ptp_header_from_source(source: ClockIdentity) -> PtpHeader {
    let mut source_port_identity = [0u8; 10];
    source_port_identity[0..8].copy_from_slice(&source.as_bytes());
    source_port_identity[8..10].copy_from_slice(&1u16.to_be_bytes());
    PtpHeader {
        message_type: MessageType::Sync,
        version: 2,
        domain_number: 7,
        correction_field: 0,
        source_port_identity,
        sequence_id: 1,
        control_field: 0,
        log_message_interval: 1,
    }
}

fn candidate(bytes: &[u8]) -> MasterCandidate {
    MasterCandidate::from_announce(&AnnounceMessage::from_bytes(bytes).unwrap(), 0)
}

#[test]
fn test_ptp_config_default() {
    let config = PtpConfig::default();
    assert_eq!(config.domain, 0);
    assert_eq!(config.priority1, 128);
    assert_eq!(config.clock_identity, None);
}

#[test]
fn ptp_socket_defaults_use_fixed_timing_values() {
    let defaults = ptp_socket_defaults();

    assert!(defaults.reuse_address);
    assert!(defaults.reuse_port);
    assert!(defaults.multicast_loop_v4);
    assert_eq!(defaults.send_buffer_size, Some(262_144));
    assert_eq!(defaults.recv_buffer_size, Some(262_144));
}

#[test]
fn test_ptp_client_creation() {
    let client = PtpClient::new(PtpConfig::default(), None);
    let stats = client.get_stats();
    assert_eq!(stats.state, PtpState::Initializing);
    assert_ne!(stats.local_identity, ClockIdentity::from_bytes([0; 8]));
    assert_eq!(client.reference_clock_identity(), stats.local_identity);
}

#[test]
fn local_identity_prefers_configured_then_discovered_then_address() {
    let discovered = ClockIdentity::from_mac_address([0x00, 0x1d, 0xc1, 0x12, 0x34, 0x56]);
    assert_eq!(
        discovered.as_bytes(),
        [0x00, 0x1d, 0xc1, 0xff, 0xfe, 0x12, 0x34, 0x56]
    );
    let configured = client_in_domain(0);
    assert_eq!(configured.get_stats().local_identity, local_id());
    let from_mac = PtpClient::new(PtpConfig::default(), Some(discovered));
    assert_eq!(from_mac.get_stats().local_identity, discovered);
    let from_ip = PtpClient::new(
        PtpConfig { interface_ip: [192, 168, 1, 20], ..Default::default() },
        None,
    );
    assert_eq!(
        from_ip.get_stats().local_identity.as_bytes(),
        [0x02, 0x00, 192, 0xff, 0xfe, 168, 1, 20]
    );
}

#[test]
fn start_without_grandmaster_enters_local_master_state() {
    let mut client = client_in_domain(99);
    client.start_listening();
    client.refresh_master_selection(50_000_000);
    let stats = client.get_stats();

    assert_eq!(stats.state, PtpState::Master);
    assert_eq!(stats.master_identity, None);
    assert_eq!(client.reference_clock_identity(), stats.local_identity);
}

#[test]
fn announce_selects_best_master_and_ignores_wrong_domain() {
    let mut client = client_in_domain(7);
    let first_master = ClockIdentity::from_bytes([0x00, 0x1d, 0xc1, 0xff, 0xfe, 0x12, 0x34, 0x56]);
    let wrong_domain_master =
        ClockIdentity::from_bytes([0x00, 0x1d, 0xc1, 0xff, 0xfe, 0xaa, 0xbb, 0xcc]);
    let second_master = ClockIdentity::from_bytes([0x00, 0x1d, 0xc1, 0xff, 0xfe, 0x65, 0x43, 0x21]);
    let worse_master = ClockIdentity::from_bytes([0x00, 0x1d, 0xc1, 0xff, 0xfe, 0x99, 0x88, 0x77]);

    client
        .apply_announce_bytes(&announce_packet(7, first_master, 128, 248, 0x22, 0xffff, 128), 0)
        .expect("valid announce should be accepted");
    assert_eq!(client.reference_clock_identity(), first_master);

    client
        .apply_announce_bytes(&announce_packet(8, wrong_domain_master, 1, 6, 0x20, 0x0100, 1), 0)
        .expect("wrong-domain announce should be ignored");
    assert_eq!(client.reference_clock_identity(), first_master);

    client
        .apply_announce_bytes(&announce_packet(7, second_master, 100, 248, 0x22, 0xffff, 128), 0)
        .expect("better grandmaster should be accepted");
    assert_eq!(client.reference_clock_identity(), second_master);

    client
        .apply_announce_bytes(&announce_packet(7, worse_master, 200, 248, 0x22, 0xffff, 128), 0)
        .expect("worse grandmaster should be tracked but not selected");
    assert_eq!(client.reference_clock_identity(), second_master);
    assert_eq!(client.get_stats().announce_count, 3);
}

#[test]
fn announce_naming_this_client_is_ignored() {
    let mut client = client_in_domain(7);
    client
        .apply_announce_bytes(&announce_packet(7, local_id(), 1, 6, 0x20, 0x0100, 1), 0)
        .unwrap();
    assert_eq!(client.get_stats().master_identity, None);
    assert_eq!(client.get_stats().announce_count, 0);
}

#[test]
fn short_announce_is_rejected() {
    let mut client = client_in_domain(7);
    let mut bytes = announce_packet(7, local_id(), 1, 6, 0x20, 0x0100, 1);
    bytes.truncate(40);
    assert!(client.apply_announce_bytes(&bytes, 0).is_err());
}

#[test]
fn bmca_uses_clock_quality_priority2_and_identity_tie_breakers() {
    let low_accuracy = ClockIdentity::from_bytes([0x00, 0x1d, 0xc1, 0xff, 0xfe, 0x00, 0x00, 0x30]);
    let better_accuracy =
        ClockIdentity::from_bytes([0x00, 0x1d, 0xc1, 0xff, 0xfe, 0x00, 0x00, 0x20]);
    let lower_identity = ClockIdentity::from_bytes([0x00, 0x1d, 0xc1, 0xff, 0xfe, 0x00, 0x00, 0x10]);

    assert!(candidate(&announce_packet(7, better_accuracy, 128, 248, 0x20, 0x1234, 128))
        .is_better_than(&candidate(&announce_packet(
            7,
            low_accuracy,
            128,
            248,
            0x30,
            0x1234,
            128
        ))));

    assert!(candidate(&announce_packet(7, lower_identity, 128, 248, 0x20, 0x1234, 128))
        .is_better_than(&candidate(&announce_packet(
            7,
            better_accuracy,
            128,
            248,
            0x20,
            0x1234,
            128
        ))));
}

#[test]
fn bmca_orders_priority1_class_variance_and_priority2() {
    let id = ClockIdentity::from_bytes([0, 0, 0, 0, 0, 0, 0, 9]);
    let base = candidate(&announce_packet(7, id, 128, 248, 0x22, 0x1000, 128));
    let p1 = candidate(&announce_packet(7, id, 127, 248, 0x22, 0x1000, 128));
    let class = candidate(&announce_packet(7, id, 128, 6, 0x22, 0x1000, 128));
    let variance = candidate(&announce_packet(7, id, 128, 248, 0x22, 0x0fff, 128));
    let p2 = candidate(&announce_packet(7, id, 128, 248, 0x22, 0x1000, 127));
    for better in [&p1, &class, &variance, &p2] {
        assert!(better.is_better_than(&base));
        assert!(!base.is_better_than(better));
    }
    assert!(!base.is_better_than(&base));
}

#[test]
fn announce_timeout_is_three_intervals_within_bounds() {
    assert_eq!(announce_timeout(1), 6_000_000_000);
    assert_eq!(announce_timeout(0), 3_000_000_000);
    assert_eq!(announce_timeout(-3), 375_000_000);
    assert_eq!(announce_timeout(-7), 100_000_000);
    assert_eq!(announce_timeout(6), 60_000_000_000);
}

#[test]
fn expired_master_candidates_are_removed() {
    let mut client = client_in_domain(7);
    let start = 0u64;
    let local_identity = client.get_stats().local_identity;
    let master = ClockIdentity::from_bytes([0x00, 0x1d, 0xc1, 0xff, 0xfe, 0x12, 0x34, 0x56]);

    client
        .apply_announce_bytes(&announce_packet(7, master, 128, 248, 0x22, 0xffff, 128), start)
        .expect("valid announce should be accepted");
    assert_eq!(client.reference_clock_identity(), master);

    client.refresh_master_selection(start + 7_000_000_000);
    assert_eq!(client.reference_clock_identity(), local_identity);
    assert_eq!(client.get_stats().state, PtpState::Master);
    assert!(client.local_master_is_active());
}

#[test]
fn master_selection_keeps_fresh_candidates() {
    let mut selection = MasterSelection::new();
    let a = ClockIdentity::from_bytes([0, 0, 0, 0, 0, 0, 0, 1]);
    let b = ClockIdentity::from_bytes([0, 0, 0, 0, 0, 0, 0, 2]);
    let ann_a = AnnounceMessage::from_bytes(&announce_packet(7, a, 128, 248, 0x22, 0xffff, 128)).unwrap();
    let ann_b = AnnounceMessage::from_bytes(&announce_packet(7, b, 128, 248, 0x22, 0xffff, 128)).unwrap();
    assert_eq!(selection.observe(ann_b, 0), Some(b));
    assert_eq!(selection.observe(ann_a, 5_000_000_000), Some(a));
    assert_eq!(selection.refresh(7_000_000_000), Some(a));
    assert_eq!(selection.refresh(12_000_000_000), None);
    assert_eq!(selection.best_identity(), None);
}

#[test]
fn external_announce_disables_local_master_fallback() {
    let mut client = client_in_domain(7);
    let local_identity = client.get_stats().local_identity;
    let master = ClockIdentity::from_bytes([0x00, 0x1d, 0xc1, 0xff, 0xfe, 0x12, 0x34, 0x56]);

    client.refresh_master_selection(0);
    assert_eq!(client.reference_clock_identity(), local_identity);
    assert!(client.local_master_is_active());

    client
        .apply_announce_bytes(&announce_packet(7, master, 128, 248, 0x22, 0xffff, 128), 0)
        .expect("external announce should be accepted");

    assert_eq!(client.reference_clock_identity(), master);
    assert!(!client.local_master_is_active());
}

#[test]
fn timing_messages_are_filtered_to_selected_master() {
    let selected = ClockIdentity::from_bytes([0x00, 0x1d, 0xc1, 0xff, 0xfe, 0x12, 0x34, 0x56]);
    let other = ClockIdentity::from_bytes([0x00, 0x1d, 0xc1, 0xff, 0xfe, 0xaa, 0xbb, 0xcc]);
    let mut client = client_in_domain(7);
    client
        .apply_announce_bytes(&announce_packet(7, selected, 128, 248, 0x22, 0xffff, 128), 0)
        .unwrap();

    assert!(client.timing_source_is_selected(&ptp_header_from_source(selected)));
    assert!(!client.timing_source_is_selected(&ptp_header_from_source(other)));

    let fresh = client_in_domain(7);
    assert!(fresh.timing_source_is_selected(&ptp_header_from_source(other)));
}

#[test]
fn matched_delay_response_updates_path_delay_and_clock_offset() {
    let mut client = client_in_domain(7);
    let requesting_port_identity = [0x02, 0x00, 0x00, 0xff, 0xfe, 0x00, 0x00, 0x01, 0x00, 0x01];
    let mut pending_delay_request = Some(PendingDelayRequest {
        sequence_id: 42,
        sent_ns: 20_000,
        sync_origin_ns: 10_000,
        sync_arrival_ns: 11_200,
        requesting_port_identity,
    });

    client
        .apply_delay_resp_bytes(
            &mut pending_delay_request,
            &delay_resp_packet(7, 42, 20_800, requesting_port_identity),
        )
        .expect("matching delay response should apply");

    let stats = client.get_stats();
    assert_eq!(stats.mean_path_delay_ns, 1_000);
    assert_eq!(stats.offset_ns, -200);
    assert_eq!(stats.state, PtpState::Slave);
    assert!(pending_delay_request.is_none());
    assert_eq!(client.clock_offset_ns(), -200);
    assert_eq!(client.get_time(1_000_000), 999_800);
}

#[test]
fn unmatched_delay_response_leaves_state_alone() {
    let mut client = client_in_domain(7);
    let port = [0x02, 0x00, 0x00, 0xff, 0xfe, 0x00, 0x00, 0x01, 0x00, 0x01];
    let pending = PendingDelayRequest {
        sequence_id: 42,
        sent_ns: 20_000,
        sync_origin_ns: 10_000,
        sync_arrival_ns: 11_200,
        requesting_port_identity: port,
    };
    let mut slot = Some(pending);
    client.apply_delay_resp_bytes(&mut slot, &delay_resp_packet(7, 43, 20_800, port)).unwrap();
    assert_eq!(slot, Some(pending));
    client.apply_delay_resp_bytes(&mut slot, &delay_resp_packet(8, 42, 20_800, port)).unwrap();
    assert_eq!(slot, Some(pending));
    assert_eq!(client.get_stats().state, PtpState::Initializing);
    assert_eq!(
        client.apply_delay_resp_bytes(&mut slot, &[0u8; 20]),
        Err(PtpError::HeaderTooShort { len: 20 })
    );
}

#[test]
fn delay_resp_parses_the_requesting_port() {
    let port = [1, 2, 3, 4, 5, 6, 7, 8, 9, 10];
    let m = DelayRespMessage::from_bytes(&delay_resp_packet(3, 9, 1_500_000_000, port)).unwrap();
    assert_eq!(m.domain_number, 3);
    assert_eq!(m.sequence_id, 9);
    assert_eq!(m.requesting_port_identity, port);
    assert_eq!(m.receive_timestamp.as_nanos(), 1_500_000_000);
}

#[test]
fn timestamp_round_trips_through_nanos_and_bytes() {
    let t = Timestamp::from_nanos(12_345_678_901);
    assert_eq!(t.seconds, 12);
    assert_eq!(t.nanoseconds, 345_678_901);
    assert_eq!(t.as_nanos(), 12_345_678_901);
    assert_eq!(Timestamp::from_bytes(&t.to_bytes()).unwrap(), t);
}

#[test]
fn rtp_timestamp_scales_clock_time_to_sample_rate() {
    let client = client_in_domain(7);
    assert_eq!(client.rtp_timestamp(48_000, 2_000_000_000), Ok(96_000));
}

#[test]
fn local_master_announces_and_syncs_while_alone() {
    let mut client = client_in_domain(7);
    client.refresh_master_selection(0);
    let mut st = client.loop_state();
    let announce = client.local_announce_tick(&mut st).expect("master announces");
    assert_eq!(announce[0] & 0x0f, 0x0b);
    assert_eq!(announce.len(), 64);
    assert_eq!(st.local_announce_sequence_id, 1);
    let (sync, follow_up) = client.local_sync_tick(&mut st, 1_000_000_000).expect("master syncs");
    assert_eq!(sync[0] & 0x0f, 0x00);
    assert_eq!(follow_up[0] & 0x0f, 0x08);
    assert_eq!(st.local_sync_sequence_id, 1);
}

#[test]
fn follow_up_from_master_requests_delay_measurement() {
    let mut client = client_in_domain(7);
    client.start_listening();
    let mut st = client.loop_state();
    let master = [0x00, 0x1d, 0xc1, 0xff, 0xfe, 0x12, 0x34, 0x56, 0x00, 0x01];
    let mut sync = vec![0u8; 44];
    sync[0] = 0x00;
    sync[1] = 0x02;
    sync[4] = 7;
    sync[20..30].copy_from_slice(&master);
    sync[30..32].copy_from_slice(&5u16.to_be_bytes());
    assert_eq!(client.handle_event_message(&mut st, &sync, 2_000), None);
    assert_eq!(st.last_sync_seq_id, Some(5));
    assert_eq!(client.get_stats().sync_count, 1);
    assert_eq!(client.get_stats().state, PtpState::Uncalibrated);

    let mut follow_up = vec![0u8; 44];
    follow_up[0] = 0x08;
    follow_up[1] = 0x02;
    follow_up[4] = 7;
    follow_up[20..30].copy_from_slice(&master);
    follow_up[30..32].copy_from_slice(&5u16.to_be_bytes());
    follow_up[34..44].copy_from_slice(&Timestamp::from_nanos(1_500).to_bytes());
    let action = client.handle_general_message(&mut st, &follow_up, 0).unwrap();
    assert_eq!(
        action,
        GeneralAction::SendDelayRequest { sync_origin_ns: 1_500, sync_arrival_ns: 2_000 }
    );
    assert_eq!(client.clock_offset_ns(), -500);
}
