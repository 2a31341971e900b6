use aes67_tools::sap::{
    looks_like_sdp,
    build_sap_packet, parse_sap_packet, parse_sap_payload, sap_message_hash,
    sap_multicast_address, SapError, SapMessageType, SapRegistry, SapRegistryEvent, SourceAddress,
    SAP_PORT,
};
use aes67_tools::sdp::{parse_sdp, AudioEncoding, SdpError};
use aes67_tools::ptp_messages::ClockIdentity;
use aes67_tools::stream::{build_sdp, SdpContext, StreamConfig};

const SECOND: u64 = 1_000_000_000;

fn registry_sdp(name: &str) -> String {
    format!(
        "v=0\r\ns={name}\r\nc=IN IP4 239.69.83.3/32\r\nm=audio 5008 RTP/AVP 99\r\na=rtpmap:99 L24/48000/2\r\n"
    )
}

#[test]
fn sap_multicast_group_and_port() {
    assert_eq!(sap_multicast_address(), [239, 255, 255, 255]);
    assert_eq!(SAP_PORT, 9875);
}

#[test]
fn sap_packet_uses_origin_source_and_application_sdp_payload_type() {
    let sdp = "v=0\r\ns=AES67 Stream\r\n";
    let origin_source = [192, 168, 1, 50];

    let packet = build_sap_packet(sdp, origin_source);

    assert_eq!(packet[0], 0x20);
    assert_eq!(packet[1], 0x00);
    assert_eq!(&packet[4..8], &[192, 168, 1, 50]);
    assert_eq!(&packet[8..24], b"application/sdp\0");
    assert_eq!(&packet[24..], sdp.as_bytes());
}

#[test]
fn sap_message_hash_is_stable_and_changes_with_sdp_payload_or_origin_source() {
    let origin_source = [192, 168, 1, 50];
    let first = build_sap_packet("v=0\r\ns=first\r\n", origin_source);
    let first_again = build_sap_packet("v=0\r\ns=first\r\n", origin_source);
    let second = build_sap_packet("v=0\r\ns=second\r\n", origin_source);
    let different_origin = build_sap_packet("v=0\r\ns=first\r\n", [192, 168, 1, 51]);

    assert_eq!(&first[2..4], &first_again[2..4]);
    assert_ne!(&first[2..4], &second[2..4]);
    assert_ne!(&first[2..4], &different_origin[2..4]);
    assert_ne!(&first[2..4], &[0x12, 0x34]);
}

#[test]
fn sap_message_hash_is_fnv_fold_of_origin_and_payload() {
    let origin = [192, 168, 1, 50];
    let payload = "v=0\r\n";
    let mut hash: u32 = 0x811c9dc5;
    for byte in origin.iter().copied().chain(payload.bytes()) {
        hash ^= byte as u32;
        hash = hash.wrapping_mul(0x01000193);
    }
    let folded = ((hash >> 16) as u16) ^ (hash as u16);
    let expected = if folded == 0 { 1 } else { folded };
    assert_eq!(sap_message_hash(payload, origin), expected);
    let packet = build_sap_packet(payload, origin);
    assert_eq!(u16::from_be_bytes([packet[2], packet[3]]), expected);
}

#[test]
fn parses_application_sdp_sap_packet_into_aes67_session() {
    let origin_source = [192, 168, 1, 50];
    let packet = build_sap_packet(
        "v=0\r\n\
         o=- 0 0 IN IP4 192.168.1.50\r\n\
         s=Studio Main\r\n\
         c=IN IP4 239.69.83.1/32\r\n\
         t=0 0\r\n\
         m=audio 5004 RTP/AVP 97\r\n\
         a=rtpmap:97 L24/48000/2\r\n\
         a=ptime:1\r\n",
        origin_source,
    );

    let message = parse_sap_packet(&packet).expect("real SAP packet should parse");

    assert_eq!(message.key.origin_source, origin_source);
    assert_eq!(message.message_type, SapMessageType::Announcement);
    assert_eq!(message.payload_type.as_deref(), Some("application/sdp"));
    assert_eq!(
        message.session.as_ref().and_then(|session| session.session_name.as_deref()),
        Some("Studio Main")
    );
    let session = message.session.as_ref().expect("AES67 SDP should produce a session");
    assert_eq!(session.address, [239, 69, 83, 1]);
    assert_eq!(session.port, 5004);
    assert_eq!(session.channels, 2);
}

#[test]
fn parses_legacy_sap_packet_with_omitted_application_sdp_payload_type() {
    let origin_source = [192, 168, 1, 51];
    let sdp = "v=0\r\n\
         s=Legacy SAP\r\n\
         c=IN IP4 239.69.83.2/32\r\n\
         m=audio 5006 RTP/AVP 98\r\n\
         a=rtpmap:98 L24/48000/8\r\n";
    let mut packet = Vec::new();
    packet.push(0x20);
    packet.push(0x00);
    packet.extend_from_slice(&0x3456u16.to_be_bytes());
    packet.extend_from_slice(&origin_source);
    packet.extend_from_slice(sdp.as_bytes());

    let message = parse_sap_packet(&packet).expect("legacy SAP packet should parse");

    assert_eq!(message.payload_type.as_deref(), Some("application/sdp"));
    let session = message.session.expect("legacy SDP should produce a session");
    assert_eq!(session.session_name.as_deref(), Some("Legacy SAP"));
    assert_eq!(session.payload_type, 98);
    assert_eq!(session.channels, 8);
}

#[test]
fn sap_header_errors_are_reported() {
    assert_eq!(parse_sap_packet(&[0x20, 0, 0]), Err(SapError::TooShort));
    let mut encrypted = build_sap_packet("v=0\r\n", [1, 2, 3, 4]);
    encrypted[0] |= 0x02;
    assert_eq!(parse_sap_packet(&encrypted), Err(SapError::Encrypted));
    let mut compressed = build_sap_packet("v=0\r\n", [1, 2, 3, 4]);
    compressed[0] |= 0x01;
    assert_eq!(parse_sap_packet(&compressed), Err(SapError::Compressed));
    let empty = build_sap_packet("", [1, 2, 3, 4]);
    assert!(parse_sap_packet(&empty[..8]).is_err());
}

#[test]
fn sap_payload_type_is_split_and_normalized() {
    let (kind, body) = parse_sap_payload(b"Application/SDP \0v=0\r\n").unwrap();
    assert_eq!(kind.as_deref(), Some("application/sdp"));
    assert_eq!(body, b"v=0\r\n");
    assert_eq!(parse_sap_payload(b" \0v=0"), Err(SapError::EmptyPayloadType));
    assert_eq!(parse_sap_payload(b"text/plain"), Err(SapError::PayloadTypeNotTerminated));
    let (kind, body) = parse_sap_payload(b"v=0\r\ns=x\r\n").unwrap();
    assert_eq!(kind.as_deref(), Some("application/sdp"));
    assert_eq!(body, b"v=0\r\ns=x\r\n");
}

#[test]
fn non_sdp_payload_has_no_session() {
    let mut packet = vec![0x20, 0x00, 0x12, 0x34, 10, 0, 0, 1];
    packet.extend_from_slice(b"text/plain\0hello");
    let message = parse_sap_packet(&packet).unwrap();
    assert_eq!(message.payload_type.as_deref(), Some("text/plain"));
    assert!(message.sdp.is_none());
    assert!(message.session.is_none());
}

#[test]
fn sap_registry_reports_added_updated_removed_and_expired_streams() {
    let origin_source = [192, 168, 1, 52];
    let sender = SourceAddress { ip: [192, 168, 1, 52], port: 9875 };
    let mut registry = SapRegistry::new(30 * SECOND);
    let now = 1_000 * SECOND;

    let first = parse_sap_packet(&build_sap_packet(&registry_sdp("Registry Stream"), origin_source))
        .expect("first SAP packet should parse");
    let first_key = first.key;

    let event = registry.apply_message(first, sender, now).expect("new stream should produce an event");
    assert!(matches!(event, SapRegistryEvent::Added(_)));
    assert_eq!(registry.get_streams().len(), 1);

    let refresh =
        parse_sap_packet(&build_sap_packet(&registry_sdp("Registry Stream"), origin_source))
            .expect("refresh SAP packet should parse");
    assert!(
        registry.apply_message(refresh, sender, now + 5 * SECOND).is_none(),
        "unchanged refresh should only update last_seen"
    );

    let mut changed_packet =
        build_sap_packet(&registry_sdp("Registry Stream Updated"), origin_source);
    changed_packet[2..4].copy_from_slice(&first_key.message_hash.to_be_bytes());
    let changed = parse_sap_packet(&changed_packet).expect("changed SAP packet should parse");
    let event = registry
        .apply_message(changed, sender, now + 10 * SECOND)
        .expect("changed stream should produce an event");
    assert!(matches!(event, SapRegistryEvent::Updated(_)));

    let expired = registry.expire(now + 41 * SECOND);
    assert_eq!(expired.len(), 1);
    assert!(matches!(expired[0], SapRegistryEvent::Expired(_)));
    assert!(registry.get_streams().is_empty());
}

#[test]
fn sap_registry_removes_stream_on_deletion_packet() {
    let origin_source = [192, 168, 1, 53];
    let sender = SourceAddress { ip: [192, 168, 1, 53], port: 9875 };
    let mut registry = SapRegistry::new(30 * SECOND);
    let now = 1_000 * SECOND;
    let announcement = parse_sap_packet(&build_sap_packet(
        "v=0\r\n\
         s=Deleted Stream\r\n\
         c=IN IP4 239.69.83.4/32\r\n\
         m=audio 5010 RTP/AVP 100\r\n\
         a=rtpmap:100 L24/48000/2\r\n",
        origin_source,
    ))
    .expect("announcement should parse");
    let key = announcement.key;
    registry.apply_message(announcement, sender, now);

    let mut deletion = build_sap_packet("o=- 0 0 IN IP4 192.168.1.53\r\n", origin_source);
    deletion[0] |= 0x04;
    deletion[2..4].copy_from_slice(&key.message_hash.to_be_bytes());
    let deletion = parse_sap_packet(&deletion).expect("deletion SAP packet should parse");
    assert_eq!(deletion.message_type, SapMessageType::Deletion);

    let event = registry
        .apply_message(deletion, sender, now + SECOND)
        .expect("deletion should produce a removed event");

    assert!(matches!(event, SapRegistryEvent::Removed(_)));
    assert!(registry.get_streams().is_empty());
}

#[test]
fn sap_registry_keeps_fresh_streams_and_lists_them_in_name_order() {
    let mut registry = SapRegistry::new(30 * SECOND);
    let sender = SourceAddress { ip: [10, 0, 0, 1], port: 9875 };
    let b = parse_sap_packet(&build_sap_packet(&registry_sdp("Bravo"), [10, 0, 0, 2])).unwrap();
    let a = parse_sap_packet(&build_sap_packet(&registry_sdp("Alpha"), [10, 0, 0, 1])).unwrap();
    registry.apply_message(b, sender, 0);
    registry.apply_message(a, sender, 20 * SECOND);
    let names: Vec<String> = registry
        .get_streams()
        .iter()
        .map(|s| s.message.session.as_ref().unwrap().session_name.clone().unwrap())
        .collect();
    assert_eq!(names, vec!["Alpha".to_string(), "Bravo".to_string()]);
    let expired = registry.expire(31 * SECOND);
    assert_eq!(expired.len(), 1);
    assert_eq!(registry.get_streams().len(), 1);
}

#[test]
fn unsupported_announcement_is_ignored_by_registry() {
    let mut registry = SapRegistry::new(30 * SECOND);
    let sender = SourceAddress { ip: [10, 0, 0, 1], port: 9875 };
    let message = parse_sap_packet(&build_sap_packet("v=0\r\ns=no media\r\n", [10, 0, 0, 1])).unwrap();
    assert!(message.session.is_none());
    assert!(registry.apply_message(message, sender, 0).is_none());
    assert!(registry.get_streams().is_empty());
}

#[test]
fn sdp_parser_reads_a_full_description() {
    let session = parse_sdp(
        "v=0\r\n\
         o=- 0 0 IN IP4 192.168.1.50\r\n\
         s=Studio Main\r\n\
         c=IN IP4 239.69.83.1/32\r\n\
         t=0 0\r\n\
         m=audio 5004 RTP/AVP 97\r\n\
         a=rtpmap:97 L24/48000/2\r\n\
         a=ptime:1\r\n\
         a=ts-refclk:ptp=IEEE1588-2008:00-1D-C1-FF-FE-12-34-56:0\r\n\
         a=mediaclk:direct=0\r\n",
    )
    .unwrap();
    assert_eq!(session.session_name.as_deref(), Some("Studio Main"));
    assert_eq!(session.address, [239, 69, 83, 1]);
    assert_eq!(session.ttl, Some(32));
    assert_eq!(session.port, 5004);
    assert_eq!(session.payload_type, 97);
    assert_eq!(session.encoding, AudioEncoding::L24);
    assert_eq!(session.sample_rate, 48_000);
    assert_eq!(session.channels, 2);
    assert_eq!(session.packet_time_ms, 1);
    assert_eq!(session.frames_per_packet(), 48);
    assert_eq!(
        session.ts_refclk.as_deref(),
        Some("ptp=IEEE1588-2008:00-1D-C1-FF-FE-12-34-56:0")
    );
    assert_eq!(session.mediaclk.as_deref(), Some("direct=0"));
}

#[test]
fn sdp_parser_reports_each_error() {
    let base = |c: &str, m: &str, r: &str| format!("v=0\r\n{c}{m}{r}");
    let c = "c=IN IP4 239.69.83.1\r\n";
    let m = "m=audio 5004 RTP/AVP 97\r\n";
    let r = "a=rtpmap:97 L24/48000/2\r\n";
    assert_eq!(parse_sdp(&base("", m, r)), Err(SdpError::MissingConnection));
    assert_eq!(parse_sdp(&base(c, "", r)), Err(SdpError::MissingMedia));
    assert_eq!(parse_sdp(&base(c, m, "")), Err(SdpError::MissingRtpmap));
    assert_eq!(parse_sdp(&base("c=IN IP6 ::1\r\n", m, r)), Err(SdpError::InvalidConnection));
    assert_eq!(
        parse_sdp(&base(c, m, "a=rtpmap:98 L24/48000/2\r\n")),
        Err(SdpError::PayloadTypeMismatch)
    );
    assert_eq!(
        parse_sdp(&base(c, m, "a=rtpmap:97 L16/48000/2\r\n")),
        Err(SdpError::UnsupportedEncoding)
    );
    assert_eq!(
        parse_sdp(&base(c, m, "a=rtpmap:97 L24/44100/2\r\n")),
        Err(SdpError::UnsupportedSampleRate)
    );
    assert_eq!(
        parse_sdp(&base(c, m, "a=rtpmap:97 L24/48000/9\r\n")),
        Err(SdpError::UnsupportedChannels)
    );
    assert_eq!(
        parse_sdp(&base(c, "m=audio 5004 RTP/AVP 11\r\n", "a=rtpmap:11 L24/48000/2\r\n")),
        Err(SdpError::UnsupportedPayloadType)
    );
}

#[test]
fn sdp_like_payloads_are_recognised() {
    assert!(looks_like_sdp(b"v=0\r\n"));
    assert!(looks_like_sdp(b"o=- 1"));
    assert!(looks_like_sdp(b"s=x"));
    assert!(!looks_like_sdp(b"application/sdp\0v=0"));
    assert!(!looks_like_sdp(b"v"));
}

#[test]
fn announced_stream_sdp_is_discovered_with_its_description() {
    let config = StreamConfig { session_name: "Studio Main".to_string(), ..Default::default() };
    let context = SdpContext {
        local_ip: [192, 168, 1, 50],
        multicast_ip: [239, 69, 83, 1],
        port: 5004,
        audio_channels: 2,
    };
    let sdp = build_sdp(&context, ClockIdentity::from_bytes([0, 0x1d, 0xc1, 0xff, 0xfe, 0x12, 0x34, 0x56]), &config);
    let message = parse_sap_packet(&build_sap_packet(&sdp, [192, 168, 1, 50])).expect("announcement should parse");
    let session = message.session.expect("announced SDP should describe the stream");
    assert_eq!(session.session_name.as_deref(), Some("Studio Main"));
    assert_eq!(session.address, [239, 69, 83, 1]);
    assert_eq!(session.port, 5004);
    assert_eq!(session.payload_type, 97);
    assert_eq!(session.channels, 2);
    assert_eq!(session.ts_refclk.as_deref(), Some("ptp=IEEE1588-2008:00-1D-C1-FF-FE-12-34-56:0"));
}
