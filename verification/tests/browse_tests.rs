use aes67_tools::browse::{format_registry_event, format_sdp_block, sdp_output_file_name};
use aes67_tools::sap::{
    SapMessage, SapMessageKey, SapMessageType, SapRegistryEvent, SapStream, SourceAddress,
};
use aes67_tools::sdp::parse_sdp;

fn test_stream(name: &str) -> SapStream {
    let sdp = format!(
        "v=0\r\n\
         s={name}\r\n\
         c=IN IP4 239.69.83.1/32\r\n\
         m=audio 5004 RTP/AVP 97\r\n\
         a=rtpmap:97 L24/48000/2\r\n\
         a=ptime:1\r\n"
    );
    let session = parse_sdp(&sdp).expect("test SDP should parse");
    let key = SapMessageKey { origin_source: [192, 168, 1, 50], message_hash: 0x1234 };
    SapStream {
        key,
        message: SapMessage {
            key,
            message_type: SapMessageType::Announcement,
            payload_type: Some("application/sdp".to_string()),
            sdp: Some(sdp),
            session: Some(session),
        },
        source: SourceAddress { ip: [192, 168, 1, 50], port: 9875 },
        first_seen_ns: 0,
        last_seen_ns: 0,
    }
}

#[test]
fn formats_added_stream_like_browse_event_line() {
    let line = format_registry_event(&SapRegistryEvent::Added(test_stream("Studio Main")), false);

    assert!(line.starts_with("+ "));
    assert!(line.contains("Studio Main"));
    assert!(line.contains("239.69.83.1:5004"));
    assert!(line.contains("L24/48000/2"));
    assert!(line.contains("ptime=1ms"));
    assert!(line.contains("origin=192.168.1.50"));
    assert!(!line.contains("SDP:"));
    assert_eq!(
        line,
        "+ Studio Main 239.69.83.1:5004 L24/48000/2 ptime=1ms source=192.168.1.50:9875 origin=192.168.1.50"
    );
}

#[test]
fn formats_removed_stream_with_minus_event_marker() {
    let line = format_registry_event(&SapRegistryEvent::Removed(test_stream("Studio Main")), true);

    assert!(line.starts_with("- "));
    assert!(line.contains("Studio Main"));
    assert!(!line.contains("SDP:"));
}

#[test]
fn formats_updated_and_unnamed_streams() {
    let line = format_registry_event(&SapRegistryEvent::Updated(test_stream("  ")), false);
    assert!(line.starts_with("= (unnamed) "));
    let mut bare = test_stream("x");
    bare.message.session = None;
    let line = format_registry_event(&SapRegistryEvent::Expired(bare), false);
    assert_eq!(line, "- SAP hash=1234 source=192.168.1.50:9875 origin=192.168.1.50");
}

#[test]
fn formats_added_stream_with_readable_sdp_block_when_requested() {
    let output = format_registry_event(&SapRegistryEvent::Added(test_stream("Studio Main")), true);

    assert!(output.starts_with("+ Studio Main"));
    assert!(output.contains("\n  SDP:\n"));
    assert!(output.contains("    v=0\n"));
    assert!(output.contains("    s=Studio Main\n"));
    assert!(output.contains("    c=IN IP4 239.69.83.1/32\n"));
    assert!(output.contains("    a=rtpmap:97 L24/48000/2"));
}

#[test]
fn sdp_block_indents_each_line() {
    assert_eq!(format_sdp_block("v=0\r\ns=x\r\n"), "  SDP:\n    v=0\n    s=x");
}

#[test]
fn sdp_output_path_uses_origin_and_message_hash() {
    let stream = test_stream("Studio Main");
    assert_eq!(sdp_output_file_name(&stream), "sap-192.168.1.50-1234.sdp");
}
