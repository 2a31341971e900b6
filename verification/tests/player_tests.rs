use aes67_tools::player::{
    jitter_capacity_packets, output_buffer_capacity_samples, preroll_packets,
    session_from_stream_args, NullOutput, OutputError, PlayerStats, Playout, PlayoutError,
    SessionArgsError,
};
use aes67_tools::sdp::{parse_sdp, AudioEncoding};

#[test]
fn latency_rounds_up_to_whole_packets() {
    assert_eq!(preroll_packets(50, 1), 50);
    assert_eq!(preroll_packets(51, 2), 26);
    assert_eq!(preroll_packets(1, 2), 1);
}

#[test]
fn zero_latency_still_buffers_one_packet() {
    assert_eq!(preroll_packets(0, 1), 1);
}

#[test]
fn basic_cli_args_build_default_l24_session() {
    let session =
        session_from_stream_args(Some([239, 192, 1, 1]), Some(5004), Some(2), Some(97)).unwrap();

    assert_eq!(session.address, [239, 192, 1, 1]);
    assert_eq!(session.port, 5004);
    assert_eq!(session.payload_type, 97);
    assert_eq!(session.encoding, AudioEncoding::L24);
    assert_eq!(session.sample_rate, 48_000);
    assert_eq!(session.channels, 2);
    assert_eq!(session.packet_time_ms, 1);
    assert_eq!(session.frames_per_packet(), 48);
}

#[test]
fn session_args_report_the_first_missing_value() {
    assert_eq!(
        session_from_stream_args(None, Some(5004), Some(2), Some(97)),
        Err(SessionArgsError::MissingAddress)
    );
    assert_eq!(
        session_from_stream_args(Some([239, 0, 0, 1]), None, Some(2), Some(97)),
        Err(SessionArgsError::MissingPort)
    );
    assert_eq!(
        session_from_stream_args(Some([239, 0, 0, 1]), Some(1), None, Some(97)),
        Err(SessionArgsError::MissingChannels)
    );
    assert_eq!(
        session_from_stream_args(Some([239, 0, 0, 1]), Some(1), Some(2), None),
        Err(SessionArgsError::MissingPayloadType)
    );
}

#[test]
fn sdp_args_build_session_from_file() {
    let sdp = "v=0\r\n\
               o=- 0 0 IN IP4 127.0.0.1\r\n\
               s=Example\r\n\
               c=IN IP4 239.192.1.1/32\r\n\
               t=0 0\r\n\
               m=audio 5004 RTP/AVP 97\r\n\
               a=rtpmap:97 L24/48000/2\r\n\
               a=ptime:1\r\n";
    let session = parse_sdp(sdp).unwrap();

    assert_eq!(session.address, [239, 192, 1, 1]);
    assert_eq!(session.port, 5004);
    assert_eq!(session.channels, 2);
}

#[test]
fn sdp_connection_address_is_read_like_a_stream_address() {
    let sdp = |address: &str| {
        format!(
            "v=0\r\no=- 0 0 IN IP4 127.0.0.1\r\ns=Example\r\nc=IN IP4 {address}/32\r\nt=0 0\r\n\
             m=audio 5004 RTP/AVP 97\r\na=rtpmap:97 L24/48000/2\r\na=ptime:1\r\n"
        )
    };
    assert_eq!(parse_sdp(&sdp("239.69.83.1")).unwrap().address, [239, 69, 83, 1]);
    assert!(parse_sdp(&sdp("239.069.083.001")).is_err());
    assert!(parse_sdp(&sdp("239.69.83.1000")).is_err());
    assert!(parse_sdp(&sdp("239.69..1")).is_err());
}

#[test]
fn jitter_capacity_is_one_second_and_at_least_128() {
    let mut session =
        session_from_stream_args(Some([239, 192, 1, 1]), Some(5004), Some(2), Some(97)).unwrap();
    assert_eq!(jitter_capacity_packets(&session), 1000);
    session.packet_time_ms = 3;
    assert_eq!(jitter_capacity_packets(&session), 334);
    session.packet_time_ms = 10;
    assert_eq!(jitter_capacity_packets(&session), 128);
}

#[test]
fn null_output_counts_frames_and_silence() {
    let mut output = NullOutput::new();
    let samples = [0.0f32, 0.1, 0.2, 0.3];

    assert_eq!(output.write_interleaved(samples.len(), 2).unwrap(), 2);
    output.write_silence(48, 2).unwrap();

    let stats = output.stats();
    assert_eq!(stats.frames_written, 50);
    assert_eq!(stats.samples_written, 100);
    assert_eq!(stats.silence_frames, 48);
    assert_eq!(stats.dropped_samples, 0);
}

#[test]
fn null_output_rejects_invalid_interleaved_shape() {
    let mut output = NullOutput::new();

    assert!(output.write_interleaved(3, 2).is_err());
    assert!(output.write_interleaved(1, 0).is_err());
    assert!(output.write_silence(48, 0).is_err());
    assert_eq!(
        output.write_interleaved(3, 2),
        Err(OutputError::PartialFrame { samples: 3, channels: 2 })
    );
    assert_eq!(output.write_silence(48, 0), Err(OutputError::ZeroChannels));
    assert_eq!(output.stats().frames_written, 0);
}

#[test]
fn output_buffer_capacity_has_large_internal_minimum() {
    assert_eq!(output_buffer_capacity_samples(48_000, 2, 50), 48_000);
    assert_eq!(output_buffer_capacity_samples(48_000, 2, 250), 96_000);
}

#[test]
fn player_stats_start_at_zero() {
    let stats = PlayerStats::default();
    assert_eq!(stats.packets_received, 0);
    assert_eq!(stats.frames_decoded, 0);
}

#[test]
fn playout_starts_after_preroll_and_counts_packets() {
    let mut playout = Playout::new(preroll_packets(3, 1));
    assert!(!playout.packet_received(true, 1));
    assert!(!playout.packet_received(false, 1));
    assert!(!playout.packet_received(true, 2));
    assert!(playout.packet_received(true, 3));
    assert!(playout.packet_received(true, 0));
    assert_eq!(playout.stats.packets_received, 5);
    assert_eq!(playout.stats.packets_accepted, 4);
    assert_eq!(playout.finish(), Err(PlayoutError::NothingDecoded));
    assert_eq!(
        playout.packet_decoded(47, 48),
        Err(PlayoutError::UnexpectedFrameCount { frames: 47, expected: 48 })
    );
    playout.packet_decoded(48, 48).unwrap();
    playout.silence_written(48);
    assert_eq!(playout.stats.packets_decoded, 1);
    assert_eq!(playout.stats.frames_decoded, 48);
    assert_eq!(playout.stats.silence_frames, 48);
    assert_eq!(playout.finish(), Ok(()));
}
