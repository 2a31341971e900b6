use aes67_tools::rtp::{
    decode_l24_payload_interleaved, L24Block, RtpError, RtpHeader, RtpPacket, RtpPacketizer,
    RTP_FIXED_HEADER_LEN,
};

const L24_POSITIVE_SCALE: f32 = 8_388_607.0;
const L24_NEGATIVE_SCALE: f32 = 8_388_608.0;

/// Float to 24-bit integer sample, clamped, as the audio front end converts it.
fn to_l24(sample: f32) -> i32 {
    let s = sample.clamp(-1.0, 1.0);
    let scale = if s < 0.0 { L24_NEGATIVE_SCALE } else { L24_POSITIVE_SCALE };
    (s * scale) as i32
}

fn from_l24(sample: i32) -> f32 {
    if sample >= 0 {
        sample as f32 / L24_POSITIVE_SCALE
    } else {
        sample as f32 / L24_NEGATIVE_SCALE
    }
}

fn block(data: &[f32], channels: u32, frames: usize) -> L24Block {
    L24Block {
        data: data.iter().map(|&s| to_l24(s)).collect(),
        channels,
        sample_rate: 48000,
        frames,
    }
}

fn stereo_block() -> L24Block {
    block(&[0.5, -0.5, 0.25, -0.25], 2, 2)
}

fn assert_close(actual: f32, expected: f32) {
    let tolerance = 2.0 / L24_POSITIVE_SCALE;
    assert!((actual - expected).abs() <= tolerance, "actual {actual} expected {expected}");
}

fn pcm24_bytes(sample: f32) -> [u8; 3] {
    let b = to_l24(sample).to_be_bytes();
    [b[1], b[2], b[3]]
}

#[test]
fn test_rtp_header_serialization() {
    let header = RtpHeader {
        version: 2,
        padding: false,
        extension: false,
        csrc_count: 0,
        marker: false,
        payload_type: 97,
        sequence_number: 0x1234,
        timestamp: 0x56789ABC,
        ssrc: 0xDEADBEEF,
    };

    let bytes = header.to_bytes();

    assert_eq!(bytes[0], 0x80);
    assert_eq!(bytes[1], 97);
    assert_eq!(u16::from_be_bytes([bytes[2], bytes[3]]), 0x1234);
    assert_eq!(u32::from_be_bytes([bytes[4], bytes[5], bytes[6], bytes[7]]), 0x56789ABC);
    assert_eq!(u32::from_be_bytes([bytes[8], bytes[9], bytes[10], bytes[11]]), 0xDEADBEEF);
}

#[test]
fn rtp_header_parses_serialized_header() {
    let header = RtpHeader {
        version: 2,
        padding: false,
        extension: false,
        csrc_count: 0,
        marker: true,
        payload_type: 97,
        sequence_number: 0x1234,
        timestamp: 0x56789ABC,
        ssrc: 0xDEADBEEF,
    };

    let parsed = RtpHeader::from_bytes(&header.to_bytes()).unwrap();

    assert_eq!(parsed.version, 2);
    assert!(parsed.marker);
    assert_eq!(parsed.payload_type, 97);
    assert_eq!(parsed.sequence_number, 0x1234);
    assert_eq!(parsed.timestamp, 0x56789ABC);
    assert_eq!(parsed.ssrc, 0xDEADBEEF);
}

#[test]
fn rtp_packet_parser_accepts_packetizer_bytes() {
    let sample = stereo_block();
    let mut packetizer = RtpPacketizer::new(97, 0x12345678);
    let mut bytes = Vec::new();

    packetizer.write_packet_with_timestamp_into(&sample, 0xABCDEF01, &mut bytes).unwrap();

    let parsed = RtpPacket::parse(&bytes).unwrap();

    assert_eq!(parsed.header.version, 2);
    assert_eq!(parsed.header.payload_type, 97);
    assert_eq!(parsed.header.sequence_number, 0);
    assert_eq!(parsed.header.timestamp, 0xABCDEF01);
    assert_eq!(parsed.header.ssrc, 0x12345678);
    assert_eq!(parsed.payload, bytes[RTP_FIXED_HEADER_LEN..]);
}

#[test]
fn rtp_packet_parser_rejects_short_packets() {
    let result = RtpPacket::parse(&[0x80, 97, 0, 1]);

    assert!(result.is_err());
    assert_eq!(result.unwrap_err(), RtpError::TooShort { len: 4 });
}

#[test]
fn rtp_packet_parser_rejects_non_version_two_packets() {
    let mut bytes = [0u8; RTP_FIXED_HEADER_LEN];
    bytes[0] = 0x40;

    let result = RtpPacket::parse(&bytes);

    assert!(result.is_err());
}

#[test]
fn rtp_packet_parser_rejects_unsupported_header_features() {
    let mut padding = RtpHeader::new(97, 0x12345678).to_bytes();
    padding[0] |= 0x20;
    assert!(RtpPacket::parse(&padding).is_err());

    let mut extension = RtpHeader::new(97, 0x12345678).to_bytes();
    extension[0] |= 0x10;
    assert!(RtpPacket::parse(&extension).is_err());

    let mut csrc = RtpHeader::new(97, 0x12345678).to_bytes();
    csrc[0] |= 0x01;
    assert!(RtpPacket::parse(&csrc).is_err());
}

#[test]
fn rtp_parse_error_variants_name_the_refused_feature() {
    let mut bytes = RtpHeader::new(97, 1).to_bytes();
    bytes[0] = 0x40;
    assert_eq!(RtpPacket::parse(&bytes).unwrap_err(), RtpError::UnsupportedVersion { version: 1 });
    let mut padding = RtpHeader::new(97, 1).to_bytes();
    padding[0] |= 0x20;
    assert_eq!(RtpPacket::parse(&padding).unwrap_err(), RtpError::PaddingUnsupported);
    let mut extension = RtpHeader::new(97, 1).to_bytes();
    extension[0] |= 0x10;
    assert_eq!(RtpPacket::parse(&extension).unwrap_err(), RtpError::ExtensionUnsupported);
    let mut csrc = RtpHeader::new(97, 1).to_bytes();
    csrc[0] |= 0x01;
    assert_eq!(RtpPacket::parse(&csrc).unwrap_err(), RtpError::CsrcUnsupported);
}

#[test]
fn rtp_header_round_trips_every_field() {
    let header = RtpHeader {
        version: 2,
        padding: false,
        extension: false,
        csrc_count: 0,
        marker: true,
        payload_type: 0x7f,
        sequence_number: 0xffff,
        timestamp: 0,
        ssrc: 1,
    };
    assert_eq!(RtpHeader::from_bytes(&header.to_bytes()).unwrap(), header);
}

#[test]
fn test_rtp_packetizer() {
    let mut packetizer = RtpPacketizer::new(97, 0x12345678);
    let sample = stereo_block();

    let packet = packetizer.create_packet(&sample).unwrap();

    assert_eq!(packet.header.sequence_number, 0);
    assert_eq!(packet.header.payload_type, 97);
    assert_eq!(packet.header.ssrc, 0x12345678);
    assert_eq!(packet.payload.len(), 12);

    let packet2 = packetizer.create_packet(&sample).unwrap();
    assert_eq!(packet2.header.sequence_number, 1);
    assert_eq!(packet2.header.timestamp, 2);
}

#[test]
fn explicit_timestamp_packets_still_advance_packetizer_state() {
    let mut packetizer = RtpPacketizer::new(97, 0x12345678);
    let sample = stereo_block();

    let packet = packetizer.create_packet_with_timestamp(&sample, 0xABCDEF01).unwrap();

    assert_eq!(packet.header.timestamp, 0xABCDEF01);
    assert_eq!(packet.header.sequence_number, 0);
    assert_eq!(packetizer.get_sequence_number(), 1);
    assert_eq!(packetizer.get_samples_processed(), 2);
}

#[test]
fn packet_bytes_writer_matches_existing_packet_serialization() {
    let sample = stereo_block();
    let mut packetizer = RtpPacketizer::new(97, 0x12345678);
    let packet = packetizer.create_packet_with_timestamp(&sample, 0xABCDEF01).unwrap();
    let mut expected = packet.header.to_bytes().to_vec();
    expected.extend(packet.payload);

    let mut writer = RtpPacketizer::new(97, 0x12345678);
    let mut actual = Vec::new();
    writer.write_packet_with_timestamp_into(&sample, 0xABCDEF01, &mut actual).unwrap();

    assert_eq!(actual, expected);
    assert_eq!(writer.get_sequence_number(), 1);
    assert_eq!(writer.get_samples_processed(), 2);
}

#[test]
fn packet_bytes_writer_advances_timestamps_by_sample_frames() {
    let sample = stereo_block();
    let mut packetizer = RtpPacketizer::new(97, 0x12345678);
    packetizer.set_base_timestamp(0xABCDEF00);
    let mut bytes = Vec::new();

    packetizer.write_packet_into(&sample, &mut bytes).unwrap();
    let first = RtpPacket::parse(&bytes).unwrap();

    packetizer.write_packet_into(&sample, &mut bytes).unwrap();
    let second = RtpPacket::parse(&bytes).unwrap();

    assert_eq!(first.header.timestamp, 0xABCDEF00);
    assert_eq!(second.header.timestamp, 0xABCDEF02);
    assert_eq!(second.header.sequence_number, 1);
}

#[test]
fn running_timestamps_wrap_past_the_top_of_the_range() {
    let sample = stereo_block();
    let mut packetizer = RtpPacketizer::new(97, 1);
    packetizer.set_base_timestamp(0xFFFF_FFFF);
    let mut bytes = Vec::new();

    packetizer.write_packet_into(&sample, &mut bytes).unwrap();
    let first = RtpPacket::parse(&bytes).unwrap();
    packetizer.write_packet_into(&sample, &mut bytes).unwrap();
    let second = RtpPacket::parse(&bytes).unwrap();
    let third = packetizer.create_packet(&sample).unwrap();

    assert_eq!(first.header.timestamp, 0xFFFF_FFFF);
    assert_eq!(first.header.sequence_number, 0);
    assert_eq!(second.header.timestamp, 1);
    assert_eq!(second.header.sequence_number, 1);
    assert_eq!(third.header.timestamp, 3);
    assert_eq!(third.header.sequence_number, 2);
}

#[test]
fn packet_bytes_writer_reuses_existing_buffer_capacity() {
    let sample = stereo_block();
    let expected_packet_len = 12 + sample.data.len() * 3;
    let mut packetizer = RtpPacketizer::new(97, 0x12345678);
    let mut output = Vec::with_capacity(expected_packet_len);

    packetizer.write_packet_into(&sample, &mut output).unwrap();
    let first_ptr = output.as_ptr();
    let first_capacity = output.capacity();
    assert_eq!(output.len(), expected_packet_len);

    packetizer.write_packet_into(&sample, &mut output).unwrap();

    assert_eq!(output.as_ptr(), first_ptr);
    assert_eq!(output.capacity(), first_capacity);
    assert_eq!(output.len(), expected_packet_len);
    assert_eq!(packetizer.get_sequence_number(), 2);
    assert_eq!(packetizer.get_samples_processed(), 4);
}

#[test]
fn reset_clears_sequence_and_sample_position() {
    let mut packetizer = RtpPacketizer::new(97, 0x12345678);
    let sample = stereo_block();
    packetizer.create_packet(&sample).unwrap();

    packetizer.reset();

    assert_eq!(packetizer.get_sequence_number(), 0);
    assert_eq!(packetizer.get_samples_processed(), 0);
}

#[test]
fn test_audio_to_payload_conversion() {
    let packetizer = RtpPacketizer::new(97, 0);
    let sample = block(&[1.0, -1.0, 0.0], 1, 3);

    let payload = packetizer.audio_to_payload(&sample);

    assert_eq!(payload.len(), 9);
    assert_eq!(&payload[0..3], &[0x7F, 0xFF, 0xFF]);
    assert_eq!(&payload[3..6], &[0x80, 0x00, 0x00]);
    assert_eq!(&payload[6..9], &[0x00, 0x00, 0x00]);
}

#[test]
fn l24_payload_decoder_handles_canonical_boundaries() {
    let payload = [0x7F, 0xFF, 0xFF, 0x80, 0x00, 0x00, 0x00, 0x00, 0x00];
    let mut decoded = Vec::new();

    let frames = decode_l24_payload_interleaved(&payload, 1, &mut decoded).unwrap();

    assert_eq!(frames, 3);
    assert_eq!(decoded, vec![0x7F_FFFF, -0x80_0000, 0]);
    assert_close(from_l24(decoded[0]), 1.0);
    assert_close(from_l24(decoded[1]), -1.0);
    assert_close(from_l24(decoded[2]), 0.0);
}

#[test]
fn l24_payload_decoder_preserves_interleaved_order_from_packetizer() {
    let sample = stereo_block();
    let mut packetizer = RtpPacketizer::new(97, 0x12345678);
    let packet = packetizer.create_packet(&sample).unwrap();
    let mut decoded = Vec::new();

    let frames =
        decode_l24_payload_interleaved(&packet.payload, sample.channels as u16, &mut decoded)
            .unwrap();

    assert_eq!(frames, 2);
    assert_eq!(decoded.len(), 4);
    assert_close(from_l24(decoded[0]), 0.5);
    assert_close(from_l24(decoded[1]), 0.25);
    assert_close(from_l24(decoded[2]), -0.5);
    assert_close(from_l24(decoded[3]), -0.25);
}

#[test]
fn packetize_parse_decode_preserves_sine_continuity_across_packet_boundaries() {
    let sample_rate = 48_000u32;
    let channels = 2u32;
    let frames_per_packet = 48usize;
    let packet_count = 10usize;
    let frequency_hz = 997.0f32;
    let amplitude = 0.5f32;
    let mut packetizer = RtpPacketizer::new(97, 0x12345678);
    let mut decoded_stream = Vec::new();
    let mut expected_interleaved = Vec::new();

    for packet_index in 0..packet_count {
        let frame_offset = packet_index * frames_per_packet;
        let packet_frames = (0..frames_per_packet)
            .map(|frame| {
                let t = (frame_offset + frame) as f32 / sample_rate as f32;
                (2.0 * std::f32::consts::PI * frequency_hz * t).sin() * amplitude
            })
            .collect::<Vec<_>>();
        let mut planar = packet_frames.clone();
        planar.extend_from_slice(&packet_frames);
        for sample in &packet_frames {
            expected_interleaved.push(*sample);
            expected_interleaved.push(*sample);
        }

        let sample = block(&planar, channels, frames_per_packet);
        let mut bytes = Vec::new();
        packetizer.write_packet_into(&sample, &mut bytes).expect("packet should serialize");

        let packet = RtpPacket::parse(&bytes).expect("serialized packet should parse");
        let mut decoded_packet = Vec::new();
        let frames =
            decode_l24_payload_interleaved(&packet.payload, channels as u16, &mut decoded_packet)
                .expect("L24 packet should decode");

        assert_eq!(frames, frames_per_packet);
        decoded_stream.extend(decoded_packet.into_iter().map(from_l24));
    }

    assert_eq!(decoded_stream.len(), expected_interleaved.len());
    for (actual, expected) in decoded_stream.iter().zip(expected_interleaved.iter()) {
        assert_close(*actual, *expected);
    }

    let max_jump = decoded_stream
        .chunks_exact(channels as usize)
        .map(|frame| frame[0])
        .collect::<Vec<_>>()
        .windows(2)
        .map(|window| (window[1] - window[0]).abs())
        .fold(0.0f32, f32::max);

    assert!(max_jump < 0.07, "decoded sine has an unexpected adjacent-frame jump: {max_jump}");
}

#[test]
fn l24_payload_decoder_rejects_invalid_payload_shape() {
    let mut decoded = Vec::new();

    assert!(decode_l24_payload_interleaved(&[0x00, 0x00], 1, &mut decoded).is_err());
    assert!(decode_l24_payload_interleaved(&[0x00, 0x00, 0x00], 0, &mut decoded).is_err());
}

#[test]
fn l24_payload_decoder_reports_which_shape_was_wrong() {
    let mut decoded = vec![7];
    assert_eq!(
        decode_l24_payload_interleaved(&[0, 0, 0, 0], 1, &mut decoded),
        Err(RtpError::PayloadNotFrameAligned { len: 4, frame_size: 3 })
    );
    assert_eq!(decode_l24_payload_interleaved(&[0, 0, 0], 0, &mut decoded), Err(RtpError::ZeroChannels));
    assert_eq!(decoded, vec![7]);
}

#[test]
fn eight_channel_payload_is_frame_interleaved() {
    let packetizer = RtpPacketizer::new(97, 0);
    let sample_values = (1..=16).map(|value| value as f32 / 8_388_607.0).collect::<Vec<_>>();
    let sample = block(&sample_values, 8, 2);

    let payload = packetizer.audio_to_payload(&sample);
    let expected_indices = [0, 2, 4, 6, 8, 10, 12, 14, 1, 3, 5, 7, 9, 11, 13, 15];
    let expected = expected_indices
        .iter()
        .flat_map(|&index| pcm24_bytes(sample_values[index]))
        .collect::<Vec<_>>();

    assert_eq!(payload, expected);
}
