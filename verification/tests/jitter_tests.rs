use aes67_tools::jitter::{
    InsertResult, JitterBufferConfig, JitterError, PlayoutPacket, RtpJitterBuffer,
};
use aes67_tools::rtp::{RtpHeader, RtpPacket};

fn config(capacity_packets: usize) -> JitterBufferConfig {
    JitterBufferConfig { payload_type: 97, ssrc: None, frames_per_packet: 48, capacity_packets }
}

fn packet(sequence_number: u16) -> RtpPacket {
    let mut header = RtpHeader::new(97, 0x1234_5678);
    header.sequence_number = sequence_number;
    header.timestamp = u32::from(sequence_number) * 48;
    RtpPacket { header, payload: vec![sequence_number as u8; 6] }
}

fn sequence_of(item: Option<PlayoutPacket>) -> Option<u16> {
    match item {
        Some(PlayoutPacket::Packet(p)) => Some(p.header.sequence_number),
        _ => None,
    }
}

#[test]
fn jitter_buffer_needs_room_and_frames() {
    assert_eq!(RtpJitterBuffer::new(config(0)).err(), Some(JitterError::ZeroCapacity));
    let mut no_frames = config(4);
    no_frames.frames_per_packet = 0;
    assert_eq!(RtpJitterBuffer::new(no_frames).err(), Some(JitterError::ZeroFramesPerPacket));
}

#[test]
fn reordered_packets_play_out_in_sequence_order() {
    let mut buffer = RtpJitterBuffer::new(config(8)).unwrap();
    assert_eq!(buffer.insert(packet(10)), Ok(InsertResult::Accepted));
    assert_eq!(buffer.insert(packet(12)), Ok(InsertResult::Accepted));
    assert_eq!(buffer.insert(packet(11)), Ok(InsertResult::Accepted));
    assert_eq!(buffer.len(), 3);

    assert_eq!(sequence_of(buffer.pop_next()), Some(10));
    assert_eq!(sequence_of(buffer.pop_next()), Some(11));
    assert_eq!(sequence_of(buffer.pop_next()), Some(12));
    assert_eq!(buffer.pop_next(), None);
    assert!(buffer.is_empty());
    assert_eq!(buffer.stats().accepted_packets, 3);
    assert_eq!(buffer.stats().lost_packets, 0);
}

#[test]
fn missing_packet_becomes_silence_and_counts_as_lost() {
    let mut buffer = RtpJitterBuffer::new(config(8)).unwrap();
    buffer.insert(packet(1)).unwrap();
    buffer.insert(packet(3)).unwrap();

    assert_eq!(sequence_of(buffer.pop_next()), Some(1));
    assert_eq!(buffer.pop_next(), Some(PlayoutPacket::Silence { sequence_number: 2, frames: 48 }));
    assert_eq!(sequence_of(buffer.pop_next()), Some(3));
    assert_eq!(buffer.stats().lost_packets, 1);
}

#[test]
fn duplicate_late_and_full_packets_are_not_held() {
    let mut buffer = RtpJitterBuffer::new(config(2)).unwrap();
    assert_eq!(buffer.insert(packet(5)), Ok(InsertResult::Accepted));
    assert_eq!(buffer.insert(packet(5)), Ok(InsertResult::Duplicate));
    assert_eq!(buffer.insert(packet(6)), Ok(InsertResult::Accepted));
    assert_eq!(buffer.insert(packet(7)), Ok(InsertResult::DroppedFull));
    assert_eq!(sequence_of(buffer.pop_next()), Some(5));
    assert_eq!(buffer.insert(packet(4)), Ok(InsertResult::Late));
    assert_eq!(buffer.insert(packet(5)), Ok(InsertResult::Late));

    let stats = buffer.stats();
    assert_eq!(stats.accepted_packets, 2);
    assert_eq!(stats.duplicate_packets, 1);
    assert_eq!(stats.dropped_full_packets, 1);
    assert_eq!(stats.late_packets, 2);
    assert_eq!(buffer.len(), 1);
}

#[test]
fn sequence_numbers_wrap_after_65535() {
    let mut buffer = RtpJitterBuffer::new(config(8)).unwrap();
    buffer.insert(packet(65535)).unwrap();
    assert_eq!(buffer.insert(packet(0)), Ok(InsertResult::Accepted));
    assert_eq!(sequence_of(buffer.pop_next()), Some(65535));
    assert_eq!(sequence_of(buffer.pop_next()), Some(0));
}

#[test]
fn packets_of_another_stream_are_refused() {
    let mut buffer = RtpJitterBuffer::new(JitterBufferConfig {
        payload_type: 97,
        ssrc: Some(0x1234_5678),
        frames_per_packet: 48,
        capacity_packets: 4,
    })
    .unwrap();
    let mut wrong_type = packet(1);
    wrong_type.header.payload_type = 96;
    assert_eq!(
        buffer.insert(wrong_type),
        Err(JitterError::PayloadTypeMismatch { expected: 97, actual: 96 })
    );
    let mut wrong_ssrc = packet(1);
    wrong_ssrc.header.ssrc = 7;
    assert_eq!(
        buffer.insert(wrong_ssrc),
        Err(JitterError::SsrcMismatch { expected: 0x1234_5678, actual: 7 })
    );
    assert!(buffer.is_empty());
    assert_eq!(buffer.insert(packet(1)), Ok(InsertResult::Accepted));
}
