//! Decisions of the loopback tester: configuration checks and the RTP continuity monitor
//! of the return stream (the audio measurements work on floating-point samples and stay
//! with the caller).

use vstd::prelude::*;
use crate::rtp::RtpHeader;

verus! {

/// Frames per packet of the test stream: 1 ms at 48 kHz.
pub const TESTER_FRAMES_PER_PACKET: usize = 48;

/// Channels of the test stream.
pub const TESTER_CHANNELS: u16 = 8;

/// Rejected tester configuration values.
#[derive(Debug, Clone, Copy, PartialEq, Eq, Structural)]
pub enum TesterConfigError {
    /// A payload type outside the dynamic range 96-127.
    PayloadTypeNotDynamic { payload_type: u8 },
    /// A report interval of zero seconds.
    ZeroReportInterval,
}

/// The payload type must be a dynamic one (96-127).
pub fn validate_payload_type(payload_type: u8) -> (r: Result<(), TesterConfigError>)
    ensures
        (96 <= payload_type <= 127) ==> r == Ok::<(), TesterConfigError>(()),
        !(96 <= payload_type <= 127) ==> r == Err::<(), TesterConfigError>(
            TesterConfigError::PayloadTypeNotDynamic { payload_type },
        ),
{
    if !(96 <= payload_type && payload_type <= 127) {
        return Err(TesterConfigError::PayloadTypeNotDynamic { payload_type });
    }
    Ok(())
}

/// The report interval must be at least one second.
pub fn validate_report_interval(report_interval_seconds: u64) -> (r: Result<(), TesterConfigError>)
    ensures
        report_interval_seconds == 0 ==> r == Err::<(), TesterConfigError>(TesterConfigError::ZeroReportInterval),
        report_interval_seconds > 0 ==> r == Ok::<(), TesterConfigError>(()),
{
    if report_interval_seconds == 0 {
        return Err(TesterConfigError::ZeroReportInterval);
    }
    Ok(())
}

/// The receiver would see the transmitter's own packets: same address and port and no
/// sender filter.
pub fn receiver_may_observe_transmitter(
    transmitter_address: &String,
    transmitter_port: u16,
    receiver_address: &String,
    receiver_port: u16,
    receiver_sender: &Option<String>,
) -> (r: bool)
    ensures
        r == (transmitter_address@ == receiver_address@ && transmitter_port == receiver_port
            && receiver_sender.is_none()),
{
    transmitter_address.eq(receiver_address) && transmitter_port == receiver_port
        && receiver_sender.is_none()
}

/// Why a return packet is refused.
#[derive(Debug, Clone, Copy, PartialEq, Eq, Structural)]
pub enum MonitorError {
    /// Another payload type than configured.
    UnexpectedPayloadType { received: u8, expected: u8 },
    /// Another SSRC than configured.
    UnexpectedSsrc { received: u32, expected: u32 },
    /// Another number of frames than one test packet holds.
    UnexpectedFrameCount { frames: usize },
}

/// The header matches the expected payload type and, when one is expected, SSRC.
pub fn check_packet_identity(header: &RtpHeader, payload_type: u8, expected_ssrc: Option<u32>) -> (r: Result<(), MonitorError>)
    ensures
        header.payload_type != payload_type ==> r == Err::<(), MonitorError>(
            MonitorError::UnexpectedPayloadType { received: header.payload_type, expected: payload_type },
        ),
        header.payload_type == payload_type && (expected_ssrc matches Some(s) && header.ssrc != s) ==> r == Err::<(), MonitorError>(
            MonitorError::UnexpectedSsrc { received: header.ssrc, expected: expected_ssrc.unwrap() },
        ),
        header.payload_type == payload_type && !(expected_ssrc matches Some(s) && header.ssrc != s) ==> r == Ok::<(), MonitorError>(()),
{
    if header.payload_type != payload_type {
        return Err(MonitorError::UnexpectedPayloadType { received: header.payload_type, expected: payload_type });
    }
    if let Some(expected) = expected_ssrc {
        if header.ssrc != expected {
            return Err(MonitorError::UnexpectedSsrc { received: header.ssrc, expected });
        }
    }
    Ok(())
}

/// A decoded test packet must hold 48 frames.
pub fn check_frame_count(frames: usize) -> (r: Result<(), MonitorError>)
    ensures
        frames == 48 ==> r == Ok::<(), MonitorError>(()),
        frames != 48 ==> r == Err::<(), MonitorError>(MonitorError::UnexpectedFrameCount { frames }),
{
    if frames != TESTER_FRAMES_PER_PACKET {
        return Err(MonitorError::UnexpectedFrameCount { frames });
    }
    Ok(())
}

/// Sequence and timestamp continuity of a received RTP stream.
#[derive(Debug, Clone, Copy, PartialEq, Eq, Structural)]
pub struct RtpContinuity {
    pub expected_sequence: Option<u16>,
    pub expected_timestamp: Option<u32>,
    pub sequence_gap_packets: u64,
    pub reordered_packets: u64,
    pub timestamp_discontinuities: u64,
}

/// The monitor after a packet with `sequence` and `timestamp`, and whether the packet
/// continues the stream: the first packet sets the expectations; a packet from the past
/// (sequence behind the expected one, modulo 2^16) is counted as reordered and breaks
/// continuity without moving the expectations; a jump ahead counts the skipped packets;
/// a timestamp other than expected counts a discontinuity.
pub open spec fn continuity_after(m: RtpContinuity, sequence: u16, timestamp: u32) -> (RtpContinuity, bool) {
    let next = RtpContinuity {
        expected_sequence: Some(sequence.wrapping_add(1)),
        expected_timestamp: Some(timestamp.wrapping_add(48)),
        ..m
    };
    match m.expected_sequence {
        None => (next, true),
        Some(expected) => {
            let delta = sequence.wrapping_sub(expected);
            if delta >= 0x8000 {
                (RtpContinuity { reordered_packets: (m.reordered_packets + 1) as u64, ..m }, false)
            } else {
                let ts_broken = m.expected_timestamp matches Some(t) && t != timestamp;
                (RtpContinuity {
                    sequence_gap_packets: (m.sequence_gap_packets + delta) as u64,
                    timestamp_discontinuities: if ts_broken {
                        (m.timestamp_discontinuities + 1) as u64
                    } else {
                        m.timestamp_discontinuities
                    },
                    ..next
                }, delta == 0 && !ts_broken)
            }
        },
    }
}

impl RtpContinuity {
    /// A monitor that has seen no packet.
    pub fn new() -> (m: Self)
        ensures
            m == (RtpContinuity {
                expected_sequence: None,
                expected_timestamp: None,
                sequence_gap_packets: 0,
                reordered_packets: 0,
                timestamp_discontinuities: 0,
            }),
    {
        RtpContinuity {
            expected_sequence: None,
            expected_timestamp: None,
            sequence_gap_packets: 0,
            reordered_packets: 0,
            timestamp_discontinuities: 0,
        }
    }

    /// Observe a packet; returns whether it continues the stream.
    pub fn observe_rtp_continuity(&mut self, sequence_number: u16, timestamp: u32) -> (continuous: bool)
        requires
            old(self).sequence_gap_packets + 0x8000 <= u64::MAX,
            old(self).reordered_packets < u64::MAX,
            old(self).timestamp_discontinuities < u64::MAX,
        ensures
            (*final(self), continuous) == continuity_after(*old(self), sequence_number, timestamp),
    {
        let expected_sequence = match self.expected_sequence {
            None => {
                self.expected_sequence = Some(sequence_number.wrapping_add(1));
                self.expected_timestamp = Some(timestamp.wrapping_add(TESTER_FRAMES_PER_PACKET as u32));
                return true;
            },
            Some(e) => e,
        };
        let sequence_delta = sequence_number.wrapping_sub(expected_sequence);
        if sequence_delta >= 0x8000 {
            self.reordered_packets = self.reordered_packets + 1;
            return false;
        }
        let mut continuous = sequence_delta == 0;
        if sequence_delta != 0 {
            self.sequence_gap_packets = self.sequence_gap_packets + sequence_delta as u64;
        }
        let ts_broken = match self.expected_timestamp {
            Some(t) => t != timestamp,
            None => false,
        };
        if ts_broken {
            self.timestamp_discontinuities = self.timestamp_discontinuities + 1;
            continuous = false;
        }
        self.expected_sequence = Some(sequence_number.wrapping_add(1));
        self.expected_timestamp = Some(timestamp.wrapping_add(TESTER_FRAMES_PER_PACKET as u32));
        continuous
    }

    /// The stream has lost packets or broken its timestamps.
    pub fn has_failures(&self) -> (r: bool)
        ensures
            r == (self.sequence_gap_packets > 0 || self.timestamp_discontinuities > 0),
    {
        self.sequence_gap_packets > 0 || self.timestamp_discontinuities > 0
    }
}

/// A stream whose packets each follow the previous one (sequence + 1, timestamp + 48)
/// never counts a gap, reordering or discontinuity.
pub proof fn lemma_in_order_stream_is_continuous(m: RtpContinuity, sequence: u16, timestamp: u32)
    requires
        m.expected_sequence == Some(sequence),
        m.expected_timestamp == Some(timestamp),
    ensures
        continuity_after(m, sequence, timestamp).1,
        continuity_after(m, sequence, timestamp).0.sequence_gap_packets == m.sequence_gap_packets,
        continuity_after(m, sequence, timestamp).0.reordered_packets == m.reordered_packets,
        continuity_after(m, sequence, timestamp).0.timestamp_discontinuities == m.timestamp_discontinuities,
        continuity_after(m, sequence, timestamp).0.expected_sequence == Some(sequence.wrapping_add(1)),
        continuity_after(m, sequence, timestamp).0.expected_timestamp == Some(timestamp.wrapping_add(48)),
{
    assert(sequence.wrapping_sub(sequence) == 0);
}


/// The payload type used when none is configured.
pub fn default_payload_type() -> (p: u8)
    ensures
        p == 97,
{
    97
}

/// The TTL used when none is configured.
pub fn default_ttl() -> (t: u8)
    ensures
        t == 32,
{
    32
}

/// The session name used when none is configured.
pub fn default_session_name() -> (s: String)
    ensures
        s@ == "AES67 Tester 100 Hz"@,
{
    "AES67 Tester 100 Hz".to_owned()
}

/// The report interval used when none is configured.
pub fn default_report_interval_seconds() -> (s: u64)
    ensures
        s == 1,
{
    1
}

/// Why a transmitter or receiver endpoint is refused.
#[derive(Debug, Clone, PartialEq, Eq)]
pub enum EndpointError {
    /// The stream address.
    Address(crate::socket::AddressError),
    /// The interface.
    Interface(crate::socket::AddressError),
    /// The payload type.
    PayloadType(TesterConfigError),
}

/// Check an endpoint: a multicast or loopback stream address, an interface (an address,
/// loopback, or a name to look up), and a dynamic payload type, in that order.
pub fn validate_endpoint(address: &str, interface: &str, payload_type: u8) -> (r: Result<([u8; 4], crate::socket::InterfaceChoice), EndpointError>)
    ensures
        match crate::socket::ipv4_text_octets(address@) {
            None => r == Err::<([u8; 4], crate::socket::InterfaceChoice), EndpointError>(
                EndpointError::Address(crate::socket::AddressError::InvalidAddress),
            ),
            Some(o) => if !(crate::socket::is_multicast(o) || crate::socket::is_loopback(o)) {
                r matches Err(EndpointError::Address(crate::socket::AddressError::NotMulticastOrLoopback { address: x })) && x@ == o
            } else if crate::sap::trim_end(crate::sap::trim_start(interface@)).len() == 0 {
                r == Err::<([u8; 4], crate::socket::InterfaceChoice), EndpointError>(
                    EndpointError::Interface(crate::socket::AddressError::EmptyInterface),
                )
            } else if !(96 <= payload_type <= 127) {
                r == Err::<([u8; 4], crate::socket::InterfaceChoice), EndpointError>(
                    EndpointError::PayloadType(TesterConfigError::PayloadTypeNotDynamic { payload_type }),
                )
            } else {
                r matches Ok((a, i)) && a@ == o && crate::socket::interface_classified(interface@, Ok(i))
            },
        },
{
    let a = match crate::socket::parse_stream_address(address) {
        Ok(a) => a,
        Err(e) => return Err(EndpointError::Address(e)),
    };
    let i = match crate::socket::classify_interface(interface) {
        Ok(i) => i,
        Err(e) => return Err(EndpointError::Interface(e)),
    };
    match validate_payload_type(payload_type) {
        Ok(()) => Ok((a, i)),
        Err(e) => Err(EndpointError::PayloadType(e)),
    }
}

} // verus!
