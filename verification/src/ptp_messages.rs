//! IEEE 1588-2008 (PTPv2) message fields used by the PTP client.

use vstd::prelude::*;
use crate::rtp::{be_u16, be_u32};

verus! {

/// PTP message type, from the low nibble of the first header byte.
#[derive(Debug, Clone, Copy, PartialEq, Eq, Structural)]
pub enum MessageType {
    Sync,
    DelayReq,
    PdelayReq,
    PdelayResp,
    FollowUp,
    DelayResp,
    PdelayRespFollowUp,
    Announce,
    Signaling,
    Management,
    Unknown,
}

/// The message type that the low nibble of `byte` encodes.
pub open spec fn message_type_of(byte: u8) -> MessageType {
    let n = byte & 0x0fu8;
    if n == 0x0 {
        MessageType::Sync
    } else if n == 0x1 {
        MessageType::DelayReq
    } else if n == 0x2 {
        MessageType::PdelayReq
    } else if n == 0x3 {
        MessageType::PdelayResp
    } else if n == 0x8 {
        MessageType::FollowUp
    } else if n == 0x9 {
        MessageType::DelayResp
    } else if n == 0xa {
        MessageType::PdelayRespFollowUp
    } else if n == 0xb {
        MessageType::Announce
    } else if n == 0xc {
        MessageType::Signaling
    } else if n == 0xd {
        MessageType::Management
    } else {
        MessageType::Unknown
    }
}

/// The message type follows the IEEE 1588 messageType codes in the low four bits of the
/// first header byte: 0 Sync, 1 Delay_Req, 2 Pdelay_Req, 3 Pdelay_Resp, 8 Follow_Up,
/// 9 Delay_Resp, 0xA Pdelay_Resp_Follow_Up, 0xB Announce, 0xC Signaling, 0xD Management;
/// the high four bits (transportSpecific) play no part, and other codes are unknown.
pub proof fn lemma_message_type_codes(b: u8)
    ensures
        b % 16 == 0 ==> message_type_of(b) == MessageType::Sync,
        b % 16 == 1 ==> message_type_of(b) == MessageType::DelayReq,
        b % 16 == 2 ==> message_type_of(b) == MessageType::PdelayReq,
        b % 16 == 3 ==> message_type_of(b) == MessageType::PdelayResp,
        b % 16 == 8 ==> message_type_of(b) == MessageType::FollowUp,
        b % 16 == 9 ==> message_type_of(b) == MessageType::DelayResp,
        b % 16 == 10 ==> message_type_of(b) == MessageType::PdelayRespFollowUp,
        b % 16 == 11 ==> message_type_of(b) == MessageType::Announce,
        b % 16 == 12 ==> message_type_of(b) == MessageType::Signaling,
        b % 16 == 13 ==> message_type_of(b) == MessageType::Management,
        (4 <= b % 16 <= 7 || b % 16 >= 14) ==> message_type_of(b) == MessageType::Unknown,
        forall|h: u8| h < 16 ==> #[trigger] message_type_of(((h * 16) + b % 16) as u8) == message_type_of(b),
{
    assert(b & 0x0fu8 == b % 16) by (bit_vector);
    assert forall|h: u8| h < 16 implies #[trigger] message_type_of(((h * 16) + b % 16) as u8) == message_type_of(b) by {
        assert(h < 16 ==> (((h * 16) + b % 16) as u8) & 0x0fu8 == b & 0x0fu8) by (bit_vector);
    }
}

impl From<u8> for MessageType {
    fn from(byte: u8) -> (t: Self) {
        let n = byte & 0x0fu8;
        if n == 0x0 {
            MessageType::Sync
        } else if n == 0x1 {
            MessageType::DelayReq
        } else if n == 0x2 {
            MessageType::PdelayReq
        } else if n == 0x3 {
            MessageType::PdelayResp
        } else if n == 0x8 {
            MessageType::FollowUp
        } else if n == 0x9 {
            MessageType::DelayResp
        } else if n == 0xa {
            MessageType::PdelayRespFollowUp
        } else if n == 0xb {
            MessageType::Announce
        } else if n == 0xc {
            MessageType::Signaling
        } else if n == 0xd {
            MessageType::Management
        } else {
            MessageType::Unknown
        }
    }
}

impl vstd::std_specs::convert::FromSpecImpl<u8> for MessageType {
    open spec fn obeys_from_spec() -> bool {
        true
    }

    open spec fn from_spec(byte: u8) -> MessageType {
        message_type_of(byte)
    }
}

/// Errors reported while parsing PTP messages.
#[derive(Debug, Clone, Copy, PartialEq, Eq, Structural)]
pub enum PtpError {
    /// The packet is too short for the PTP header.
    HeaderTooShort { len: usize },
    /// The buffer is too short for a timestamp.
    TimestampTooShort { len: usize },
    /// The packet is too short for an Announce message.
    AnnounceTooShort { len: usize },
    /// The packet is too short for a Delay_Resp message.
    DelayRespTooShort { len: usize },
    /// The packet is too short for a Follow_Up message.
    FollowUpTooShort { len: usize },
    /// A Follow_Up origin time so far from the Sync arrival time that their difference
    /// does not fit in 64 bits.
    OffsetOverflow,
}

/// Big-endian 64-bit value of eight bytes.
pub open spec fn be_u64(b: Seq<u8>) -> u64 {
    ((be_u32(b[0], b[1], b[2], b[3]) as u64) << 32u64) | (be_u32(b[4], b[5], b[6], b[7]) as u64)
}

/// Common PTP message header (the first 34 bytes).
#[derive(Debug, Clone, Copy, PartialEq, Eq)]
pub struct PtpHeader {
    pub message_type: MessageType,
    pub version: u8,
    pub domain_number: u8,
    pub correction_field: i64,
    pub source_port_identity: [u8; 10],
    pub sequence_id: u16,
    pub control_field: u8,
    pub log_message_interval: i8,
}

/// `h` holds the fields that the first 34 bytes of `b` encode.
pub open spec fn header_matches(h: PtpHeader, b: Seq<u8>) -> bool {
    &&& h.message_type == message_type_of(b[0])
    &&& h.version == b[1] & 0x0fu8
    &&& h.domain_number == b[4]
    &&& h.correction_field == be_u64(b.subrange(8, 16)) as i64
    &&& h.source_port_identity@ == b.subrange(20, 30)
    &&& h.sequence_id == be_u16(b[30], b[31])
    &&& h.control_field == b[32]
    &&& h.log_message_interval == b[33] as i8
}

/// Copy `n` bytes of `bytes` starting at `start` into an array.
fn copy_port_identity(bytes: &[u8], start: usize) -> (id: [u8; 10])
    requires
        start + 10 <= bytes@.len(),
    ensures
        id@ == bytes@.subrange(start as int, start + 10),
{
    let id = [
        bytes[start],
        bytes[start + 1],
        bytes[start + 2],
        bytes[start + 3],
        bytes[start + 4],
        bytes[start + 5],
        bytes[start + 6],
        bytes[start + 7],
        bytes[start + 8],
        bytes[start + 9],
    ];
    assert(id@ =~= bytes@.subrange(start as int, start + 10));
    id
}

fn read_be_u16(bytes: &[u8], start: usize) -> (v: u16)
    requires
        start + 2 <= bytes@.len(),
    ensures
        v == be_u16(bytes@[start as int], bytes@[start + 1]),
{
    ((bytes[start] as u16) << 8u16) | (bytes[start + 1] as u16)
}

fn read_be_u32(bytes: &[u8], start: usize) -> (v: u32)
    requires
        start + 4 <= bytes@.len(),
    ensures
        v == be_u32(bytes@[start as int], bytes@[start + 1], bytes@[start + 2], bytes@[start + 3]),
{
    ((bytes[start] as u32) << 24u32) | ((bytes[start + 1] as u32) << 16u32) | ((bytes[start
        + 2] as u32) << 8u32) | (bytes[start + 3] as u32)
}

impl PtpHeader {
    /// Parse the common PTP header from the start of a packet.
    pub fn from_bytes(bytes: &[u8]) -> (res: Result<Self, PtpError>)
        ensures
            bytes@.len() < 34 ==> res == Err::<Self, PtpError>(
                PtpError::HeaderTooShort { len: bytes@.len() as usize },
            ),
            bytes@.len() >= 34 ==> (res matches Ok(h) && header_matches(h, bytes@)),
    {
        if bytes.len() < 34 {
            return Err(PtpError::HeaderTooShort { len: bytes.len() });
        }
        let message_type = MessageType::from(bytes[0]);
        let hi = read_be_u32(bytes, 8);
        let lo = read_be_u32(bytes, 12);
        let correction = (((hi as u64) << 32u64) | (lo as u64)) as i64;
        let h = PtpHeader {
            message_type,
            version: bytes[1] & 0x0fu8,
            domain_number: bytes[4],
            correction_field: correction,
            source_port_identity: copy_port_identity(bytes, 20),
            sequence_id: read_be_u16(bytes, 30),
            control_field: bytes[32],
            log_message_interval: bytes[33] as i8,
        };
        assert(bytes@.subrange(8, 16)[0] == bytes@[8]);
        assert(bytes@.subrange(8, 16)[7] == bytes@[15]);
        proof {
            let sub = bytes@.subrange(8, 16);
            assert(sub[1] == bytes@[9] && sub[2] == bytes@[10] && sub[3] == bytes@[11]);
            assert(sub[4] == bytes@[12] && sub[5] == bytes@[13] && sub[6] == bytes@[14]);
        }
        Ok(h)
    }
}


/// A PTP timestamp: 48-bit seconds and 32-bit nanoseconds.
#[derive(Debug, Clone, Copy, PartialEq, Eq, Structural)]
pub struct Timestamp {
    pub seconds: u64,
    pub nanoseconds: u32,
}

/// Nanoseconds that a timestamp denotes.
pub open spec fn timestamp_nanos(t: Timestamp) -> nat {
    t.seconds as nat * 1_000_000_000 + t.nanoseconds as nat
}

/// The timestamp that ten big-endian bytes encode.
pub open spec fn timestamp_fields(b: Seq<u8>) -> Timestamp {
    Timestamp {
        seconds: ((be_u16(b[0], b[1]) as u64) << 32u64) | (be_u32(b[2], b[3], b[4], b[5]) as u64),
        nanoseconds: be_u32(b[6], b[7], b[8], b[9]),
    }
}

/// The ten wire bytes of a timestamp.
pub open spec fn timestamp_bytes(t: Timestamp) -> Seq<u8> {
    seq![
        (t.seconds >> 40u64) as u8,
        (t.seconds >> 32u64) as u8,
        (t.seconds >> 24u64) as u8,
        (t.seconds >> 16u64) as u8,
        (t.seconds >> 8u64) as u8,
        t.seconds as u8,
        (t.nanoseconds >> 24u32) as u8,
        (t.nanoseconds >> 16u32) as u8,
        (t.nanoseconds >> 8u32) as u8,
        t.nanoseconds as u8,
    ]
}

impl Timestamp {
    /// Parse a ten-byte PTP timestamp.
    pub fn from_bytes(bytes: &[u8]) -> (res: Result<Self, PtpError>)
        ensures
            bytes@.len() < 10 ==> res == Err::<Self, PtpError>(
                PtpError::TimestampTooShort { len: bytes@.len() as usize },
            ),
            bytes@.len() >= 10 ==> res == Ok::<Self, PtpError>(timestamp_fields(bytes@)),
    {
        if bytes.len() < 10 {
            return Err(PtpError::TimestampTooShort { len: bytes.len() });
        }
        let seconds_msb = read_be_u16(bytes, 0);
        let seconds_lsb = read_be_u32(bytes, 2);
        let nanoseconds = read_be_u32(bytes, 6);
        Ok(
            Timestamp {
                seconds: ((seconds_msb as u64) << 32u64) | (seconds_lsb as u64),
                nanoseconds,
            },
        )
    }

    /// Total nanoseconds of the timestamp.
    pub fn as_nanos(&self) -> (n: u128)
        ensures
            n == timestamp_nanos(*self),
    {
        (self.seconds as u128 * 1_000_000_000) + self.nanoseconds as u128
    }

    /// The timestamp of a nanosecond count.
    pub fn from_nanos(nanos: u64) -> (t: Self)
        ensures
            t.seconds == nanos / 1_000_000_000,
            t.nanoseconds == nanos % 1_000_000_000,
    {
        Timestamp { seconds: nanos / 1_000_000_000, nanoseconds: (nanos % 1_000_000_000) as u32 }
    }

    /// Serialize the timestamp to its ten wire bytes.
    pub fn to_bytes(&self) -> (b: [u8; 10])
        ensures
            b@ == timestamp_bytes(*self),
    {
        let s = self.seconds;
        let n = self.nanoseconds;
        let b = [
            (s >> 40u64) as u8,
            (s >> 32u64) as u8,
            (s >> 24u64) as u8,
            (s >> 16u64) as u8,
            (s >> 8u64) as u8,
            s as u8,
            (n >> 24u32) as u8,
            (n >> 16u32) as u8,
            (n >> 8u32) as u8,
            n as u8,
        ];
        assert(b@ =~= timestamp_bytes(*self));
        b
    }
}

/// A timestamp made from a nanosecond count denotes that count.
pub proof fn lemma_timestamp_nanos_roundtrip(nanos: u64)
    ensures
        timestamp_nanos(
            Timestamp {
                seconds: nanos / 1_000_000_000,
                nanoseconds: (nanos % 1_000_000_000) as u32,
            },
        ) == nanos,
{
}

/// Parsing the wire bytes of a timestamp whose seconds fit in 48 bits gives it back.
pub proof fn lemma_timestamp_bytes_roundtrip(t: Timestamp)
    requires
        t.seconds < 0x1_0000_0000_0000,
    ensures
        timestamp_fields(timestamp_bytes(t)) == t,
{
    let s = t.seconds;
    let n = t.nanoseconds;
    assert(s < 0x1_0000_0000_0000u64 ==> ((((((s >> 40u64) as u8) as u16) << 8u16) | (((s
        >> 32u64) as u8) as u16)) as u64) << 32u64 | ((((((s >> 24u64) as u8) as u32) << 24u32)
        | ((((s >> 16u64) as u8) as u32) << 16u32) | ((((s >> 8u64) as u8) as u32) << 8u32) | ((
    s as u8) as u32)) as u64) == s) by (bit_vector);
    assert(((((n >> 24u32) as u8) as u32) << 24u32) | ((((n >> 16u32) as u8) as u32) << 16u32)
        | ((((n >> 8u32) as u8) as u32) << 8u32) | ((n as u8) as u32) == n) by (bit_vector);
}

/// An eight-byte PTP clock identity, held as the big-endian value of its bytes so that
/// numeric order is the byte-wise order.
#[derive(Debug, Clone, Copy, PartialEq, Eq, Structural, Hash)]
pub struct ClockIdentity {
    pub value: u64,
}

/// The big-endian value of eight bytes.
pub open spec fn identity_value(b: Seq<u8>) -> u64 {
    ((be_u32(b[0], b[1], b[2], b[3]) as u64) << 32u64) | (be_u32(b[4], b[5], b[6], b[7]) as u64)
}

/// The eight bytes of an identity value, most significant first.
pub open spec fn identity_bytes(v: u64) -> Seq<u8> {
    seq![
        (v >> 56u64) as u8,
        (v >> 48u64) as u8,
        (v >> 40u64) as u8,
        (v >> 32u64) as u8,
        (v >> 24u64) as u8,
        (v >> 16u64) as u8,
        (v >> 8u64) as u8,
        v as u8,
    ]
}

impl Default for ClockIdentity {
    fn default() -> (id: Self)
        ensures
            id.value == 0,
    {
        ClockIdentity { value: 0 }
    }
}

impl ClockIdentity {
    /// The identity with the given bytes.
    pub fn from_bytes(bytes: [u8; 8]) -> (id: Self)
        ensures
            id.value == identity_value(bytes@),
    {
        let hi: u32 = ((bytes[0] as u32) << 24u32) | ((bytes[1] as u32) << 16u32) | ((
        bytes[2] as u32) << 8u32) | (bytes[3] as u32);
        let lo: u32 = ((bytes[4] as u32) << 24u32) | ((bytes[5] as u32) << 16u32) | ((
        bytes[6] as u32) << 8u32) | (bytes[7] as u32);
        ClockIdentity { value: ((hi as u64) << 32u64) | (lo as u64) }
    }

    /// The bytes of the identity.
    pub fn as_bytes(&self) -> (b: [u8; 8])
        ensures
            b@ == identity_bytes(self.value),
    {
        let v = self.value;
        let b = [
            (v >> 56u64) as u8,
            (v >> 48u64) as u8,
            (v >> 40u64) as u8,
            (v >> 32u64) as u8,
            (v >> 24u64) as u8,
            (v >> 16u64) as u8,
            (v >> 8u64) as u8,
            v as u8,
        ];
        assert(b@ =~= identity_bytes(v));
        b
    }

    /// EUI-64 identity of a 48-bit MAC address: `FF FE` inserted between the OUI and
    /// the device bytes.
    pub fn from_mac_address(mac: [u8; 6]) -> (id: Self)
        ensures
            id.value == identity_value(seq![mac[0], mac[1], mac[2], 0xffu8, 0xfeu8, mac[3], mac[4], mac[5]]),
    {
        let id = ClockIdentity::from_bytes([mac[0], mac[1], mac[2], 0xff, 0xfe, mac[3], mac[4], mac[5]]);
        assert([mac[0], mac[1], mac[2], 0xffu8, 0xfeu8, mac[3], mac[4], mac[5]]@ =~= seq![mac[0], mac[1], mac[2], 0xffu8, 0xfeu8, mac[3], mac[4], mac[5]]);
        id
    }

    /// A locally administered identity derived from an IPv4 address, used when no MAC
    /// address is available: the EUI-64 identity of the MAC `02-00-a-b-c-d`.
    pub fn from_local_ipv4(ip: [u8; 4]) -> (id: Self)
        ensures
            id.value == identity_value(seq![0x02u8, 0x00u8, ip[0], 0xffu8, 0xfeu8, ip[1], ip[2], ip[3]]),
    {
        ClockIdentity::from_mac_address([0x02, 0x00, ip[0], ip[1], ip[2], ip[3]])
    }
}

/// Converting bytes to an identity and back gives the same bytes, and the other way round.
pub proof fn lemma_identity_bytes_roundtrip(b: Seq<u8>, v: u64)
    requires
        b.len() == 8,
    ensures
        identity_bytes(identity_value(b)) == b,
        identity_value(identity_bytes(v)) == v,
{
    let (b0, b1, b2, b3, b4, b5, b6, b7) = (b[0], b[1], b[2], b[3], b[4], b[5], b[6], b[7]);
    let x = identity_value(b);
    assert(x == ((((b0 as u32) << 24u32) | ((b1 as u32) << 16u32) | ((b2 as u32) << 8u32) | (
    b3 as u32)) as u64) << 32u64 | ((((b4 as u32) << 24u32) | ((b5 as u32) << 16u32) | ((
    b6 as u32) << 8u32) | (b7 as u32)) as u64));
    assert(x == ((((b0 as u32) << 24u32) | ((b1 as u32) << 16u32) | ((b2 as u32) << 8u32) | (
    b3 as u32)) as u64) << 32u64 | ((((b4 as u32) << 24u32) | ((b5 as u32) << 16u32) | ((
    b6 as u32) << 8u32) | (b7 as u32)) as u64) ==> (x >> 56u64) as u8 == b0 && (x >> 48u64) as u8
        == b1 && (x >> 40u64) as u8 == b2 && (x >> 32u64) as u8 == b3 && (x >> 24u64) as u8 == b4
        && (x >> 16u64) as u8 == b5 && (x >> 8u64) as u8 == b6 && x as u8 == b7) by (bit_vector);
    assert(identity_bytes(x) =~= b);
    assert(((((((v >> 56u64) as u8) as u32) << 24u32) | ((((v >> 48u64) as u8) as u32) << 16u32)
        | ((((v >> 40u64) as u8) as u32) << 8u32) | (((v >> 32u64) as u8) as u32)) as u64)
        << 32u64 | ((((((v >> 24u64) as u8) as u32) << 24u32) | ((((v >> 16u64) as u8) as u32)
        << 16u32) | ((((v >> 8u64) as u8) as u32) << 8u32) | ((v as u8) as u32)) as u64) == v)
        by (bit_vector);
}

/// Clock quality fields of an Announce message.
#[derive(Debug, Clone, Copy, PartialEq, Eq, Structural)]
pub struct ClockQuality {
    pub clock_class: u8,
    pub clock_accuracy: u8,
    pub offset_scaled_log_variance: u16,
}

/// The fields of an Announce message that master selection uses.
#[derive(Debug, Clone, Copy, PartialEq, Eq, Structural)]
pub struct AnnounceMessage {
    pub domain_number: u8,
    pub log_message_interval: i8,
    pub priority1: u8,
    pub clock_quality: ClockQuality,
    pub priority2: u8,
    pub grandmaster_identity: ClockIdentity,
}

/// Length of an IEEE 1588-2008 Announce message.
pub const ANNOUNCE_MESSAGE_LEN: usize = 64;

/// Length of an IEEE 1588-2008 Delay_Resp message.
pub const DELAY_RESP_MESSAGE_LEN: usize = 54;

/// The Announce fields that `b` (at least 64 bytes) encodes.
pub open spec fn announce_fields(b: Seq<u8>) -> AnnounceMessage {
    AnnounceMessage {
        domain_number: b[4],
        log_message_interval: b[33] as i8,
        priority1: b[47],
        clock_quality: ClockQuality {
            clock_class: b[48],
            clock_accuracy: b[49],
            offset_scaled_log_variance: be_u16(b[50], b[51]),
        },
        priority2: b[52],
        grandmaster_identity: ClockIdentity { value: identity_value(b.subrange(53, 61)) },
    }
}

/// The result of parsing an Announce message.
pub open spec fn spec_parse_announce(b: Seq<u8>) -> Result<AnnounceMessage, PtpError> {
    if b.len() < 34 {
        Err(PtpError::HeaderTooShort { len: b.len() as usize })
    } else if b.len() < 64 {
        Err(PtpError::AnnounceTooShort { len: b.len() as usize })
    } else {
        Ok(announce_fields(b))
    }
}

impl AnnounceMessage {
    /// Parse an Announce message.
    pub fn from_bytes(bytes: &[u8]) -> (res: Result<Self, PtpError>)
        ensures
            res == spec_parse_announce(bytes@),
    {
        if bytes.len() < 34 {
            return Err(PtpError::HeaderTooShort { len: bytes.len() });
        }
        if bytes.len() < ANNOUNCE_MESSAGE_LEN {
            return Err(PtpError::AnnounceTooShort { len: bytes.len() });
        }
        let hi = read_be_u32(bytes, 53);
        let lo = read_be_u32(bytes, 57);
        proof {
            let sub = bytes@.subrange(53, 61);
            assert(sub[0] == bytes@[53] && sub[1] == bytes@[54] && sub[2] == bytes@[55] && sub[3]
                == bytes@[56]);
            assert(sub[4] == bytes@[57] && sub[5] == bytes@[58] && sub[6] == bytes@[59] && sub[7]
                == bytes@[60]);
        }
        Ok(
            AnnounceMessage {
                domain_number: bytes[4],
                log_message_interval: bytes[33] as i8,
                priority1: bytes[47],
                clock_quality: ClockQuality {
                    clock_class: bytes[48],
                    clock_accuracy: bytes[49],
                    offset_scaled_log_variance: read_be_u16(bytes, 50),
                },
                priority2: bytes[52],
                grandmaster_identity: ClockIdentity { value: ((hi as u64) << 32u64) | (lo as u64) },
            },
        )
    }
}

/// The fields of a Delay_Resp message that the delay measurement uses.
#[derive(Debug, Clone, Copy, PartialEq, Eq)]
pub struct DelayRespMessage {
    pub domain_number: u8,
    pub sequence_id: u16,
    pub receive_timestamp: Timestamp,
    pub requesting_port_identity: [u8; 10],
}

/// `m` holds the Delay_Resp fields that `b` (at least 54 bytes) encodes.
pub open spec fn delay_resp_matches(m: DelayRespMessage, b: Seq<u8>) -> bool {
    &&& m.domain_number == b[4]
    &&& m.sequence_id == be_u16(b[30], b[31])
    &&& m.receive_timestamp == timestamp_fields(b.subrange(34, 44))
    &&& m.requesting_port_identity@ == b.subrange(44, 54)
}

impl DelayRespMessage {
    /// Parse a Delay_Resp message.
    pub fn from_bytes(bytes: &[u8]) -> (res: Result<Self, PtpError>)
        ensures
            bytes@.len() < 34 ==> res == Err::<Self, PtpError>(
                PtpError::HeaderTooShort { len: bytes@.len() as usize },
            ),
            34 <= bytes@.len() < 54 ==> res == Err::<Self, PtpError>(
                PtpError::DelayRespTooShort { len: bytes@.len() as usize },
            ),
            bytes@.len() >= 54 ==> (res matches Ok(m) && delay_resp_matches(m, bytes@)),
    {
        if bytes.len() < 34 {
            return Err(PtpError::HeaderTooShort { len: bytes.len() });
        }
        if bytes.len() < DELAY_RESP_MESSAGE_LEN {
            return Err(PtpError::DelayRespTooShort { len: bytes.len() });
        }
        let seconds_msb = read_be_u16(bytes, 34);
        let seconds_lsb = read_be_u32(bytes, 36);
        let nanoseconds = read_be_u32(bytes, 40);
        proof {
            let sub = bytes@.subrange(34, 44);
            assert(sub[0] == bytes@[34] && sub[1] == bytes@[35] && sub[2] == bytes@[36] && sub[3]
                == bytes@[37] && sub[4] == bytes@[38]);
            assert(sub[5] == bytes@[39] && sub[6] == bytes@[40] && sub[7] == bytes@[41] && sub[8]
                == bytes@[42] && sub[9] == bytes@[43]);
        }
        Ok(
            DelayRespMessage {
                domain_number: bytes[4],
                sequence_id: read_be_u16(bytes, 30),
                receive_timestamp: Timestamp {
                    seconds: ((seconds_msb as u64) << 32u64) | (seconds_lsb as u64),
                    nanoseconds,
                },
                requesting_port_identity: copy_port_identity(bytes, 44),
            },
        )
    }
}

/// `b` is a message of `len` bytes whose common header carries the given fields, with
/// version 2, a zero correction field and zero reserved bytes.
pub open spec fn outgoing_header_ok(
    b: Seq<u8>,
    type_code: u8,
    len: u16,
    domain: u8,
    flags0: u8,
    port: Seq<u8>,
    sequence_id: u16,
    control: u8,
    log_interval: i8,
) -> bool {
    &&& b.len() == len
    &&& b[0] == type_code
    &&& b[1] == 2
    &&& be_u16(b[2], b[3]) == len
    &&& b[4] == domain
    &&& b[5] == 0
    &&& b[6] == flags0
    &&& b[7] == 0
    &&& forall|i: int| 8 <= i < 20 ==> b[i] == 0
    &&& b.subrange(20, 30) == port
    &&& be_u16(b[30], b[31]) == sequence_id
    &&& b[32] == control
    &&& b[33] == log_interval as u8
}

proof fn lemma_be_u16_split(v: u16)
    ensures
        be_u16((v >> 8u16) as u8, v as u8) == v,
{
    assert(((((v >> 8u16) as u8) as u16) << 8u16) | ((v as u8) as u16) == v) by (bit_vector);
}

/// Overwrite `src.len()` bytes of `v` starting at `start`.
fn put_bytes(v: &mut Vec<u8>, start: usize, src: &[u8])
    requires
        start + src@.len() <= old(v)@.len(),
    ensures
        final(v)@.len() == old(v)@.len(),
        final(v)@.subrange(start as int, start + src@.len()) == src@,
        forall|i: int|
            0 <= i < old(v)@.len() && !(start <= i < start + src@.len()) ==> final(v)@[i] == old(
                v,
            )@[i],
{
    let mut k: usize = 0;
    while k < src.len()
        invariant
            start + src@.len() <= v@.len(),
            v@.len() == old(v)@.len(),
            k <= src@.len(),
            forall|i: int| 0 <= i < k ==> v@[start + i] == src@[i],
            forall|i: int|
                0 <= i < old(v)@.len() && !(start <= i < start + k) ==> v@[i] == old(v)@[i],
        decreases src@.len() - k,
    {
        let len = v.len();
        assert(start + k < len);
        v.set(start + k, src[k]);
        k = k + 1;
    }
    assert(v@.subrange(start as int, start + src@.len()) =~= src@);
}

/// A zeroed message of `len` bytes with its common header filled in.
fn new_message(
    len: u16,
    type_code: u8,
    domain: u8,
    flags0: u8,
    port: &[u8; 10],
    sequence_id: u16,
    control: u8,
    log_interval: i8,
) -> (b: Vec<u8>)
    requires
        34 <= len,
    ensures
        outgoing_header_ok(
            b@,
            type_code,
            len,
            domain,
            flags0,
            port@,
            sequence_id,
            control,
            log_interval,
        ),
        forall|i: int| 34 <= i < len ==> b@[i] == 0,
{
    let mut b: Vec<u8> = Vec::new();
    let n = len as usize;
    while b.len() < n
        invariant
            b@.len() <= n,
            forall|i: int| 0 <= i < b@.len() ==> b@[i] == 0,
        decreases n - b@.len(),
    {
        b.push(0u8);
    }
    b.set(0, type_code);
    b.set(1, 2u8);
    b.set(2, (len >> 8u16) as u8);
    b.set(3, len as u8);
    b.set(4, domain);
    b.set(6, flags0);
    let ghost before = b@;
    put_bytes(&mut b, 20, port);
    assert(forall|i: int| 0 <= i < 20 ==> b@[i] == before[i]);
    b.set(30, (sequence_id >> 8u16) as u8);
    b.set(31, sequence_id as u8);
    b.set(32, control);
    b.set(33, log_interval as u8);
    proof {
        lemma_be_u16_split(len);
        lemma_be_u16_split(sequence_id);
        assert(b@.subrange(20, 30) =~= port@);
    }
    b
}

/// Message type code of a Sync message with transport-specific bits zero.
pub const SYNC_CODE: u8 = 0x00;

/// Message type code of a Delay_Req message.
pub const DELAY_REQ_CODE: u8 = 0x01;

/// Message type code of a Follow_Up message.
pub const FOLLOW_UP_CODE: u8 = 0x08;

/// Message type code of a Delay_Resp message.
pub const DELAY_RESP_CODE: u8 = 0x09;

/// Message type code of an Announce message.
pub const ANNOUNCE_CODE: u8 = 0x0b;

/// First flag octet of a two-step Sync message.
pub const TWO_STEP_FLAG: u8 = 0x02;

/// Length of Sync, Delay_Req and Follow_Up messages.
pub const TIMESTAMP_MESSAGE_LEN: u16 = 44;

/// A Sync message sent while acting as local master (two-step).
#[derive(Debug, Clone, Copy, PartialEq, Eq)]
pub struct SyncMessage {
    pub domain_number: u8,
    pub source_port_identity: [u8; 10],
    pub sequence_id: u16,
    pub origin_timestamp: Timestamp,
}

/// A Follow_Up message carrying the precise origin time of a Sync.
#[derive(Debug, Clone, Copy, PartialEq, Eq)]
pub struct FollowUpMessage {
    pub domain_number: u8,
    pub source_port_identity: [u8; 10],
    pub sequence_id: u16,
    pub precise_origin_timestamp: Timestamp,
}

/// A Delay_Req message.
#[derive(Debug, Clone, Copy, PartialEq, Eq)]
pub struct DelayReqMessage {
    pub domain_number: u8,
    pub source_port_identity: [u8; 10],
    pub sequence_id: u16,
    pub origin_timestamp: Timestamp,
}

/// An Announce message sent while acting as local master.
#[derive(Debug, Clone, Copy, PartialEq, Eq)]
pub struct LocalAnnounceMessage {
    pub domain_number: u8,
    pub source_port_identity: [u8; 10],
    pub sequence_id: u16,
    pub log_message_interval: i8,
    pub priority1: u8,
    pub clock_quality: ClockQuality,
    pub priority2: u8,
    pub grandmaster_identity: ClockIdentity,
}

/// A 44-byte message with the given header fields and `ts` at bytes 34..44.
pub open spec fn timestamp_message_ok(
    b: Seq<u8>,
    type_code: u8,
    domain: u8,
    flags0: u8,
    port: Seq<u8>,
    sequence_id: u16,
    control: u8,
    log_interval: i8,
    ts: Timestamp,
) -> bool {
    &&& outgoing_header_ok(b, type_code, 44, domain, flags0, port, sequence_id, control, log_interval)
    &&& b.subrange(34, 44) == timestamp_bytes(ts)
}

fn timestamp_message(
    type_code: u8,
    domain: u8,
    flags0: u8,
    port: &[u8; 10],
    sequence_id: u16,
    control: u8,
    log_interval: i8,
    ts: &Timestamp,
) -> (b: Vec<u8>)
    ensures
        timestamp_message_ok(
            b@,
            type_code,
            domain,
            flags0,
            port@,
            sequence_id,
            control,
            log_interval,
            *ts,
        ),
{
    let mut b = new_message(
        TIMESTAMP_MESSAGE_LEN,
        type_code,
        domain,
        flags0,
        port,
        sequence_id,
        control,
        log_interval,
    );
    let tb = ts.to_bytes();
    let ghost before = b@;
    put_bytes(&mut b, 34, &tb);
    proof {
        assert forall|i: int| 8 <= i < 20 implies b@[i] == 0 by {
            assert(b@[i] == before[i]);
        }
        assert(b@.subrange(20, 30) =~= before.subrange(20, 30));
        assert(b@[0] == before[0] && b@[1] == before[1] && b@[2] == before[2] && b@[3] == before[3]);
        assert(b@[4] == before[4] && b@[5] == before[5] && b@[6] == before[6] && b@[7] == before[7]);
        assert(b@[30] == before[30] && b@[31] == before[31] && b@[32] == before[32] && b@[33]
            == before[33]);
    }
    b
}

impl SyncMessage {
    /// Wire bytes of the Sync message (two-step flag set, control 0).
    pub fn to_bytes(&self) -> (b: Vec<u8>)
        ensures
            timestamp_message_ok(
                b@,
                SYNC_CODE,
                self.domain_number,
                TWO_STEP_FLAG,
                self.source_port_identity@,
                self.sequence_id,
                0,
                0,
                self.origin_timestamp,
            ),
    {
        timestamp_message(
            SYNC_CODE,
            self.domain_number,
            TWO_STEP_FLAG,
            &self.source_port_identity,
            self.sequence_id,
            0,
            0,
            &self.origin_timestamp,
        )
    }
}

impl FollowUpMessage {
    /// Wire bytes of the Follow_Up message (control 2).
    pub fn to_bytes(&self) -> (b: Vec<u8>)
        ensures
            timestamp_message_ok(
                b@,
                FOLLOW_UP_CODE,
                self.domain_number,
                0,
                self.source_port_identity@,
                self.sequence_id,
                2,
                0,
                self.precise_origin_timestamp,
            ),
    {
        timestamp_message(
            FOLLOW_UP_CODE,
            self.domain_number,
            0,
            &self.source_port_identity,
            self.sequence_id,
            2,
            0,
            &self.precise_origin_timestamp,
        )
    }
}

impl DelayReqMessage {
    /// Wire bytes of the Delay_Req message (control 1, log interval 0x7f).
    pub fn to_bytes(&self) -> (b: Vec<u8>)
        ensures
            timestamp_message_ok(
                b@,
                DELAY_REQ_CODE,
                self.domain_number,
                0,
                self.source_port_identity@,
                self.sequence_id,
                1,
                0x7f,
                self.origin_timestamp,
            ),
    {
        timestamp_message(
            DELAY_REQ_CODE,
            self.domain_number,
            0,
            &self.source_port_identity,
            self.sequence_id,
            1,
            0x7f,
            &self.origin_timestamp,
        )
    }
}

/// Time source value announced by a local master (internal oscillator).
pub const INTERNAL_OSCILLATOR: u8 = 0xa0;

/// Wire bytes of a Delay_Resp message sent from port `port`.
pub open spec fn delay_resp_bytes_ok(b: Seq<u8>, m: DelayRespMessage, port: Seq<u8>) -> bool {
    &&& outgoing_header_ok(b, DELAY_RESP_CODE, 54, m.domain_number, 0, port, m.sequence_id, 3, 0)
    &&& b.subrange(34, 44) == timestamp_bytes(m.receive_timestamp)
    &&& b.subrange(44, 54) == m.requesting_port_identity@
}

/// Wire bytes of an Announce message sent by a local master.
pub open spec fn local_announce_bytes_ok(b: Seq<u8>, m: LocalAnnounceMessage) -> bool {
    &&& outgoing_header_ok(
        b,
        ANNOUNCE_CODE,
        64,
        m.domain_number,
        0,
        m.source_port_identity@,
        m.sequence_id,
        5,
        m.log_message_interval,
    )
    &&& forall|i: int| 34 <= i < 47 ==> b[i] == 0
    &&& b[47] == m.priority1
    &&& b[48] == m.clock_quality.clock_class
    &&& b[49] == m.clock_quality.clock_accuracy
    &&& be_u16(b[50], b[51]) == m.clock_quality.offset_scaled_log_variance
    &&& b[52] == m.priority2
    &&& b.subrange(53, 61) == identity_bytes(m.grandmaster_identity.value)
    &&& b[61] == 0
    &&& b[62] == 0
    &&& b[63] == INTERNAL_OSCILLATOR
}

impl DelayRespMessage {
    /// Wire bytes of the Delay_Resp message, sent from port `source_port_identity`
    /// (control 3).
    pub fn to_bytes(&self, source_port_identity: [u8; 10]) -> (b: Vec<u8>)
        ensures
            delay_resp_bytes_ok(b@, *self, source_port_identity@),
    {
        let mut b = new_message(
            54,
            DELAY_RESP_CODE,
            self.domain_number,
            0,
            &source_port_identity,
            self.sequence_id,
            3,
            0,
        );
        let tb = self.receive_timestamp.to_bytes();
        let ghost before = b@;
        put_bytes(&mut b, 34, &tb);
        let ghost middle = b@;
        put_bytes(&mut b, 44, &self.requesting_port_identity);
        proof {
            assert forall|i: int| 0 <= i < 34 implies b@[i] == before[i] by {
                assert(b@[i] == middle[i]);
            }
            assert forall|i: int| 8 <= i < 20 implies b@[i] == 0 by {
                assert(b@[i] == before[i]);
            }
            assert(b@.subrange(20, 30) =~= before.subrange(20, 30));
            assert(b@.subrange(34, 44) =~= middle.subrange(34, 44));
        }
        b
    }
}

impl LocalAnnounceMessage {
    /// Wire bytes of the Announce message (control 5).
    pub fn to_bytes(&self) -> (b: Vec<u8>)
        ensures
            local_announce_bytes_ok(b@, *self),
    {
        let mut b = new_message(
            64,
            ANNOUNCE_CODE,
            self.domain_number,
            0,
            &self.source_port_identity,
            self.sequence_id,
            5,
            self.log_message_interval,
        );
        let ghost orig = b@;
        let v = self.clock_quality.offset_scaled_log_variance;
        b.set(47, self.priority1);
        b.set(48, self.clock_quality.clock_class);
        b.set(49, self.clock_quality.clock_accuracy);
        b.set(50, (v >> 8u16) as u8);
        b.set(51, v as u8);
        b.set(52, self.priority2);
        let id = self.grandmaster_identity.as_bytes();
        let ghost before = b@;
        put_bytes(&mut b, 53, &id);
        b.set(63, INTERNAL_OSCILLATOR);
        proof {
            lemma_be_u16_split(v);
            assert forall|i: int| 0 <= i < 47 implies b@[i] == orig[i] by {
                assert(b@[i] == before[i]);
            }
            assert(b@[61] == orig[61] && b@[62] == orig[62]);
            assert(b@[47] == before[47] && b@[48] == before[48] && b@[49] == before[49]);
            assert(b@[50] == before[50] && b@[51] == before[51] && b@[52] == before[52]);
            assert(b@.subrange(20, 30) =~= orig.subrange(20, 30));
            assert(b@.subrange(53, 61) =~= identity_bytes(self.grandmaster_identity.value));
        }
        b
    }
}

/// Parsing the bytes of a Delay_Resp message gives the message back.
pub proof fn lemma_delay_resp_roundtrip(b: Seq<u8>, m: DelayRespMessage, port: Seq<u8>, parsed: DelayRespMessage)
    requires
        delay_resp_bytes_ok(b, m, port),
        delay_resp_matches(parsed, b),
        m.receive_timestamp.seconds < 0x1_0000_0000_0000,
    ensures
        parsed == m,
{
    lemma_timestamp_bytes_roundtrip(m.receive_timestamp);
    assert(parsed.requesting_port_identity@ =~= m.requesting_port_identity@);
    assert(parsed.requesting_port_identity == m.requesting_port_identity);
}

/// Parsing the bytes of a local Announce message gives back the fields that master
/// selection reads.
pub proof fn lemma_local_announce_roundtrip(b: Seq<u8>, m: LocalAnnounceMessage)
    requires
        local_announce_bytes_ok(b, m),
    ensures
        spec_parse_announce(b) == Ok::<AnnounceMessage, PtpError>(
            AnnounceMessage {
                domain_number: m.domain_number,
                log_message_interval: m.log_message_interval,
                priority1: m.priority1,
                clock_quality: m.clock_quality,
                priority2: m.priority2,
                grandmaster_identity: m.grandmaster_identity,
            },
        ),
{
    let l = m.log_message_interval;
    assert((l as u8) as i8 == l) by (bit_vector);
    lemma_identity_bytes_roundtrip(b.subrange(53, 61), m.grandmaster_identity.value);
}

} // verus!
