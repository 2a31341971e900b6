//! RTP (RFC 3550) fixed header handling and AES67 L24 payload framing.

use vstd::prelude::*;
use vstd::arithmetic::div_mod::{lemma_fundamental_div_mod, lemma_fundamental_div_mod_converse};

verus! {

/// Length of the fixed RTP header used by AES67 L24 streams.
pub const RTP_FIXED_HEADER_LEN: usize = 12;

/// Bytes per L24 sample.
pub const L24_BYTES_PER_SAMPLE: usize = 3;

/// Errors reported while parsing RTP packets or L24 payloads.
#[derive(Debug, Clone, Copy, PartialEq, Eq, Structural)]
pub enum RtpError {
    /// The packet is shorter than the fixed 12-byte header.
    TooShort { len: usize },
    /// The version field is not 2.
    UnsupportedVersion { version: u8 },
    /// The padding bit is set.
    PaddingUnsupported,
    /// The header extension bit is set.
    ExtensionUnsupported,
    /// The CSRC count is not zero.
    CsrcUnsupported,
    /// A channel count of zero was given.
    ZeroChannels,
    /// The payload length is not a whole number of frames.
    PayloadNotFrameAligned { len: usize, frame_size: usize },
}

/// RTP header structure (RFC 3550).
#[derive(Debug, Clone, Copy, PartialEq, Eq, Structural)]
pub struct RtpHeader {
    /// Version (2 bits): always 2 for RTP
    pub version: u8,
    /// Padding (1 bit)
    pub padding: bool,
    /// Extension (1 bit)
    pub extension: bool,
    /// CSRC count (4 bits)
    pub csrc_count: u8,
    /// Marker (1 bit)
    pub marker: bool,
    /// Payload type (7 bits)
    pub payload_type: u8,
    /// Sequence number (16 bits)
    pub sequence_number: u16,
    /// Timestamp (32 bits)
    pub timestamp: u32,
    /// Synchronization source identifier (32 bits)
    pub ssrc: u32,
}

/// `1` for a set flag, `0` otherwise.
pub open spec fn flag_bit(b: bool) -> u8 {
    if b { 1u8 } else { 0u8 }
}

/// Big-endian 16-bit value of two bytes.
pub open spec fn be_u16(hi: u8, lo: u8) -> u16 {
    ((hi as u16) << 8u16) | (lo as u16)
}

/// Big-endian 32-bit value of four bytes.
pub open spec fn be_u32(b0: u8, b1: u8, b2: u8, b3: u8) -> u32 {
    ((b0 as u32) << 24u32) | ((b1 as u32) << 16u32) | ((b2 as u32) << 8u32) | (b3 as u32)
}

/// The twelve bytes that serialize a header, field by field as RFC 3550 lays them out.
pub open spec fn header_bytes(h: RtpHeader) -> Seq<u8> {
    seq![
        ((h.version << 6u8) | (flag_bit(h.padding) << 5u8) | (flag_bit(h.extension) << 4u8)
            | h.csrc_count) as u8,
        ((flag_bit(h.marker) << 7u8) | h.payload_type) as u8,
        (h.sequence_number >> 8u16) as u8,
        h.sequence_number as u8,
        (h.timestamp >> 24u32) as u8,
        (h.timestamp >> 16u32) as u8,
        (h.timestamp >> 8u32) as u8,
        h.timestamp as u8,
        (h.ssrc >> 24u32) as u8,
        (h.ssrc >> 16u32) as u8,
        (h.ssrc >> 8u32) as u8,
        h.ssrc as u8,
    ]
}

/// The result of parsing the fixed header of `b`: the first failing check decides the
/// error, in the order length, version, padding, extension, CSRC count.
pub open spec fn spec_parse_header(b: Seq<u8>) -> Result<RtpHeader, RtpError> {
    if b.len() < 12 {
        Err(RtpError::TooShort { len: b.len() as usize })
    } else if b[0] >> 6u8 != 2 {
        Err(RtpError::UnsupportedVersion { version: b[0] >> 6u8 })
    } else if b[0] & 0x20u8 != 0 {
        Err(RtpError::PaddingUnsupported)
    } else if b[0] & 0x10u8 != 0 {
        Err(RtpError::ExtensionUnsupported)
    } else if b[0] & 0x0fu8 != 0 {
        Err(RtpError::CsrcUnsupported)
    } else {
        Ok(
            RtpHeader {
                version: 2,
                padding: false,
                extension: false,
                csrc_count: 0,
                marker: b[1] & 0x80u8 != 0,
                payload_type: b[1] & 0x7fu8,
                sequence_number: be_u16(b[2], b[3]),
                timestamp: be_u32(b[4], b[5], b[6], b[7]),
                ssrc: be_u32(b[8], b[9], b[10], b[11]),
            },
        )
    }
}

/// A header that the parser accepts back unchanged: version 2, no padding, extension
/// or CSRC list, and a 7-bit payload type.
pub open spec fn header_is_wire_valid(h: RtpHeader) -> bool {
    &&& h.version == 2
    &&& !h.padding
    &&& !h.extension
    &&& h.csrc_count == 0
    &&& h.payload_type < 128
}

impl RtpHeader {
    /// Create a new RTP header with the AES67 defaults.
    pub fn new(payload_type: u8, ssrc: u32) -> (h: Self)
        ensures
            h == (RtpHeader {
                version: 2,
                padding: false,
                extension: false,
                csrc_count: 0,
                marker: false,
                payload_type,
                sequence_number: 0,
                timestamp: 0,
                ssrc,
            }),
    {
        RtpHeader {
            version: 2,
            padding: false,
            extension: false,
            csrc_count: 0,
            marker: false,
            payload_type,
            sequence_number: 0,
            timestamp: 0,
            ssrc,
        }
    }

    /// Serialize the header to its 12-byte wire form.
    pub fn to_bytes(&self) -> (bytes: [u8; 12])
        ensures
            bytes@ == header_bytes(*self),
    {
        let padding: u8 = if self.padding { 1 } else { 0 };
        let extension: u8 = if self.extension { 1 } else { 0 };
        let marker: u8 = if self.marker { 1 } else { 0 };
        let bytes = [
            (self.version << 6u8) | (padding << 5u8) | (extension << 4u8) | self.csrc_count,
            (marker << 7u8) | self.payload_type,
            (self.sequence_number >> 8u16) as u8,
            self.sequence_number as u8,
            (self.timestamp >> 24u32) as u8,
            (self.timestamp >> 16u32) as u8,
            (self.timestamp >> 8u32) as u8,
            self.timestamp as u8,
            (self.ssrc >> 24u32) as u8,
            (self.ssrc >> 16u32) as u8,
            (self.ssrc >> 8u32) as u8,
            self.ssrc as u8,
        ];
        assert(bytes@ =~= header_bytes(*self));
        bytes
    }

    /// Parse and validate the fixed 12-byte RTP header used by AES67 L24 streams.
    pub fn from_bytes(bytes: &[u8]) -> (res: Result<Self, RtpError>)
        ensures
            res == spec_parse_header(bytes@),
    {
        if bytes.len() < RTP_FIXED_HEADER_LEN {
            return Err(RtpError::TooShort { len: bytes.len() });
        }
        let version = bytes[0] >> 6u8;
        if version != 2 {
            return Err(RtpError::UnsupportedVersion { version });
        }
        if bytes[0] & 0x20u8 != 0 {
            return Err(RtpError::PaddingUnsupported);
        }
        if bytes[0] & 0x10u8 != 0 {
            return Err(RtpError::ExtensionUnsupported);
        }
        if bytes[0] & 0x0fu8 != 0 {
            return Err(RtpError::CsrcUnsupported);
        }
        Ok(
            RtpHeader {
                version,
                padding: false,
                extension: false,
                csrc_count: 0,
                marker: bytes[1] & 0x80u8 != 0,
                payload_type: bytes[1] & 0x7fu8,
                sequence_number: ((bytes[2] as u16) << 8u16) | (bytes[3] as u16),
                timestamp: ((bytes[4] as u32) << 24u32) | ((bytes[5] as u32) << 16u32) | ((
                bytes[6] as u32) << 8u32) | (bytes[7] as u32),
                ssrc: ((bytes[8] as u32) << 24u32) | ((bytes[9] as u32) << 16u32) | ((
                bytes[10] as u32) << 8u32) | (bytes[11] as u32),
            },
        )
    }
}


/// Serializing a wire-valid header and parsing the bytes gives the header back.
pub proof fn lemma_header_serialize_parse_roundtrip(h: RtpHeader)
    requires
        header_is_wire_valid(h),
    ensures
        spec_parse_header(header_bytes(h)) == Ok::<RtpHeader, RtpError>(h),
{
    let b = header_bytes(h);
    let m = flag_bit(h.marker);
    let pt = h.payload_type;
    let sn = h.sequence_number;
    let ts = h.timestamp;
    let ss = h.ssrc;
    assert(m <= 1);
    assert(((2u8 << 6u8) | (0u8 << 5u8) | (0u8 << 4u8) | 0u8) == 0x80u8) by (bit_vector);
    assert(0x80u8 >> 6u8 == 2u8 && 0x80u8 & 0x20u8 == 0 && 0x80u8 & 0x10u8 == 0 && 0x80u8
        & 0x0fu8 == 0) by (bit_vector);
    assert(m <= 1 && pt < 128 ==> (((m << 7u8) | pt) & 0x80u8 != 0) == (m == 1) && ((m << 7u8)
        | pt) & 0x7fu8 == pt) by (bit_vector);
    assert(((((sn >> 8u16) as u8) as u16) << 8u16) | ((sn as u8) as u16) == sn) by (bit_vector);
    assert(((((ts >> 24u32) as u8) as u32) << 24u32) | ((((ts >> 16u32) as u8) as u32) << 16u32)
        | ((((ts >> 8u32) as u8) as u32) << 8u32) | ((ts as u8) as u32) == ts) by (bit_vector);
    assert(((((ss >> 24u32) as u8) as u32) << 24u32) | ((((ss >> 16u32) as u8) as u32) << 16u32)
        | ((((ss >> 8u32) as u8) as u32) << 8u32) | ((ss as u8) as u32) == ss) by (bit_vector);
}

/// Whenever the parser accepts some bytes, the header it returns is wire-valid and
/// serializes back to exactly the first twelve of those bytes.
pub proof fn lemma_header_parse_serialize_roundtrip(b: Seq<u8>)
    requires
        spec_parse_header(b) is Ok,
    ensures
        header_is_wire_valid(spec_parse_header(b)->Ok_0),
        header_bytes(spec_parse_header(b)->Ok_0) == b.take(12),
{
    let h = spec_parse_header(b)->Ok_0;
    let b0 = b[0];
    let b1 = b[1];
    assert(b1 & 0x7fu8 < 128) by (bit_vector);
    assert(b0 >> 6u8 == 2 && b0 & 0x20u8 == 0 && b0 & 0x10u8 == 0 && b0 & 0x0fu8 == 0 ==> b0
        == 0x80u8) by (bit_vector);
    assert(((2u8 << 6u8) | (0u8 << 5u8) | (0u8 << 4u8) | 0u8) == 0x80u8) by (bit_vector);
    let m: u8 = if b1 & 0x80u8 != 0 { 1 } else { 0 };
    assert(m == flag_bit(h.marker));
    assert((b1 & 0x80u8 != 0 ==> ((1u8 << 7u8) | (b1 & 0x7fu8)) == b1) && (b1 & 0x80u8 == 0 ==> ((
    0u8 << 7u8) | (b1 & 0x7fu8)) == b1)) by (bit_vector);
    let (b2, b3) = (b[2], b[3]);
    assert((((((b2 as u16) << 8u16) | (b3 as u16)) >> 8u16) as u8) == b2 && ((((b2 as u16)
        << 8u16) | (b3 as u16)) as u8) == b3) by (bit_vector);
    let (b4, b5, b6, b7) = (b[4], b[5], b[6], b[7]);
    let t = be_u32(b4, b5, b6, b7);
    assert(t == ((b4 as u32) << 24u32) | ((b5 as u32) << 16u32) | ((b6 as u32) << 8u32) | (
    b7 as u32));
    assert(t == ((b4 as u32) << 24u32) | ((b5 as u32) << 16u32) | ((b6 as u32) << 8u32) | (
    b7 as u32) ==> (t >> 24u32) as u8 == b4 && (t >> 16u32) as u8 == b5 && (t >> 8u32) as u8
        == b6 && t as u8 == b7) by (bit_vector);
    let (b8, b9, b10, b11) = (b[8], b[9], b[10], b[11]);
    let s = be_u32(b8, b9, b10, b11);
    assert(s == ((b8 as u32) << 24u32) | ((b9 as u32) << 16u32) | ((b10 as u32) << 8u32) | (
    b11 as u32));
    assert(s == ((b8 as u32) << 24u32) | ((b9 as u32) << 16u32) | ((b10 as u32) << 8u32) | (
    b11 as u32) ==> (s >> 24u32) as u8 == b8 && (s >> 16u32) as u8 == b9 && (s >> 8u32) as u8
        == b10 && s as u8 == b11) by (bit_vector);
    assert(header_bytes(h) =~= b.take(12));
}


/// RTP packet: the fixed header and the payload bytes that follow it.
#[derive(Debug, Clone, PartialEq, Eq)]
pub struct RtpPacket {
    /// RTP header (12 bytes)
    pub header: RtpHeader,
    /// Audio payload data
    pub payload: Vec<u8>,
}

impl RtpPacket {
    /// Parse an RTP packet into the fixed AES67 header and owned payload bytes.
    pub fn parse(bytes: &[u8]) -> (res: Result<Self, RtpError>)
        ensures
            match spec_parse_header(bytes@) {
                Ok(h) => res matches Ok(p) && p.header == h && p.payload@ == bytes@.skip(12),
                Err(e) => res == Err::<Self, RtpError>(e),
            },
    {
        let header = match RtpHeader::from_bytes(bytes) {
            Ok(h) => h,
            Err(e) => return Err(e),
        };
        let mut payload: Vec<u8> = Vec::with_capacity(bytes.len() - RTP_FIXED_HEADER_LEN);
        let mut i: usize = RTP_FIXED_HEADER_LEN;
        while i < bytes.len()
            invariant
                RTP_FIXED_HEADER_LEN <= i <= bytes.len(),
                payload@ == bytes@.subrange(12, i as int),
            decreases bytes.len() - i,
        {
            payload.push(bytes[i]);
            i = i + 1;
        }
        assert(payload@ =~= bytes@.skip(12));
        Ok(RtpPacket { header, payload })
    }
}

/// A block of audio as 24-bit integer samples in planar (non-interleaved) layout:
/// all frames of channel 0, then all frames of channel 1, and so on.
#[derive(Debug, Clone, PartialEq, Eq)]
pub struct L24Block {
    /// Planar samples; each value is a signed 24-bit sample held in an `i32`.
    pub data: Vec<i32>,
    pub channels: u32,
    pub sample_rate: u32,
    /// Number of frames (samples per channel)
    pub frames: usize,
}

/// The three big-endian bytes carrying the low 24 bits of a sample.
pub open spec fn l24_sample_bytes(v: i32) -> Seq<u8> {
    seq![(v >> 16i32) as u8, (v >> 8i32) as u8, v as u8]
}

/// Sign-extended value of three big-endian L24 bytes.
pub open spec fn l24_decode(b0: u8, b1: u8, b2: u8) -> i32 {
    let u = ((b0 as u32) << 16u32) | ((b1 as u32) << 8u32) | (b2 as u32);
    if b0 & 0x80u8 != 0 {
        (u | 0xff00_0000u32) as i32
    } else {
        u as i32
    }
}

/// Planar index of the sample that sits at interleaved position `k`.
pub open spec fn planar_index(channels: nat, frames: nat, k: nat) -> int {
    ((k % channels) * frames + k / channels) as int
}

/// The L24 payload bytes of the first `n` interleaved positions (frame by frame, channel
/// by channel); a position whose planar index lies past the end of `data` adds nothing.
pub open spec fn l24_payload_prefix(data: Seq<i32>, channels: nat, frames: nat, n: nat) -> Seq<u8>
    decreases n,
{
    if n == 0 {
        seq![]
    } else {
        let k = (n - 1) as nat;
        let idx = planar_index(channels, frames, k);
        l24_payload_prefix(data, channels, frames, k) + if idx < data.len() {
            l24_sample_bytes(data[idx])
        } else {
            seq![]
        }
    }
}

/// The L24 payload of a planar block: every frame in order, each frame holding one
/// sample per channel.
pub open spec fn l24_payload(data: Seq<i32>, channels: nat, frames: nat) -> Seq<u8> {
    l24_payload_prefix(data, channels, frames, channels * frames)
}

/// Interleaved samples of a planar block: position `k` holds frame `k / channels` of
/// channel `k % channels`.
pub open spec fn interleave(data: Seq<i32>, channels: nat, frames: nat) -> Seq<i32> {
    Seq::new(channels * frames, |k: int| data[planar_index(channels, frames, k as nat)])
}

/// Decoded samples of an L24 payload, one per three bytes.
pub open spec fn l24_decode_all(p: Seq<u8>) -> Seq<i32> {
    Seq::new(p.len() / 3, |i: int| l24_decode(p[3 * i], p[3 * i + 1], p[3 * i + 2]))
}

/// A sample value that fits in 24 signed bits.
pub open spec fn fits_l24(v: i32) -> bool {
    -0x80_0000 <= v < 0x80_0000
}

/// The 24 low bits of a sample, as big-endian bytes.
pub fn l24_bytes(v: i32) -> (b: [u8; 3])
    ensures
        b@ == l24_sample_bytes(v),
{
    let b = [(v >> 16i32) as u8, (v >> 8i32) as u8, v as u8];
    assert(b@ =~= l24_sample_bytes(v));
    b
}

/// Sign-extend one big-endian L24 sample.
pub fn decode_l24_sample(b0: u8, b1: u8, b2: u8) -> (v: i32)
    ensures
        v == l24_decode(b0, b1, b2),
{
    let u: u32 = ((b0 as u32) << 16u32) | ((b1 as u32) << 8u32) | (b2 as u32);
    if b0 & 0x80u8 != 0 {
        (u | 0xff00_0000u32) as i32
    } else {
        u as i32
    }
}

/// Decoding the L24 bytes of a 24-bit sample gives the sample back.
pub proof fn lemma_l24_sample_roundtrip(v: i32)
    requires
        fits_l24(v),
    ensures
        l24_decode(
            l24_sample_bytes(v)[0],
            l24_sample_bytes(v)[1],
            l24_sample_bytes(v)[2],
        ) == v,
{
    let b0 = (v >> 16i32) as u8;
    let b1 = (v >> 8i32) as u8;
    let b2 = v as u8;
    assert(-0x80_0000i32 <= v < 0x80_0000i32 && b0 == (v >> 16i32) as u8 && b1 == (v >> 8i32) as u8
        && b2 == v as u8 ==> ((b0 & 0x80u8 != 0) ==> ((((b0 as u32) << 16u32) | ((b1 as u32)
        << 8u32) | (b2 as u32)) | 0xff00_0000u32) as i32 == v) && ((b0 & 0x80u8 == 0) ==> (((
    b0 as u32) << 16u32) | ((b1 as u32) << 8u32) | (b2 as u32)) as i32 == v)) by (bit_vector);
}


proof fn lemma_position(channels: nat, frames: nat, f: nat, ch: nat)
    requires
        ch < channels,
    ensures
        planar_index(channels, frames, f * channels + ch) == ch * frames + f,
{
    lemma_fundamental_div_mod_converse(
        (f * channels + ch) as int,
        channels as int,
        f as int,
        ch as int,
    );
}

proof fn lemma_planar_bound(channels: nat, frames: nat, f: nat, ch: nat)
    requires
        ch < channels,
        f < frames,
    ensures
        ch * frames + f < channels * frames,
        f * channels + ch < channels * frames,
        (f * channels + ch) + 1 == f * channels + (ch + 1),
{
    assert(ch * frames + f < channels * frames) by (nonlinear_arith)
        requires
            ch < channels,
            f < frames,
    ;
    assert(f * channels + ch < channels * frames) by (nonlinear_arith)
        requires
            ch < channels,
            f < frames,
    ;
}

/// Append the L24 payload of a planar block to `payload`, frame by frame.
pub fn write_l24_payload_into(sample: &L24Block, payload: &mut Vec<u8>)
    requires
        sample.channels as int * sample.frames as int <= usize::MAX,
    ensures
        final(payload)@ == old(payload)@ + l24_payload(
            sample.data@,
            sample.channels as nat,
            sample.frames as nat,
        ),
{
    let channels = sample.channels as usize;
    let frames = sample.frames;
    let ghost c = channels as nat;
    let ghost fr = frames as nat;
    let ghost start = payload@;
    let mut frame_idx: usize = 0;
    assert(start =~= start + l24_payload_prefix(sample.data@, c, fr, 0));
    while frame_idx < frames
        invariant
            channels == sample.channels,
            frames == sample.frames,
            c == channels,
            fr == frames,
            c * fr <= usize::MAX,
            frame_idx <= frames,
            payload@ == start + l24_payload_prefix(sample.data@, c, fr, frame_idx as nat * c),
        decreases frames - frame_idx,
    {
        let mut ch_idx: usize = 0;
        while ch_idx < channels
            invariant
                channels == sample.channels,
                frames == sample.frames,
                c == channels,
                fr == frames,
                c * fr <= usize::MAX,
                frame_idx < frames,
                ch_idx <= channels,
                payload@ == start + l24_payload_prefix(
                    sample.data@,
                    c,
                    fr,
                    frame_idx as nat * c + ch_idx as nat,
                ),
            decreases channels - ch_idx,
        {
            proof {
                lemma_planar_bound(c, fr, frame_idx as nat, ch_idx as nat);
                lemma_position(c, fr, frame_idx as nat, ch_idx as nat);
            }
            let sample_idx = ch_idx * frames + frame_idx;
            let ghost k = frame_idx as nat * c + ch_idx as nat;
            assert(l24_payload_prefix(sample.data@, c, fr, k + 1) == l24_payload_prefix(
                sample.data@,
                c,
                fr,
                k,
            ) + if planar_index(c, fr, k) < sample.data@.len() {
                l24_sample_bytes(sample.data@[planar_index(c, fr, k)])
            } else {
                seq![]
            });
            if sample_idx < sample.data.len() {
                let b = l24_bytes(sample.data[sample_idx]);
                payload.push(b[0]);
                payload.push(b[1]);
                payload.push(b[2]);
                assert(payload@ =~= start + l24_payload_prefix(sample.data@, c, fr, k + 1));
            } else {
                assert(payload@ =~= start + l24_payload_prefix(sample.data@, c, fr, k + 1));
            }
            ch_idx = ch_idx + 1;
        }
        assert(frame_idx as nat * c + c == (frame_idx as nat + 1) * c) by (nonlinear_arith);
        frame_idx = frame_idx + 1;
    }
    assert(frame_idx as nat * c == c * fr) by (nonlinear_arith)
        requires
            frame_idx == fr,
    ;
}


/// Decode an AES67 L24 RTP payload into interleaved 24-bit samples; returns the number
/// of frames. On error `output` is left as it was.
pub fn decode_l24_payload_interleaved(payload: &[u8], channels: u16, output: &mut Vec<i32>) -> (res:
    Result<usize, RtpError>)
    ensures
        channels == 0 ==> res == Err::<usize, RtpError>(RtpError::ZeroChannels),
        channels != 0 && payload@.len() as int % (3 * channels as int) != 0 ==> res == Err::<
            usize,
            RtpError,
        >(
            RtpError::PayloadNotFrameAligned {
                len: payload@.len() as usize,
                frame_size: (3 * channels) as usize,
            },
        ),
        channels != 0 && payload@.len() as int % (3 * channels as int) == 0 ==> res == Ok::<
            usize,
            RtpError,
        >((payload@.len() as int / (3 * channels as int)) as usize),
        res is Ok ==> final(output)@ == l24_decode_all(payload@),
        res is Err ==> final(output)@ == old(output)@,
{
    if channels == 0 {
        return Err(RtpError::ZeroChannels);
    }
    let bytes_per_frame = channels as usize * L24_BYTES_PER_SAMPLE;
    if payload.len() % bytes_per_frame != 0 {
        return Err(
            RtpError::PayloadNotFrameAligned { len: payload.len(), frame_size: bytes_per_frame },
        );
    }
    output.clear();
    let count = payload.len() / L24_BYTES_PER_SAMPLE;
    let mut i: usize = 0;
    let total = payload.len();
    assert(3 * count <= payload@.len()) by (nonlinear_arith)
        requires
            count == payload@.len() / 3,
    ;
    while i < count
        invariant
            count == payload@.len() / 3,
            3 * count <= payload@.len(),
            total == payload@.len(),
            i <= count,
            output@ =~= l24_decode_all(payload@).take(i as int),
        decreases count - i,
    {
        let v = decode_l24_sample(payload[3 * i], payload[3 * i + 1], payload[3 * i + 2]);
        output.push(v);
        i = i + 1;
    }
    assert(output@ =~= l24_decode_all(payload@));
    Ok(payload.len() / bytes_per_frame)
}


/// The abstract state of a packetizer.
pub struct PacketizerState {
    pub sequence_number: u16,
    pub base_timestamp: u32,
    pub samples_processed: u64,
    pub header_template: RtpHeader,
}

/// The sequence number that follows `s`, wrapping after 65535.
pub open spec fn next_sequence(s: u16) -> u16 {
    ((s as int + 1) % 65536) as u16
}

/// The timestamp `create_packet` uses: base timestamp plus the number of frames
/// packetized so far, modulo 2^32 (RTP timestamps wrap).
pub open spec fn running_timestamp(st: PacketizerState) -> u32 {
    ((st.base_timestamp as int + st.samples_processed as int) % 0x1_0000_0000) as u32
}

/// The base timestamp advanced by the frames packetized so far, modulo 2^32.
fn wrapped_running_timestamp(base: u32, samples_processed: u64) -> (ts: u32)
    ensures
        ts as int == (base as int + samples_processed as int) % 0x1_0000_0000,
{
    let low = samples_processed as u32;
    assert(low as int == samples_processed as int % 0x1_0000_0000) by (bit_vector)
        requires
            low == samples_processed as u32,
    ;
    let ts = base.wrapping_add(low);
    assert(ts as int == (base as int + low as int) % 0x1_0000_0000) by (bit_vector)
        requires
            ts == base.wrapping_add(low),
    ;
    proof {
        vstd::arithmetic::div_mod::lemma_add_mod_noop(
            base as int,
            samples_processed as int,
            0x1_0000_0000,
        );
        vstd::arithmetic::div_mod::lemma_small_mod(base as nat, 0x1_0000_0000);
    }
    ts
}

/// The header a packetizer in state `st` puts on the next packet with timestamp `ts`.
pub open spec fn next_header(st: PacketizerState, ts: u32) -> RtpHeader {
    RtpHeader { sequence_number: st.sequence_number, timestamp: ts, ..st.header_template }
}

/// The state after one packet of `frames` frames.
pub open spec fn advanced(st: PacketizerState, frames: nat) -> PacketizerState {
    PacketizerState {
        sequence_number: next_sequence(st.sequence_number),
        samples_processed: (st.samples_processed + frames) as u64,
        ..st
    }
}

/// RTP packet builder for L24 audio blocks.
pub struct RtpPacketizer {
    /// Current sequence number
    sequence_number: u16,
    /// Base timestamp
    base_timestamp: u32,
    /// Frames processed (for timestamp calculation)
    samples_processed: u64,
    /// RTP header template
    header_template: RtpHeader,
}

impl View for RtpPacketizer {
    type V = PacketizerState;

    closed spec fn view(&self) -> PacketizerState {
        PacketizerState {
            sequence_number: self.sequence_number,
            base_timestamp: self.base_timestamp,
            samples_processed: self.samples_processed,
            header_template: self.header_template,
        }
    }
}

/// The conditions under which a block can be packetized without arithmetic overflow.
pub open spec fn can_packetize(st: PacketizerState, sample: L24Block) -> bool {
    &&& st.samples_processed + sample.frames <= u64::MAX
    &&& sample.channels as int * sample.frames as int <= usize::MAX
}

impl RtpPacketizer {
    /// Create a new RTP packetizer.
    pub fn new(payload_type: u8, ssrc: u32) -> (p: Self)
        ensures
            p@ == (PacketizerState {
                sequence_number: 0,
                base_timestamp: 0,
                samples_processed: 0,
                header_template: RtpHeader {
                    version: 2,
                    padding: false,
                    extension: false,
                    csrc_count: 0,
                    marker: false,
                    payload_type,
                    sequence_number: 0,
                    timestamp: 0,
                    ssrc,
                },
            }),
    {
        RtpPacketizer {
            sequence_number: 0,
            base_timestamp: 0,
            samples_processed: 0,
            header_template: RtpHeader::new(payload_type, ssrc),
        }
    }

    /// Set the base timestamp (typically from the PTP clock).
    pub fn set_base_timestamp(&mut self, timestamp: u32)
        ensures
            final(self)@ == (PacketizerState { base_timestamp: timestamp, ..old(self)@ }),
    {
        self.base_timestamp = timestamp;
    }

    /// Create an RTP packet from an audio block with an explicit timestamp.
    pub fn create_packet_with_timestamp(&mut self, sample: &L24Block, timestamp: u32) -> (res:
        Result<RtpPacket, RtpError>)
        requires
            can_packetize(old(self)@, *sample),
        ensures
            res matches Ok(p) && p.header == next_header(old(self)@, timestamp) && p.payload@
                == l24_payload(sample.data@, sample.channels as nat, sample.frames as nat),
            final(self)@ == advanced(old(self)@, sample.frames as nat),
    {
        self.create_packet_at_timestamp(sample, timestamp)
    }

    /// Create an RTP packet from an audio block, timestamped from the base timestamp
    /// and the number of frames packetized so far (modulo 2^32, as RTP timestamps wrap).
    pub fn create_packet(&mut self, sample: &L24Block) -> (res: Result<RtpPacket, RtpError>)
        requires
            can_packetize(old(self)@, *sample),
        ensures
            res matches Ok(p) && p.header == next_header(
                old(self)@,
                running_timestamp(old(self)@),
            ) && p.payload@ == l24_payload(
                sample.data@,
                sample.channels as nat,
                sample.frames as nat,
            ),
            final(self)@ == advanced(old(self)@, sample.frames as nat),
    {
        let timestamp = wrapped_running_timestamp(self.base_timestamp, self.samples_processed);
        self.create_packet_at_timestamp(sample, timestamp)
    }

    /// Write a serialized RTP packet into an existing buffer, timestamped like
    /// `create_packet`.
    pub fn write_packet_into(&mut self, sample: &L24Block, output: &mut Vec<u8>) -> (res: Result<
        (),
        RtpError,
    >)
        requires
            can_packetize(old(self)@, *sample),
        ensures
            res is Ok,
            final(output)@ == header_bytes(
                next_header(old(self)@, running_timestamp(old(self)@)),
            ) + l24_payload(sample.data@, sample.channels as nat, sample.frames as nat),
            final(self)@ == advanced(old(self)@, sample.frames as nat),
    {
        let timestamp = wrapped_running_timestamp(self.base_timestamp, self.samples_processed);
        self.write_packet_at_timestamp_into(sample, timestamp, output)
    }

    /// Write a serialized RTP packet with an explicit timestamp into an existing buffer.
    pub fn write_packet_with_timestamp_into(
        &mut self,
        sample: &L24Block,
        timestamp: u32,
        output: &mut Vec<u8>,
    ) -> (res: Result<(), RtpError>)
        requires
            can_packetize(old(self)@, *sample),
        ensures
            res is Ok,
            final(output)@ == header_bytes(next_header(old(self)@, timestamp)) + l24_payload(
                sample.data@,
                sample.channels as nat,
                sample.frames as nat,
            ),
            final(self)@ == advanced(old(self)@, sample.frames as nat),
    {
        self.write_packet_at_timestamp_into(sample, timestamp, output)
    }

    fn create_packet_at_timestamp(&mut self, sample: &L24Block, timestamp: u32) -> (res: Result<
        RtpPacket,
        RtpError,
    >)
        requires
            can_packetize(old(self)@, *sample),
        ensures
            res matches Ok(p) && p.header == next_header(old(self)@, timestamp) && p.payload@
                == l24_payload(sample.data@, sample.channels as nat, sample.frames as nat),
            final(self)@ == advanced(old(self)@, sample.frames as nat),
    {
        let mut header = self.header_template;
        header.sequence_number = self.sequence_number;
        header.timestamp = timestamp;
        let payload = self.audio_to_payload(sample);
        self.sequence_number = self.sequence_number.wrapping_add(1);
        self.samples_processed = self.samples_processed + sample.frames as u64;
        Ok(RtpPacket { header, payload })
    }

    fn write_packet_at_timestamp_into(
        &mut self,
        sample: &L24Block,
        timestamp: u32,
        output: &mut Vec<u8>,
    ) -> (res: Result<(), RtpError>)
        requires
            can_packetize(old(self)@, *sample),
        ensures
            res is Ok,
            final(output)@ == header_bytes(next_header(old(self)@, timestamp)) + l24_payload(
                sample.data@,
                sample.channels as nat,
                sample.frames as nat,
            ),
            final(self)@ == advanced(old(self)@, sample.frames as nat),
    {
        let mut header = self.header_template;
        header.sequence_number = self.sequence_number;
        header.timestamp = timestamp;
        output.clear();
        let bytes = header.to_bytes();
        let mut i: usize = 0;
        while i < RTP_FIXED_HEADER_LEN
            invariant
                i <= 12,
                bytes@ == header_bytes(header),
                output@ == bytes@.take(i as int),
            decreases 12 - i,
        {
            output.push(bytes[i]);
            i = i + 1;
            assert(output@ =~= bytes@.take(i as int));
        }
        assert(bytes@.take(12) =~= bytes@);
        write_l24_payload_into(sample, output);
        self.sequence_number = self.sequence_number.wrapping_add(1);
        self.samples_processed = self.samples_processed + sample.frames as u64;
        Ok(())
    }

    /// The L24 payload of an audio block.
    pub fn audio_to_payload(&self, sample: &L24Block) -> (payload: Vec<u8>)
        requires
            sample.channels as int * sample.frames as int <= usize::MAX,
        ensures
            payload@ == l24_payload(sample.data@, sample.channels as nat, sample.frames as nat),
    {
        let mut payload: Vec<u8> = Vec::new();
        write_l24_payload_into(sample, &mut payload);
        assert(payload@ =~= l24_payload(
            sample.data@,
            sample.channels as nat,
            sample.frames as nat,
        ));
        payload
    }

    /// Current sequence number.
    pub fn get_sequence_number(&self) -> (s: u16)
        ensures
            s == self@.sequence_number,
    {
        self.sequence_number
    }

    /// Frames packetized so far.
    pub fn get_samples_processed(&self) -> (n: u64)
        ensures
            n == self@.samples_processed,
    {
        self.samples_processed
    }

    /// Reset the sequence number and the frame count.
    pub fn reset(&mut self)
        ensures
            final(self)@ == (PacketizerState {
                sequence_number: 0,
                samples_processed: 0,
                ..old(self)@
            }),
    {
        self.sequence_number = 0;
        self.samples_processed = 0;
    }
}


proof fn lemma_planar_index_in_block(channels: nat, frames: nat, k: nat)
    requires
        channels > 0,
        k < channels * frames,
    ensures
        0 <= planar_index(channels, frames, k) < channels * frames,
{
    let q = k / channels;
    let r = k % channels;
    lemma_fundamental_div_mod(k as int, channels as int);
    assert(q < frames) by (nonlinear_arith)
        requires
            k == channels * q + r,
            0 <= r < channels,
            k < channels * frames,
    ;
    lemma_planar_bound(channels, frames, q, r);
}

proof fn lemma_payload_prefix_layout(data: Seq<i32>, channels: nat, frames: nat, n: nat)
    requires
        channels > 0,
        n <= channels * frames,
        data.len() >= channels * frames,
    ensures
        l24_payload_prefix(data, channels, frames, n).len() == 3 * n,
        forall|i: int, j: int|
            0 <= i < n && 0 <= j < 3 ==> #[trigger] l24_payload_prefix(data, channels, frames, n)[3
                * i + j] == l24_sample_bytes(data[planar_index(channels, frames, i as nat)])[j],
    decreases n,
{
    if n > 0 {
        let k = (n - 1) as nat;
        lemma_payload_prefix_layout(data, channels, frames, k);
        lemma_planar_index_in_block(channels, frames, k);
        let prev = l24_payload_prefix(data, channels, frames, k);
        let cur = l24_payload_prefix(data, channels, frames, n);
        let last = l24_sample_bytes(data[planar_index(channels, frames, k)]);
        assert(cur == prev + last);
        assert forall|i: int, j: int| 0 <= i < n && 0 <= j < 3 implies #[trigger] cur[3 * i + j]
            == l24_sample_bytes(data[planar_index(channels, frames, i as nat)])[j] by {
            if i < k {
                assert(3 * i + j < 3 * k);
                assert(cur[3 * i + j] == prev[3 * i + j]);
            } else {
                assert(cur[3 * i + j] == last[j]);
            }
        }
    }
}

/// Decoding the L24 payload of a planar block whose samples all fit in 24 bits gives
/// the block's samples back, interleaved frame by frame.
pub proof fn lemma_l24_payload_roundtrip(data: Seq<i32>, channels: nat, frames: nat)
    requires
        channels > 0,
        data.len() >= channels * frames,
        forall|i: int| 0 <= i < data.len() ==> fits_l24(#[trigger] data[i]),
    ensures
        l24_payload(data, channels, frames).len() == 3 * channels * frames,
        l24_decode_all(l24_payload(data, channels, frames)) == interleave(data, channels, frames),
{
    let n = channels * frames;
    let p = l24_payload(data, channels, frames);
    lemma_payload_prefix_layout(data, channels, frames, n);
    assert(3 * channels * frames == 3 * n) by (nonlinear_arith)
        requires
            n == channels * frames,
    ;
    let d = l24_decode_all(p);
    let e = interleave(data, channels, frames);
    assert(d.len() == n);
    assert forall|i: int| 0 <= i < n implies #[trigger] d[i] == e[i] by {
        let idx = planar_index(channels, frames, i as nat);
        lemma_planar_index_in_block(channels, frames, i as nat);
        let b = l24_sample_bytes(data[idx]);
        assert(p[3 * i + 0] == b[0]);
        assert(p[3 * i + 1] == b[1]);
        assert(p[3 * i + 2] == b[2]);
        lemma_l24_sample_roundtrip(data[idx]);
    }
    assert(d =~= e);
}

} // verus!
