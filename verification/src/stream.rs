//! Decisions of the streamer: packet sizing, the release audio format, SSRC choice, send
//! timing statistics and the SDP it announces.

use vstd::prelude::*;
use crate::ptp_messages::ClockIdentity;
use crate::text::string_from_chars;

verus! {

/// Channel limit of the release target.
pub const MAX_RELEASE_CHANNELS: u32 = 8;

/// Bytes per L24 sample.
pub const L24_SAMPLE_BYTES: usize = 3;

/// Largest RTP audio payload that fits a standard Ethernet MTU over IPv4/UDP/RTP.
pub const MAX_IPV4_RTP_AUDIO_PAYLOAD_BYTES: usize = 1460;

/// SSRC that older builds used for every stream; never generated.
pub const LEGACY_DEFAULT_SSRC: u32 = 0x1234_5678;

/// Samples per channel in one packet: `sample_rate * packet_time_ms / 1000`.
pub fn samples_per_packet(sample_rate: u32, packet_time_ms: u32) -> (n: usize)
    requires
        sample_rate as int * packet_time_ms as int <= usize::MAX,
    ensures
        n == sample_rate as int * packet_time_ms as int / 1000,
{
    (sample_rate as usize * packet_time_ms as usize) / 1000
}

/// Properties of a loaded audio file.
#[derive(Debug, Clone)]
pub struct AudioInfo {
    pub sample_rate: u32,
    pub channels: u32,
    pub duration: Option<std::time::Duration>,
    pub bit_depth: Option<u32>,
    pub format: String,
}

/// Why an audio format cannot be streamed.
#[derive(Debug, Clone, Copy, PartialEq, Eq, Structural)]
pub enum StreamFormatError {
    /// The release supports 1 to 8 channels.
    UnsupportedChannels { channels: u32 },
    /// One packet's payload would not fit a standard MTU.
    PayloadTooLarge { payload_bytes: usize },
}

/// Check that `info` can be streamed with `samples_per_packet` frames per packet: 1 to 8
/// channels and an L24 payload of at most 1460 bytes.
pub fn validate_stream_audio_format(info: &AudioInfo, samples_per_packet: usize) -> (r: Result<(), StreamFormatError>)
    requires
        samples_per_packet as int * 24 <= usize::MAX,
    ensures
        !(1 <= info.channels <= 8) ==> r == Err::<(), StreamFormatError>(
            StreamFormatError::UnsupportedChannels { channels: info.channels },
        ),
        1 <= info.channels <= 8 && samples_per_packet * info.channels * 3 > 1460 ==> r == Err::<
            (),
            StreamFormatError,
        >(
            StreamFormatError::PayloadTooLarge {
                payload_bytes: (samples_per_packet * info.channels * 3) as usize,
            },
        ),
        1 <= info.channels <= 8 && samples_per_packet * info.channels * 3 <= 1460 ==> r == Ok::<
            (),
            StreamFormatError,
        >(()),
{
    if !(1 <= info.channels && info.channels <= MAX_RELEASE_CHANNELS) {
        return Err(StreamFormatError::UnsupportedChannels { channels: info.channels });
    }
    assert(samples_per_packet * info.channels * 3 <= samples_per_packet * 24) by (nonlinear_arith)
        requires
            info.channels <= 8,
    ;
    let payload_bytes = samples_per_packet * info.channels as usize * L24_SAMPLE_BYTES;
    if payload_bytes > MAX_IPV4_RTP_AUDIO_PAYLOAD_BYTES {
        return Err(StreamFormatError::PayloadTooLarge { payload_bytes });
    }
    Ok(())
}

/// A random 32-bit value (rand's `random::<u32>()`, drawn from the thread-local generator);
/// nothing is stated about which value comes.
#[verifier::external_body]
fn random_u32() -> u32 {
    rand::random::<u32>()
}

/// An SSRC may be any value but 0 and the legacy default.
pub open spec fn usable_ssrc(s: u32) -> bool {
    s != 0 && s != LEGACY_DEFAULT_SSRC
}

/// A random SSRC: random values are drawn until one is usable (after a thousand unusable
/// draws in a row, which does not happen in practice, 1 is taken).
pub fn generate_random_ssrc() -> (s: u32)
    ensures
        usable_ssrc(s),
{
    let mut attempts: u32 = 0;
    while attempts < 1000
        decreases 1000 - attempts,
    {
        let candidate = random_u32();
        if candidate != 0 && candidate != LEGACY_DEFAULT_SSRC {
            return candidate;
        }
        attempts = attempts + 1;
    }
    1
}

/// The configured SSRC, or a random usable one.
pub fn resolve_ssrc(configured_ssrc: Option<u32>) -> (s: u32)
    ensures
        configured_ssrc matches Some(c) ==> s == c,
        configured_ssrc.is_none() ==> usable_ssrc(s),
{
    match configured_ssrc {
        Some(c) => c,
        None => generate_random_ssrc(),
    }
}

/// How late packets were sent against their schedule (nanoseconds).
#[derive(Debug, Clone, Copy, PartialEq, Eq, Structural)]
pub struct TimingDriftStats {
    pub packets_observed: u64,
    pub late_packets: u64,
    pub total_lateness_ns: u64,
    pub max_lateness_ns: u64,
}

impl Default for TimingDriftStats {
    fn default() -> (s: Self)
        ensures
            s == (TimingDriftStats {
                packets_observed: 0,
                late_packets: 0,
                total_lateness_ns: 0,
                max_lateness_ns: 0,
            }),
    {
        TimingDriftStats { packets_observed: 0, late_packets: 0, total_lateness_ns: 0, max_lateness_ns: 0 }
    }
}

/// The statistics after a packet sent at `sent_ns` that was due at `target_ns`.
pub open spec fn drift_after(s: TimingDriftStats, sent_ns: u64, target_ns: u64) -> TimingDriftStats {
    let counted = TimingDriftStats { packets_observed: (s.packets_observed + 1) as u64, ..s };
    if sent_ns <= target_ns {
        counted
    } else {
        let lateness = (sent_ns - target_ns) as u64;
        TimingDriftStats {
            late_packets: (s.late_packets + 1) as u64,
            total_lateness_ns: (s.total_lateness_ns + lateness) as u64,
            max_lateness_ns: if lateness > s.max_lateness_ns {
                lateness
            } else {
                s.max_lateness_ns
            },
            ..counted
        }
    }
}

impl TimingDriftStats {
    /// Record a packet sent at `sent_ns` that was due at `target_ns`; a packet is late
    /// when it was sent after its due time.
    pub fn observe(&mut self, sent_ns: u64, target_ns: u64)
        requires
            old(self).packets_observed < u64::MAX,
            old(self).late_packets < u64::MAX,
            sent_ns > target_ns ==> old(self).total_lateness_ns + (sent_ns - target_ns) <= u64::MAX,
        ensures
            *final(self) == drift_after(*old(self), sent_ns, target_ns),
    {
        self.packets_observed = self.packets_observed + 1;
        if sent_ns <= target_ns {
            return;
        }
        let lateness = sent_ns - target_ns;
        self.late_packets = self.late_packets + 1;
        self.total_lateness_ns = self.total_lateness_ns + lateness;
        if lateness > self.max_lateness_ns {
            self.max_lateness_ns = lateness;
        }
    }

    pub fn get_packets_observed(&self) -> (n: u64)
        ensures
            n == self.packets_observed,
    {
        self.packets_observed
    }

    pub fn get_late_packets(&self) -> (n: u64)
        ensures
            n == self.late_packets,
    {
        self.late_packets
    }

    pub fn get_max_lateness_ns(&self) -> (n: u64)
        ensures
            n == self.max_lateness_ns,
    {
        self.max_lateness_ns
    }

    pub fn get_total_lateness_ns(&self) -> (n: u64)
        ensures
            n == self.total_lateness_ns,
    {
        self.total_lateness_ns
    }
}

/// Counts that fit together: no more late packets than packets, the largest lateness
/// within the total, and no lateness without a late packet.
pub open spec fn drift_consistent(s: TimingDriftStats) -> bool {
    &&& s.late_packets <= s.packets_observed
    &&& s.max_lateness_ns <= s.total_lateness_ns
    &&& s.late_packets == 0 ==> s.total_lateness_ns == 0
}

/// Observing a packet keeps the counts consistent.
pub proof fn lemma_drift_stays_consistent(s: TimingDriftStats, sent_ns: u64, target_ns: u64)
    requires
        drift_consistent(s),
        s.packets_observed < u64::MAX,
        s.late_packets < u64::MAX,
        sent_ns > target_ns ==> s.total_lateness_ns + (sent_ns - target_ns) <= u64::MAX,
    ensures
        drift_consistent(drift_after(s, sent_ns, target_ns)),
{
}

/// Decimal digit character.
pub open spec fn digit_char(d: nat) -> char {
    ((d + 48) as u32) as char
}

/// Decimal text of `n`, without leading zeros.
pub open spec fn decimal_text(n: nat) -> Seq<char>
    decreases n,
{
    if n < 10 {
        seq![digit_char(n)]
    } else {
        decimal_text(n / 10).push(digit_char(n % 10))
    }
}

/// Append the decimal text of `n`.
pub fn push_decimal(out: &mut Vec<char>, n: u64)
    ensures
        final(out)@ == old(out)@ + decimal_text(n as nat),
    decreases n,
{
    if n >= 10 {
        push_decimal(out, n / 10);
    }
    let d = (n % 10) as u32;
    let c = char_of_digit(d);
    out.push(c);
    assert(decimal_text(n as nat) == if n < 10 {
        seq![digit_char(n as nat)]
    } else {
        decimal_text((n / 10) as nat).push(digit_char((n % 10) as nat))
    });
}

fn char_of_digit(d: u32) -> (c: char)
    requires
        d < 10,
    ensures
        c == digit_char(d as nat),
{
    if d == 0 {
        '0'
    } else if d == 1 {
        '1'
    } else if d == 2 {
        '2'
    } else if d == 3 {
        '3'
    } else if d == 4 {
        '4'
    } else if d == 5 {
        '5'
    } else if d == 6 {
        '6'
    } else if d == 7 {
        '7'
    } else if d == 8 {
        '8'
    } else {
        '9'
    }
}

/// Upper-case hexadecimal digit.
pub open spec fn hex_char(d: u8) -> char {
    if d < 10 {
        ((d + 48) as u32) as char
    } else {
        ((d + 55) as u32) as char
    }
}

fn hex_char_exec(d: u8) -> (c: char)
    requires
        d < 16,
    ensures
        c == hex_char(d),
{
    let digits = ['0', '1', '2', '3', '4', '5', '6', '7', '8', '9', 'A', 'B', 'C', 'D', 'E', 'F'];
    let c = digits[d as usize];
    assert(c == hex_char(d)) by {
        assert(digits@[d as int] == c);
        assert(d == 0 || d == 1 || d == 2 || d == 3 || d == 4 || d == 5 || d == 6 || d == 7 || d == 8
            || d == 9 || d == 10 || d == 11 || d == 12 || d == 13 || d == 14 || d == 15);
    }
    c
}

/// Text of eight identity bytes: two upper-case hex digits each, joined by `-`.
pub open spec fn identity_text(b: Seq<u8>) -> Seq<char> {
    seq![
        hex_char(b[0] >> 4u8), hex_char(b[0] & 15u8), '-',
        hex_char(b[1] >> 4u8), hex_char(b[1] & 15u8), '-',
        hex_char(b[2] >> 4u8), hex_char(b[2] & 15u8), '-',
        hex_char(b[3] >> 4u8), hex_char(b[3] & 15u8), '-',
        hex_char(b[4] >> 4u8), hex_char(b[4] & 15u8), '-',
        hex_char(b[5] >> 4u8), hex_char(b[5] & 15u8), '-',
        hex_char(b[6] >> 4u8), hex_char(b[6] & 15u8), '-',
        hex_char(b[7] >> 4u8), hex_char(b[7] & 15u8)
    ]
}

/// Append the text of a clock identity (`00-1D-C1-FF-FE-12-34-56`).
pub fn push_identity(out: &mut Vec<char>, id: ClockIdentity)
    ensures
        final(out)@ == old(out)@ + identity_text(crate::ptp_messages::identity_bytes(id.value)),
{
    let b = id.as_bytes();
    let ghost start = out@;
    let mut k: usize = 0;
    while k < 8
        invariant
            k <= 8,
            b@ == crate::ptp_messages::identity_bytes(id.value),
            out@ == start + identity_text(b@).take(if k == 0 { 0 } else { 3 * k - 1 }),
        decreases 8 - k,
    {
        let x = b[k];
        assert((x >> 4u8) < 16 && (x & 15u8) < 16) by (bit_vector);
        if k > 0 {
            out.push('-');
        }
        let hi = hex_char_exec(x >> 4u8);
        let lo = hex_char_exec(x & 15u8);
        out.push(hi);
        out.push(lo);
        proof {
            let t = identity_text(b@);
            let before = if k == 0 { 0int } else { 3 * k - 1 };
            if k > 0 {
                assert(t[before] == '-');
            }
            assert(t[3 * k as int] == hi);
            assert(t[3 * k + 1] == lo);
            assert(out@ =~= start + t.take(3 * (k + 1) - 1));
        }
        k = k + 1;
    }
    assert(identity_text(b@).take(23) =~= identity_text(b@));
}

/// Append the characters of `s`.
pub fn push_chars(out: &mut Vec<char>, s: &[char])
    ensures
        final(out)@ == old(out)@ + s@,
{
    let ghost start = out@;
    let mut i: usize = 0;
    while i < s.len()
        invariant
            i <= s@.len(),
            out@ == start + s@.take(i as int),
        decreases s@.len() - i,
    {
        out.push(s[i]);
        assert(s@.take(i + 1) =~= s@.take(i as int).push(s@[i as int]));
        i = i + 1;
    }
    assert(s@.take(s@.len() as int) =~= s@);
}

/// Text of an IPv4 address.
pub open spec fn ipv4_text(a: Seq<u8>) -> Seq<char> {
    decimal_text(a[0] as nat) + seq!['.'] + decimal_text(a[1] as nat) + seq!['.'] + decimal_text(
        a[2] as nat,
    ) + seq!['.'] + decimal_text(a[3] as nat)
}

/// Append the text of an IPv4 address.
pub fn push_ipv4(out: &mut Vec<char>, a: [u8; 4])
    ensures
        final(out)@ == old(out)@ + ipv4_text(a@),
{
    let ghost start = out@;
    push_decimal(out, a[0] as u64);
    out.push('.');
    push_decimal(out, a[1] as u64);
    out.push('.');
    push_decimal(out, a[2] as u64);
    out.push('.');
    push_decimal(out, a[3] as u64);
    assert(out@ =~= start + ipv4_text(a@));
}

/// The characters `v=0\r\no=- 123456 123456 IN IP4 `.
pub open spec fn sdp_head() -> Seq<char> {
    seq!['v', '=', '0', '\r', '\n', 'o', '=', '-', ' ', '1', '2', '3', '4', '5', '6', ' ', '1', '2', '3', '4', '5', '6', ' ', 'I', 'N', ' ', 'I', 'P', '4', ' ']
}

/// The characters `\r\ns=`.
pub open spec fn sdp_name() -> Seq<char> {
    seq!['\r', '\n', 's', '=']
}

/// The characters `\r\nc=IN IP4 `.
pub open spec fn sdp_conn() -> Seq<char> {
    seq!['\r', '\n', 'c', '=', 'I', 'N', ' ', 'I', 'P', '4', ' ']
}

/// The characters `\r\nt=0 0\r\nm=audio `.
pub open spec fn sdp_media() -> Seq<char> {
    seq!['\r', '\n', 't', '=', '0', ' ', '0', '\r', '\n', 'm', '=', 'a', 'u', 'd', 'i', 'o', ' ']
}

/// The characters ` RTP/AVP `.
pub open spec fn sdp_avp() -> Seq<char> {
    seq![' ', 'R', 'T', 'P', '/', 'A', 'V', 'P', ' ']
}

/// The characters `\r\na=rtpmap:`.
pub open spec fn sdp_rtpmap() -> Seq<char> {
    seq!['\r', '\n', 'a', '=', 'r', 't', 'p', 'm', 'a', 'p', ':']
}

/// The characters ` L24/`.
pub open spec fn sdp_l24() -> Seq<char> {
    seq![' ', 'L', '2', '4', '/']
}

/// The characters `\r\na=ptime:`.
pub open spec fn sdp_ptime() -> Seq<char> {
    seq!['\r', '\n', 'a', '=', 'p', 't', 'i', 'm', 'e', ':']
}

/// The characters `\r\na=ts-refclk:ptp=IEEE1588-2008:`.
pub open spec fn sdp_refclk() -> Seq<char> {
    seq!['\r', '\n', 'a', '=', 't', 's', '-', 'r', 'e', 'f', 'c', 'l', 'k', ':', 'p', 't', 'p', '=', 'I', 'E', 'E', 'E', '1', '5', '8', '8', '-', '2', '0', '0', '8', ':']
}

/// The characters `\r\na=mediaclk:direct=0\r\n`.
pub open spec fn sdp_tail() -> Seq<char> {
    seq!['\r', '\n', 'a', '=', 'm', 'e', 'd', 'i', 'a', 'c', 'l', 'k', ':', 'd', 'i', 'r', 'e', 'c', 't', '=', '0', '\r', '\n']
}

/// Addresses and channel count that the SDP of a stream names.
#[derive(Debug, Clone, Copy, PartialEq, Eq)]
pub struct SdpContext {
    pub local_ip: [u8; 4],
    pub multicast_ip: [u8; 4],
    pub port: u16,
    pub audio_channels: u32,
}

/// Stream settings of the streamer (the gain is applied to samples outside this library).
#[derive(Debug, Clone)]
pub struct StreamConfig {
    /// Sample rate of the stream; the release supports 48 kHz.
    pub target_sample_rate: u32,
    /// Packet time in milliseconds.
    pub packet_time_ms: u32,
    /// PTP domain (0 for AES67).
    pub ptp_domain: u8,
    pub verbose: bool,
    /// Optional maximum stream duration.
    pub duration: Option<std::time::Duration>,
    pub loop_playback: bool,
    pub ttl: u8,
    pub sap: bool,
    pub payload_type: u8,
    pub ssrc: Option<u32>,
    pub session_name: String,
}

impl Default for StreamConfig {
    fn default() -> (c: Self)
        ensures
            c.target_sample_rate == 48000,
            c.packet_time_ms == 1,
            c.ptp_domain == 0,
            !c.verbose,
            c.duration.is_none(),
            !c.loop_playback,
            c.ttl == 32,
            c.sap,
            c.payload_type == 97,
            c.ssrc.is_none(),
            c.session_name@ == seq!['A', 'E', 'S', '6', '7', ' ', 'S', 't', 'r', 'e', 'a', 'm'],
    {
        let name = ['A', 'E', 'S', '6', '7', ' ', 'S', 't', 'r', 'e', 'a', 'm'];
        StreamConfig {
            target_sample_rate: 48000,
            packet_time_ms: 1,
            ptp_domain: 0,
            verbose: false,
            duration: None,
            loop_playback: false,
            ttl: 32,
            sap: true,
            payload_type: 97,
            ssrc: None,
            session_name: string_from_chars(&name),
        }
    }
}

/// The SDP that announces a stream: origin and connection addresses, session name, TTL,
/// port, payload type, L24 at the stream rate with the channel count, packet time and
/// the PTP reference clock with its domain.
pub open spec fn sdp_text(ctx: SdpContext, id: ClockIdentity, name: Seq<char>, ttl: u8, payload_type: u8, sample_rate: u32, packet_time_ms: u32, domain: u8) -> Seq<char> {
    sdp_head() + ipv4_text(ctx.local_ip@) + sdp_name() + name + sdp_conn() + ipv4_text(
        ctx.multicast_ip@,
    ) + seq!['/'] + decimal_text(ttl as nat) + sdp_media() + decimal_text(ctx.port as nat)
        + sdp_avp() + decimal_text(payload_type as nat) + sdp_rtpmap() + decimal_text(
        payload_type as nat,
    ) + sdp_l24() + decimal_text(sample_rate as nat) + seq!['/'] + decimal_text(
        ctx.audio_channels as nat,
    ) + sdp_ptime() + decimal_text(packet_time_ms as nat) + sdp_refclk() + identity_text(
        crate::ptp_messages::identity_bytes(id.value),
    ) + seq![':'] + decimal_text(domain as nat) + sdp_tail()
}

/// The SDP of a stream for the reference clock `clock_identity`.
pub fn build_sdp(context: &SdpContext, clock_identity: ClockIdentity, config: &StreamConfig) -> (sdp: String)
    ensures
        sdp@ == sdp_text(*context, clock_identity, config.session_name@, config.ttl, config.payload_type, config.target_sample_rate, config.packet_time_ms, config.ptp_domain),
{
    let mut out: Vec<char> = Vec::new();
    let lit_sdp_head = ['v', '=', '0', '\r', '\n', 'o', '=', '-', ' ', '1', '2', '3', '4', '5', '6', ' ', '1', '2', '3', '4', '5', '6', ' ', 'I', 'N', ' ', 'I', 'P', '4', ' '];
    assert(lit_sdp_head@ =~= sdp_head());
    push_chars(&mut out, &lit_sdp_head);
    push_ipv4(&mut out, context.local_ip);
    let lit_sdp_name = ['\r', '\n', 's', '='];
    assert(lit_sdp_name@ =~= sdp_name());
    push_chars(&mut out, &lit_sdp_name);
    let name = crate::sdp::chars_of(config.session_name.as_str());
    push_chars(&mut out, name.as_slice());
    let lit_sdp_conn = ['\r', '\n', 'c', '=', 'I', 'N', ' ', 'I', 'P', '4', ' '];
    assert(lit_sdp_conn@ =~= sdp_conn());
    push_chars(&mut out, &lit_sdp_conn);
    push_ipv4(&mut out, context.multicast_ip);
    out.push('/');
    push_decimal(&mut out, config.ttl as u64);
    let lit_sdp_media = ['\r', '\n', 't', '=', '0', ' ', '0', '\r', '\n', 'm', '=', 'a', 'u', 'd', 'i', 'o', ' '];
    assert(lit_sdp_media@ =~= sdp_media());
    push_chars(&mut out, &lit_sdp_media);
    push_decimal(&mut out, context.port as u64);
    let lit_sdp_avp = [' ', 'R', 'T', 'P', '/', 'A', 'V', 'P', ' '];
    assert(lit_sdp_avp@ =~= sdp_avp());
    push_chars(&mut out, &lit_sdp_avp);
    push_decimal(&mut out, config.payload_type as u64);
    let lit_sdp_rtpmap = ['\r', '\n', 'a', '=', 'r', 't', 'p', 'm', 'a', 'p', ':'];
    assert(lit_sdp_rtpmap@ =~= sdp_rtpmap());
    push_chars(&mut out, &lit_sdp_rtpmap);
    push_decimal(&mut out, config.payload_type as u64);
    let lit_sdp_l24 = [' ', 'L', '2', '4', '/'];
    assert(lit_sdp_l24@ =~= sdp_l24());
    push_chars(&mut out, &lit_sdp_l24);
    push_decimal(&mut out, config.target_sample_rate as u64);
    out.push('/');
    push_decimal(&mut out, context.audio_channels as u64);
    let lit_sdp_ptime = ['\r', '\n', 'a', '=', 'p', 't', 'i', 'm', 'e', ':'];
    assert(lit_sdp_ptime@ =~= sdp_ptime());
    push_chars(&mut out, &lit_sdp_ptime);
    push_decimal(&mut out, config.packet_time_ms as u64);
    let lit_sdp_refclk = ['\r', '\n', 'a', '=', 't', 's', '-', 'r', 'e', 'f', 'c', 'l', 'k', ':', 'p', 't', 'p', '=', 'I', 'E', 'E', 'E', '1', '5', '8', '8', '-', '2', '0', '0', '8', ':'];
    assert(lit_sdp_refclk@ =~= sdp_refclk());
    push_chars(&mut out, &lit_sdp_refclk);
    push_identity(&mut out, clock_identity);
    out.push(':');
    push_decimal(&mut out, config.ptp_domain as u64);
    let lit_sdp_tail = ['\r', '\n', 'a', '=', 'm', 'e', 'd', 'i', 'a', 'c', 'l', 'k', ':', 'd', 'i', 'r', 'e', 'c', 't', '=', '0', '\r', '\n'];
    assert(lit_sdp_tail@ =~= sdp_tail());
    push_chars(&mut out, &lit_sdp_tail);
    assert(out@ =~= sdp_text(*context, clock_identity, config.session_name@, config.ttl, config.payload_type, config.target_sample_rate, config.packet_time_ms, config.ptp_domain));
    string_from_chars(out.as_slice())
}

/// When the reference clock changed, take the new one and return the SDP for it;
/// otherwise return nothing.
pub fn refresh_sdp_for_clock_identity(
    current_identity: &mut ClockIdentity,
    next_identity: ClockIdentity,
    context: &SdpContext,
    config: &StreamConfig,
) -> (r: Option<String>)
    ensures
        *final(current_identity) == next_identity,
        old(current_identity).value == next_identity.value ==> r.is_none(),
        old(current_identity).value != next_identity.value ==> (r matches Some(s) && s@ == sdp_text(*context, next_identity, config.session_name@, config.ttl, config.payload_type, config.target_sample_rate, config.packet_time_ms, config.ptp_domain)),
{
    if current_identity.value == next_identity.value {
        return None;
    }
    *current_identity = next_identity;
    Some(build_sdp(context, next_identity, config))
}

/// Configuration of the threaded audio pipeline.
#[derive(Debug, Clone, Copy, PartialEq, Eq, Structural)]
pub struct PipelineConfig {
    /// Target sample rate for streaming.
    pub target_sample_rate: u32,
    /// Audio buffer size in frames per channel.
    pub audio_buffer_frames: usize,
    /// RTP packet queue size.
    pub rtp_queue_size: usize,
    /// Network thread priority (0-3, 3 highest).
    pub network_priority: u8,
    /// Audio thread priority (0-3, 3 highest).
    pub audio_priority: u8,
    pub verbose: bool,
}

impl Default for PipelineConfig {
    fn default() -> (c: Self)
        ensures
            c == (PipelineConfig {
                target_sample_rate: 48000,
                audio_buffer_frames: 1024,
                rtp_queue_size: 128,
                network_priority: 3,
                audio_priority: 3,
                verbose: false,
            }),
    {
        PipelineConfig {
            target_sample_rate: 48000,
            audio_buffer_frames: 1024,
            rtp_queue_size: 128,
            network_priority: 3,
            audio_priority: 3,
            verbose: false,
        }
    }
}

/// Bytes of one RTP packet: the 12-byte header and an L24 payload.
pub fn rtp_packet_capacity(samples_per_packet: usize, channels: u32) -> (n: usize)
    requires
        12 + samples_per_packet * channels * 3 <= usize::MAX,
    ensures
        n == 12 + samples_per_packet * channels * 3,
{
    assert(samples_per_packet * channels <= samples_per_packet * channels * 3) by (nonlinear_arith);
    12 + samples_per_packet * channels as usize * L24_SAMPLE_BYTES
}

/// Seconds between checks for a changed PTP reference.
pub const SDP_REFRESH_INTERVAL_NS: u64 = 10_000_000_000;

/// Send pacing of the streamer: packet `n` is due `n` packet times after the start.
#[derive(Debug, Clone, Copy, PartialEq, Eq, Structural)]
pub struct SendSchedule {
    pub start_ns: u64,
    pub packet_ns: u64,
    pub packets_sent: u64,
    pub next_sdp_check_ns: u64,
    pub drift: TimingDriftStats,
}

/// What the streamer does after sending a packet.
#[derive(Debug, Clone, Copy, PartialEq, Eq, Structural)]
pub struct AfterSend {
    /// Sleep this long before the next packet.
    pub wait_ns: Option<u64>,
    /// Check whether the PTP reference changed (and refresh the SDP).
    pub check_sdp: bool,
    /// Warn that sending is this many milliseconds behind (every 1000th packet, when
    /// more than one packet time late).
    pub behind_ms: Option<u64>,
}

/// What to do at the end of the audio file.
#[derive(Debug, Clone, Copy, PartialEq, Eq, Structural)]
pub enum EndOfAudio {
    /// Start the file again.
    Rewind,
    /// Stop; looping was asked for but the file is shorter than one packet.
    StopTooShortToLoop,
    /// Stop at the end of the file.
    Stop,
}

/// At the end of the file: rewind when looping and the file holds a whole packet.
pub fn end_of_audio(loop_playback: bool, can_read_full_packet: bool) -> (e: EndOfAudio)
    ensures
        e == if loop_playback && can_read_full_packet {
            EndOfAudio::Rewind
        } else if loop_playback {
            EndOfAudio::StopTooShortToLoop
        } else {
            EndOfAudio::Stop
        },
{
    if loop_playback {
        if can_read_full_packet {
            EndOfAudio::Rewind
        } else {
            EndOfAudio::StopTooShortToLoop
        }
    } else {
        EndOfAudio::Stop
    }
}

/// The configured duration has passed at `now_ns` for a stream started at `start_ns`.
pub fn duration_reached(start_ns: u64, now_ns: u64, duration_ns: Option<u64>) -> (r: bool)
    ensures
        r == match duration_ns {
            Some(d) => now_ns >= start_ns && now_ns - start_ns >= d,
            None => false,
        },
{
    match duration_ns {
        Some(d) => now_ns >= start_ns && now_ns - start_ns >= d,
        None => false,
    }
}

/// Due time of the `n`-th packet.
pub open spec fn due_ns(s: SendSchedule, n: int) -> int {
    s.start_ns + s.packet_ns * n
}

impl SendSchedule {
    /// Pacing for a stream started at `start_ns` with packets of `packet_time_ms`.
    pub fn new(start_ns: u64, packet_time_ms: u32) -> (s: Self)
        requires
            start_ns + SDP_REFRESH_INTERVAL_NS <= u64::MAX,
        ensures
            s.start_ns == start_ns,
            s.packet_ns == packet_time_ms as int * 1_000_000,
            s.packets_sent == 0,
            s.next_sdp_check_ns == start_ns + SDP_REFRESH_INTERVAL_NS,
            s.drift == TimingDriftStats::default_spec(),
    {
        SendSchedule {
            start_ns,
            packet_ns: packet_time_ms as u64 * 1_000_000,
            packets_sent: 0,
            next_sdp_check_ns: start_ns + SDP_REFRESH_INTERVAL_NS,
            drift: TimingDriftStats { packets_observed: 0, late_packets: 0, total_lateness_ns: 0, max_lateness_ns: 0 },
        }
    }

    /// A packet was sent at `now_ns`: count it, record how late it was against its due
    /// time, and say how long to wait for the next one, whether to check the SDP and
    /// whether to warn about falling behind.
    pub fn packet_sent(&mut self, now_ns: u64) -> (a: AfterSend)
        requires
            old(self).packets_sent < u64::MAX,
            due_ns(*old(self), old(self).packets_sent + 1) + old(self).packet_ns <= u64::MAX,
            old(self).drift.packets_observed < u64::MAX,
            old(self).drift.late_packets < u64::MAX,
            old(self).drift.total_lateness_ns + now_ns <= u64::MAX,
            now_ns + SDP_REFRESH_INTERVAL_NS <= u64::MAX,
        ensures
            ({
                let n = old(self).packets_sent + 1;
                let target = due_ns(*old(self), n);
                &&& final(self).packets_sent == n
                &&& final(self).drift == drift_after(old(self).drift, now_ns, target as u64)
                &&& a.check_sdp == (now_ns >= old(self).next_sdp_check_ns)
                &&& final(self).next_sdp_check_ns == if a.check_sdp { now_ns + SDP_REFRESH_INTERVAL_NS } else { old(self).next_sdp_check_ns as int }
                &&& a.wait_ns == if now_ns < target { Some((target - now_ns) as u64) } else { None }
                &&& a.behind_ms == if now_ns >= target && n % 1000 == 0 && now_ns > target + old(self).packet_ns {
                    Some(((now_ns - target) / 1_000_000) as u64)
                } else {
                    None
                }
                &&& final(self).start_ns == old(self).start_ns
                &&& final(self).packet_ns == old(self).packet_ns
            }),
    {
        self.packets_sent = self.packets_sent + 1;
        let n = self.packets_sent;
        assert(self.packet_ns * n <= self.packet_ns * n + self.packet_ns) by (nonlinear_arith);
        let target = self.start_ns + self.packet_ns * n;
        let check_sdp = now_ns >= self.next_sdp_check_ns;
        if check_sdp {
            self.next_sdp_check_ns = now_ns + SDP_REFRESH_INTERVAL_NS;
        }
        self.drift.observe(now_ns, target);
        if now_ns < target {
            AfterSend { wait_ns: Some(target - now_ns), check_sdp, behind_ms: None }
        } else if n % 1000 == 0 && now_ns > target + self.packet_ns {
            AfterSend { wait_ns: None, check_sdp, behind_ms: Some((now_ns - target) / 1_000_000) }
        } else {
            AfterSend { wait_ns: None, check_sdp, behind_ms: None }
        }
    }
}

impl TimingDriftStats {
    /// The statistics with nothing observed.
    pub open spec fn default_spec() -> TimingDriftStats {
        TimingDriftStats { packets_observed: 0, late_packets: 0, total_lateness_ns: 0, max_lateness_ns: 0 }
    }
}

} // verus!
