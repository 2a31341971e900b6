//! SAP (RFC 2974) announcements of AES67 SDP payloads: the packet format, the project's
//! message hash and the registry of discovered streams.

use vstd::prelude::*;
use vstd::utf8::{decode_utf8, valid_utf8};
use crate::rtp::be_u16;
use crate::sdp::{
    Aes67SessionDescription, SessionView, chars_of, copy_opt_string, describes, opt_session_view,
    opt_text, parse_sdp, same_opt_string, sdp_outcome,
};
use crate::text::{
    chars_before, chars_less, find_byte, first_index, lemma_chars_less_irreflexive,
    lemma_chars_less_total, lemma_chars_less_transitive, starts_with,
};

verus! {

/// UDP port of SAP announcements.
pub const SAP_PORT: u16 = 9875;

/// SAP version that this implementation reads and writes.
pub const SAP_VERSION: u8 = 1;

/// DSCP marking of outgoing SAP packets (CS3).
pub const SAP_DSCP: u8 = 24;

/// Seconds between two announcements of the same SDP.
pub const SAP_ANNOUNCE_INTERVAL_SECS: u64 = 30;

/// The standard IPv4 SAP multicast group, 239.255.255.255.
pub fn sap_multicast_address() -> (a: [u8; 4])
    ensures
        a@ == seq![239u8, 255u8, 255u8, 255u8],
{
    let a = [239u8, 255u8, 255u8, 255u8];
    assert(a@ =~= seq![239u8, 255u8, 255u8, 255u8]);
    a
}

/// Identity of a SAP message: the origin source of its header and its message hash.
#[derive(Debug, Clone, Copy, PartialEq, Eq, Hash)]
pub struct SapMessageKey {
    /// IPv4 origin source from the SAP header, as four octets.
    pub origin_source: [u8; 4],
    pub message_hash: u16,
}

/// Whether a SAP message announces or withdraws a session.
#[derive(Debug, Clone, Copy, PartialEq, Eq, Structural)]
pub enum SapMessageType {
    Announcement,
    Deletion,
}

/// Reasons a datagram is not a supported SAP message.
#[derive(Debug, Clone, Copy, PartialEq, Eq, Structural)]
pub enum SapError {
    /// Shorter than the 8-byte SAP header.
    TooShort,
    /// A SAP version other than 1.
    UnsupportedVersion { version: u8 },
    /// An IPv6 origin source.
    Ipv6Origin,
    /// An encrypted payload.
    Encrypted,
    /// A compressed payload.
    Compressed,
    /// The authentication data runs past the end of the packet.
    AuthenticationTruncated,
    /// No payload after the header.
    EmptyPayload,
    /// The payload type has no terminating NUL.
    PayloadTypeNotTerminated,
    /// The payload type is not UTF-8.
    PayloadTypeNotUtf8,
    /// The payload type is blank.
    EmptyPayloadType,
    /// An `application/sdp` body that is not UTF-8.
    SdpNotUtf8,
}

/// A parsed SAP message. `sdp` holds the body of an `application/sdp` payload and
/// `session` the stream it describes, when it is a supported AES67 stream.
#[derive(Debug, Clone, PartialEq, Eq)]
pub struct SapMessage {
    pub key: SapMessageKey,
    pub message_type: SapMessageType,
    pub payload_type: Option<String>,
    pub sdp: Option<String>,
    pub session: Option<Aes67SessionDescription>,
}

/// The MIME type `application/sdp`.
pub open spec fn application_sdp() -> Seq<char> {
    seq!['a', 'p', 'p', 'l', 'i', 'c', 'a', 't', 'i', 'o', 'n', '/', 's', 'd', 'p']
}

/// The bytes of `application/sdp` followed by NUL, as a SAP payload type.
pub open spec fn application_sdp_field() -> Seq<u8> {
    seq![
        0x61u8, 0x70u8, 0x70u8, 0x6cu8, 0x69u8, 0x63u8, 0x61u8, 0x74u8, 0x69u8, 0x6fu8, 0x6eu8,
        0x2fu8, 0x73u8, 0x64u8, 0x70u8, 0x00u8,
    ]
}

/// The header error of a SAP datagram, if any.
pub open spec fn sap_header_error(p: Seq<u8>) -> Option<SapError> {
    if p.len() < 8 {
        Some(SapError::TooShort)
    } else if p[0] >> 5u8 != 1 {
        Some(SapError::UnsupportedVersion { version: p[0] >> 5u8 })
    } else if p[0] & 0x10u8 != 0 {
        Some(SapError::Ipv6Origin)
    } else if p[0] & 0x02u8 != 0 {
        Some(SapError::Encrypted)
    } else if p[0] & 0x01u8 != 0 {
        Some(SapError::Compressed)
    } else if p.len() < 8 + p[1] * 4 {
        Some(SapError::AuthenticationTruncated)
    } else if p.len() == 8 + p[1] * 4 {
        Some(SapError::EmptyPayload)
    } else {
        None
    }
}

/// The payload of a SAP datagram: what follows the header and authentication data.
pub open spec fn sap_payload(p: Seq<u8>) -> Seq<u8> {
    p.skip(8 + p[1] * 4)
}

/// The message type that the flags byte encodes.
pub open spec fn sap_message_type(flags: u8) -> SapMessageType {
    if flags & 0x04u8 == 0 {
        SapMessageType::Announcement
    } else {
        SapMessageType::Deletion
    }
}

/// The payload starts like SDP text (`v=`, `o=` or `s=`).
pub open spec fn looks_like_sdp_bytes(p: Seq<u8>) -> bool {
    p.len() >= 2 && p[1] == 0x3du8 && (p[0] == 0x76u8 || p[0] == 0x6fu8 || p[0] == 0x73u8)
}

/// Unicode White_Space, what `char::is_whitespace` tests.
pub open spec fn is_white_space(c: char) -> bool {
    ||| '\u{9}' <= c <= '\u{d}'
    ||| c == ' '
    ||| c == '\u{85}'
    ||| c == '\u{a0}'
    ||| c == '\u{1680}'
    ||| '\u{2000}' <= c <= '\u{200a}'
    ||| c == '\u{2028}'
    ||| c == '\u{2029}'
    ||| c == '\u{202f}'
    ||| c == '\u{205f}'
    ||| c == '\u{3000}'
}

/// `s` without leading white space.
pub open spec fn trim_start(s: Seq<char>) -> Seq<char>
    decreases s.len(),
{
    if s.len() > 0 && is_white_space(s[0]) {
        trim_start(s.drop_first())
    } else {
        s
    }
}

/// `s` without trailing white space.
pub open spec fn trim_end(s: Seq<char>) -> Seq<char>
    decreases s.len(),
{
    if s.len() > 0 && is_white_space(s.last()) {
        trim_end(s.drop_last())
    } else {
        s
    }
}

/// ASCII lower case of a character.
pub open spec fn ascii_lower(c: char) -> char {
    if 'A' <= c <= 'Z' {
        ((c as u32) + 32) as char
    } else {
        c
    }
}

/// `s` trimmed of white space and in ASCII lower case.
pub open spec fn normalized_type(s: Seq<char>) -> Seq<char> {
    trim_end(trim_start(s)).map_values(|c: char| ascii_lower(c))
}

/// A SAP payload split into its MIME type and body. Payloads that start like SDP are
/// `application/sdp` without a type field.
pub open spec fn split_sap_payload(p: Seq<u8>) -> Result<(Seq<char>, Seq<u8>), SapError> {
    if looks_like_sdp_bytes(p) {
        Ok((application_sdp(), p))
    } else {
        let i = first_index(p, 0u8);
        if !(0 <= i < p.len()) {
            Err(SapError::PayloadTypeNotTerminated)
        } else if !valid_utf8(p.take(i)) {
            Err(SapError::PayloadTypeNotUtf8)
        } else if normalized_type(decode_utf8(p.take(i))).len() == 0 {
            Err(SapError::EmptyPayloadType)
        } else {
            Ok((normalized_type(decode_utf8(p.take(i))), p.skip(i + 1)))
        }
    }
}

/// `o` is the stream that the SDP text `sdp` describes, or nothing when it describes
/// no supported stream.
pub open spec fn session_of(o: Option<Aes67SessionDescription>, sdp: Seq<char>) -> bool {
    match sdp_outcome(sdp) {
        Ok(f) => o matches Some(d) && describes(d, f),
        Err(_) => o.is_none(),
    }
}

/// `m` carries the header fields of the datagram `p` and the payload type `t`.
pub open spec fn sap_fields(m: SapMessage, p: Seq<u8>, t: Seq<char>) -> bool {
    &&& m.key.origin_source@ == p.subrange(4, 8)
    &&& m.key.message_hash == be_u16(p[2], p[3])
    &&& m.message_type == sap_message_type(p[0])
    &&& m.payload_type matches Some(s) && s@ == t
}

/// The outcome of parsing the datagram `p`.
pub open spec fn sap_parsed(p: Seq<u8>, r: Result<SapMessage, SapError>) -> bool {
    match sap_header_error(p) {
        Some(e) => r == Err::<SapMessage, SapError>(e),
        None => match split_sap_payload(sap_payload(p)) {
            Err(e) => r == Err::<SapMessage, SapError>(e),
            Ok((t, body)) => if t == application_sdp() {
                if valid_utf8(body) {
                    match r {
                        Ok(m) => sap_fields(m, p, t) && match m.sdp {
                            Some(s) => s@ == decode_utf8(body) && session_of(
                                m.session,
                                decode_utf8(body),
                            ),
                            None => false,
                        },
                        Err(_) => false,
                    }
                } else {
                    r == Err::<SapMessage, SapError>(SapError::SdpNotUtf8)
                }
            } else {
                match r {
                    Ok(m) => sap_fields(m, p, t) && m.sdp.is_none() && m.session.is_none(),
                    Err(_) => false,
                }
            },
        },
    }
}

/// The text of `bytes` when they are UTF-8 (std's `str::from_utf8`, which accepts
/// exactly the well-formed UTF-8 sequences and decodes them).
#[verifier::external_body]
fn utf8_text(bytes: &[u8]) -> (r: Option<&str>)
    ensures
        match r {
            Some(s) => valid_utf8(bytes@) && s@ == decode_utf8(bytes@),
            None => !valid_utf8(bytes@),
        },
{
    std::str::from_utf8(bytes).ok()
}

pub fn is_white_space_char(c: char) -> (r: bool)
    ensures
        r == is_white_space(c),
{
    ('\u{9}' <= c && c <= '\u{d}') || c == ' ' || c == '\u{85}' || c == '\u{a0}' || c
        == '\u{1680}' || ('\u{2000}' <= c && c <= '\u{200a}') || c == '\u{2028}' || c
        == '\u{2029}' || c == '\u{202f}' || c == '\u{205f}' || c == '\u{3000}'
}

/// `s` trimmed of white space and in ASCII lower case.
fn normalize_type(s: &[char]) -> (r: Vec<char>)
    ensures
        r@ == normalized_type(s@),
{
    let n = s.len();
    let mut start: usize = 0;
    assert(s@.skip(0) =~= s@);
    while start < n && is_white_space_char(s[start])
        invariant
            n == s@.len(),
            start <= n,
            trim_start(s@) == trim_start(s@.skip(start as int)),
        decreases n - start,
    {
        assert(s@.skip(start as int).drop_first() =~= s@.skip(start + 1));
        start = start + 1;
    }
    assert(trim_start(s@) == s@.skip(start as int));
    let mut end: usize = n;
    while end > start && is_white_space_char(s[end - 1])
        invariant
            n == s@.len(),
            start <= end <= n,
            trim_end(s@.skip(start as int)) == trim_end(s@.subrange(start as int, end as int)),
        decreases end,
    {
        assert(s@.subrange(start as int, end as int).drop_last() =~= s@.subrange(
            start as int,
            end - 1,
        ));
        end = end - 1;
    }
    assert(s@.skip(start as int) =~= s@.subrange(start as int, n as int));
    let ghost trimmed = s@.subrange(start as int, end as int);
    assert(trim_end(trimmed) == trimmed);
    let mut out: Vec<char> = Vec::new();
    let mut i: usize = start;
    while i < end
        invariant
            start <= i <= end <= n,
            n == s@.len(),
            trimmed == s@.subrange(start as int, end as int),
            out@ == trimmed.take(i - start).map_values(|c: char| ascii_lower(c)),
        decreases end - i,
    {
        let c = s[i];
        let l = if 'A' <= c && c <= 'Z' {
            ((c as u32) + 32) as u8 as char
        } else {
            c
        };
        proof {
            if 'A' <= c <= 'Z' {
                assert((((c as u32) + 32) as u8) as char == ((c as u32) + 32) as char);
            }
        }
        out.push(l);
        assert(trimmed.take(i + 1 - start) =~= trimmed.take(i - start).push(c));
        assert(out@ =~= trimmed.take(i + 1 - start).map_values(|c: char| ascii_lower(c)));
        i = i + 1;
    }
    assert(trimmed.take(end - start) =~= trimmed);
    out
}

fn is_application_sdp(t: &[char]) -> (r: bool)
    ensures
        r == (t@ == application_sdp()),
{
    let lit = ['a', 'p', 'p', 'l', 'i', 'c', 'a', 't', 'i', 'o', 'n', '/', 's', 'd', 'p'];
    assert(lit@ =~= application_sdp());
    if t.len() != 15 {
        return false;
    }
    let r = starts_with(t, &lit);
    assert(t@.take(15) =~= t@);
    r
}

/// Split a SAP payload into its MIME type and body. Payloads that start like SDP text
/// (`v=`, `o=`, `s=`) are `application/sdp` without a type field; otherwise the type
/// runs to the first NUL and is trimmed and lower-cased.
pub fn parse_sap_payload(payload: &[u8]) -> (r: Result<(Option<String>, &[u8]), SapError>)
    ensures
        match split_sap_payload(payload@) {
            Ok((t, b)) => match r {
                Ok((Some(s), body)) => s@ == t && body@ == b,
                _ => false,
            },
            Err(e) => r == Err::<(Option<String>, &[u8]), SapError>(e),
        },
{
    if payload.len() >= 2 && payload[1] == 0x3d && (payload[0] == 0x76 || payload[0] == 0x6f
        || payload[0] == 0x73) {
        let lit = ['a', 'p', 'p', 'l', 'i', 'c', 'a', 't', 'i', 'o', 'n', '/', 's', 'd', 'p'];
        assert(lit@ =~= application_sdp());
        return Ok((Some(crate::text::string_from_chars(&lit)), payload));
    }
    let separator = match find_byte(payload, 0) {
        Some(i) => i,
        None => return Err(SapError::PayloadTypeNotTerminated),
    };
    let head = vstd::slice::slice_subrange(payload, 0, separator);
    assert(head@ =~= payload@.take(separator as int));
    let text = match utf8_text(head) {
        Some(t) => t,
        None => return Err(SapError::PayloadTypeNotUtf8),
    };
    let chars = chars_of(text);
    let payload_type = normalize_type(chars.as_slice());
    if payload_type.len() == 0 {
        return Err(SapError::EmptyPayloadType);
    }
    let body = vstd::slice::slice_subrange(payload, separator + 1, payload.len());
    assert(body@ =~= payload@.skip(separator + 1));
    Ok((Some(crate::text::string_from_chars(payload_type.as_slice())), body))
}

/// Parse a SAP datagram: version 1, IPv4 origin, neither encrypted nor compressed. The
/// body of an `application/sdp` payload is kept as text and read as an AES67 session;
/// an SDP that is not a supported stream leaves `session` empty.
pub fn parse_sap_packet(packet: &[u8]) -> (r: Result<SapMessage, SapError>)
    ensures
        sap_parsed(packet@, r),
{
    if packet.len() < 8 {
        return Err(SapError::TooShort);
    }
    let flags = packet[0];
    let version = flags >> 5u8;
    if version != SAP_VERSION {
        return Err(SapError::UnsupportedVersion { version });
    }
    if flags & 0x10 != 0 {
        return Err(SapError::Ipv6Origin);
    }
    if flags & 0x02 != 0 {
        return Err(SapError::Encrypted);
    }
    if flags & 0x01 != 0 {
        return Err(SapError::Compressed);
    }
    let auth_len_bytes = packet[1] as usize * 4;
    let message_hash = ((packet[2] as u16) << 8u16) | (packet[3] as u16);
    let origin_source = [packet[4], packet[5], packet[6], packet[7]];
    assert(origin_source@ =~= packet@.subrange(4, 8));
    let payload_start = 8 + auth_len_bytes;
    if packet.len() < payload_start {
        return Err(SapError::AuthenticationTruncated);
    }
    let payload = vstd::slice::slice_subrange(packet, payload_start, packet.len());
    assert(payload@ =~= sap_payload(packet@));
    if payload.len() == 0 {
        return Err(SapError::EmptyPayload);
    }
    let (payload_type, body) = match parse_sap_payload(payload) {
        Ok(x) => x,
        Err(e) => return Err(e),
    };
    let is_sdp = match &payload_type {
        Some(t) => {
            let tc = chars_of(t.as_str());
            is_application_sdp(tc.as_slice())
        },
        None => false,
    };
    let message_type = if flags & 0x04 == 0 {
        SapMessageType::Announcement
    } else {
        SapMessageType::Deletion
    };
    let key = SapMessageKey { origin_source, message_hash };
    if is_sdp {
        let text = match utf8_text(body) {
            Some(t) => t,
            None => return Err(SapError::SdpNotUtf8),
        };
        let session = match parse_sdp(text) {
            Ok(d) => Some(d),
            Err(_) => None,
        };
        Ok(
            SapMessage {
                key,
                message_type,
                payload_type,
                sdp: Some(text.to_owned()),
                session,
            },
        )
    } else {
        Ok(SapMessage { key, message_type, payload_type, sdp: None, session: None })
    }
}

/// One step of the FNV-1a style fold: xor in a byte, multiply by the FNV prime.
pub open spec fn fnv_step(h: u32, b: u8) -> u32 {
    (h ^ (b as u32)).wrapping_mul(0x0100_0193u32)
}

/// The fold of `bytes` into `h`, first byte first.
pub open spec fn fnv_fold(h: u32, bytes: Seq<u8>) -> u32
    decreases bytes.len(),
{
    if bytes.len() == 0 {
        h
    } else {
        fnv_fold(fnv_step(h, bytes[0]), bytes.drop_first())
    }
}

/// The message hash of an SDP payload (as UTF-8 bytes) announced from `origin`: the fold
/// of the origin octets and payload bytes from the FNV offset basis, its two halves
/// xored, with 0 replaced by 1.
pub open spec fn sap_hash(origin: Seq<u8>, sdp_bytes: Seq<u8>) -> u16 {
    let h = fnv_fold(0x811c_9dc5u32, origin + sdp_bytes);
    let folded = ((h >> 16u32) as u16) ^ (h as u16);
    if folded == 0 {
        1
    } else {
        folded
    }
}

/// The SAP announcement of `sdp` from `origin`: version 1, IPv4, no authentication, the
/// message hash, the origin, `application/sdp` and the SDP bytes.
pub open spec fn sap_packet_bytes(origin: Seq<u8>, sdp: Seq<char>) -> Seq<u8> {
    let h = sap_hash(origin, vstd::utf8::encode_utf8(sdp));
    seq![0x20u8, 0x00u8, (h >> 8u16) as u8, h as u8] + origin + application_sdp_field()
        + vstd::utf8::encode_utf8(sdp)
}

/// The message hash this announcer gives an SDP payload sent from `origin_source`; it is
/// never 0.
pub fn sap_message_hash(sdp_payload: &str, origin_source: [u8; 4]) -> (h: u16)
    ensures
        h == sap_hash(origin_source@, vstd::utf8::encode_utf8(sdp_payload@)),
        h != 0,
{
    let bytes = sdp_payload.as_bytes();
    let mut all: Vec<u8> = Vec::new();
    all.push(origin_source[0]);
    all.push(origin_source[1]);
    all.push(origin_source[2]);
    all.push(origin_source[3]);
    let mut k: usize = 0;
    while k < bytes.len()
        invariant
            k <= bytes@.len(),
            all@ == origin_source@ + bytes@.take(k as int),
        decreases bytes@.len() - k,
    {
        all.push(bytes[k]);
        assert(bytes@.take(k + 1) =~= bytes@.take(k as int).push(bytes@[k as int]));
        k = k + 1;
    }
    assert(bytes@.take(bytes@.len() as int) =~= bytes@);
    let ghost everything = all@;
    let mut hash: u32 = 0x811c_9dc5;
    let mut i: usize = 0;
    assert(everything.skip(0) =~= everything);
    while i < all.len()
        invariant
            everything == all@,
            i <= everything.len(),
            fnv_fold(hash, everything.skip(i as int)) == fnv_fold(0x811c_9dc5u32, everything),
        decreases everything.len() - i,
    {
        assert(everything.skip(i as int).drop_first() =~= everything.skip(i + 1));
        hash = (hash ^ (all[i] as u32)).wrapping_mul(0x0100_0193u32);
        i = i + 1;
    }
    assert(everything.skip(i as int) =~= Seq::<u8>::empty());
    let folded = ((hash >> 16u32) as u16) ^ (hash as u16);
    if folded == 0 {
        1
    } else {
        folded
    }
}

/// The SAP announcement of `sdp_payload` from `origin_source`.
pub fn build_sap_packet(sdp_payload: &str, origin_source: [u8; 4]) -> (packet: Vec<u8>)
    ensures
        packet@ == sap_packet_bytes(origin_source@, sdp_payload@),
{
    let message_hash = sap_message_hash(sdp_payload, origin_source);
    let mut packet: Vec<u8> = Vec::new();
    packet.push(0x20);
    packet.push(0x00);
    packet.push((message_hash >> 8u16) as u8);
    packet.push(message_hash as u8);
    packet.push(origin_source[0]);
    packet.push(origin_source[1]);
    packet.push(origin_source[2]);
    packet.push(origin_source[3]);
    let field: [u8; 16] = [
        0x61, 0x70, 0x70, 0x6c, 0x69, 0x63, 0x61, 0x74, 0x69, 0x6f, 0x6e, 0x2f, 0x73, 0x64, 0x70, 0x00,
    ];
    assert(field@ =~= application_sdp_field());
    let ghost head = packet@;
    let mut k: usize = 0;
    while k < 16
        invariant
            k <= 16,
            packet@ == head + field@.take(k as int),
        decreases 16 - k,
    {
        packet.push(field[k]);
        assert(field@.take(k + 1) =~= field@.take(k as int).push(field@[k as int]));
        k = k + 1;
    }
    assert(field@.take(16) =~= field@);
    let bytes = sdp_payload.as_bytes();
    let ghost mid = packet@;
    let mut j: usize = 0;
    while j < bytes.len()
        invariant
            j <= bytes@.len(),
            packet@ == mid + bytes@.take(j as int),
        decreases bytes@.len() - j,
    {
        packet.push(bytes[j]);
        assert(bytes@.take(j + 1) =~= bytes@.take(j as int).push(bytes@[j as int]));
        j = j + 1;
    }
    assert(bytes@.take(bytes@.len() as int) =~= bytes@);
    assert(packet@ =~= sap_packet_bytes(origin_source@, sdp_payload@));
    packet
}

/// Parsing the announcement that `build_sap_packet` makes gives back its origin, hash
/// and SDP text, as an `application/sdp` announcement.
pub proof fn lemma_sap_announcement_roundtrip(
    origin: Seq<u8>,
    sdp: Seq<char>,
    r: Result<SapMessage, SapError>,
)
    requires
        origin.len() == 4,
        sap_parsed(sap_packet_bytes(origin, sdp), r),
    ensures
        match r {
            Ok(m) => {
                &&& m.key.origin_source@ == origin
                &&& m.key.message_hash == sap_hash(origin, vstd::utf8::encode_utf8(sdp))
                &&& m.message_type == SapMessageType::Announcement
                &&& m.payload_type matches Some(t) && t@ == application_sdp()
                &&& m.sdp matches Some(s) && s@ == sdp
                &&& session_of(m.session, sdp)
            },
            Err(_) => false,
        },
{
    let enc = vstd::utf8::encode_utf8(sdp);
    let h = sap_hash(origin, enc);
    let p = sap_packet_bytes(origin, sdp);
    let field = application_sdp_field();
    assert(p.len() == 24 + enc.len());
    assert(p[0] == 0x20u8 && p[1] == 0u8);
    assert((0x20u8 >> 5u8) == 1u8 && (0x20u8 & 0x10u8) == 0u8 && (0x20u8 & 0x02u8) == 0u8
        && (0x20u8 & 0x01u8) == 0u8 && (0x20u8 & 0x04u8) == 0u8) by (bit_vector);
    assert(sap_header_error(p).is_none());
    let payload = sap_payload(p);
    assert(payload =~= field + enc);
    assert(!looks_like_sdp_bytes(payload));
    assert(payload[15] == 0u8);
    assert forall|j: int| 0 <= j < 15 implies payload[j] != 0u8 by {
        assert(payload[j] == field[j]);
    }
    crate::text::lemma_first_index(payload, 0u8, 15);
    let head = payload.take(15);
    assert(head =~= field.take(15));
    assert(vstd::utf8::encode_utf8(application_sdp()) =~= field.take(15)) by {
        let a = application_sdp();
        assert(vstd::utf8::is_ascii_chars(a));
        vstd::utf8::is_ascii_chars_encode_utf8(a);
        assert forall|i: int| 0 <= i < 15 implies a[i] as u8 == field[i] by {
            assert(a[0] as u8 == 0x61u8 && a[1] as u8 == 0x70u8 && a[2] as u8 == 0x70u8);
            assert(a[3] as u8 == 0x6cu8 && a[4] as u8 == 0x69u8 && a[5] as u8 == 0x63u8);
            assert(a[6] as u8 == 0x61u8 && a[7] as u8 == 0x74u8 && a[8] as u8 == 0x69u8);
            assert(a[9] as u8 == 0x6fu8 && a[10] as u8 == 0x6eu8 && a[11] as u8 == 0x2fu8);
            assert(a[12] as u8 == 0x73u8 && a[13] as u8 == 0x64u8 && a[14] as u8 == 0x70u8);
        }
    }
    vstd::utf8::encode_utf8_valid_utf8(application_sdp());
    vstd::utf8::encode_utf8_decode_utf8(application_sdp());
    let t = decode_utf8(head);
    assert(t == application_sdp());
    assert(trim_start(t) == t);
    assert(trim_end(t) == t);
    assert(normalized_type(t) =~= t);
    assert(payload.skip(16) =~= enc);
    vstd::utf8::encode_utf8_valid_utf8(sdp);
    vstd::utf8::encode_utf8_decode_utf8(sdp);
    assert(p.subrange(4, 8) =~= origin);
    assert(be_u16(p[2], p[3]) == h) by {
        assert(p[2] == (h >> 8u16) as u8 && p[3] == h as u8);
        assert(((((h >> 8u16) as u8) as u16) << 8u16) | ((h as u8) as u16) == h) by (bit_vector);
    }
}

/// UDP source address of a datagram.
#[derive(Debug, Clone, Copy, PartialEq, Eq)]
pub struct SourceAddress {
    pub ip: [u8; 4],
    pub port: u16,
}

/// A stream the registry knows, with its latest message and when it was first and last
/// heard (monotonic nanoseconds).
#[derive(Debug)]
pub struct SapStream {
    pub key: SapMessageKey,
    pub message: SapMessage,
    pub source: SourceAddress,
    pub first_seen_ns: u64,
    pub last_seen_ns: u64,
}

/// A change in the registry.
#[derive(Debug)]
pub enum SapRegistryEvent {
    /// A stream not seen before.
    Added(SapStream),
    /// A known stream whose SDP, session, payload type or source changed.
    Updated(SapStream),
    /// A known stream withdrawn by a deletion message.
    Removed(SapStream),
    /// A known stream not refreshed within the expiry time.
    Expired(SapStream),
}

/// Registry key: origin octets and message hash.
pub type KeyView = (Seq<u8>, u16);

/// The view of a key.
pub open spec fn key_view(k: SapMessageKey) -> KeyView {
    (k.origin_source@, k.message_hash)
}

/// A message with its strings taken by their views.
pub struct MessageView {
    pub key: KeyView,
    pub message_type: SapMessageType,
    pub payload_type: Option<Seq<char>>,
    pub sdp: Option<Seq<char>>,
    pub session: Option<SessionView>,
}

/// The view of a message.
pub open spec fn message_view(m: SapMessage) -> MessageView {
    MessageView {
        key: key_view(m.key),
        message_type: m.message_type,
        payload_type: opt_text(m.payload_type),
        sdp: opt_text(m.sdp),
        session: opt_session_view(m.session),
    }
}

/// A stream with its message and addresses taken by their views.
pub struct StreamView {
    pub key: KeyView,
    pub message: MessageView,
    pub source: (Seq<u8>, u16),
    pub first_seen_ns: u64,
    pub last_seen_ns: u64,
}

/// The view of a source address.
pub open spec fn source_view(a: SourceAddress) -> (Seq<u8>, u16) {
    (a.ip@, a.port)
}

/// The view of a stream.
pub open spec fn stream_view(s: SapStream) -> StreamView {
    StreamView {
        key: key_view(s.key),
        message: message_view(s.message),
        source: source_view(s.source),
        first_seen_ns: s.first_seen_ns,
        last_seen_ns: s.last_seen_ns,
    }
}

/// Kind of a registry event.
#[derive(Debug, Clone, Copy, PartialEq, Eq, Structural)]
pub enum SapEventKind {
    Added,
    Updated,
    Removed,
    Expired,
}

/// The kind and stream of an event.
pub open spec fn event_view(e: SapRegistryEvent) -> (SapEventKind, StreamView) {
    match e {
        SapRegistryEvent::Added(s) => (SapEventKind::Added, stream_view(s)),
        SapRegistryEvent::Updated(s) => (SapEventKind::Updated, stream_view(s)),
        SapRegistryEvent::Removed(s) => (SapEventKind::Removed, stream_view(s)),
        SapRegistryEvent::Expired(s) => (SapEventKind::Expired, stream_view(s)),
    }
}

/// A known stream `e` changes when a message `m` from `src` carries another SDP,
/// session, payload type or source.
pub open spec fn stream_changes(e: StreamView, m: MessageView, src: (Seq<u8>, u16)) -> bool {
    e.message.sdp != m.sdp || e.message.session != m.session || e.message.payload_type
        != m.payload_type || e.source != src
}

/// The registry after a message `m` from `src` at `now_ns`, with the event it reports.
pub open spec fn registry_after(
    reg: Map<KeyView, StreamView>,
    m: MessageView,
    src: (Seq<u8>, u16),
    now_ns: u64,
) -> (Map<KeyView, StreamView>, Option<(SapEventKind, StreamView)>) {
    let k = m.key;
    if m.message_type == SapMessageType::Deletion {
        if reg.contains_key(k) {
            (reg.remove(k), Some((SapEventKind::Removed, reg[k])))
        } else {
            (reg, None)
        }
    } else if m.session.is_none() {
        (reg, None)
    } else if reg.contains_key(k) {
        let e = reg[k];
        if stream_changes(e, m, src) {
            let u = StreamView { message: m, source: src, last_seen_ns: now_ns, ..e };
            (reg.insert(k, u), Some((SapEventKind::Updated, u)))
        } else {
            (reg.insert(k, StreamView { last_seen_ns: now_ns, ..e }), None)
        }
    } else {
        let a = StreamView {
            key: k,
            message: m,
            source: src,
            first_seen_ns: now_ns,
            last_seen_ns: now_ns,
        };
        (reg.insert(k, a), Some((SapEventKind::Added, a)))
    }
}

/// A stream has expired at `now_ns` when at least `expiry_ns` passed since it was last
/// heard (a time before that never expires it).
pub open spec fn stream_expired(s: StreamView, now_ns: u64, expiry_ns: u64) -> bool {
    now_ns >= s.last_seen_ns && now_ns - s.last_seen_ns >= expiry_ns
}

impl SapMessage {
    /// A copy of the message.
    pub fn duplicate(&self) -> (m: Self)
        ensures
            message_view(m) == message_view(*self),
    {
        SapMessage {
            key: self.key,
            message_type: self.message_type,
            payload_type: copy_opt_string(&self.payload_type),
            sdp: copy_opt_string(&self.sdp),
            session: match &self.session {
                Some(d) => Some(d.duplicate()),
                None => None,
            },
        }
    }
}

impl SapStream {
    /// A copy of the stream.
    pub fn duplicate(&self) -> (s: Self)
        ensures
            stream_view(s) == stream_view(*self),
    {
        SapStream {
            key: self.key,
            message: self.message.duplicate(),
            source: self.source,
            first_seen_ns: self.first_seen_ns,
            last_seen_ns: self.last_seen_ns,
        }
    }
}

fn same_key_exec(a: &SapMessageKey, b: &SapMessageKey) -> (r: bool)
    ensures
        r == (key_view(*a) == key_view(*b)),
{
    let r = a.origin_source[0] == b.origin_source[0] && a.origin_source[1] == b.origin_source[1]
        && a.origin_source[2] == b.origin_source[2] && a.origin_source[3] == b.origin_source[3]
        && a.message_hash == b.message_hash;
    proof {
        if r {
            assert(a.origin_source@ =~= b.origin_source@);
        }
        if key_view(*a) == key_view(*b) {
            assert(a.origin_source@[0] == b.origin_source@[0]);
            assert(a.origin_source@[1] == b.origin_source@[1]);
            assert(a.origin_source@[2] == b.origin_source@[2]);
            assert(a.origin_source@[3] == b.origin_source@[3]);
        }
    }
    r
}

fn same_source(a: &SourceAddress, b: &SourceAddress) -> (r: bool)
    ensures
        r == (source_view(*a) == source_view(*b)),
{
    let r = a.ip[0] == b.ip[0] && a.ip[1] == b.ip[1] && a.ip[2] == b.ip[2] && a.ip[3] == b.ip[3]
        && a.port == b.port;
    proof {
        if r {
            assert(a.ip@ =~= b.ip@);
        }
        if source_view(*a) == source_view(*b) {
            assert(a.ip@[0] == b.ip@[0] && a.ip@[1] == b.ip@[1]);
            assert(a.ip@[2] == b.ip@[2] && a.ip@[3] == b.ip@[3]);
        }
    }
    r
}

fn same_opt_session(a: &Option<Aes67SessionDescription>, b: &Option<Aes67SessionDescription>) -> (r: bool)
    ensures
        r == (opt_session_view(*a) == opt_session_view(*b)),
{
    match (a, b) {
        (Some(x), Some(y)) => x.same_as(y),
        (None, None) => true,
        _ => false,
    }
}

/// Discovered SAP streams, by message key.
pub struct SapRegistry {
    expiry_ns: u64,
    streams: Vec<SapStream>,
}

spec fn stream_keys_unique(v: Seq<SapStream>) -> bool {
    forall|i: int, j: int|
        0 <= i < v.len() && 0 <= j < v.len() && i != j ==> key_view(v[i].key) != key_view(
            v[j].key,
        )
}

spec fn stream_keys_match(v: Seq<SapStream>) -> bool {
    forall|i: int| 0 <= i < v.len() ==> key_view(#[trigger] v[i].key) == key_view(v[i].message.key)
}

spec fn streams_map(v: Seq<SapStream>) -> Map<KeyView, StreamView> {
    Map::new(
        |k: KeyView| exists|i: int| 0 <= i < v.len() && key_view(v[i].key) == k,
        |k: KeyView|
            stream_view(v[choose|i: int| 0 <= i < v.len() && key_view(v[i].key) == k]),
    )
}

proof fn lemma_streams_map_at(v: Seq<SapStream>, i: int)
    requires
        stream_keys_unique(v),
        0 <= i < v.len(),
    ensures
        streams_map(v).contains_key(key_view(v[i].key)),
        streams_map(v)[key_view(v[i].key)] == stream_view(v[i]),
{
    let k = key_view(v[i].key);
    assert(streams_map(v).dom().contains(k));
    let j = choose|j: int| 0 <= j < v.len() && key_view(v[j].key) == k;
    assert(j == i);
}

impl View for SapRegistry {
    type V = Map<KeyView, StreamView>;

    closed spec fn view(&self) -> Map<KeyView, StreamView> {
        streams_map(self.streams@)
    }
}

impl SapRegistry {
    #[verifier::type_invariant]
    spec fn wf(self) -> bool {
        stream_keys_unique(self.streams@) && stream_keys_match(self.streams@)
    }

    /// The expiry time in nanoseconds.
    pub closed spec fn expiry_view(&self) -> u64 {
        self.expiry_ns
    }

    /// An empty registry whose streams expire `expiry_ns` after they were last heard.
    pub fn new(expiry_ns: u64) -> (r: Self)
        ensures
            r@ == Map::<KeyView, StreamView>::empty(),
            r.expiry_view() == expiry_ns,
    {
        let r = SapRegistry { expiry_ns, streams: Vec::new() };
        assert(r@ =~= Map::<KeyView, StreamView>::empty());
        r
    }
}

proof fn lemma_streams_map_absent(v: Seq<SapStream>, k: KeyView)
    requires
        forall|i: int| 0 <= i < v.len() ==> key_view(v[i].key) != k,
    ensures
        !streams_map(v).contains_key(k),
{
}

proof fn lemma_streams_map_remove(v: Seq<SapStream>, i: int)
    requires
        stream_keys_unique(v),
        0 <= i < v.len(),
    ensures
        stream_keys_unique(v.remove(i)),
        streams_map(v.remove(i)) == streams_map(v).remove(key_view(v[i].key)),
{
    let w = v.remove(i);
    let k0 = key_view(v[i].key);
    assert forall|a: int, b: int|
        0 <= a < w.len() && 0 <= b < w.len() && a != b implies key_view(w[a].key) != key_view(
            w[b].key,
        ) by {
        let a2 = if a < i { a } else { a + 1 };
        let b2 = if b < i { b } else { b + 1 };
        assert(w[a] == v[a2] && w[b] == v[b2]);
    }
    assert forall|k: KeyView| #[trigger] streams_map(w).contains_key(k) <==> streams_map(v).remove(
        k0,
    ).contains_key(k) by {
        if streams_map(w).contains_key(k) {
            let j = choose|j: int| 0 <= j < w.len() && key_view(w[j].key) == k;
            let j2 = if j < i { j } else { j + 1 };
            assert(w[j] == v[j2]);
            lemma_streams_map_at(v, j2);
        }
        if streams_map(v).remove(k0).contains_key(k) {
            let j = choose|j: int| 0 <= j < v.len() && key_view(v[j].key) == k;
            assert(j != i);
            let j2 = if j < i { j } else { j - 1 };
            assert(w[j2] == v[j]);
        }
    }
    assert forall|k: KeyView| #[trigger] streams_map(w).contains_key(k) implies streams_map(w)[k]
        == streams_map(v).remove(k0)[k] by {
        let j = choose|j: int| 0 <= j < w.len() && key_view(w[j].key) == k;
        let j2 = if j < i { j } else { j + 1 };
        assert(w[j] == v[j2]);
        lemma_streams_map_at(w, j);
        lemma_streams_map_at(v, j2);
    }
    assert(streams_map(w) =~= streams_map(v).remove(k0));
}

proof fn lemma_streams_map_update(v: Seq<SapStream>, i: int, s: SapStream)
    requires
        stream_keys_unique(v),
        0 <= i < v.len(),
        key_view(s.key) == key_view(v[i].key),
    ensures
        stream_keys_unique(v.update(i, s)),
        streams_map(v.update(i, s)) == streams_map(v).insert(key_view(s.key), stream_view(s)),
{
    let w = v.update(i, s);
    let k0 = key_view(s.key);
    assert forall|a: int, b: int|
        0 <= a < w.len() && 0 <= b < w.len() && a != b implies key_view(w[a].key) != key_view(
            w[b].key,
        ) by {
        assert(key_view(w[a].key) == key_view(v[a].key));
        assert(key_view(w[b].key) == key_view(v[b].key));
    }
    assert forall|k: KeyView| #[trigger] streams_map(w).contains_key(k) <==> streams_map(v).insert(
        k0,
        stream_view(s),
    ).contains_key(k) by {
        if streams_map(w).contains_key(k) {
            let j = choose|j: int| 0 <= j < w.len() && key_view(w[j].key) == k;
            assert(key_view(w[j].key) == key_view(v[j].key));
            lemma_streams_map_at(v, j);
        }
        if streams_map(v).contains_key(k) {
            let j = choose|j: int| 0 <= j < v.len() && key_view(v[j].key) == k;
            assert(key_view(w[j].key) == key_view(v[j].key));
        }
        if k == k0 {
            assert(key_view(w[i].key) == k0);
        }
    }
    assert forall|k: KeyView| #[trigger] streams_map(w).contains_key(k) implies streams_map(w)[k]
        == streams_map(v).insert(k0, stream_view(s))[k] by {
        let j = choose|j: int| 0 <= j < w.len() && key_view(w[j].key) == k;
        lemma_streams_map_at(w, j);
        if j == i {
        } else {
            assert(w[j] == v[j]);
            lemma_streams_map_at(v, j);
        }
    }
    assert(streams_map(w) =~= streams_map(v).insert(k0, stream_view(s)));
}

proof fn lemma_streams_map_push(v: Seq<SapStream>, s: SapStream)
    requires
        stream_keys_unique(v),
        forall|i: int| 0 <= i < v.len() ==> key_view(v[i].key) != key_view(s.key),
    ensures
        stream_keys_unique(v.push(s)),
        streams_map(v.push(s)) == streams_map(v).insert(key_view(s.key), stream_view(s)),
{
    let w = v.push(s);
    let k0 = key_view(s.key);
    assert forall|a: int, b: int|
        0 <= a < w.len() && 0 <= b < w.len() && a != b implies key_view(w[a].key) != key_view(
            w[b].key,
        ) by {
        if a < v.len() {
            assert(w[a] == v[a]);
        }
        if b < v.len() {
            assert(w[b] == v[b]);
        }
    }
    assert forall|k: KeyView| #[trigger] streams_map(w).contains_key(k) <==> streams_map(v).insert(
        k0,
        stream_view(s),
    ).contains_key(k) by {
        if streams_map(w).contains_key(k) {
            let j = choose|j: int| 0 <= j < w.len() && key_view(w[j].key) == k;
            if j < v.len() {
                assert(w[j] == v[j]);
                lemma_streams_map_at(v, j);
            }
        }
        if streams_map(v).contains_key(k) {
            let j = choose|j: int| 0 <= j < v.len() && key_view(v[j].key) == k;
            assert(w[j] == v[j]);
        }
        if k == k0 {
            assert(w[v.len() as int] == s);
        }
    }
    assert forall|k: KeyView| #[trigger] streams_map(w).contains_key(k) implies streams_map(w)[k]
        == streams_map(v).insert(k0, stream_view(s))[k] by {
        let j = choose|j: int| 0 <= j < w.len() && key_view(w[j].key) == k;
        lemma_streams_map_at(w, j);
        if j < v.len() {
            assert(w[j] == v[j]);
            lemma_streams_map_at(v, j);
        }
    }
    assert(streams_map(w) =~= streams_map(v).insert(k0, stream_view(s)));
}

fn find_stream(v: &Vec<SapStream>, key: &SapMessageKey) -> (r: Option<usize>)
    ensures
        match r {
            Some(i) => i < v@.len() && key_view(v@[i as int].key) == key_view(*key),
            None => forall|i: int| 0 <= i < v@.len() ==> key_view(v@[i].key) != key_view(*key),
        },
{
    let mut i: usize = 0;
    while i < v.len()
        invariant
            i <= v@.len(),
            forall|j: int| 0 <= j < i ==> key_view(v@[j].key) != key_view(*key),
        decreases v@.len() - i,
    {
        if same_key_exec(&v[i].key, key) {
            return Some(i);
        }
        i = i + 1;
    }
    None
}

/// The event reported, by its view.
pub open spec fn event_is(r: Option<SapRegistryEvent>, ev: Option<(SapEventKind, StreamView)>) -> bool {
    match (r, ev) {
        (Some(e), Some(v)) => event_view(e) == v,
        (None, None) => true,
        _ => false,
    }
}

impl SapRegistry {
    /// Apply one message from `source` received at `now_ns`. A deletion removes a known
    /// stream; an announcement without a supported session is ignored; one for a known
    /// stream refreshes it and reports it when it changed; one for a new stream adds it.
    pub fn apply_message(&mut self, message: SapMessage, source: SourceAddress, now_ns: u64) -> (r: Option<SapRegistryEvent>)
        ensures
            final(self)@ == registry_after(old(self)@, message_view(message), source_view(source), now_ns).0,
            event_is(r, registry_after(old(self)@, message_view(message), source_view(source), now_ns).1),
            final(self).expiry_view() == old(self).expiry_view(),
    {
        proof {
            use_type_invariant(&*self);
        }
        let ghost old_v = self.streams@;
        let idx = find_stream(&self.streams, &message.key);
        proof {
            match idx {
                Some(i) => lemma_streams_map_at(old_v, i as int),
                None => lemma_streams_map_absent(old_v, key_view(message.key)),
            }
        }
        if message.message_type == SapMessageType::Deletion {
            match idx {
                Some(i) => {
                    let mut v: Vec<SapStream> = Vec::new();
                    std::mem::swap(&mut v, &mut self.streams);
                    let removed = v.remove(i);
                    proof {
                        lemma_streams_map_remove(old_v, i as int);
                        assert forall|j: int| 0 <= j < v@.len() implies key_view(#[trigger] v@[j].key)
                            == key_view(v@[j].message.key) by {
                            let j2 = if j < i { j } else { j + 1 };
                            assert(v@[j] == old_v[j2]);
                        }
                    }
                    self.streams = v;
                    return Some(SapRegistryEvent::Removed(removed));
                },
                None => return None,
            }
        }
        if message.session.is_none() {
            return None;
        }
        match idx {
            Some(i) => {
                let changed = {
                    let existing = &self.streams[i];
                    !same_opt_string(&existing.message.sdp, &message.sdp) || !same_opt_session(
                        &existing.message.session,
                        &message.session,
                    ) || !same_opt_string(&existing.message.payload_type, &message.payload_type)
                        || !same_source(&existing.source, &source)
                };
                let mut v: Vec<SapStream> = Vec::new();
                std::mem::swap(&mut v, &mut self.streams);
                let first_seen_ns = v[i].first_seen_ns;
                let key = v[i].key;
                if changed {
                    let updated = SapStream {
                        key,
                        message,
                        source,
                        first_seen_ns,
                        last_seen_ns: now_ns,
                    };
                    let report = updated.duplicate();
                    v.set(i, updated);
                    proof {
                        lemma_streams_map_update(old_v, i as int, v@[i as int]);
                        assert(stream_view(v@[i as int]) == (StreamView {
                            message: message_view(message),
                            source: source_view(source),
                            last_seen_ns: now_ns,
                            ..stream_view(old_v[i as int])
                        }));
                    }
                    self.streams = v;
                    Some(SapRegistryEvent::Updated(report))
                } else {
                    let existing = v.remove(i);
                    let refreshed = SapStream {
                        key: existing.key,
                        message: existing.message,
                        source: existing.source,
                        first_seen_ns: existing.first_seen_ns,
                        last_seen_ns: now_ns,
                    };
                    v.insert(i, refreshed);
                    proof {
                        assert(v@ =~= old_v.update(i as int, refreshed));
                        lemma_streams_map_update(old_v, i as int, refreshed);
                    }
                    self.streams = v;
                    None
                }
            },
            None => {
                let key = message.key;
                let added = SapStream {
                    key,
                    message,
                    source,
                    first_seen_ns: now_ns,
                    last_seen_ns: now_ns,
                };
                let report = added.duplicate();
                let mut v: Vec<SapStream> = Vec::new();
                std::mem::swap(&mut v, &mut self.streams);
                v.push(added);
                proof {
                    lemma_streams_map_push(old_v, added);
                }
                self.streams = v;
                Some(SapRegistryEvent::Added(report))
            },
        }
    }
}

/// The streams of `reg` that have not expired at `now_ns`.
pub open spec fn unexpired_streams(reg: Map<KeyView, StreamView>, now_ns: u64, expiry_ns: u64) -> Map<
    KeyView,
    StreamView,
> {
    Map::new(
        |k: KeyView| reg.contains_key(k) && !stream_expired(reg[k], now_ns, expiry_ns),
        |k: KeyView| reg[k],
    )
}

/// `events` reports each stream of `reg` that expired at `now_ns` once, as `Expired`.
pub open spec fn reports_expired(
    events: Seq<SapRegistryEvent>,
    reg: Map<KeyView, StreamView>,
    now_ns: u64,
    expiry_ns: u64,
) -> bool {
    &&& forall|i: int|
        0 <= i < events.len() ==> {
            let (kind, sv) = #[trigger] event_view(events[i]);
            &&& kind == SapEventKind::Expired
            &&& reg.contains_key(sv.key)
            &&& reg[sv.key] == sv
            &&& stream_expired(sv, now_ns, expiry_ns)
        }
    &&& forall|k: KeyView|
        reg.contains_key(k) && stream_expired(reg[k], now_ns, expiry_ns) ==> exists|i: int|
            0 <= i < events.len() && (#[trigger] event_view(events[i])).1.key == k
    &&& forall|i: int, j: int|
        0 <= i < events.len() && 0 <= j < events.len() && i != j ==> (#[trigger] event_view(
            events[i],
        )).1.key != (#[trigger] event_view(events[j])).1.key
}

spec fn in_stream_prefix(v: Seq<SapStream>, n: int, s: SapStream) -> bool {
    exists|j: int| 0 <= j < n && v[j] == s
}

impl SapRegistry {
    /// Remove the streams not heard from for at least the expiry time at `now_ns` and
    /// report each of them.
    pub fn expire(&mut self, now_ns: u64) -> (events: Vec<SapRegistryEvent>)
        ensures
            final(self)@ == unexpired_streams(old(self)@, now_ns, old(self).expiry_view()),
            reports_expired(events@, old(self)@, now_ns, old(self).expiry_view()),
            final(self).expiry_view() == old(self).expiry_view(),
    {
        proof {
            use_type_invariant(&*self);
        }
        let ghost old_v = self.streams@;
        let expiry = self.expiry_ns;
        let mut v: Vec<SapStream> = Vec::new();
        std::mem::swap(&mut v, &mut self.streams);
        let mut kept: Vec<SapStream> = Vec::new();
        let mut events: Vec<SapRegistryEvent> = Vec::new();
        let ghost mut i: int = 0;
        let ghost mut idx: Seq<int> = Seq::empty();
        assert(old_v.skip(0) =~= old_v);
        while v.len() > 0
            invariant
                0 <= i <= old_v.len(),
                v@ == old_v.skip(i),
                stream_keys_unique(old_v),
                stream_keys_match(old_v),
                stream_keys_unique(kept@),
                stream_keys_match(kept@),
                forall|k: int|
                    0 <= k < kept@.len() ==> in_stream_prefix(old_v, i, #[trigger] kept@[k]),
                forall|k: int|
                    0 <= k < kept@.len() ==> !stream_expired(
                        stream_view(#[trigger] kept@[k]),
                        now_ns,
                        expiry,
                    ),
                forall|j: int|
                    0 <= j < i && !stream_expired(stream_view(#[trigger] old_v[j]), now_ns, expiry)
                        ==> kept@.contains(old_v[j]),
                idx.len() == events@.len(),
                forall|e: int|
                    0 <= e < idx.len() ==> 0 <= #[trigger] idx[e] < i && stream_expired(
                        stream_view(old_v[idx[e]]),
                        now_ns,
                        expiry,
                    ) && event_view(events@[e]) == (
                        SapEventKind::Expired,
                        stream_view(old_v[idx[e]]),
                    ),
                forall|a: int, b: int| 0 <= a < b < idx.len() ==> #[trigger] idx[a] < #[trigger] idx[b],
                forall|j: int|
                    0 <= j < i && stream_expired(stream_view(#[trigger] old_v[j]), now_ns, expiry)
                        ==> idx.contains(j),
            decreases v@.len(),
        {
            let ghost prev_kept = kept@;
            let ghost prev_idx = idx;
            let s = v.remove(0);
            assert(s == old_v[i]);
            assert(v@ =~= old_v.skip(i + 1));
            let expired = now_ns >= s.last_seen_ns && now_ns - s.last_seen_ns >= expiry;
            if expired {
                events.push(SapRegistryEvent::Expired(s));
                proof {
                    idx = idx.push(i);
                }
            } else {
                proof {
                    assert forall|k: int| 0 <= k < kept@.len() implies key_view(kept@[k].key)
                        != key_view(s.key) by {
                        assert(in_stream_prefix(old_v, i, kept@[k]));
                        let j = choose|j: int| 0 <= j < i && old_v[j] == kept@[k];
                        assert(j != i);
                    }
                }
                kept.push(s);
            }
            proof {
                let ii = i;
                i = i + 1;
                assert forall|k: int| 0 <= k < kept@.len() implies in_stream_prefix(
                    old_v,
                    i,
                    #[trigger] kept@[k],
                ) by {
                    if k < prev_kept.len() {
                        assert(kept@[k] == prev_kept[k]);
                        assert(in_stream_prefix(old_v, ii, prev_kept[k]));
                        let j = choose|j: int| 0 <= j < ii && old_v[j] == prev_kept[k];
                        assert(old_v[j] == kept@[k]);
                    } else {
                        assert(old_v[ii] == kept@[k]);
                    }
                }
                assert forall|j: int|
                    0 <= j < i && !stream_expired(stream_view(#[trigger] old_v[j]), now_ns, expiry)
                        implies kept@.contains(old_v[j]) by {
                    if j < ii {
                        assert(prev_kept.contains(old_v[j]));
                        let k = choose|k: int| 0 <= k < prev_kept.len() && prev_kept[k] == old_v[j];
                        assert(kept@[k] == old_v[j]);
                    } else {
                        assert(kept@[kept@.len() - 1] == old_v[j]);
                    }
                }
                assert forall|j: int|
                    0 <= j < i && stream_expired(stream_view(#[trigger] old_v[j]), now_ns, expiry)
                        implies idx.contains(j) by {
                    if j < ii {
                        assert(prev_idx.contains(j));
                        let e = choose|e: int| 0 <= e < prev_idx.len() && prev_idx[e] == j;
                        assert(idx[e] == j);
                    } else {
                        assert(idx[idx.len() - 1] == j);
                    }
                }
            }
        }
        proof {
            assert(i == old_v.len());
            let reg = streams_map(old_v);
            let target = unexpired_streams(reg, now_ns, expiry);
            assert forall|k: KeyView| #[trigger] streams_map(kept@).contains_key(k) <==> target.contains_key(k) by {
                if streams_map(kept@).contains_key(k) {
                    let m = choose|m: int| 0 <= m < kept@.len() && key_view(kept@[m].key) == k;
                    assert(in_stream_prefix(old_v, i, kept@[m]));
                    let j = choose|j: int| 0 <= j < i && old_v[j] == kept@[m];
                    lemma_streams_map_at(old_v, j);
                }
                if target.contains_key(k) {
                    let j = choose|j: int| 0 <= j < old_v.len() && key_view(old_v[j].key) == k;
                    lemma_streams_map_at(old_v, j);
                    assert(kept@.contains(old_v[j]));
                    let m = choose|m: int| 0 <= m < kept@.len() && kept@[m] == old_v[j];
                    assert(key_view(kept@[m].key) == k);
                }
            }
            assert forall|k: KeyView| #[trigger] streams_map(kept@).contains_key(k) implies streams_map(
                kept@,
            )[k] == target[k] by {
                let m = choose|m: int| 0 <= m < kept@.len() && key_view(kept@[m].key) == k;
                lemma_streams_map_at(kept@, m);
                assert(in_stream_prefix(old_v, i, kept@[m]));
                let j = choose|j: int| 0 <= j < i && old_v[j] == kept@[m];
                lemma_streams_map_at(old_v, j);
            }
            assert(streams_map(kept@) =~= target);
            assert forall|e: int| 0 <= e < events@.len() implies {
                let (kind, sv) = #[trigger] event_view(events@[e]);
                &&& kind == SapEventKind::Expired
                &&& reg.contains_key(sv.key)
                &&& reg[sv.key] == sv
                &&& stream_expired(sv, now_ns, expiry)
            } by {
                assert(0 <= idx[e] < i);
                lemma_streams_map_at(old_v, idx[e]);
            }
            assert forall|k: KeyView|
                reg.contains_key(k) && stream_expired(reg[k], now_ns, expiry) implies exists|e: int|
                    0 <= e < events@.len() && (#[trigger] event_view(events@[e])).1.key == k by {
                let j = choose|j: int| 0 <= j < old_v.len() && key_view(old_v[j].key) == k;
                lemma_streams_map_at(old_v, j);
                assert(idx.contains(j));
                let e = choose|e: int| 0 <= e < idx.len() && idx[e] == j;
                assert(event_view(events@[e]).1.key == k);
            }
            assert forall|a: int, b: int|
                0 <= a < events@.len() && 0 <= b < events@.len() && a != b implies (#[trigger] event_view(
                    events@[a],
                )).1.key != (#[trigger] event_view(events@[b])).1.key by {
                assert(idx[a] != idx[b]) by {
                    if a < b {
                        assert(idx[a] < idx[b]);
                    } else {
                        assert(idx[b] < idx[a]);
                    }
                }
                assert(0 <= idx[a] < i && 0 <= idx[b] < i);
            }
        }
        self.streams = kept;
        events
    }
}

/// The name a stream is listed under: its session name, or empty without one.
pub open spec fn listing_name(s: StreamView) -> Seq<char> {
    match s.message.session {
        Some(d) => match d.session_name {
            Some(n) => n,
            None => Seq::empty(),
        },
        None => Seq::empty(),
    }
}

/// Order of IPv4 addresses: octet by octet.
pub open spec fn origin_less(a: Seq<u8>, b: Seq<u8>) -> bool {
    if a[0] != b[0] {
        a[0] < b[0]
    } else if a[1] != b[1] {
        a[1] < b[1]
    } else if a[2] != b[2] {
        a[2] < b[2]
    } else {
        a[3] < b[3]
    }
}

/// Listing order of streams: by session name, then origin source, then message hash.
pub open spec fn listed_before(a: StreamView, b: StreamView) -> bool {
    if listing_name(a) != listing_name(b) {
        chars_less(listing_name(a), listing_name(b))
    } else if a.key.0 != b.key.0 {
        origin_less(a.key.0, b.key.0)
    } else {
        a.key.1 < b.key.1
    }
}

proof fn lemma_listed_before_order(a: StreamView, b: StreamView, c: StreamView)
    requires
        a.key.0.len() == 4,
        b.key.0.len() == 4,
        c.key.0.len() == 4,
    ensures
        !listed_before(a, a),
        listed_before(a, b) ==> !listed_before(b, a),
        a.key != b.key ==> listed_before(a, b) || listed_before(b, a),
        listed_before(a, b) && listed_before(b, c) ==> listed_before(a, c),
{
    lemma_chars_less_irreflexive(listing_name(a));
    lemma_chars_less_total(listing_name(a), listing_name(b));
    if listed_before(a, b) && listed_before(b, c) {
        if listing_name(a) != listing_name(b) && listing_name(b) != listing_name(c) {
            lemma_chars_less_transitive(listing_name(a), listing_name(b), listing_name(c));
            lemma_chars_less_total(listing_name(a), listing_name(c));
            if listing_name(a) == listing_name(c) {
                lemma_chars_less_total(listing_name(b), listing_name(c));
            }
        }
    }
    if a.key.0 != b.key.0 {
        if a.key.0[0] == b.key.0[0] && a.key.0[1] == b.key.0[1] && a.key.0[2] == b.key.0[2]
            && a.key.0[3] == b.key.0[3] {
            assert(a.key.0 =~= b.key.0);
        }
    }
    if b.key.0 != c.key.0 {
        if b.key.0[0] == c.key.0[0] && b.key.0[1] == c.key.0[1] && b.key.0[2] == c.key.0[2]
            && b.key.0[3] == c.key.0[3] {
            assert(b.key.0 =~= c.key.0);
        }
    }
    if a.key.0 != c.key.0 {
        if a.key.0[0] == c.key.0[0] && a.key.0[1] == c.key.0[1] && a.key.0[2] == c.key.0[2]
            && a.key.0[3] == c.key.0[3] {
            assert(a.key.0 =~= c.key.0);
        }
    }
}

fn listing_chars(s: &SapStream) -> (r: Vec<char>)
    ensures
        r@ == listing_name(stream_view(*s)),
{
    match &s.message.session {
        Some(d) => match &d.session_name {
            Some(n) => chars_of(n.as_str()),
            None => Vec::new(),
        },
        None => Vec::new(),
    }
}

fn listed_before_exec(a: &SapStream, b: &SapStream) -> (r: bool)
    ensures
        r == listed_before(stream_view(*a), stream_view(*b)),
{
    let na = listing_chars(a);
    let nb = listing_chars(b);
    let ab = chars_before(na.as_slice(), nb.as_slice());
    let ba = chars_before(nb.as_slice(), na.as_slice());
    proof {
        lemma_chars_less_total(na@, nb@);
        lemma_chars_less_irreflexive(na@);
    }
    if ab || ba {
        return ab;
    }
    let x = a.key.origin_source;
    let y = b.key.origin_source;
    let same_origin = x[0] == y[0] && x[1] == y[1] && x[2] == y[2] && x[3] == y[3];
    proof {
        if same_origin {
            assert(x@ =~= y@);
        }
    }
    if !same_origin {
        if x[0] != y[0] {
            x[0] < y[0]
        } else if x[1] != y[1] {
            x[1] < y[1]
        } else if x[2] != y[2] {
            x[2] < y[2]
        } else {
            x[3] < y[3]
        }
    } else {
        a.key.message_hash < b.key.message_hash
    }
}

spec fn view_listed(out: Seq<SapStream>, sv: StreamView) -> bool {
    exists|m: int| 0 <= m < out.len() && stream_view(out[m]) == sv
}

spec fn in_view_prefix(v: Seq<SapStream>, n: int, sv: StreamView) -> bool {
    exists|j: int| 0 <= j < n && stream_view(v[j]) == sv
}

/// `r` lists the streams of `reg` once each, in listing order.
pub open spec fn lists_streams(r: Seq<SapStream>, reg: Map<KeyView, StreamView>) -> bool {
    &&& forall|i: int, j: int|
        0 <= i < j < r.len() ==> listed_before(
            stream_view(#[trigger] r[i]),
            stream_view(#[trigger] r[j]),
        )
    &&& forall|i: int|
        0 <= i < r.len() ==> reg.contains_key(stream_view(#[trigger] r[i]).key) && reg[stream_view(
            r[i],
        ).key] == stream_view(r[i])
    &&& forall|k: KeyView|
        reg.contains_key(k) ==> exists|i: int|
            0 <= i < r.len() && stream_view(#[trigger] r[i]).key == k
}

/// Two texts that agree up to position `k`, where the first has a smaller character or
/// ends, are in character order.
proof fn lemma_first_difference_orders(a: Seq<char>, b: Seq<char>, k: int)
    requires
        0 <= k <= a.len(),
        k < b.len(),
        a.take(k) == b.take(k),
        k < a.len() ==> a[k] < b[k],
    ensures
        chars_less(a, b),
    decreases k,
{
    if k > 0 {
        assert(a[0] == a.take(k)[0]);
        assert(b[0] == b.take(k)[0]);
        assert(a.drop_first().take(k - 1) =~= a.take(k).drop_first());
        assert(b.drop_first().take(k - 1) =~= b.take(k).drop_first());
        lemma_first_difference_orders(a.drop_first(), b.drop_first(), k - 1);
    }
}

/// Listed streams are in order of session name: where two listed streams carry session
/// names that first differ at position `k` (or the first name ends there), the stream with
/// the smaller character there (or the shorter name) is listed first.
pub proof fn lemma_streams_listed_by_session_name(
    r: Seq<SapStream>,
    reg: Map<KeyView, StreamView>,
    i: int,
    j: int,
    na: Seq<char>,
    nb: Seq<char>,
    k: int,
)
    requires
        lists_streams(r, reg),
        0 <= i < r.len(),
        0 <= j < r.len(),
        stream_view(r[i]).message.session matches Some(d) && d.session_name == Some(na),
        stream_view(r[j]).message.session matches Some(e) && e.session_name == Some(nb),
        0 <= k <= na.len(),
        k < nb.len(),
        na.take(k) == nb.take(k),
        k < na.len() ==> na[k] < nb[k],
    ensures
        i < j,
{
    lemma_first_difference_orders(na, nb, k);
    lemma_chars_less_irreflexive(na);
    let a = stream_view(r[i]);
    let b = stream_view(r[j]);
    assert(listing_name(a) == na);
    assert(listing_name(b) == nb);
    if j < i {
        assert(listed_before(stream_view(r[j]), stream_view(r[i])));
        lemma_listed_before_order(b, a, a);
    }
}

/// Listed streams with the same session name are in order of origin address (octet by
/// octet) and then of message hash.
pub proof fn lemma_same_name_streams_listed_by_origin_then_hash(
    r: Seq<SapStream>,
    reg: Map<KeyView, StreamView>,
    i: int,
    j: int,
    name: Seq<char>,
    m: int,
)
    requires
        lists_streams(r, reg),
        0 <= i < r.len(),
        0 <= j < r.len(),
        stream_view(r[i]).message.session matches Some(d) && d.session_name == Some(name),
        stream_view(r[j]).message.session matches Some(e) && e.session_name == Some(name),
        stream_view(r[i]).key.0.len() == 4,
        stream_view(r[j]).key.0.len() == 4,
        0 <= m <= 4,
        stream_view(r[i]).key.0.take(m) == stream_view(r[j]).key.0.take(m),
        m < 4 ==> stream_view(r[i]).key.0[m] < stream_view(r[j]).key.0[m],
        m == 4 ==> stream_view(r[i]).key.1 < stream_view(r[j]).key.1,
    ensures
        i < j,
{
    let a = stream_view(r[i]);
    let b = stream_view(r[j]);
    assert(listing_name(a) == name);
    assert(listing_name(b) == name);
    let oa = a.key.0;
    let ob = b.key.0;
    if m == 4 {
        assert(oa =~= oa.take(4));
        assert(ob =~= ob.take(4));
    } else {
        assert(forall|t: int| 0 <= t < m ==> oa[t] == oa.take(m)[t] && ob[t] == ob.take(m)[t]);
        assert(oa != ob) by {
            assert(oa[m] != ob[m]);
        }
    }
    if j < i {
        assert(listed_before(b, a));
    }
    if i == j {
        assert(false);
    }
}

impl SapRegistry {
    /// Copies of the known streams, ordered by session name, origin source and message
    /// hash.
    pub fn get_streams(&self) -> (r: Vec<SapStream>)
        ensures
            lists_streams(r@, self@),
    {
        proof {
            use_type_invariant(self);
        }
        let ghost v = self.streams@;
        let mut out: Vec<SapStream> = Vec::new();
        let mut i: usize = 0;
        while i < self.streams.len()
            invariant
                v == self.streams@,
                stream_keys_unique(v),
                i <= v.len(),
                forall|a: int, b: int|
                    0 <= a < b < out@.len() ==> listed_before(
                        stream_view(#[trigger] out@[a]),
                        stream_view(#[trigger] out@[b]),
                    ),
                forall|m: int|
                    0 <= m < out@.len() ==> in_view_prefix(v, i as int, stream_view(#[trigger] out@[m])),
                forall|j: int| 0 <= j < i ==> view_listed(out@, stream_view(#[trigger] v[j])),
            decreases v.len() - i,
        {
            let c = self.streams[i].duplicate();
            let mut pos: usize = 0;
            while pos < out.len() && listed_before_exec(&out[pos], &c)
                invariant
                    pos <= out@.len(),
                    forall|a: int| 0 <= a < pos ==> listed_before(stream_view(#[trigger] out@[a]), stream_view(c)),
                decreases out@.len() - pos,
            {
                pos = pos + 1;
            }
            let ghost prev = out@;
            proof {
                assert forall|a: int| 0 <= a < prev.len() implies (#[trigger] stream_view(prev[a])).key
                    != stream_view(c).key by {
                    assert(in_view_prefix(v, i as int, stream_view(prev[a])));
                    let j = choose|j: int| 0 <= j < i && stream_view(v[j]) == stream_view(prev[a]);
                    assert(j != i);
                }
                assert forall|a: int| pos <= a < prev.len() implies listed_before(
                    stream_view(c),
                    stream_view(#[trigger] prev[a]),
                ) by {
                    lemma_listed_before_order(stream_view(prev[pos as int]), stream_view(c), stream_view(prev[a]));
                    lemma_listed_before_order(stream_view(c), stream_view(prev[pos as int]), stream_view(prev[a]));
                }
            }
            out.insert(pos, c);
            proof {
                assert forall|a: int, b: int|
                    0 <= a < b < out@.len() implies listed_before(
                        stream_view(#[trigger] out@[a]),
                        stream_view(#[trigger] out@[b]),
                    ) by {
                    if b < pos {
                        assert(out@[a] == prev[a] && out@[b] == prev[b]);
                    } else if b == pos {
                        assert(out@[a] == prev[a]);
                    } else if a < pos {
                        assert(out@[a] == prev[a] && out@[b] == prev[b - 1]);
                        lemma_listed_before_order(stream_view(prev[a]), stream_view(c), stream_view(prev[b - 1]));
                    } else if a == pos {
                        assert(out@[b] == prev[b - 1]);
                    } else {
                        assert(out@[a] == prev[a - 1] && out@[b] == prev[b - 1]);
                    }
                }
                assert forall|m: int|
                    0 <= m < out@.len() implies in_view_prefix(v, i + 1, stream_view(#[trigger] out@[m])) by {
                    if m < pos {
                        assert(out@[m] == prev[m]);
                        assert(in_view_prefix(v, i as int, stream_view(prev[m])));
                        let j = choose|j: int| 0 <= j < i && stream_view(v[j]) == stream_view(prev[m]);
                        assert(stream_view(v[j]) == stream_view(out@[m]));
                    } else if m == pos {
                        assert(stream_view(v[i as int]) == stream_view(out@[m]));
                    } else {
                        assert(out@[m] == prev[m - 1]);
                        assert(in_view_prefix(v, i as int, stream_view(prev[m - 1])));
                        let j = choose|j: int| 0 <= j < i && stream_view(v[j]) == stream_view(prev[m - 1]);
                        assert(stream_view(v[j]) == stream_view(out@[m]));
                    }
                }
                assert forall|j: int| 0 <= j < i + 1 implies view_listed(out@, stream_view(#[trigger] v[j])) by {
                    if j == i {
                        assert(stream_view(out@[pos as int]) == stream_view(v[j]));
                    } else {
                        assert(view_listed(prev, stream_view(v[j])));
                        let m = choose|m: int| 0 <= m < prev.len() && stream_view(prev[m]) == stream_view(v[j]);
                        if m < pos {
                            assert(out@[m] == prev[m]);
                        } else {
                            assert(out@[m + 1] == prev[m]);
                        }
                    }
                }
            }
            i = i + 1;
        }
        proof {
            let reg = streams_map(v);
            assert forall|m: int| 0 <= m < out@.len() implies reg.contains_key(
                stream_view(#[trigger] out@[m]).key,
            ) && reg[stream_view(out@[m]).key] == stream_view(out@[m]) by {
                assert(in_view_prefix(v, i as int, stream_view(out@[m])));
                let j = choose|j: int| 0 <= j < i && stream_view(v[j]) == stream_view(out@[m]);
                lemma_streams_map_at(v, j);
            }
            assert forall|k: KeyView| reg.contains_key(k) implies exists|m: int|
                0 <= m < out@.len() && stream_view(#[trigger] out@[m]).key == k by {
                let j = choose|j: int| 0 <= j < v.len() && key_view(v[j].key) == k;
                assert(view_listed(out@, stream_view(v[j])));
                let m = choose|m: int| 0 <= m < out@.len() && stream_view(out@[m]) == stream_view(v[j]);
                assert(stream_view(out@[m]).key == k);
            }
        }
        out
    }
}

/// A deletion leaves no stream under its key.
pub proof fn lemma_deletion_removes_stream(
    reg: Map<KeyView, StreamView>,
    m: MessageView,
    src: (Seq<u8>, u16),
    now_ns: u64,
)
    requires
        m.message_type == SapMessageType::Deletion,
    ensures
        !registry_after(reg, m, src, now_ns).0.contains_key(m.key),
{
}

/// An announcement of a supported session leaves its stream under its key, with this
/// message's SDP, session and payload type and this source, last heard now.
pub proof fn lemma_announcement_records_stream(
    reg: Map<KeyView, StreamView>,
    m: MessageView,
    src: (Seq<u8>, u16),
    now_ns: u64,
)
    requires
        m.message_type == SapMessageType::Announcement,
        m.session.is_some(),
    ensures
        ({
            let after = registry_after(reg, m, src, now_ns).0;
            &&& after.contains_key(m.key)
            &&& after[m.key].message.sdp == m.sdp
            &&& after[m.key].message.session == m.session
            &&& after[m.key].message.payload_type == m.payload_type
            &&& after[m.key].source == src
            &&& after[m.key].last_seen_ns == now_ns
        }),
{
}

/// Announcing the same message from the same source again reports nothing.
pub proof fn lemma_repeated_announcement_is_silent(
    reg: Map<KeyView, StreamView>,
    m: MessageView,
    src: (Seq<u8>, u16),
    t1: u64,
    t2: u64,
)
    requires
        m.message_type == SapMessageType::Announcement,
        m.session.is_some(),
    ensures
        registry_after(registry_after(reg, m, src, t1).0, m, src, t2).1.is_none(),
{
}

/// Messages without a supported session, other than deletions, change nothing.
pub proof fn lemma_unsupported_announcement_is_ignored(
    reg: Map<KeyView, StreamView>,
    m: MessageView,
    src: (Seq<u8>, u16),
    now_ns: u64,
)
    requires
        m.message_type == SapMessageType::Announcement,
        m.session.is_none(),
    ensures
        registry_after(reg, m, src, now_ns) == (reg, None::<(SapEventKind, StreamView)>),
{
}

/// No stream left after expiring has expired, and every stream that had not is left.
pub proof fn lemma_expire_keeps_exactly_fresh_streams(
    reg: Map<KeyView, StreamView>,
    now_ns: u64,
    expiry_ns: u64,
    k: KeyView,
)
    ensures
        unexpired_streams(reg, now_ns, expiry_ns).contains_key(k) ==> !stream_expired(
            unexpired_streams(reg, now_ns, expiry_ns)[k],
            now_ns,
            expiry_ns,
        ),
        reg.contains_key(k) && !stream_expired(reg[k], now_ns, expiry_ns) ==> unexpired_streams(
            reg,
            now_ns,
            expiry_ns,
        ).contains_key(k),
{
}


/// Whether a SAP payload starts like SDP text (`v=`, `o=` or `s=`).
pub fn looks_like_sdp(payload: &[u8]) -> (r: bool)
    ensures
        r == looks_like_sdp_bytes(payload@),
{
    payload.len() >= 2 && payload[1] == 0x3d && (payload[0] == 0x76 || payload[0] == 0x6f
        || payload[0] == 0x73)
}

} // verus!
