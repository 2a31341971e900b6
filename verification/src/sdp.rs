//! SDP session descriptions of AES67 streams: the subset that AES67 senders announce
//! (session name, IPv4 connection, one audio media line, `rtpmap`, `ptime` and the
//! clock reference attributes), read line by line.

use vstd::prelude::*;
use crate::text::{
    bounded_decimal, char_range, find_char, first_index, has_prefix, parse_decimal,
    split_at_char, split_once, string_from_chars, strip_prefix,
};

verus! {

/// The characters of a string slice.
pub fn chars_of(s: &str) -> (v: Vec<char>)
    ensures
        v@ == s@,
{
    let mut v: Vec<char> = Vec::new();
    for c in it: s.chars()
        invariant
            v@ == it.seq().take(it.index() as int),
            it.seq() == s@,
    {
        v.push(c);
    }
    v
}

/// Audio sample encoding of a stream.
#[derive(Debug, Clone, Copy, PartialEq, Eq, Structural)]
pub enum AudioEncoding {
    /// 24-bit big-endian signed PCM.
    L24,
}

/// Reasons an SDP text does not describe a supported AES67 stream.
#[derive(Debug, Clone, Copy, PartialEq, Eq, Structural)]
pub enum SdpError {
    /// A `c=` line is not `IN IP4 <address>[/<ttl>]`.
    InvalidConnection,
    /// An `m=audio` line is not `audio <port> RTP/AVP <payload type> ...`.
    InvalidMedia,
    /// An `a=rtpmap:` line is not `<pt> <encoding>/<rate>[/<channels>]`.
    InvalidRtpmap,
    /// An `a=ptime:` value is not a positive whole number of milliseconds.
    InvalidPtime,
    /// No `c=` line.
    MissingConnection,
    /// No `m=audio` line.
    MissingMedia,
    /// No `a=rtpmap:` line.
    MissingRtpmap,
    /// The `rtpmap` describes another payload type than the media line.
    PayloadTypeMismatch,
    /// The encoding is not L24.
    UnsupportedEncoding,
    /// The sample rate is not 48 kHz.
    UnsupportedSampleRate,
    /// The payload type is not a dynamic one (96-127).
    UnsupportedPayloadType,
    /// The channel count is not between 1 and 8.
    UnsupportedChannels,
}

/// A supported AES67 stream described by SDP.
#[derive(Debug, Clone, PartialEq, Eq)]
pub struct Aes67SessionDescription {
    pub session_name: Option<String>,
    /// IPv4 destination address, as four octets.
    pub address: [u8; 4],
    pub ttl: Option<u8>,
    pub port: u16,
    pub payload_type: u8,
    pub encoding: AudioEncoding,
    pub sample_rate: u32,
    pub channels: u16,
    pub packet_time_ms: u32,
    pub ts_refclk: Option<String>,
    pub mediaclk: Option<String>,
}

impl Aes67SessionDescription {
    /// Frames in one packet: `sample_rate * packet_time_ms / 1000`.
    pub fn frames_per_packet(&self) -> (n: u32)
        ensures
            n == (self.sample_rate as int * self.packet_time_ms as int / 1000) as u32,
    {
        assert(self.sample_rate as int * self.packet_time_ms as int <= 0xffff_ffff * 0xffff_ffff)
            by (nonlinear_arith)
            requires
                self.sample_rate <= 0xffff_ffff,
                self.packet_time_ms <= 0xffff_ffff,
        ;
        let product: u64 = self.sample_rate as u64 * self.packet_time_ms as u64;
        (product / 1000) as u32
    }
}

/// The fields an SDP text sets, as it is read line by line.
pub struct SdpFields {
    pub session_name: Option<Seq<char>>,
    pub connection: Option<(Seq<u8>, Option<u8>)>,
    pub media: Option<(u16, u8)>,
    pub rtpmap: Option<(u8, Seq<char>, u32, u16)>,
    pub ptime: Option<u32>,
    pub ts_refclk: Option<Seq<char>>,
    pub mediaclk: Option<Seq<char>>,
}

/// No field set.
pub open spec fn empty_fields() -> SdpFields {
    SdpFields {
        session_name: None,
        connection: None,
        media: None,
        rtpmap: None,
        ptime: None,
        ts_refclk: None,
        mediaclk: None,
    }
}

/// `l` without one trailing carriage return.
pub open spec fn strip_cr(l: Seq<char>) -> Seq<char> {
    if l.len() > 0 && l.last() == '\r' {
        l.drop_last()
    } else {
        l
    }
}

/// The lines of `s`: split at line feeds, each without a trailing carriage return, and
/// no empty line after a final line feed.
pub open spec fn sdp_lines(s: Seq<char>) -> Seq<Seq<char>>
    decreases s.len(),
{
    if s.len() == 0 {
        Seq::empty()
    } else {
        let i = first_index(s, '\n');
        if 0 <= i < s.len() {
            seq![strip_cr(s.take(i))] + sdp_lines(s.skip(i + 1))
        } else {
            seq![strip_cr(s)]
        }
    }
}

/// Dotted-quad IPv4 address, read as std's `Ipv4Addr` parser reads it (one to three
/// digits per octet, no leading zero, at most 255).
#[verifier::opaque]
pub open spec fn parse_ipv4(s: Seq<char>) -> Option<Seq<u8>> {
    crate::socket::ipv4_text_octets(s)
}

/// Value of a `c=` line: `IN IP4 <address>[/<ttl>]`.
#[verifier::opaque]
pub open spec fn parse_connection(v: Seq<char>) -> Option<(Seq<u8>, Option<u8>)> {
    if !has_prefix(v, seq!['I', 'N', ' ', 'I', 'P', '4', ' ']) {
        None
    } else {
        let rest = v.skip(7);
        match split_once(rest, '/') {
            Some((a, t)) => match (parse_ipv4(a), bounded_decimal(t, 255)) {
                (Some(ip), Some(ttl)) => Some((ip, Some(ttl as u8))),
                _ => None,
            },
            None => match parse_ipv4(rest) {
                Some(ip) => Some((ip, None)),
                None => None,
            },
        }
    }
}

/// Value of an `m=audio ` line after that prefix: `<port> RTP/AVP <pt>[ ...]`.
#[verifier::opaque]
pub open spec fn parse_media(v: Seq<char>) -> Option<(u16, u8)> {
    match split_once(v, ' ') {
        Some((port, r)) => if has_prefix(r, seq!['R', 'T', 'P', '/', 'A', 'V', 'P', ' ']) {
            let r2 = r.skip(8);
            let pt = match split_once(r2, ' ') {
                Some((p, _)) => p,
                None => r2,
            };
            match (bounded_decimal(port, 65535), bounded_decimal(pt, 255)) {
                (Some(p), Some(t)) => Some((p as u16, t as u8)),
                _ => None,
            }
        } else {
            None
        },
        None => None,
    }
}

/// Value of an `a=rtpmap:` line: `<pt> <encoding>/<rate>[/<channels>]` (one channel
/// when the count is left out).
#[verifier::opaque]
pub open spec fn parse_rtpmap(v: Seq<char>) -> Option<(u8, Seq<char>, u32, u16)> {
    match split_once(v, ' ') {
        Some((pt, spec)) => match split_once(spec, '/') {
            Some((enc, r)) => {
                let (rate, ch) = match split_once(r, '/') {
                    Some((a, b)) => (a, bounded_decimal(b, 65535)),
                    None => (r, Some(1nat)),
                };
                match (bounded_decimal(pt, 255), bounded_decimal(rate, 0xffff_ffff), ch) {
                    (Some(p), Some(q), Some(c)) => Some((p as u8, enc, q as u32, c as u16)),
                    _ => None,
                }
            },
            None => None,
        },
        None => None,
    }
}

/// The effect of one SDP line on the fields read so far.
#[verifier::opaque]
pub open spec fn apply_sdp_line(f: SdpFields, line: Seq<char>) -> Result<SdpFields, SdpError> {
    if has_prefix(line, seq!['s', '=']) {
        Ok(SdpFields { session_name: Some(line.skip(2)), ..f })
    } else if has_prefix(line, seq!['c', '=']) {
        match parse_connection(line.skip(2)) {
            Some(c) => Ok(SdpFields { connection: Some(c), ..f }),
            None => Err(SdpError::InvalidConnection),
        }
    } else if has_prefix(line, seq!['m', '=', 'a', 'u', 'd', 'i', 'o', ' ']) {
        match parse_media(line.skip(8)) {
            Some(m) => Ok(SdpFields { media: Some(m), ..f }),
            None => Err(SdpError::InvalidMedia),
        }
    } else if has_prefix(line, seq!['a', '=', 'r', 't', 'p', 'm', 'a', 'p', ':']) {
        match parse_rtpmap(line.skip(9)) {
            Some(r) => Ok(SdpFields { rtpmap: Some(r), ..f }),
            None => Err(SdpError::InvalidRtpmap),
        }
    } else if has_prefix(line, seq!['a', '=', 'p', 't', 'i', 'm', 'e', ':']) {
        match bounded_decimal(line.skip(8), 0xffff_ffff) {
            Some(p) => Ok(SdpFields { ptime: Some(p as u32), ..f }),
            None => Err(SdpError::InvalidPtime),
        }
    } else if has_prefix(
        line,
        seq!['a', '=', 't', 's', '-', 'r', 'e', 'f', 'c', 'l', 'k', ':'],
    ) {
        Ok(SdpFields { ts_refclk: Some(line.skip(12)), ..f })
    } else if has_prefix(line, seq!['a', '=', 'm', 'e', 'd', 'i', 'a', 'c', 'l', 'k', ':']) {
        Ok(SdpFields { mediaclk: Some(line.skip(11)), ..f })
    } else {
        Ok(f)
    }
}

/// The fields after reading `lines` in order from `st`; the first bad line's error
/// ends the reading.
pub open spec fn read_sdp_lines(st: Result<SdpFields, SdpError>, lines: Seq<Seq<char>>) -> Result<
    SdpFields,
    SdpError,
>
    decreases lines.len(),
{
    match st {
        Err(e) => Err(e),
        Ok(f) => if lines.len() == 0 {
            Ok(f)
        } else {
            read_sdp_lines(apply_sdp_line(f, lines[0]), lines.drop_first())
        },
    }
}

/// The fields read describe a supported AES67 stream, or the first reason they do not.
pub open spec fn validate_fields(f: SdpFields) -> Result<SdpFields, SdpError> {
    if f.connection.is_none() {
        Err(SdpError::MissingConnection)
    } else if f.media.is_none() {
        Err(SdpError::MissingMedia)
    } else if f.rtpmap.is_none() {
        Err(SdpError::MissingRtpmap)
    } else if f.rtpmap.unwrap().0 != f.media.unwrap().1 {
        Err(SdpError::PayloadTypeMismatch)
    } else if f.rtpmap.unwrap().1 != seq!['L', '2', '4'] {
        Err(SdpError::UnsupportedEncoding)
    } else if f.rtpmap.unwrap().2 != 48_000 {
        Err(SdpError::UnsupportedSampleRate)
    } else if !(96 <= f.media.unwrap().1 <= 127) {
        Err(SdpError::UnsupportedPayloadType)
    } else if !(1 <= f.rtpmap.unwrap().3 <= 8) {
        Err(SdpError::UnsupportedChannels)
    } else if f.ptime == Some(0u32) {
        Err(SdpError::InvalidPtime)
    } else {
        Ok(f)
    }
}

/// The outcome of reading an SDP text.
pub open spec fn sdp_outcome(s: Seq<char>) -> Result<SdpFields, SdpError> {
    match read_sdp_lines(Ok(empty_fields()), sdp_lines(s)) {
        Ok(f) => validate_fields(f),
        Err(e) => Err(e),
    }
}

/// `o` holds a string with the characters `v`, or nothing when `v` is nothing.
pub open spec fn opt_text_is(o: Option<String>, v: Option<Seq<char>>) -> bool {
    match (o, v) {
        (Some(a), Some(b)) => a@ == b,
        (None, None) => true,
        _ => false,
    }
}

/// `d` describes the stream of the validated fields `f`.
pub open spec fn describes(d: Aes67SessionDescription, f: SdpFields) -> bool {
    &&& opt_text_is(d.session_name, f.session_name)
    &&& d.address@ == f.connection.unwrap().0
    &&& d.ttl == f.connection.unwrap().1
    &&& d.port == f.media.unwrap().0
    &&& d.payload_type == f.media.unwrap().1
    &&& d.encoding == AudioEncoding::L24
    &&& d.sample_rate == f.rtpmap.unwrap().2
    &&& d.channels == f.rtpmap.unwrap().3
    &&& d.packet_time_ms == match f.ptime {
        Some(p) => p,
        None => 1u32,
    }
    &&& opt_text_is(d.ts_refclk, f.ts_refclk)
    &&& opt_text_is(d.mediaclk, f.mediaclk)
}

fn parse_ipv4_chars(s: &[char]) -> (r: Option<[u8; 4]>)
    ensures
        match r {
            Some(a) => parse_ipv4(s@) == Some(a@),
            None => parse_ipv4(s@).is_none(),
        },
{
    reveal(parse_ipv4);
    crate::socket::parse_ipv4_chars(s)
}

fn parse_connection_chars(v: &[char]) -> (r: Option<([u8; 4], Option<u8>)>)
    ensures
        match r {
            Some((ip, t)) => parse_connection(v@) == Some((ip@, t)),
            None => parse_connection(v@).is_none(),
        },
{
    reveal(parse_connection);
    let prefix = ['I', 'N', ' ', 'I', 'P', '4', ' '];
    assert(prefix@ =~= seq!['I', 'N', ' ', 'I', 'P', '4', ' ']);
    let rest = match strip_prefix(v, &prefix) {
        Some(r) => r,
        None => return None,
    };
    match split_at_char(rest, '/') {
        Some((a, t)) => {
            let ip = match parse_ipv4_chars(a) {
                Some(ip) => ip,
                None => return None,
            };
            let ttl = match parse_decimal(t, 255) {
                Some(n) => n,
                None => return None,
            };
            Some((ip, Some(ttl as u8)))
        },
        None => match parse_ipv4_chars(rest) {
            Some(ip) => Some((ip, None)),
            None => None,
        },
    }
}

fn parse_media_chars(v: &[char]) -> (r: Option<(u16, u8)>)
    ensures
        r == parse_media(v@),
{
    reveal(parse_media);
    let (port, r) = match split_at_char(v, ' ') {
        Some(p) => p,
        None => return None,
    };
    let prefix = ['R', 'T', 'P', '/', 'A', 'V', 'P', ' '];
    assert(prefix@ =~= seq!['R', 'T', 'P', '/', 'A', 'V', 'P', ' ']);
    let r2 = match strip_prefix(r, &prefix) {
        Some(x) => x,
        None => return None,
    };
    let pt = match split_at_char(r2, ' ') {
        Some((p, _)) => p,
        None => r2,
    };
    let p = match parse_decimal(port, 65535) {
        Some(n) => n,
        None => return None,
    };
    let t = match parse_decimal(pt, 255) {
        Some(n) => n,
        None => return None,
    };
    Some((p as u16, t as u8))
}

fn parse_rtpmap_chars<'a>(v: &'a [char]) -> (r: Option<(u8, &'a [char], u32, u16)>)
    ensures
        match r {
            Some((p, enc, q, c)) => parse_rtpmap(v@) == Some((p, enc@, q, c)),
            None => parse_rtpmap(v@).is_none(),
        },
{
    reveal(parse_rtpmap);
    let (pt, spec) = match split_at_char(v, ' ') {
        Some(p) => p,
        None => return None,
    };
    let (enc, r) = match split_at_char(spec, '/') {
        Some(p) => p,
        None => return None,
    };
    let (rate, ch) = match split_at_char(r, '/') {
        Some((a, b)) => (a, parse_decimal(b, 65535)),
        None => (r, Some(1u64)),
    };
    let p = match parse_decimal(pt, 255) {
        Some(n) => n,
        None => return None,
    };
    let q = match parse_decimal(rate, 0xffff_ffff) {
        Some(n) => n,
        None => return None,
    };
    let c = match ch {
        Some(n) => n,
        None => return None,
    };
    Some((p as u8, enc, q as u32, c as u16))
}

/// The fields an SDP text sets, as slices of its characters.
struct SdpScan<'a> {
    session_name: Option<&'a [char]>,
    connection: Option<([u8; 4], Option<u8>)>,
    media: Option<(u16, u8)>,
    rtpmap: Option<(u8, &'a [char], u32, u16)>,
    ptime: Option<u32>,
    ts_refclk: Option<&'a [char]>,
    mediaclk: Option<&'a [char]>,
}

spec fn opt_chars(o: Option<&[char]>) -> Option<Seq<char>> {
    match o {
        Some(s) => Some(s@),
        None => None,
    }
}

spec fn scan_view(sc: SdpScan) -> SdpFields {
    SdpFields {
        session_name: opt_chars(sc.session_name),
        connection: match sc.connection {
            Some((ip, t)) => Some((ip@, t)),
            None => None,
        },
        media: sc.media,
        rtpmap: match sc.rtpmap {
            Some((p, enc, q, c)) => Some((p, enc@, q, c)),
            None => None,
        },
        ptime: sc.ptime,
        ts_refclk: opt_chars(sc.ts_refclk),
        mediaclk: opt_chars(sc.mediaclk),
    }
}

fn apply_line<'a>(sc: &mut SdpScan<'a>, line: &'a [char]) -> (r: Result<(), SdpError>)
    ensures
        match apply_sdp_line(scan_view(*old(sc)), line@) {
            Ok(f) => r is Ok && scan_view(*final(sc)) == f,
            Err(e) => r == Err::<(), SdpError>(e),
        },
{
    reveal(apply_sdp_line);
    let s_prefix = ['s', '='];
    let c_prefix = ['c', '='];
    let m_prefix = ['m', '=', 'a', 'u', 'd', 'i', 'o', ' '];
    let rtpmap_prefix = ['a', '=', 'r', 't', 'p', 'm', 'a', 'p', ':'];
    let ptime_prefix = ['a', '=', 'p', 't', 'i', 'm', 'e', ':'];
    let refclk_prefix = ['a', '=', 't', 's', '-', 'r', 'e', 'f', 'c', 'l', 'k', ':'];
    let mediaclk_prefix = ['a', '=', 'm', 'e', 'd', 'i', 'a', 'c', 'l', 'k', ':'];
    assert(s_prefix@ =~= seq!['s', '=']);
    assert(c_prefix@ =~= seq!['c', '=']);
    assert(m_prefix@ =~= seq!['m', '=', 'a', 'u', 'd', 'i', 'o', ' ']);
    assert(rtpmap_prefix@ =~= seq!['a', '=', 'r', 't', 'p', 'm', 'a', 'p', ':']);
    assert(ptime_prefix@ =~= seq!['a', '=', 'p', 't', 'i', 'm', 'e', ':']);
    assert(refclk_prefix@ =~= seq!['a', '=', 't', 's', '-', 'r', 'e', 'f', 'c', 'l', 'k', ':']);
    assert(mediaclk_prefix@ =~= seq!['a', '=', 'm', 'e', 'd', 'i', 'a', 'c', 'l', 'k', ':']);
    if let Some(v) = strip_prefix(line, &s_prefix) {
        sc.session_name = Some(v);
        return Ok(());
    }
    if let Some(v) = strip_prefix(line, &c_prefix) {
        match parse_connection_chars(v) {
            Some(c) => {
                sc.connection = Some(c);
                return Ok(());
            },
            None => return Err(SdpError::InvalidConnection),
        }
    }
    if let Some(v) = strip_prefix(line, &m_prefix) {
        match parse_media_chars(v) {
            Some(m) => {
                sc.media = Some(m);
                return Ok(());
            },
            None => return Err(SdpError::InvalidMedia),
        }
    }
    if let Some(v) = strip_prefix(line, &rtpmap_prefix) {
        match parse_rtpmap_chars(v) {
            Some(m) => {
                sc.rtpmap = Some(m);
                return Ok(());
            },
            None => return Err(SdpError::InvalidRtpmap),
        }
    }
    if let Some(v) = strip_prefix(line, &ptime_prefix) {
        match parse_decimal(v, 0xffff_ffff) {
            Some(p) => {
                sc.ptime = Some(p as u32);
                return Ok(());
            },
            None => return Err(SdpError::InvalidPtime),
        }
    }
    if let Some(v) = strip_prefix(line, &refclk_prefix) {
        sc.ts_refclk = Some(v);
        return Ok(());
    }
    if let Some(v) = strip_prefix(line, &mediaclk_prefix) {
        sc.mediaclk = Some(v);
        return Ok(());
    }
    Ok(())
}

fn opt_string(o: Option<&[char]>) -> (r: Option<String>)
    ensures
        opt_text_is(r, opt_chars(o)),
{
    match o {
        Some(s) => Some(string_from_chars(s)),
        None => None,
    }
}

/// Read an SDP text. Lines may end in CRLF or LF; lines of other kinds, and `m=` lines
/// of other media, are skipped; a malformed line of a kind that is read is an error;
/// a later line of a kind replaces an earlier one. The stream must then be L24 at
/// 48 kHz, with a dynamic payload type that the `rtpmap` and media line agree on, and
/// 1 to 8 channels; `ptime` defaults to 1 ms.
pub fn parse_sdp(sdp: &str) -> (r: Result<Aes67SessionDescription, SdpError>)
    ensures
        match sdp_outcome(sdp@) {
            Ok(f) => r matches Ok(d) && describes(d, f),
            Err(e) => r == Err::<Aes67SessionDescription, SdpError>(e),
        },
{
    let chars = chars_of(sdp);
    let s = chars.as_slice();
    let n = s.len();
    let mut sc = SdpScan {
        session_name: None,
        connection: None,
        media: None,
        rtpmap: None,
        ptime: None,
        ts_refclk: None,
        mediaclk: None,
    };
    let mut pos: usize = 0;
    assert(s@.skip(0) =~= s@);
    while pos < n
        invariant
            n == s@.len(),
            s@ == sdp@,
            pos <= n,
            read_sdp_lines(Ok(empty_fields()), sdp_lines(s@)) == read_sdp_lines(
                Ok(scan_view(sc)),
                sdp_lines(s@.skip(pos as int)),
            ),
        decreases n - pos,
    {
        let rest = char_range(s, pos, n);
        let ghost rs = s@.skip(pos as int);
        assert(rest@ =~= rs);
        let (line_end, next) = match find_char(rest, '\n') {
            Some(i) => (pos + i, pos + i + 1),
            None => (n, n),
        };
        let mut line = char_range(s, pos, line_end);
        if line.len() > 0 && line[line.len() - 1] == '\r' {
            line = char_range(s, pos, line_end - 1);
        }
        proof {
            let i = first_index(rs, '\n');
            if 0 <= i < rs.len() {
                assert(line_end == pos + i);
                assert(s@.subrange(pos as int, line_end as int) =~= rs.take(i));
                assert(rs.skip(i + 1) =~= s@.skip(next as int));
                if rs.take(i).len() > 0 && rs.take(i).last() == '\r' {
                    assert(line@ =~= rs.take(i).drop_last());
                } else {
                    assert(line@ =~= rs.take(i));
                }
                assert(line@ == strip_cr(rs.take(i)));
                assert(sdp_lines(rs) == seq![line@] + sdp_lines(s@.skip(next as int)));
            } else {
                assert(line_end == n);
                assert(s@.subrange(pos as int, n as int) =~= rs);
                if rs.len() > 0 && rs.last() == '\r' {
                    assert(line@ =~= rs.drop_last());
                } else {
                    assert(line@ =~= rs);
                }
                assert(line@ == strip_cr(rs));
                assert(s@.skip(next as int) =~= Seq::<char>::empty());
                assert(sdp_lines(Seq::<char>::empty()) =~= Seq::<Seq<char>>::empty());
                assert(sdp_lines(rs) =~= seq![line@] + sdp_lines(s@.skip(next as int)));
            }
            let lines = sdp_lines(rs);
            assert(lines[0] == line@);
            assert(lines.drop_first() =~= sdp_lines(s@.skip(next as int)));
        }
        let ghost before = scan_view(sc);
        match apply_line(&mut sc, line) {
            Ok(()) => {},
            Err(e) => {
                proof {
                    assert(read_sdp_lines(apply_sdp_line(before, line@), sdp_lines(s@.skip(next as int))) == Err::<SdpFields, SdpError>(e));
                }
                return Err(e);
            },
        }
        pos = next;
    }
    proof {
        assert(s@.skip(pos as int) =~= Seq::<char>::empty());
        assert(sdp_lines(Seq::<char>::empty()) =~= Seq::<Seq<char>>::empty());
    }
    let (address, ttl) = match sc.connection {
        Some(c) => c,
        None => return Err(SdpError::MissingConnection),
    };
    let (port, payload_type) = match sc.media {
        Some(m) => m,
        None => return Err(SdpError::MissingMedia),
    };
    let (map_pt, encoding, sample_rate, channels) = match sc.rtpmap {
        Some(m) => m,
        None => return Err(SdpError::MissingRtpmap),
    };
    if map_pt != payload_type {
        return Err(SdpError::PayloadTypeMismatch);
    }
    let l24 = ['L', '2', '4'];
    assert(l24@ =~= seq!['L', '2', '4']);
    if !(encoding.len() == 3 && crate::text::starts_with(encoding, &l24)) {
        proof {
            if encoding@ == seq!['L', '2', '4'] {
                assert(encoding@.take(3) =~= encoding@);
            }
        }
        return Err(SdpError::UnsupportedEncoding);
    }
    assert(encoding@ =~= seq!['L', '2', '4']) by {
        assert(encoding@.take(3) =~= encoding@);
    }
    if sample_rate != 48_000 {
        return Err(SdpError::UnsupportedSampleRate);
    }
    if !(96 <= payload_type && payload_type <= 127) {
        return Err(SdpError::UnsupportedPayloadType);
    }
    if !(1 <= channels && channels <= 8) {
        return Err(SdpError::UnsupportedChannels);
    }
    let packet_time_ms = match sc.ptime {
        Some(0) => return Err(SdpError::InvalidPtime),
        Some(p) => p,
        None => 1,
    };
    Ok(
        Aes67SessionDescription {
            session_name: opt_string(sc.session_name),
            address,
            ttl,
            port,
            payload_type,
            encoding: AudioEncoding::L24,
            sample_rate,
            channels,
            packet_time_ms,
            ts_refclk: opt_string(sc.ts_refclk),
            mediaclk: opt_string(sc.mediaclk),
        },
    )
}

/// The text of an optional string.
pub open spec fn opt_text(o: Option<String>) -> Option<Seq<char>> {
    match o {
        Some(s) => Some(s@),
        None => None,
    }
}

/// A session description with its strings and address taken by their views.
pub struct SessionView {
    pub session_name: Option<Seq<char>>,
    pub address: Seq<u8>,
    pub ttl: Option<u8>,
    pub port: u16,
    pub payload_type: u8,
    pub encoding: AudioEncoding,
    pub sample_rate: u32,
    pub channels: u16,
    pub packet_time_ms: u32,
    pub ts_refclk: Option<Seq<char>>,
    pub mediaclk: Option<Seq<char>>,
}

/// The view of a session description.
pub open spec fn session_view(d: Aes67SessionDescription) -> SessionView {
    SessionView {
        session_name: opt_text(d.session_name),
        address: d.address@,
        ttl: d.ttl,
        port: d.port,
        payload_type: d.payload_type,
        encoding: d.encoding,
        sample_rate: d.sample_rate,
        channels: d.channels,
        packet_time_ms: d.packet_time_ms,
        ts_refclk: opt_text(d.ts_refclk),
        mediaclk: opt_text(d.mediaclk),
    }
}

/// The view of an optional session description.
pub open spec fn opt_session_view(o: Option<Aes67SessionDescription>) -> Option<SessionView> {
    match o {
        Some(d) => Some(session_view(d)),
        None => None,
    }
}

/// A copy of an optional string.
pub fn copy_opt_string(o: &Option<String>) -> (r: Option<String>)
    ensures
        opt_text(r) == opt_text(*o),
{
    match o {
        Some(s) => Some(s.clone()),
        None => None,
    }
}

/// Whether two optional strings hold the same text.
pub fn same_opt_string(a: &Option<String>, b: &Option<String>) -> (r: bool)
    ensures
        r == (opt_text(*a) == opt_text(*b)),
{
    match (a, b) {
        (Some(x), Some(y)) => x.eq(y),
        (None, None) => true,
        _ => false,
    }
}

impl Aes67SessionDescription {
    /// A copy of the description.
    pub fn duplicate(&self) -> (d: Self)
        ensures
            session_view(d) == session_view(*self),
    {
        Aes67SessionDescription {
            session_name: copy_opt_string(&self.session_name),
            address: self.address,
            ttl: self.ttl,
            port: self.port,
            payload_type: self.payload_type,
            encoding: self.encoding,
            sample_rate: self.sample_rate,
            channels: self.channels,
            packet_time_ms: self.packet_time_ms,
            ts_refclk: copy_opt_string(&self.ts_refclk),
            mediaclk: copy_opt_string(&self.mediaclk),
        }
    }

    /// Whether two descriptions describe the same stream in the same words.
    pub fn same_as(&self, other: &Self) -> (r: bool)
        ensures
            r == (session_view(*self) == session_view(*other)),
    {
        let r = same_opt_string(&self.session_name, &other.session_name) && self.address[0]
            == other.address[0] && self.address[1] == other.address[1] && self.address[2]
            == other.address[2] && self.address[3] == other.address[3] && self.ttl == other.ttl
            && self.port == other.port && self.payload_type == other.payload_type
            && self.encoding == other.encoding && self.sample_rate == other.sample_rate
            && self.channels == other.channels && self.packet_time_ms == other.packet_time_ms
            && same_opt_string(&self.ts_refclk, &other.ts_refclk) && same_opt_string(
            &self.mediaclk,
            &other.mediaclk,
        );
        proof {
            if session_view(*self) == session_view(*other) {
                assert(self.address@[0] == other.address@[0]);
                assert(self.address@[1] == other.address@[1]);
                assert(self.address@[2] == other.address@[2]);
                assert(self.address@[3] == other.address@[3]);
            }
            if r {
                assert(self.address@ =~= other.address@);
            }
        }
        r
    }
}

} // verus!
