//! UDP socket settings and the address rules of the streamer and player.

use vstd::prelude::*;
use crate::text::string_from_chars;
use crate::sdp::chars_of;

verus! {

/// DSCP value of RTP media packets (AF41).
pub const RTP_DSCP: u8 = 34;

/// Error for a DSCP value outside 0..=63.
#[derive(Debug, Clone, Copy, PartialEq, Eq, Structural)]
pub struct DscpOutOfRange {
    pub dscp: u8,
}

/// IPv4 TOS byte for a DSCP value: the DSCP occupies the upper six bits.
pub fn dscp_to_tos(dscp: u8) -> (res: Result<u32, DscpOutOfRange>)
    ensures
        dscp <= 63 ==> res == Ok::<u32, DscpOutOfRange>((dscp as u32 * 4) as u32),
        dscp > 63 ==> res == Err::<u32, DscpOutOfRange>(DscpOutOfRange { dscp }),
{
    if dscp > 63 {
        return Err(DscpOutOfRange { dscp });
    }
    let tos = (dscp as u32) << 2u32;
    assert(tos == (dscp as u32) * 4) by (bit_vector)
        requires
            tos == (dscp as u32) << 2u32,
            dscp <= 63,
    ;
    Ok(tos)
}

/// Socket options applied to a UDP socket.
#[derive(Debug, Clone, Copy, PartialEq, Eq, Structural)]
pub struct UdpSocketDefaults {
    pub reuse_address: bool,
    pub reuse_port: bool,
    pub multicast_loop_v4: bool,
    pub send_buffer_size: Option<usize>,
    pub recv_buffer_size: Option<usize>,
}

/// Multicast sender configuration: group, port, local interface address, TTL and send
/// buffer size.
#[derive(Debug, Clone, Copy, PartialEq, Eq)]
pub struct MulticastConfig {
    pub multicast_addr: [u8; 4],
    pub port: u16,
    pub local_addr: [u8; 4],
    pub ttl: u8,
    pub send_buffer_size: usize,
}

impl MulticastConfig {
    /// A configuration with the AES67 defaults: TTL 32 and a 64 KiB send buffer.
    pub fn new(multicast_addr: [u8; 4], port: u16, local_addr: [u8; 4]) -> (c: Self)
        ensures
            c == (MulticastConfig { multicast_addr, port, local_addr, ttl: 32, send_buffer_size: 65536 }),
    {
        MulticastConfig { multicast_addr, port, local_addr, ttl: 32, send_buffer_size: 65536 }
    }

    /// Destination address and port.
    pub fn multicast_socket_addr(&self) -> (a: ([u8; 4], u16))
        ensures
            a == (self.multicast_addr, self.port),
    {
        (self.multicast_addr, self.port)
    }

    /// Local bind address; port 0 lets the system choose.
    pub fn local_socket_addr(&self) -> (a: ([u8; 4], u16))
        ensures
            a == (self.local_addr, 0u16),
    {
        (self.local_addr, 0)
    }
}

/// One octet of a dotted quad as std's `Ipv4Addr` parser reads it: one to three
/// digits without a leading zero, at most 255.
pub open spec fn quad_octet(s: Seq<char>) -> Option<u8> {
    if 1 <= s.len() <= 3 && (s.len() == 1 || s[0] != '0') {
        match crate::text::bounded_decimal(s, 255) {
            Some(v) => Some(v as u8),
            None => None,
        }
    } else {
        None
    }
}

/// The octets of a dotted-quad IPv4 address text, or nothing when it is not one.
pub open spec fn ipv4_text_octets(s: Seq<char>) -> Option<Seq<u8>> {
    match crate::text::split_once(s, '.') {
        Some((a, r1)) => match crate::text::split_once(r1, '.') {
            Some((b, r2)) => match crate::text::split_once(r2, '.') {
                Some((c, d)) => match (quad_octet(a), quad_octet(b), quad_octet(c), quad_octet(d)) {
                    (Some(x), Some(y), Some(z), Some(w)) => Some(seq![x, y, z, w]),
                    _ => None,
                },
                None => None,
            },
            None => None,
        },
        None => None,
    }
}

fn quad_octet_exec(s: &[char]) -> (r: Option<u8>)
    ensures
        r == quad_octet(s@),
{
    if !(1 <= s.len() && s.len() <= 3 && (s.len() == 1 || s[0] != '0')) {
        return None;
    }
    match crate::text::parse_decimal(s, 255) {
        Some(v) => Some(v as u8),
        None => None,
    }
}

/// The address that a dotted-quad text denotes.
pub fn parse_ipv4_chars(s: &[char]) -> (r: Option<[u8; 4]>)
    ensures
        match r {
            Some(a) => ipv4_text_octets(s@) == Some(a@),
            None => ipv4_text_octets(s@).is_none(),
        },
{
    let (a, r1) = match crate::text::split_at_char(s, '.') {
        Some(p) => p,
        None => return None,
    };
    let (b, r2) = match crate::text::split_at_char(r1, '.') {
        Some(p) => p,
        None => return None,
    };
    let (c, d) = match crate::text::split_at_char(r2, '.') {
        Some(p) => p,
        None => return None,
    };
    let (x, y, z, w) = match (quad_octet_exec(a), quad_octet_exec(b), quad_octet_exec(c), quad_octet_exec(d)) {
        (Some(x), Some(y), Some(z), Some(w)) => (x, y, z, w),
        _ => return None,
    };
    let ip = [x, y, z, w];
    assert(ip@ =~= seq![x, y, z, w]);
    Some(ip)
}

fn parse_ipv4_text(s: &str) -> (r: Option<[u8; 4]>)
    ensures
        match r {
            Some(a) => ipv4_text_octets(s@) == Some(a@),
            None => ipv4_text_octets(s@).is_none(),
        },
{
    let chars = chars_of(s);
    parse_ipv4_chars(chars.as_slice())
}

/// Errors of stream and interface addresses.
#[derive(Debug, Clone, Copy, PartialEq, Eq)]
pub enum AddressError {
    /// The text is not an IPv4 address.
    InvalidAddress,
    /// A stream address that is neither multicast nor loopback.
    NotMulticastOrLoopback { address: [u8; 4] },
    /// A blank interface name.
    EmptyInterface,
}

/// 224.0.0.0/4.
pub open spec fn is_multicast(a: Seq<u8>) -> bool {
    224 <= a[0] <= 239
}

/// 127.0.0.0/8.
pub open spec fn is_loopback(a: Seq<u8>) -> bool {
    a[0] == 127
}

/// A stream address must be multicast, or loopback for local tests.
pub fn check_stream_address(ip: [u8; 4]) -> (r: Result<[u8; 4], AddressError>)
    ensures
        (is_multicast(ip@) || is_loopback(ip@)) ==> r == Ok::<[u8; 4], AddressError>(ip),
        !(is_multicast(ip@) || is_loopback(ip@)) ==> r == Err::<[u8; 4], AddressError>(
            AddressError::NotMulticastOrLoopback { address: ip },
        ),
{
    if (224 <= ip[0] && ip[0] <= 239) || ip[0] == 127 {
        Ok(ip)
    } else {
        Err(AddressError::NotMulticastOrLoopback { address: ip })
    }
}

/// Parse and check a stream address.
pub fn parse_stream_address(address: &str) -> (r: Result<[u8; 4], AddressError>)
    ensures
        match ipv4_text_octets(address@) {
            None => r == Err::<[u8; 4], AddressError>(AddressError::InvalidAddress),
            Some(o) => if is_multicast(o) || is_loopback(o) {
                r matches Ok(a) && a@ == o
            } else {
                r matches Err(AddressError::NotMulticastOrLoopback { address: a }) && a@ == o
            },
        },
{
    match parse_ipv4_text(address) {
        Some(ip) => check_stream_address(ip),
        None => Err(AddressError::InvalidAddress),
    }
}

/// What an interface argument names.
#[derive(Debug, Clone, PartialEq, Eq)]
pub enum InterfaceChoice {
    /// An IPv4 address given directly.
    Address([u8; 4]),
    /// An interface name, to be looked up among the system's interfaces.
    Named(String),
}

/// `c` lower-cases to the ASCII letter `w` (for the letters of `lo` and `loopback`,
/// whose only other upper-case forms are ASCII, and the Kelvin sign for `k`).
pub open spec fn lowers_to(c: char, w: char) -> bool {
    c == w || ((c as u32) + 32 == w as u32 && 'A' <= c <= 'Z') || (w == 'k' && c == '\u{212a}')
}

/// `s` lower-cases to the word `w`.
pub open spec fn lowers_to_word(s: Seq<char>, w: Seq<char>) -> bool {
    s.len() == w.len() && forall|i: int| 0 <= i < s.len() ==> lowers_to(s[i], w[i])
}

/// The loopback interface names.
pub open spec fn names_loopback(s: Seq<char>) -> bool {
    lowers_to_word(s, seq!['l', 'o']) || lowers_to_word(
        s,
        seq!['l', 'o', 'o', 'p', 'b', 'a', 'c', 'k'],
    )
}

fn lowers_to_exec(c: char, w: char) -> (r: bool)
    requires
        'a' <= w <= 'z',
    ensures
        r == lowers_to(c, w),
{
    c == w || ('A' <= c && c <= 'Z' && (c as u32) + 32 == w as u32) || (w == 'k' && c == '\u{212a}')
}

fn lowers_to_word_exec(s: &[char], w: &[char]) -> (r: bool)
    requires
        forall|i: int| 0 <= i < w@.len() ==> 'a' <= #[trigger] w@[i] <= 'z',
    ensures
        r == lowers_to_word(s@, w@),
{
    if s.len() != w.len() {
        return false;
    }
    let mut i: usize = 0;
    while i < s.len()
        invariant
            s@.len() == w@.len(),
            i <= s@.len(),
            forall|j: int| 0 <= j < w@.len() ==> 'a' <= #[trigger] w@[j] <= 'z',
            forall|j: int| 0 <= j < i ==> lowers_to(s@[j], w@[j]),
        decreases s@.len() - i,
    {
        if !lowers_to_exec(s[i], w[i]) {
            return false;
        }
        i = i + 1;
    }
    true
}

/// `r` classifies the interface argument `s`: blank is an error, an IPv4 address is taken
/// as is, `lo` and `loopback` (in any case) are 127.0.0.1, and anything else is a name to
/// look up. Surrounding white space is ignored.
pub open spec fn interface_classified(s: Seq<char>, r: Result<InterfaceChoice, AddressError>) -> bool {
    let t = crate::sap::trim_end(crate::sap::trim_start(s));
    if t.len() == 0 {
        r == Err::<InterfaceChoice, AddressError>(AddressError::EmptyInterface)
    } else {
        match ipv4_text_octets(t) {
            Some(o) => r matches Ok(InterfaceChoice::Address(a)) && a@ == o,
            None => if names_loopback(t) {
                r matches Ok(InterfaceChoice::Address(a)) && a@ == seq![127u8, 0u8, 0u8, 1u8]
            } else {
                r matches Ok(InterfaceChoice::Named(n)) && n@ == t
            },
        }
    }
}

/// Classify an interface argument (see `interface_classified`).
pub fn classify_interface(interface_name: &str) -> (r: Result<InterfaceChoice, AddressError>)
    ensures
        interface_classified(interface_name@, r),
{
    let chars = chars_of(interface_name);
    let trimmed = trim_chars(chars.as_slice());
    if trimmed.len() == 0 {
        return Err(AddressError::EmptyInterface);
    }
    let text = string_from_chars(trimmed.as_slice());
    if let Some(ip) = parse_ipv4_chars(trimmed.as_slice()) {
        return Ok(InterfaceChoice::Address(ip));
    }
    let lo = ['l', 'o'];
    let loopback = ['l', 'o', 'o', 'p', 'b', 'a', 'c', 'k'];
    assert(lo@ =~= seq!['l', 'o']);
    assert(loopback@ =~= seq!['l', 'o', 'o', 'p', 'b', 'a', 'c', 'k']);
    if lowers_to_word_exec(trimmed.as_slice(), &lo) || lowers_to_word_exec(trimmed.as_slice(), &loopback) {
        let a = [127u8, 0u8, 0u8, 1u8];
        assert(a@ =~= seq![127u8, 0u8, 0u8, 1u8]);
        return Ok(InterfaceChoice::Address(a));
    }
    Ok(InterfaceChoice::Named(text))
}

/// `s` without leading and trailing white space.
pub(crate) fn trim_chars(s: &[char]) -> (r: Vec<char>)
    ensures
        r@ == crate::sap::trim_end(crate::sap::trim_start(s@)),
{
    let n = s.len();
    let mut start: usize = 0;
    assert(s@.skip(0) =~= s@);
    while start < n && crate::sap::is_white_space_char(s[start])
        invariant
            n == s@.len(),
            start <= n,
            crate::sap::trim_start(s@) == crate::sap::trim_start(s@.skip(start as int)),
        decreases n - start,
    {
        assert(s@.skip(start as int).drop_first() =~= s@.skip(start + 1));
        start = start + 1;
    }
    let mut end: usize = n;
    assert(s@.skip(start as int) =~= s@.subrange(start as int, n as int));
    while end > start && crate::sap::is_white_space_char(s[end - 1])
        invariant
            n == s@.len(),
            start <= end <= n,
            crate::sap::trim_end(s@.skip(start as int)) == crate::sap::trim_end(
                s@.subrange(start as int, end as int),
            ),
        decreases end,
    {
        assert(s@.subrange(start as int, end as int).drop_last() =~= s@.subrange(
            start as int,
            end - 1,
        ));
        end = end - 1;
    }
    let mut out: Vec<char> = Vec::new();
    let mut i: usize = start;
    while i < end
        invariant
            start <= i <= end <= n,
            n == s@.len(),
            out@ == s@.subrange(start as int, i as int),
        decreases end - i,
    {
        out.push(s[i]);
        assert(s@.subrange(start as int, i + 1) =~= s@.subrange(start as int, i as int).push(s@[i as int]));
        i = i + 1;
    }
    out
}

} // verus!
