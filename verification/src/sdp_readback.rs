//! What a receiver reads back from the SDP that a streamer builds.

use vstd::prelude::*;
use crate::text::{bounded_decimal, decimal_value, digit_value, digits_value, first_index, has_prefix, is_digit, lemma_first_index, split_once};
use crate::stream::{decimal_text, digit_char, ipv4_text, hex_char, identity_text, sdp_text, SdpContext};
use crate::ptp_messages::{identity_bytes, ClockIdentity};
use crate::sap::{lemma_sap_announcement_roundtrip, sap_packet_bytes, sap_parsed, SapError, SapMessage};
use crate::sdp::{describes, parse_connection, parse_ipv4, parse_media, parse_rtpmap, sdp_lines, strip_cr, read_sdp_lines, apply_sdp_line, sdp_outcome, empty_fields, validate_fields, SdpFields, SdpError};

verus! {

/// `c` does not occur in `s`.
pub open spec fn lacks(s: Seq<char>, c: char) -> bool {
    forall|i: int| 0 <= i < s.len() ==> s[i] != c
}

/// Every character of `s` is a decimal digit.
pub open spec fn all_digits(s: Seq<char>) -> bool {
    forall|i: int| 0 <= i < s.len() ==> is_digit(s[i])
}

proof fn lemma_digit_char(d: nat)
    requires
        d < 10,
    ensures
        is_digit(digit_char(d)),
        digit_value(digit_char(d)) == d,
{
}

/// The decimal text of `n` is a nonempty run of digits whose value is `n`.
pub proof fn lemma_decimal_text(n: nat)
    ensures
        decimal_text(n).len() > 0,
        all_digits(decimal_text(n)),
        digits_value(decimal_text(n)) == n,
    decreases n,
{
    if n < 10 {
        lemma_digit_char(n);
        let t = decimal_text(n);
        assert(t.drop_last() =~= Seq::<char>::empty());
        assert(digits_value(t.drop_last()) == 0);
        assert(digits_value(t) == digits_value(t.drop_last()) * 10 + digit_value(t.last()));
    } else {
        lemma_decimal_text(n / 10);
        lemma_digit_char(n % 10);
        let t = decimal_text(n);
        assert(t.drop_last() =~= decimal_text(n / 10));
        assert(t.last() == digit_char(n % 10));
        assert(digits_value(t) == digits_value(t.drop_last()) * 10 + digit_value(t.last()));
        assert((n / 10) * 10 + n % 10 == n) by (nonlinear_arith);
    }
}

/// The decimal text of `n` reads back as `n` wherever `n` is within the bound.
pub proof fn lemma_decimal_text_reads_back(n: nat, max: nat)
    requires
        n <= max,
    ensures
        decimal_value(decimal_text(n)) == Some(n),
        bounded_decimal(decimal_text(n), max) == Some(n),
{
    lemma_decimal_text(n);
}

/// The decimal text of an octet is one to three digits without a leading zero, so it
/// reads back as a dotted-quad octet.
proof fn lemma_octet_text(n: u8)
    ensures
        crate::socket::quad_octet(decimal_text(n as nat)) == Some(n),
{
    let t = decimal_text(n as nat);
    lemma_decimal_text_reads_back(n as nat, 255);
    if n < 10 {
        assert(t.len() == 1);
    } else if n < 100 {
        let h = (n as nat) / 10;
        assert(t == decimal_text(h).push(digit_char((n as nat) % 10)));
        assert(decimal_text(h) == seq![digit_char(h)]);
        assert(t[0] == digit_char(h));
        assert(t.len() == 2);
    } else {
        let h = (n as nat) / 10;
        let hh = h / 10;
        assert(10 <= h < 26);
        assert(1 <= hh < 3);
        assert(decimal_text(h) == decimal_text(hh).push(digit_char(h % 10)));
        assert(decimal_text(hh) == seq![digit_char(hh)]);
        assert(t == decimal_text(h).push(digit_char((n as nat) % 10)));
        assert(t[0] == digit_char(hh));
        assert(t.len() == 3);
    }
}

/// Digits are none of the separators of an SDP line.
proof fn lemma_digits_lack_separators(s: Seq<char>)
    requires
        all_digits(s),
    ensures
        lacks(s, '\n'),
        lacks(s, ' '),
        lacks(s, '.'),
        lacks(s, '/'),
        lacks(s, ':'),
{
}

/// A text split at a separator that its first part lacks.
proof fn lemma_split_once_at(a: Seq<char>, c: char, b: Seq<char>)
    requires
        lacks(a, c),
    ensures
        split_once(a + seq![c] + b, c) == Some((a, b)),
{
    let s = a + seq![c] + b;
    lemma_first_index(s, c, a.len() as int);
    assert(s.take(a.len() as int) =~= a);
    assert(s.skip(a.len() as int + 1) =~= b);
}

/// A text without the separator does not split.
proof fn lemma_split_once_absent(a: Seq<char>, c: char)
    requires
        lacks(a, c),
    ensures
        split_once(a, c) is None,
{
    reveal(first_index);
}

/// The dotted-quad text of an address reads back as the address.
pub proof fn lemma_ipv4_text_reads_back(a: Seq<u8>)
    requires
        a.len() == 4,
    ensures
        parse_ipv4(ipv4_text(a)) == Some(a),
        all_digits_or_dots(ipv4_text(a)),
{
    reveal(parse_ipv4);
    let d0 = decimal_text(a[0] as nat);
    let d1 = decimal_text(a[1] as nat);
    let d2 = decimal_text(a[2] as nat);
    let d3 = decimal_text(a[3] as nat);
    lemma_decimal_text_reads_back(a[0] as nat, 255);
    lemma_decimal_text_reads_back(a[1] as nat, 255);
    lemma_decimal_text_reads_back(a[2] as nat, 255);
    lemma_decimal_text_reads_back(a[3] as nat, 255);
    lemma_octet_text(a[0]);
    lemma_octet_text(a[1]);
    lemma_octet_text(a[2]);
    lemma_octet_text(a[3]);
    lemma_digits_lack_separators(d0);
    lemma_digits_lack_separators(d1);
    lemma_digits_lack_separators(d2);
    lemma_digits_lack_separators(d3);
    let t = ipv4_text(a);
    let r1 = d1 + seq!['.'] + d2 + seq!['.'] + d3;
    let r2 = d2 + seq!['.'] + d3;
    assert(t =~= d0 + seq!['.'] + r1);
    assert(r1 =~= d1 + seq!['.'] + r2);
    lemma_split_once_at(d0, '.', r1);
    lemma_split_once_at(d1, '.', r2);
    lemma_split_once_at(d2, '.', d3);
    assert(seq![a[0], a[1], a[2], a[3]] =~= a);
}

/// Every character of `s` is a digit or a dot.
pub open spec fn all_digits_or_dots(s: Seq<char>) -> bool {
    forall|i: int| 0 <= i < s.len() ==> is_digit(s[i]) || s[i] == '.'
}

/// Digits and dots are none of the other separators.
proof fn lemma_digits_or_dots_lack_separators(s: Seq<char>)
    requires
        all_digits_or_dots(s),
    ensures
        lacks(s, '\n'),
        lacks(s, ' '),
        lacks(s, '/'),
{
}

/// `p + v` starts with `p`, and what follows `p` is `v`.
proof fn lemma_prefix_of_concat(p: Seq<char>, v: Seq<char>)
    ensures
        has_prefix(p + v, p),
        (p + v).skip(p.len() as int) == v,
{
    assert((p + v).take(p.len() as int) =~= p);
    assert((p + v).skip(p.len() as int) =~= v);
}

/// The value of a `c=` line that names group `a` with TTL `ttl`.
pub open spec fn connection_value(a: Seq<u8>, ttl: u8) -> Seq<char> {
    seq!['I', 'N', ' ', 'I', 'P', '4', ' '] + ipv4_text(a) + seq!['/'] + decimal_text(ttl as nat)
}

/// The value of a `c=` line that the streamer writes reads back as its group and TTL.
pub proof fn lemma_connection_reads_back(a: Seq<u8>, ttl: u8)
    requires
        a.len() == 4,
    ensures
        parse_connection(connection_value(a, ttl)) == Some((a, Some(ttl))),
{
    reveal(parse_connection);
    let p = seq!['I', 'N', ' ', 'I', 'P', '4', ' '];
    let ip = ipv4_text(a);
    let t = decimal_text(ttl as nat);
    let rest = ip + seq!['/'] + t;
    assert(connection_value(a, ttl) =~= p + rest);
    lemma_prefix_of_concat(p, rest);
    lemma_ipv4_text_reads_back(a);
    lemma_digits_or_dots_lack_separators(ip);
    lemma_split_once_at(ip, '/', t);
    lemma_decimal_text_reads_back(ttl as nat, 255);
}

/// The value of an `m=audio ` line for port `port` and payload type `pt`.
pub open spec fn media_value(port: u16, pt: u8) -> Seq<char> {
    decimal_text(port as nat) + seq![' ', 'R', 'T', 'P', '/', 'A', 'V', 'P', ' '] + decimal_text(pt as nat)
}

/// The value of an `m=audio ` line that the streamer writes reads back as its port and
/// payload type.
pub proof fn lemma_media_reads_back(port: u16, pt: u8)
    ensures
        parse_media(media_value(port, pt)) == Some((port, pt)),
{
    reveal(parse_media);
    let dp = decimal_text(port as nat);
    let dt = decimal_text(pt as nat);
    let avp = seq!['R', 'T', 'P', '/', 'A', 'V', 'P', ' '];
    lemma_decimal_text_reads_back(port as nat, 65535);
    lemma_decimal_text_reads_back(pt as nat, 255);
    lemma_digits_lack_separators(dp);
    lemma_digits_lack_separators(dt);
    assert(media_value(port, pt) =~= dp + seq![' '] + (avp + dt));
    lemma_split_once_at(dp, ' ', avp + dt);
    lemma_prefix_of_concat(avp, dt);
    lemma_split_once_absent(dt, ' ');
}

/// The value of an `a=rtpmap:` line for payload type `pt`, L24 at `rate` with `ch`
/// channels.
pub open spec fn rtpmap_value(pt: u8, rate: u32, ch: nat) -> Seq<char> {
    decimal_text(pt as nat) + seq![' ', 'L', '2', '4', '/'] + decimal_text(rate as nat) + seq!['/'] + decimal_text(ch)
}

/// The value of an `a=rtpmap:` line that the streamer writes reads back as its payload
/// type, encoding, rate and channel count.
pub proof fn lemma_rtpmap_reads_back(pt: u8, rate: u32, ch: nat)
    requires
        ch <= 65535,
    ensures
        parse_rtpmap(rtpmap_value(pt, rate, ch)) == Some((pt, seq!['L', '2', '4'], rate, ch as u16)),
{
    reveal(parse_rtpmap);
    let dp = decimal_text(pt as nat);
    let dr = decimal_text(rate as nat);
    let dc = decimal_text(ch);
    let l24 = seq!['L', '2', '4'];
    lemma_decimal_text_reads_back(pt as nat, 255);
    lemma_decimal_text_reads_back(rate as nat, 0xffff_ffff);
    lemma_decimal_text_reads_back(ch, 65535);
    lemma_digits_lack_separators(dp);
    lemma_digits_lack_separators(dr);
    let spec_part = l24 + seq!['/'] + (dr + seq!['/'] + dc);
    assert(rtpmap_value(pt, rate, ch) =~= dp + seq![' '] + spec_part);
    lemma_split_once_at(dp, ' ', spec_part);
    assert(lacks(l24, '/'));
    lemma_split_once_at(l24, '/', dr + seq!['/'] + dc);
    lemma_split_once_at(dr, '/', dc);
}

/// `a` followed by a carriage return and a line feed, then `rest`.
pub open spec fn crlf_then(a: Seq<char>, rest: Seq<char>) -> Seq<char> {
    a + seq!['\r', '\n'] + rest
}

/// A line ended by CRLF is the first line of the text it starts.
proof fn lemma_sdp_lines_step(a: Seq<char>, rest: Seq<char>)
    requires
        lacks(a, '\n'),
    ensures
        sdp_lines(crlf_then(a, rest)) == seq![a] + sdp_lines(rest),
{
    let s = crlf_then(a, rest);
    let i: int = a.len() as int + 1;
    lemma_first_index(s, '\n', i);
    assert(s.take(i) =~= a.push('\r'));
    assert(strip_cr(a.push('\r')) =~= a);
    assert(s.skip(i + 1) =~= rest);
}

/// A line whose `k`-th character differs from that of `p` does not start with `p`.
proof fn lemma_not_prefix(s: Seq<char>, p: Seq<char>, k: int)
    requires
        0 <= k < p.len(),
        k < s.len(),
        s[k] != p[k],
    ensures
        !has_prefix(s, p),
{
    if has_prefix(s, p) {
        assert(s.take(p.len() as int)[k] == p[k]);
    }
}

/// A line that starts with none of the letters of the lines read leaves the fields as
/// they are.
proof fn lemma_apply_other_line(f: SdpFields, line: Seq<char>)
    requires
        line.len() > 0,
        line[0] != 's',
        line[0] != 'c',
        line[0] != 'm',
        line[0] != 'a',
    ensures
        apply_sdp_line(f, line) == Ok::<SdpFields, SdpError>(f),
{
    reveal(apply_sdp_line);
    lemma_not_prefix(line, seq!['s', '='], 0);
    lemma_not_prefix(line, seq!['c', '='], 0);
    lemma_not_prefix(line, seq!['m', '=', 'a', 'u', 'd', 'i', 'o', ' '], 0);
    lemma_not_prefix(line, seq!['a', '=', 'r', 't', 'p', 'm', 'a', 'p', ':'], 0);
    lemma_not_prefix(line, seq!['a', '=', 'p', 't', 'i', 'm', 'e', ':'], 0);
    lemma_not_prefix(line, seq!['a', '=', 't', 's', '-', 'r', 'e', 'f', 'c', 'l', 'k', ':'], 0);
    lemma_not_prefix(line, seq!['a', '=', 'm', 'e', 'd', 'i', 'a', 'c', 'l', 'k', ':'], 0);
}

proof fn lemma_apply_name_line(f: SdpFields, name: Seq<char>)
    ensures
        apply_sdp_line(f, seq!['s', '='] + name) == Ok::<SdpFields, SdpError>(SdpFields { session_name: Some(name), ..f }),
{
    reveal(apply_sdp_line);
    lemma_prefix_of_concat(seq!['s', '='], name);
}

proof fn lemma_apply_connection_line(f: SdpFields, a: Seq<u8>, ttl: u8)
    requires
        a.len() == 4,
    ensures
        apply_sdp_line(f, seq!['c', '='] + connection_value(a, ttl)) == Ok::<SdpFields, SdpError>(
            SdpFields { connection: Some((a, Some(ttl))), ..f },
        ),
{
    reveal(apply_sdp_line);
    let line = seq!['c', '='] + connection_value(a, ttl);
    lemma_not_prefix(line, seq!['s', '='], 0);
    lemma_prefix_of_concat(seq!['c', '='], connection_value(a, ttl));
    lemma_connection_reads_back(a, ttl);
}

proof fn lemma_apply_media_line(f: SdpFields, port: u16, pt: u8)
    ensures
        apply_sdp_line(f, seq!['m', '=', 'a', 'u', 'd', 'i', 'o', ' '] + media_value(port, pt)) == Ok::<
            SdpFields,
            SdpError,
        >(SdpFields { media: Some((port, pt)), ..f }),
{
    reveal(apply_sdp_line);
    let p = seq!['m', '=', 'a', 'u', 'd', 'i', 'o', ' '];
    let line = p + media_value(port, pt);
    lemma_not_prefix(line, seq!['s', '='], 0);
    lemma_not_prefix(line, seq!['c', '='], 0);
    lemma_prefix_of_concat(p, media_value(port, pt));
    lemma_media_reads_back(port, pt);
}

proof fn lemma_apply_rtpmap_line(f: SdpFields, pt: u8, rate: u32, ch: nat)
    requires
        ch <= 65535,
    ensures
        apply_sdp_line(f, seq!['a', '=', 'r', 't', 'p', 'm', 'a', 'p', ':'] + rtpmap_value(pt, rate, ch))
            == Ok::<SdpFields, SdpError>(SdpFields { rtpmap: Some((pt, seq!['L', '2', '4'], rate, ch as u16)), ..f }),
{
    reveal(apply_sdp_line);
    let p = seq!['a', '=', 'r', 't', 'p', 'm', 'a', 'p', ':'];
    let line = p + rtpmap_value(pt, rate, ch);
    lemma_not_prefix(line, seq!['s', '='], 0);
    lemma_not_prefix(line, seq!['c', '='], 0);
    lemma_not_prefix(line, seq!['m', '=', 'a', 'u', 'd', 'i', 'o', ' '], 0);
    lemma_prefix_of_concat(p, rtpmap_value(pt, rate, ch));
    lemma_rtpmap_reads_back(pt, rate, ch);
}

proof fn lemma_apply_ptime_line(f: SdpFields, ptime: u32)
    ensures
        apply_sdp_line(f, seq!['a', '=', 'p', 't', 'i', 'm', 'e', ':'] + decimal_text(ptime as nat)) == Ok::<
            SdpFields,
            SdpError,
        >(SdpFields { ptime: Some(ptime), ..f }),
{
    reveal(apply_sdp_line);
    let p = seq!['a', '=', 'p', 't', 'i', 'm', 'e', ':'];
    let line = p + decimal_text(ptime as nat);
    lemma_not_prefix(line, seq!['s', '='], 0);
    lemma_not_prefix(line, seq!['c', '='], 0);
    lemma_not_prefix(line, seq!['m', '=', 'a', 'u', 'd', 'i', 'o', ' '], 0);
    lemma_not_prefix(line, seq!['a', '=', 'r', 't', 'p', 'm', 'a', 'p', ':'], 2);
    lemma_prefix_of_concat(p, decimal_text(ptime as nat));
    lemma_decimal_text_reads_back(ptime as nat, 0xffff_ffff);
}

proof fn lemma_apply_refclk_line(f: SdpFields, v: Seq<char>)
    ensures
        apply_sdp_line(f, seq!['a', '=', 't', 's', '-', 'r', 'e', 'f', 'c', 'l', 'k', ':'] + v) == Ok::<
            SdpFields,
            SdpError,
        >(SdpFields { ts_refclk: Some(v), ..f }),
{
    reveal(apply_sdp_line);
    let p = seq!['a', '=', 't', 's', '-', 'r', 'e', 'f', 'c', 'l', 'k', ':'];
    let line = p + v;
    lemma_not_prefix(line, seq!['s', '='], 0);
    lemma_not_prefix(line, seq!['c', '='], 0);
    lemma_not_prefix(line, seq!['m', '=', 'a', 'u', 'd', 'i', 'o', ' '], 0);
    lemma_not_prefix(line, seq!['a', '=', 'r', 't', 'p', 'm', 'a', 'p', ':'], 2);
    lemma_not_prefix(line, seq!['a', '=', 'p', 't', 'i', 'm', 'e', ':'], 2);
    lemma_prefix_of_concat(p, v);
}

proof fn lemma_apply_mediaclk_line(f: SdpFields, v: Seq<char>)
    ensures
        apply_sdp_line(f, seq!['a', '=', 'm', 'e', 'd', 'i', 'a', 'c', 'l', 'k', ':'] + v) == Ok::<
            SdpFields,
            SdpError,
        >(SdpFields { mediaclk: Some(v), ..f }),
{
    reveal(apply_sdp_line);
    let p = seq!['a', '=', 'm', 'e', 'd', 'i', 'a', 'c', 'l', 'k', ':'];
    let line = p + v;
    lemma_not_prefix(line, seq!['s', '='], 0);
    lemma_not_prefix(line, seq!['c', '='], 0);
    lemma_not_prefix(line, seq!['m', '=', 'a', 'u', 'd', 'i', 'o', ' '], 0);
    lemma_not_prefix(line, seq!['a', '=', 'r', 't', 'p', 'm', 'a', 'p', ':'], 2);
    lemma_not_prefix(line, seq!['a', '=', 'p', 't', 'i', 'm', 'e', ':'], 2);
    lemma_not_prefix(line, seq!['a', '=', 't', 's', '-', 'r', 'e', 'f', 'c', 'l', 'k', ':'], 2);
    lemma_prefix_of_concat(p, v);
}

/// The text of a clock identity holds no line feed.
proof fn lemma_identity_text_lacks_newline(b: Seq<u8>)
    requires
        b.len() == 8,
    ensures
        lacks(identity_text(b), '\n'),
{
    assert forall|d: u8| hex_char(d) != '\n' by {
    }
    let t = identity_text(b);
    assert forall|i: int| 0 <= i < t.len() implies t[i] != '\n' by {
        assert(t[i] == '-' || exists|d: u8| t[i] == hex_char(d));
    }
}

/// The value of the `a=ts-refclk:` line for reference clock `id` in PTP domain `domain`.
pub open spec fn refclk_value(id: ClockIdentity, domain: u8) -> Seq<char> {
    seq!['p', 't', 'p', '=', 'I', 'E', 'E', 'E', '1', '5', '8', '8', '-', '2', '0', '0', '8', ':']
        + identity_text(identity_bytes(id.value)) + seq![':'] + decimal_text(domain as nat)
}

/// The fields that the SDP of a stream announces: its name, the group address with the
/// TTL, port and payload type, L24 at the stream's rate with its channel count, the
/// packet time, the PTP reference clock and the direct media clock.
pub open spec fn announced_fields(
    ctx: SdpContext,
    id: ClockIdentity,
    name: Seq<char>,
    ttl: u8,
    payload_type: u8,
    sample_rate: u32,
    packet_time_ms: u32,
    domain: u8,
) -> SdpFields {
    SdpFields {
        session_name: Some(name),
        connection: Some((ctx.multicast_ip@, Some(ttl))),
        media: Some((ctx.port, payload_type)),
        rtpmap: Some((payload_type, seq!['L', '2', '4'], sample_rate, ctx.audio_channels as u16)),
        ptime: Some(packet_time_ms),
        ts_refclk: Some(refclk_value(id, domain)),
        mediaclk: Some(seq!['d', 'i', 'r', 'e', 'c', 't', '=', '0']),
    }
}

/// The lines of a stream's SDP, in order.
pub open spec fn version_line() -> Seq<char> {
    seq!['v', '=', '0']
}

pub open spec fn origin_line(ctx: SdpContext) -> Seq<char> {
    seq!['o', '=', '-', ' ', '1', '2', '3', '4', '5', '6', ' ', '1', '2', '3', '4', '5', '6', ' ', 'I', 'N', ' ', 'I', 'P', '4', ' ']
        + ipv4_text(ctx.local_ip@)
}

pub open spec fn name_line(name: Seq<char>) -> Seq<char> {
    seq!['s', '='] + name
}

pub open spec fn connection_line(ctx: SdpContext, ttl: u8) -> Seq<char> {
    seq!['c', '='] + connection_value(ctx.multicast_ip@, ttl)
}

pub open spec fn timing_line() -> Seq<char> {
    seq!['t', '=', '0', ' ', '0']
}

pub open spec fn media_line(ctx: SdpContext, payload_type: u8) -> Seq<char> {
    seq!['m', '=', 'a', 'u', 'd', 'i', 'o', ' '] + media_value(ctx.port, payload_type)
}

pub open spec fn rtpmap_line(ctx: SdpContext, payload_type: u8, sample_rate: u32) -> Seq<char> {
    seq!['a', '=', 'r', 't', 'p', 'm', 'a', 'p', ':'] + rtpmap_value(payload_type, sample_rate, ctx.audio_channels as nat)
}

pub open spec fn ptime_line(packet_time_ms: u32) -> Seq<char> {
    seq!['a', '=', 'p', 't', 'i', 'm', 'e', ':'] + decimal_text(packet_time_ms as nat)
}

pub open spec fn refclk_line(id: ClockIdentity, domain: u8) -> Seq<char> {
    seq!['a', '=', 't', 's', '-', 'r', 'e', 'f', 'c', 'l', 'k', ':'] + refclk_value(id, domain)
}

pub open spec fn direct_clock() -> Seq<char> {
    seq!['d', 'i', 'r', 'e', 'c', 't', '=', '0']
}

pub open spec fn mediaclk_line() -> Seq<char> {
    seq!['a', '=', 'm', 'e', 'd', 'i', 'a', 'c', 'l', 'k', ':'] + direct_clock()
}

/// The lines of a stream's SDP.
pub open spec fn announced_lines(ctx: SdpContext, id: ClockIdentity, name: Seq<char>, ttl: u8, payload_type: u8, sample_rate: u32, packet_time_ms: u32, domain: u8) -> Seq<Seq<char>> {
    seq![
        version_line(),
        origin_line(ctx),
        name_line(name),
        connection_line(ctx, ttl),
        timing_line(),
        media_line(ctx, payload_type),
        rtpmap_line(ctx, payload_type, sample_rate),
        ptime_line(packet_time_ms),
        refclk_line(id, domain),
        mediaclk_line(),
    ]
}

/// `lines`, each ended by CRLF.
#[verifier::opaque]
pub open spec fn crlf_join(lines: Seq<Seq<char>>) -> Seq<char>
    decreases lines.len(),
{
    if lines.len() == 0 {
        Seq::empty()
    } else {
        crlf_then(lines[0], crlf_join(lines.drop_first()))
    }
}

/// Appending a line appends it with its CRLF.
proof fn lemma_crlf_join_push(lines: Seq<Seq<char>>, a: Seq<char>)
    ensures
        crlf_join(lines.push(a)) == crlf_join(lines) + (a + seq!['\r', '\n']),
    decreases lines.len(),
{
    reveal(crlf_join);
    let crlf = seq!['\r', '\n'];
    if lines.len() == 0 {
        assert(lines.push(a).drop_first() =~= Seq::<Seq<char>>::empty());
        assert(crlf_join(lines.push(a).drop_first()) == Seq::<char>::empty());
        assert(crlf_join(lines.push(a)) =~= crlf_join(lines) + (a + crlf));
    } else {
        let rest = lines.drop_first();
        lemma_crlf_join_push(rest, a);
        assert(lines.push(a).drop_first() =~= rest.push(a));
        assert(lines.push(a)[0] == lines[0]);
        assert(crlf_join(lines.push(a)) == crlf_then(lines[0], crlf_join(rest) + (a + crlf)));
        assert(crlf_join(lines) == crlf_then(lines[0], crlf_join(rest)));
        assert(crlf_then(lines[0], crlf_join(rest) + (a + crlf)) =~= crlf_then(lines[0], crlf_join(rest)) + (a + crlf));
    }
}

/// The text of the first `k + 1` lines is that of the first `k` and the `k`-th line.
proof fn lemma_crlf_join_take(lines: Seq<Seq<char>>, k: int)
    requires
        0 <= k < lines.len(),
    ensures
        crlf_join(lines.take(k + 1)) == crlf_join(lines.take(k)) + (lines[k] + seq!['\r', '\n']),
{
    assert(lines.take(k + 1) =~= lines.take(k).push(lines[k]));
    lemma_crlf_join_push(lines.take(k), lines[k]);
}

/// Text `x` that ends the lines `j` with line `l` continues with a CRLF and line `next`.
proof fn lemma_next_line(x: Seq<char>, j: Seq<char>, l: Seq<char>, tail: Seq<char>, next: Seq<char>)
    requires
        x == j + l,
        tail == seq!['\r', '\n'] + next,
    ensures
        x + tail == (j + (l + seq!['\r', '\n'])) + next,
{
    assert((j + l) + (seq!['\r', '\n'] + next) =~= (j + (l + seq!['\r', '\n'])) + next);
}

proof fn lemma_assoc2(x: Seq<char>, a: Seq<char>, b: Seq<char>)
    ensures
        (x + a) + b == x + (a + b),
{
    assert((x + a) + b =~= x + (a + b));
}

proof fn lemma_assoc4(x: Seq<char>, a: Seq<char>, b: Seq<char>, c: Seq<char>, d: Seq<char>)
    ensures
        (((x + a) + b) + c) + d == x + (((a + b) + c) + d),
{
    assert((((x + a) + b) + c) + d =~= x + (((a + b) + c) + d));
}

proof fn lemma_assoc6(x: Seq<char>, a: Seq<char>, b: Seq<char>, c: Seq<char>, d: Seq<char>, e: Seq<char>, f: Seq<char>)
    ensures
        (((((x + a) + b) + c) + d) + e) + f == x + (((((a + b) + c) + d) + e) + f),
{
    assert((((((x + a) + b) + c) + d) + e) + f =~= x + (((((a + b) + c) + d) + e) + f));
}

/// The lines of CRLF-ended lines without line feeds are those lines.
proof fn lemma_crlf_join_lines(lines: Seq<Seq<char>>)
    requires
        forall|k: int| 0 <= k < lines.len() ==> lacks(#[trigger] lines[k], '\n'),
    ensures
        sdp_lines(crlf_join(lines)) == lines,
    decreases lines.len(),
{
    reveal(crlf_join);
    if lines.len() == 0 {
        assert(sdp_lines(Seq::<char>::empty()) =~= Seq::<Seq<char>>::empty());
    } else {
        let rest = lines.drop_first();
        assert forall|k: int| 0 <= k < rest.len() implies lacks(#[trigger] rest[k], '\n') by {
            assert(rest[k] == lines[k + 1]);
        }
        lemma_crlf_join_lines(rest);
        lemma_sdp_lines_step(lines[0], crlf_join(rest));
        assert(seq![lines[0]] + rest =~= lines);
    }
}

/// Reading the lines from the `k`-th on applies the `k`-th and reads on.
proof fn lemma_read_lines_at(f: SdpFields, lines: Seq<Seq<char>>, k: int)
    requires
        0 <= k < lines.len(),
    ensures
        read_sdp_lines(Ok::<SdpFields, SdpError>(f), lines.skip(k))
            == read_sdp_lines(apply_sdp_line(f, lines[k]), lines.skip(k + 1)),
{
    assert(lines.skip(k)[0] == lines[k]);
    assert(lines.skip(k).drop_first() =~= lines.skip(k + 1));
}

proof fn lemma_regroup_head(ctx: SdpContext)
    ensures
        crate::stream::sdp_head() + ipv4_text(ctx.local_ip@)
            == (Seq::<char>::empty() + (version_line() + seq!['\r', '\n'])) + origin_line(ctx),
{
    assert(crate::stream::sdp_head() + ipv4_text(ctx.local_ip@)
        =~= (Seq::<char>::empty() + (version_line() + seq!['\r', '\n'])) + origin_line(ctx));
}

proof fn lemma_regroup_name(name: Seq<char>)
    ensures
        crate::stream::sdp_name() + name == seq!['\r', '\n'] + name_line(name),
{
    assert(crate::stream::sdp_name() + name =~= seq!['\r', '\n'] + name_line(name));
}

proof fn lemma_regroup_connection(ctx: SdpContext, ttl: u8)
    ensures
        crate::stream::sdp_conn() + ipv4_text(ctx.multicast_ip@) + seq!['/'] + decimal_text(ttl as nat)
            == seq!['\r', '\n'] + connection_line(ctx, ttl),
{
    assert(crate::stream::sdp_conn() + ipv4_text(ctx.multicast_ip@) + seq!['/'] + decimal_text(ttl as nat)
        =~= seq!['\r', '\n'] + connection_line(ctx, ttl));
}

proof fn lemma_regroup_media(ctx: SdpContext, payload_type: u8)
    ensures
        crate::stream::sdp_media() + decimal_text(ctx.port as nat) + crate::stream::sdp_avp() + decimal_text(payload_type as nat)
            == seq!['\r', '\n'] + ((timing_line() + seq!['\r', '\n']) + media_line(ctx, payload_type)),
{
    assert(crate::stream::sdp_media() + decimal_text(ctx.port as nat) + crate::stream::sdp_avp() + decimal_text(payload_type as nat)
        =~= seq!['\r', '\n'] + ((timing_line() + seq!['\r', '\n']) + media_line(ctx, payload_type)));
}

proof fn lemma_regroup_rtpmap(ctx: SdpContext, payload_type: u8, sample_rate: u32)
    ensures
        crate::stream::sdp_rtpmap() + decimal_text(payload_type as nat) + crate::stream::sdp_l24() + decimal_text(sample_rate as nat)
            + seq!['/'] + decimal_text(ctx.audio_channels as nat)
            == seq!['\r', '\n'] + rtpmap_line(ctx, payload_type, sample_rate),
{
    assert(crate::stream::sdp_rtpmap() + decimal_text(payload_type as nat) + crate::stream::sdp_l24() + decimal_text(sample_rate as nat)
        + seq!['/'] + decimal_text(ctx.audio_channels as nat)
        =~= seq!['\r', '\n'] + rtpmap_line(ctx, payload_type, sample_rate));
}

proof fn lemma_regroup_ptime(packet_time_ms: u32)
    ensures
        crate::stream::sdp_ptime() + decimal_text(packet_time_ms as nat) == seq!['\r', '\n'] + ptime_line(packet_time_ms),
{
    assert(crate::stream::sdp_ptime() + decimal_text(packet_time_ms as nat) =~= seq!['\r', '\n'] + ptime_line(packet_time_ms));
}

proof fn lemma_regroup_refclk(id: ClockIdentity, domain: u8)
    ensures
        crate::stream::sdp_refclk() + identity_text(identity_bytes(id.value)) + seq![':'] + decimal_text(domain as nat)
            == seq!['\r', '\n'] + refclk_line(id, domain),
{
    assert(crate::stream::sdp_refclk() + identity_text(identity_bytes(id.value)) + seq![':'] + decimal_text(domain as nat)
        =~= seq!['\r', '\n'] + refclk_line(id, domain));
}

proof fn lemma_regroup_tail()
    ensures
        crate::stream::sdp_tail() == seq!['\r', '\n'] + (mediaclk_line() + seq!['\r', '\n']),
{
    assert(crate::stream::sdp_tail() =~= seq!['\r', '\n'] + (mediaclk_line() + seq!['\r', '\n']));
}

/// The SDP text of a stream is its lines, each ended by CRLF.
proof fn lemma_sdp_text_by_lines(ctx: SdpContext, id: ClockIdentity, name: Seq<char>, ttl: u8, payload_type: u8, sample_rate: u32, packet_time_ms: u32, domain: u8)
    ensures
        sdp_text(ctx, id, name, ttl, payload_type, sample_rate, packet_time_ms, domain)
            == crlf_join(announced_lines(ctx, id, name, ttl, payload_type, sample_rate, packet_time_ms, domain)),
{
    let ls = announced_lines(ctx, id, name, ttl, payload_type, sample_rate, packet_time_ms, domain);
    let crlf = seq!['\r', '\n'];
    let ip_g = ipv4_text(ctx.multicast_ip@);
    let dttl = decimal_text(ttl as nat);
    let dport = decimal_text(ctx.port as nat);
    let dpt = decimal_text(payload_type as nat);
    let drate = decimal_text(sample_rate as nat);
    let dch = decimal_text(ctx.audio_channels as nat);
    let dptime = decimal_text(packet_time_ms as nat);
    let ident = identity_text(identity_bytes(id.value));
    let ddom = decimal_text(domain as nat);
    let name_p = crate::stream::sdp_name();
    let conn_p = crate::stream::sdp_conn();
    let media_p = crate::stream::sdp_media();
    let avp = crate::stream::sdp_avp();
    let rtpmap_p = crate::stream::sdp_rtpmap();
    let l24 = crate::stream::sdp_l24();
    let ptime_p = crate::stream::sdp_ptime();
    let refclk_p = crate::stream::sdp_refclk();
    let tail = crate::stream::sdp_tail();
    assert(ls.take(0) =~= Seq::<Seq<char>>::empty());
    assert(crlf_join(ls.take(0)) == Seq::<char>::empty()) by {
        reveal(crlf_join);
    }
    lemma_crlf_join_take(ls, 0);
    lemma_crlf_join_take(ls, 1);
    lemma_crlf_join_take(ls, 2);
    lemma_crlf_join_take(ls, 3);
    lemma_crlf_join_take(ls, 4);
    lemma_crlf_join_take(ls, 5);
    lemma_crlf_join_take(ls, 6);
    lemma_crlf_join_take(ls, 7);
    lemma_crlf_join_take(ls, 8);
    lemma_crlf_join_take(ls, 9);
    let j1 = crlf_join(ls.take(1));
    let j2 = crlf_join(ls.take(2));
    let j3 = crlf_join(ls.take(3));
    let j4 = crlf_join(ls.take(4));
    let j5 = crlf_join(ls.take(5));
    let j6 = crlf_join(ls.take(6));
    let j7 = crlf_join(ls.take(7));
    let j8 = crlf_join(ls.take(8));
    let j9 = crlf_join(ls.take(9));
    let j10 = crlf_join(ls.take(10));

    let x_a = crate::stream::sdp_head() + ipv4_text(ctx.local_ip@);
    lemma_regroup_head(ctx);
    assert(x_a == j1 + origin_line(ctx));

    let x_b = x_a + name_p + name;
    lemma_assoc2(x_a, name_p, name);
    lemma_regroup_name(name);
    lemma_next_line(x_a, j1, origin_line(ctx), name_p + name, name_line(name));
    assert(x_b == j2 + name_line(name));

    let x_c = x_b + conn_p + ip_g + seq!['/'] + dttl;
    lemma_assoc4(x_b, conn_p, ip_g, seq!['/'], dttl);
    lemma_regroup_connection(ctx, ttl);
    lemma_next_line(x_b, j2, name_line(name), conn_p + ip_g + seq!['/'] + dttl, connection_line(ctx, ttl));
    assert(x_c == j3 + connection_line(ctx, ttl));

    let x_d = x_c + media_p + dport + avp + dpt;
    let tm = (timing_line() + crlf) + media_line(ctx, payload_type);
    lemma_assoc4(x_c, media_p, dport, avp, dpt);
    lemma_regroup_media(ctx, payload_type);
    lemma_next_line(x_c, j3, connection_line(ctx, ttl), media_p + dport + avp + dpt, tm);
    assert(x_d == j4 + tm);
    lemma_assoc2(j4, timing_line() + crlf, media_line(ctx, payload_type));
    assert(x_d == j5 + media_line(ctx, payload_type));

    let x_e = x_d + rtpmap_p + dpt + l24 + drate + seq!['/'] + dch;
    lemma_assoc6(x_d, rtpmap_p, dpt, l24, drate, seq!['/'], dch);
    lemma_regroup_rtpmap(ctx, payload_type, sample_rate);
    lemma_next_line(x_d, j5, media_line(ctx, payload_type), rtpmap_p + dpt + l24 + drate + seq!['/'] + dch, rtpmap_line(ctx, payload_type, sample_rate));
    assert(x_e == j6 + rtpmap_line(ctx, payload_type, sample_rate));

    let x_f = x_e + ptime_p + dptime;
    lemma_assoc2(x_e, ptime_p, dptime);
    lemma_regroup_ptime(packet_time_ms);
    lemma_next_line(x_e, j6, rtpmap_line(ctx, payload_type, sample_rate), ptime_p + dptime, ptime_line(packet_time_ms));
    assert(x_f == j7 + ptime_line(packet_time_ms));

    let x_g = x_f + refclk_p + ident + seq![':'] + ddom;
    lemma_assoc4(x_f, refclk_p, ident, seq![':'], ddom);
    lemma_regroup_refclk(id, domain);
    lemma_next_line(x_f, j7, ptime_line(packet_time_ms), refclk_p + ident + seq![':'] + ddom, refclk_line(id, domain));
    assert(x_g == j8 + refclk_line(id, domain));

    let x_h = x_g + tail;
    lemma_regroup_tail();
    lemma_next_line(x_g, j8, refclk_line(id, domain), tail, mediaclk_line() + crlf);
    assert(x_h == j10);
    assert(ls.take(10) =~= ls);
}

/// No line of a stream's SDP holds a line feed when its name holds none.
proof fn lemma_announced_lines_lack_newline(ctx: SdpContext, id: ClockIdentity, name: Seq<char>, ttl: u8, payload_type: u8, sample_rate: u32, packet_time_ms: u32, domain: u8)
    requires
        lacks(name, '\n'),
    ensures
        forall|k: int| 0 <= k < 10 ==> lacks(
            #[trigger] announced_lines(ctx, id, name, ttl, payload_type, sample_rate, packet_time_ms, domain)[k],
            '\n',
        ),
{
    let ls = announced_lines(ctx, id, name, ttl, payload_type, sample_rate, packet_time_ms, domain);
    let ip_l = ipv4_text(ctx.local_ip@);
    let ip_g = ipv4_text(ctx.multicast_ip@);
    lemma_ipv4_text_reads_back(ctx.local_ip@);
    lemma_ipv4_text_reads_back(ctx.multicast_ip@);
    lemma_digits_or_dots_lack_separators(ip_l);
    lemma_digits_or_dots_lack_separators(ip_g);
    lemma_decimal_text(ttl as nat);
    lemma_decimal_text(ctx.port as nat);
    lemma_decimal_text(payload_type as nat);
    lemma_decimal_text(sample_rate as nat);
    lemma_decimal_text(ctx.audio_channels as nat);
    lemma_decimal_text(packet_time_ms as nat);
    lemma_decimal_text(domain as nat);
    lemma_digits_lack_separators(decimal_text(ttl as nat));
    lemma_digits_lack_separators(decimal_text(ctx.port as nat));
    lemma_digits_lack_separators(decimal_text(payload_type as nat));
    lemma_digits_lack_separators(decimal_text(sample_rate as nat));
    lemma_digits_lack_separators(decimal_text(ctx.audio_channels as nat));
    lemma_digits_lack_separators(decimal_text(packet_time_ms as nat));
    lemma_digits_lack_separators(decimal_text(domain as nat));
    lemma_identity_text_lacks_newline(identity_bytes(id.value));
    assert(lacks(version_line(), '\n'));
    assert(lacks(origin_line(ctx), '\n'));
    assert(lacks(name_line(name), '\n'));
    assert(lacks(connection_line(ctx, ttl), '\n'));
    assert(lacks(timing_line(), '\n'));
    assert(lacks(media_line(ctx, payload_type), '\n'));
    assert(lacks(rtpmap_line(ctx, payload_type, sample_rate), '\n'));
    assert(lacks(ptime_line(packet_time_ms), '\n'));
    assert(lacks(refclk_line(id, domain), '\n'));
    assert(lacks(mediaclk_line(), '\n'));
}

/// Reading the lines of a stream's SDP in turn gives the fields it announces.
proof fn lemma_read_announced_lines(ctx: SdpContext, id: ClockIdentity, name: Seq<char>, ttl: u8, payload_type: u8, sample_rate: u32, packet_time_ms: u32, domain: u8)
    requires
        1 <= ctx.audio_channels <= 8,
    ensures
        read_sdp_lines(
            Ok::<SdpFields, SdpError>(empty_fields()),
            announced_lines(ctx, id, name, ttl, payload_type, sample_rate, packet_time_ms, domain),
        ) == Ok::<SdpFields, SdpError>(
            announced_fields(ctx, id, name, ttl, payload_type, sample_rate, packet_time_ms, domain),
        ),
{
    let ls = announced_lines(ctx, id, name, ttl, payload_type, sample_rate, packet_time_ms, domain);
    let ch = ctx.audio_channels as nat;
    let f0 = empty_fields();
    let f3 = SdpFields { session_name: Some(name), ..f0 };
    let f4 = SdpFields { connection: Some((ctx.multicast_ip@, Some(ttl))), ..f3 };
    let f6 = SdpFields { media: Some((ctx.port, payload_type)), ..f4 };
    let f7 = SdpFields { rtpmap: Some((payload_type, seq!['L', '2', '4'], sample_rate, ch as u16)), ..f6 };
    let f8 = SdpFields { ptime: Some(packet_time_ms), ..f7 };
    let f9 = SdpFields { ts_refclk: Some(refclk_value(id, domain)), ..f8 };
    let f10 = SdpFields { mediaclk: Some(direct_clock()), ..f9 };
    lemma_apply_other_line(f0, version_line());
    lemma_apply_other_line(f0, origin_line(ctx));
    lemma_apply_name_line(f0, name);
    lemma_apply_connection_line(f3, ctx.multicast_ip@, ttl);
    lemma_apply_other_line(f4, timing_line());
    lemma_apply_media_line(f4, ctx.port, payload_type);
    lemma_apply_rtpmap_line(f6, payload_type, sample_rate, ch);
    lemma_apply_ptime_line(f7, packet_time_ms);
    lemma_apply_refclk_line(f8, refclk_value(id, domain));
    lemma_apply_mediaclk_line(f9, direct_clock());
    assert(ls.skip(0) =~= ls);
    lemma_read_lines_at(f0, ls, 0);
    lemma_read_lines_at(f0, ls, 1);
    lemma_read_lines_at(f0, ls, 2);
    lemma_read_lines_at(f3, ls, 3);
    lemma_read_lines_at(f4, ls, 4);
    lemma_read_lines_at(f4, ls, 5);
    lemma_read_lines_at(f6, ls, 6);
    lemma_read_lines_at(f7, ls, 7);
    lemma_read_lines_at(f8, ls, 8);
    lemma_read_lines_at(f9, ls, 9);
    assert(ls.skip(10) =~= Seq::<Seq<char>>::empty());
    assert(f10 == announced_fields(ctx, id, name, ttl, payload_type, sample_rate, packet_time_ms, domain));
}

/// A receiver that reads the SDP a streamer builds gets back the stream that it
/// announces (`announced_fields`), wherever the stream is one the receiver supports (L24
/// at 48 kHz, a dynamic payload type, 1 to 8 channels, a nonzero packet time) and the
/// session name holds no line feed.
pub proof fn lemma_stream_sdp_reads_back(
    ctx: SdpContext,
    id: ClockIdentity,
    name: Seq<char>,
    ttl: u8,
    payload_type: u8,
    sample_rate: u32,
    packet_time_ms: u32,
    domain: u8,
)
    requires
        lacks(name, '\n'),
        96 <= payload_type <= 127,
        sample_rate == 48_000,
        1 <= ctx.audio_channels <= 8,
        packet_time_ms > 0,
    ensures
        sdp_outcome(sdp_text(ctx, id, name, ttl, payload_type, sample_rate, packet_time_ms, domain))
            == Ok::<SdpFields, SdpError>(
            announced_fields(ctx, id, name, ttl, payload_type, sample_rate, packet_time_ms, domain),
        ),
{
    let ls = announced_lines(ctx, id, name, ttl, payload_type, sample_rate, packet_time_ms, domain);
    lemma_sdp_text_by_lines(ctx, id, name, ttl, payload_type, sample_rate, packet_time_ms, domain);
    lemma_announced_lines_lack_newline(ctx, id, name, ttl, payload_type, sample_rate, packet_time_ms, domain);
    lemma_crlf_join_lines(ls);
    lemma_read_announced_lines(ctx, id, name, ttl, payload_type, sample_rate, packet_time_ms, domain);
    let f = announced_fields(ctx, id, name, ttl, payload_type, sample_rate, packet_time_ms, domain);
    assert(validate_fields(f) == Ok::<SdpFields, SdpError>(f));
}

/// A browser that parses the SAP announcement of a stream's SDP gets the stream's
/// description, under the conditions of `lemma_stream_sdp_reads_back`.
pub proof fn lemma_announced_stream_is_discovered(
    origin: Seq<u8>,
    ctx: SdpContext,
    id: ClockIdentity,
    name: Seq<char>,
    ttl: u8,
    payload_type: u8,
    sample_rate: u32,
    packet_time_ms: u32,
    domain: u8,
    r: Result<SapMessage, SapError>,
)
    requires
        origin.len() == 4,
        sap_parsed(sap_packet_bytes(origin, sdp_text(ctx, id, name, ttl, payload_type, sample_rate, packet_time_ms, domain)), r),
        lacks(name, '\n'),
        96 <= payload_type <= 127,
        sample_rate == 48_000,
        1 <= ctx.audio_channels <= 8,
        packet_time_ms > 0,
    ensures
        r matches Ok(m) && m.session matches Some(d) && describes(
            d,
            announced_fields(ctx, id, name, ttl, payload_type, sample_rate, packet_time_ms, domain),
        ),
{
    let sdp = sdp_text(ctx, id, name, ttl, payload_type, sample_rate, packet_time_ms, domain);
    lemma_sap_announcement_roundtrip(origin, sdp, r);
    lemma_stream_sdp_reads_back(ctx, id, name, ttl, payload_type, sample_rate, packet_time_ms, domain);
}

} // verus!
