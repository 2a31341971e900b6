//! Text output of the SAP browser: one line per registry event, the SDP block shown with
//! it, and the file name a discovered SDP is saved under.

use vstd::prelude::*;
use crate::sap::{SapEventKind, SapRegistryEvent, SapStream, source_view, trim_end, trim_start};
use crate::sdp::{chars_of, sdp_lines, session_view};
use crate::stream::{decimal_text, ipv4_text, push_chars, push_decimal, push_ipv4};
use crate::text::{find_char, first_index, string_from_chars};

verus! {

/// Lower-case hexadecimal digit.
pub open spec fn hex_lower(d: u16) -> char {
    if d < 10 {
        ((d + 48) as u32) as char
    } else {
        ((d + 87) as u32) as char
    }
}

/// Four lower-case hex digits of `h`.
pub open spec fn hex4(h: u16) -> Seq<char> {
    seq![hex_lower(h >> 12u16), hex_lower((h >> 8u16) & 15u16), hex_lower((h >> 4u16) & 15u16), hex_lower(h & 15u16)]
}

fn hex_lower_exec(d: u16) -> (c: char)
    requires
        d < 16,
    ensures
        c == hex_lower(d),
{
    let digits = ['0', '1', '2', '3', '4', '5', '6', '7', '8', '9', 'a', 'b', 'c', 'd', 'e', 'f'];
    let c = digits[d as usize];
    assert(c == hex_lower(d)) by {
        assert(digits@[d as int] == c);
        assert(d == 0 || d == 1 || d == 2 || d == 3 || d == 4 || d == 5 || d == 6 || d == 7 || d == 8
            || d == 9 || d == 10 || d == 11 || d == 12 || d == 13 || d == 14 || d == 15);
    }
    c
}

fn push_hex4(out: &mut Vec<char>, h: u16)
    ensures
        final(out)@ == old(out)@ + hex4(h),
{
    assert((h >> 12u16) < 16 && ((h >> 8u16) & 15u16) < 16 && ((h >> 4u16) & 15u16) < 16 && (h & 15u16) < 16) by (bit_vector);
    let ghost start = out@;
    out.push(hex_lower_exec(h >> 12u16));
    out.push(hex_lower_exec((h >> 8u16) & 15u16));
    out.push(hex_lower_exec((h >> 4u16) & 15u16));
    out.push(hex_lower_exec(h & 15u16));
    assert(out@ =~= start + hex4(h));
}

/// Text of a source address: `a.b.c.d:port`.
pub open spec fn source_text(s: (Seq<u8>, u16)) -> Seq<char> {
    ipv4_text(s.0) + seq![':'] + decimal_text(s.1 as nat)
}

/// The name an event line shows: the session name, or `(unnamed)` when it is blank or
/// missing.
pub open spec fn shown_name(n: Option<Seq<char>>) -> Seq<char> {
    match n {
        Some(t) => if trim_end(trim_start(t)).len() == 0 {
            seq!['(', 'u', 'n', 'n', 'a', 'm', 'e', 'd', ')']
        } else {
            t
        },
        None => seq!['(', 'u', 'n', 'n', 'a', 'm', 'e', 'd', ')'],
    }
}

/// The marker of an event: `+` added, `=` updated, `-` removed or expired.
pub open spec fn event_marker(k: SapEventKind) -> char {
    match k {
        SapEventKind::Added => '+',
        SapEventKind::Updated => '=',
        _ => '-',
    }
}

/// The start of the line for a stream with a supported session, up to `source=`.
pub open spec fn session_prefix(k: SapEventKind, d: crate::sdp::Aes67SessionDescription) -> Seq<char> {
    seq![event_marker(k), ' '] + shown_name(session_view(d).session_name) + seq![' ']
        + ipv4_text(d.address@) + seq![':'] + decimal_text(d.port as nat) + seq![' ', 'L', '2', '4', '/']
        + decimal_text(d.sample_rate as nat) + seq!['/'] + decimal_text(d.channels as nat)
        + seq![' ', 'p', 't', 'i', 'm', 'e', '='] + decimal_text(d.packet_time_ms as nat)
        + seq!['m', 's', ' ', 's', 'o', 'u', 'r', 'c', 'e', '=']
}

/// The start of the line for a stream without a supported session, up to `source=`.
pub open spec fn hash_prefix(k: SapEventKind, h: u16) -> Seq<char> {
    seq![event_marker(k), ' ', 'S', 'A', 'P', ' ', 'h', 'a', 's', 'h', '='] + hex4(h)
        + seq![' ', 's', 'o', 'u', 'r', 'c', 'e', '=']
}

/// The line that reports an event on a stream.
pub open spec fn event_line(k: SapEventKind, s: SapStream) -> Seq<char> {
    let prefix = match s.message.session {
        Some(d) => session_prefix(k, d),
        None => hash_prefix(k, s.key.message_hash),
    };
    prefix + source_text(source_view(s.source)) + seq![' ', 'o', 'r', 'i', 'g', 'i', 'n', '=']
        + ipv4_text(s.key.origin_source@)
}

/// The lines of the SDP block: each line of the SDP without trailing white space,
/// blank ones left out, indented by four spaces, one per line.
pub open spec fn sdp_block_lines(lines: Seq<Seq<char>>) -> Seq<char>
    decreases lines.len(),
{
    if lines.len() == 0 {
        Seq::empty()
    } else {
        let l = trim_end(lines[0]);
        let rest = sdp_block_lines(lines.drop_first());
        if l.len() == 0 {
            rest
        } else {
            seq![' ', ' ', ' ', ' '] + l + seq!['\n'] + rest
        }
    }
}

/// The SDP block: a header line and the indented SDP lines, without a final line feed.
pub open spec fn sdp_block(sdp: Seq<char>) -> Seq<char> {
    (seq![' ', ' ', 'S', 'D', 'P', ':', '\n'] + sdp_block_lines(sdp_lines(sdp))).drop_last()
}

fn push_source(out: &mut Vec<char>, s: &crate::sap::SourceAddress)
    ensures
        final(out)@ == old(out)@ + source_text(source_view(*s)),
{
    let ghost start = out@;
    push_ipv4(out, s.ip);
    out.push(':');
    push_decimal(out, s.port as u64);
    assert(out@ =~= start + source_text(source_view(*s)));
}

fn is_blank(s: &str) -> (r: bool)
    ensures
        r == (trim_end(trim_start(s@)).len() == 0),
{
    let c = chars_of(s);
    let n = c.len();
    let mut i: usize = 0;
    while i < n
        invariant
            n == c@.len(),
            c@ == s@,
            i <= n,
            forall|j: int| 0 <= j < i ==> crate::sap::is_white_space(c@[j]),
        decreases n - i,
    {
        if !crate::sap::is_white_space_char(c[i]) {
            proof {
                lemma_trim_keeps_non_space(c@, i as int);
            }
            return false;
        }
        i = i + 1;
    }
    proof {
        lemma_all_space_trims_empty(c@);
    }
    true
}

proof fn lemma_all_space_trims_empty(s: Seq<char>)
    requires
        forall|j: int| 0 <= j < s.len() ==> crate::sap::is_white_space(s[j]),
    ensures
        trim_start(s).len() == 0,
        trim_end(trim_start(s)).len() == 0,
    decreases s.len(),
{
    if s.len() > 0 {
        lemma_all_space_trims_empty(s.drop_first());
    }
}

proof fn lemma_trim_keeps_non_space(s: Seq<char>, i: int)
    requires
        0 <= i < s.len(),
        !crate::sap::is_white_space(s[i]),
        forall|j: int| 0 <= j < i ==> crate::sap::is_white_space(s[j]),
    ensures
        trim_end(trim_start(s)).len() > 0,
    decreases s.len(),
{
    if i > 0 {
        lemma_trim_keeps_non_space(s.drop_first(), i - 1);
    } else {
        lemma_trim_end_keeps_first(s);
    }
}

proof fn lemma_trim_end_keeps_first(s: Seq<char>)
    requires
        s.len() > 0,
        !crate::sap::is_white_space(s[0]),
    ensures
        trim_end(s).len() > 0,
    decreases s.len(),
{
    if s.len() > 1 && crate::sap::is_white_space(s.last()) {
        lemma_trim_end_keeps_first(s.drop_last());
    }
}

fn marker_char(k: SapEventKind) -> (c: char)
    ensures
        c == event_marker(k),
{
    match k {
        SapEventKind::Added => '+',
        SapEventKind::Updated => '=',
        _ => '-',
    }
}

fn push_session_prefix(out: &mut Vec<char>, k: SapEventKind, d: &crate::sdp::Aes67SessionDescription)
    ensures
        final(out)@ == old(out)@ + session_prefix(k, *d),
{
    let ghost start = out@;
    out.push(marker_char(k));
    out.push(' ');
    let unnamed = ['(', 'u', 'n', 'n', 'a', 'm', 'e', 'd', ')'];
    assert(unnamed@ =~= seq!['(', 'u', 'n', 'n', 'a', 'm', 'e', 'd', ')']);
    match &d.session_name {
        Some(n) => {
            if is_blank(n.as_str()) {
                push_chars(out, &unnamed);
            } else {
                let nc = chars_of(n.as_str());
                push_chars(out, nc.as_slice());
            }
        },
        None => push_chars(out, &unnamed),
    }
    let ghost named = out@;
    out.push(' ');
    push_ipv4(out, d.address);
    out.push(':');
    push_decimal(out, d.port as u64);
    let l24 = [' ', 'L', '2', '4', '/'];
    assert(l24@ =~= seq![' ', 'L', '2', '4', '/']);
    push_chars(out, &l24);
    push_decimal(out, d.sample_rate as u64);
    out.push('/');
    push_decimal(out, d.channels as u64);
    let pt = [' ', 'p', 't', 'i', 'm', 'e', '='];
    assert(pt@ =~= seq![' ', 'p', 't', 'i', 'm', 'e', '=']);
    push_chars(out, &pt);
    push_decimal(out, d.packet_time_ms as u64);
    let ms = ['m', 's', ' ', 's', 'o', 'u', 'r', 'c', 'e', '='];
    assert(ms@ =~= seq!['m', 's', ' ', 's', 'o', 'u', 'r', 'c', 'e', '=']);
    push_chars(out, &ms);
    assert(named =~= start + seq![event_marker(k), ' '] + shown_name(session_view(*d).session_name));
    assert(out@ =~= start + session_prefix(k, *d));
}

fn push_hash_prefix(out: &mut Vec<char>, k: SapEventKind, h: u16)
    ensures
        final(out)@ == old(out)@ + hash_prefix(k, h),
{
    let ghost start = out@;
    out.push(marker_char(k));
    let head = [' ', 'S', 'A', 'P', ' ', 'h', 'a', 's', 'h', '='];
    assert(head@ =~= seq![' ', 'S', 'A', 'P', ' ', 'h', 'a', 's', 'h', '=']);
    push_chars(out, &head);
    push_hex4(out, h);
    let src = [' ', 's', 'o', 'u', 'r', 'c', 'e', '='];
    assert(src@ =~= seq![' ', 's', 'o', 'u', 'r', 'c', 'e', '=']);
    push_chars(out, &src);
    assert(out@ =~= start + hash_prefix(k, h));
}

/// The line that reports `event`, followed by its SDP block when `show_sdp_details` is
/// set and the event adds or updates a stream that carries SDP.
pub fn format_registry_event(event: &SapRegistryEvent, show_sdp_details: bool) -> (text: String)
    ensures
        ({
            let (k, s) = match *event {
                SapRegistryEvent::Added(s) => (SapEventKind::Added, s),
                SapRegistryEvent::Updated(s) => (SapEventKind::Updated, s),
                SapRegistryEvent::Removed(s) => (SapEventKind::Removed, s),
                SapRegistryEvent::Expired(s) => (SapEventKind::Expired, s),
            };
            if show_sdp_details && (k == SapEventKind::Added || k == SapEventKind::Updated) && s.message.sdp.is_some() {
                text@ == event_line(k, s) + seq!['\n'] + sdp_block(s.message.sdp.unwrap()@)
            } else {
                text@ == event_line(k, s)
            }
        }),
{
    let (k, s) = match event {
        SapRegistryEvent::Added(s) => (SapEventKind::Added, s),
        SapRegistryEvent::Updated(s) => (SapEventKind::Updated, s),
        SapRegistryEvent::Removed(s) => (SapEventKind::Removed, s),
        SapRegistryEvent::Expired(s) => (SapEventKind::Expired, s),
    };
    let mut out: Vec<char> = Vec::new();
    match &s.message.session {
        Some(d) => push_session_prefix(&mut out, k, d),
        None => push_hash_prefix(&mut out, k, s.key.message_hash),
    }
    push_source(&mut out, &s.source);
    let origin = [' ', 'o', 'r', 'i', 'g', 'i', 'n', '='];
    assert(origin@ =~= seq![' ', 'o', 'r', 'i', 'g', 'i', 'n', '=']);
    push_chars(&mut out, &origin);
    push_ipv4(&mut out, s.key.origin_source);
    proof {
        assert(out@ =~= event_line(k, *s));
    }
    if show_sdp_details && (k == SapEventKind::Added || k == SapEventKind::Updated) {
        if let Some(sdp) = &s.message.sdp {
            out.push('\n');
            let block = format_sdp_block_chars(sdp.as_str());
            push_chars(&mut out, block.as_slice());
            proof {
                assert(out@ =~= event_line(k, *s) + seq!['\n'] + sdp_block(sdp@));
            }
        }
    }
    string_from_chars(out.as_slice())
}

fn trim_end_chars(s: &[char]) -> (r: &[char])
    ensures
        r@ == trim_end(s@),
{
    let mut end = s.len();
    assert(s@.subrange(0, end as int) =~= s@);
    while end > 0 && crate::sap::is_white_space_char(s[end - 1])
        invariant
            end <= s@.len(),
            trim_end(s@) == trim_end(s@.subrange(0, end as int)),
        decreases end,
    {
        assert(s@.subrange(0, end as int).drop_last() =~= s@.subrange(0, end - 1));
        end = end - 1;
    }
    crate::text::char_range(s, 0, end)
}

/// The characters of the SDP block of `sdp`.
fn format_sdp_block_chars(sdp: &str) -> (r: Vec<char>)
    ensures
        r@ == sdp_block(sdp@),
{
    let chars = chars_of(sdp);
    let s = chars.as_slice();
    let n = s.len();
    let mut out: Vec<char> = Vec::new();
    let head = [' ', ' ', 'S', 'D', 'P', ':', '\n'];
    assert(head@ =~= seq![' ', ' ', 'S', 'D', 'P', ':', '\n']);
    push_chars(&mut out, &head);
    let mut pos: usize = 0;
    assert(s@.skip(0) =~= s@);
    while pos < n
        invariant
            n == s@.len(),
            s@ == sdp@,
            pos <= n,
            out@ + sdp_block_lines(sdp_lines(s@.skip(pos as int))) == seq![' ', ' ', 'S', 'D', 'P', ':', '\n'] + sdp_block_lines(sdp_lines(s@)),
        decreases n - pos,
    {
        let rest = crate::text::char_range(s, pos, n);
        let ghost rs = s@.skip(pos as int);
        assert(rest@ =~= rs);
        let (line_end, next) = match find_char(rest, '\n') {
            Some(i) => (pos + i, pos + i + 1),
            None => (n, n),
        };
        let mut line = crate::text::char_range(s, pos, line_end);
        if line.len() > 0 && line[line.len() - 1] == '\r' {
            line = crate::text::char_range(s, pos, line_end - 1);
        }
        proof {
            let i = first_index(rs, '\n');
            if 0 <= i < rs.len() {
                assert(s@.subrange(pos as int, line_end as int) =~= rs.take(i));
                assert(rs.skip(i + 1) =~= s@.skip(next as int));
                if rs.take(i).len() > 0 && rs.take(i).last() == '\r' {
                    assert(line@ =~= rs.take(i).drop_last());
                } else {
                    assert(line@ =~= rs.take(i));
                }
                assert(sdp_lines(rs) == seq![line@] + sdp_lines(s@.skip(next as int)));
            } else {
                assert(s@.subrange(pos as int, n as int) =~= rs);
                if rs.len() > 0 && rs.last() == '\r' {
                    assert(line@ =~= rs.drop_last());
                } else {
                    assert(line@ =~= rs);
                }
                assert(s@.skip(next as int) =~= Seq::<char>::empty());
                assert(sdp_lines(Seq::<char>::empty()) =~= Seq::<Seq<char>>::empty());
                assert(sdp_lines(rs) =~= seq![line@] + sdp_lines(s@.skip(next as int)));
            }
            let lines = sdp_lines(rs);
            assert(lines[0] == line@);
            assert(lines.drop_first() =~= sdp_lines(s@.skip(next as int)));
        }
        let trimmed = trim_end_chars(line);
        let ghost before = out@;
        if trimmed.len() > 0 {
            let indent = [' ', ' ', ' ', ' '];
            assert(indent@ =~= seq![' ', ' ', ' ', ' ']);
            push_chars(&mut out, &indent);
            push_chars(&mut out, trimmed);
            out.push('\n');
            assert(out@ =~= before + (seq![' ', ' ', ' ', ' '] + trimmed@ + seq!['\n']));
        }
        pos = next;
    }
    proof {
        assert(s@.skip(pos as int) =~= Seq::<char>::empty());
        assert(sdp_lines(Seq::<char>::empty()) =~= Seq::<Seq<char>>::empty());
        assert(out@ =~= seq![' ', ' ', 'S', 'D', 'P', ':', '\n'] + sdp_block_lines(sdp_lines(s@)));
    }
    out.pop();
    out
}

/// The SDP block shown under an event line.
pub fn format_sdp_block(sdp: &str) -> (text: String)
    ensures
        text@ == sdp_block(sdp@),
{
    let c = format_sdp_block_chars(sdp);
    string_from_chars(c.as_slice())
}

/// The file name a discovered SDP is saved under: `sap-<origin>-<hash as 4 hex digits>.sdp`.
pub fn sdp_output_file_name(stream: &SapStream) -> (name: String)
    ensures
        name@ == seq!['s', 'a', 'p', '-'] + ipv4_text(stream.key.origin_source@) + seq!['-'] + hex4(stream.key.message_hash) + seq!['.', 's', 'd', 'p'],
{
    let mut out: Vec<char> = Vec::new();
    let head = ['s', 'a', 'p', '-'];
    assert(head@ =~= seq!['s', 'a', 'p', '-']);
    push_chars(&mut out, &head);
    push_ipv4(&mut out, stream.key.origin_source);
    out.push('-');
    push_hex4(&mut out, stream.key.message_hash);
    let tail = ['.', 's', 'd', 'p'];
    assert(tail@ =~= seq!['.', 's', 'd', 'p']);
    push_chars(&mut out, &tail);
    string_from_chars(out.as_slice())
}

} // verus!
