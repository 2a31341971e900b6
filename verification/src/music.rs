//! State of the queued sender ("music player"): stream settings and their editing,
//! the interface picker, the queue selection and the playback state machine. Keys,
//! rendering, files and the stream task are the caller's; it reports what happened
//! through the notices returned here.

use vstd::prelude::*;
use crate::sap::{is_white_space, trim_end, trim_start};
use crate::sdp::chars_of;
use crate::text::{decimal_value, string_from_chars};

verus! {

/// Stream settings of the queued sender.
#[derive(Debug, Clone, PartialEq, Eq)]
pub struct StreamSettings {
    pub address: String,
    pub port: u16,
    pub interface: Option<String>,
    pub session_name: String,
    pub sap: bool,
    pub ptp_domain: u8,
    pub payload_type: u8,
    pub packet_time_ms: u32,
    pub ttl: u8,
}

/// The queued files.
#[derive(Debug, Clone)]
pub struct PlaylistSettings {
    pub files: Vec<String>,
}

/// Everything the queued sender saves.
#[derive(Debug, Clone)]
pub struct MusicPlayerSettings {
    pub stream: StreamSettings,
    pub playlist: PlaylistSettings,
}

/// The default session name of the queued sender, `AES67 Music Player`.
pub open spec fn music_session_name() -> Seq<char> {
    seq!['A', 'E', 'S', '6', '7', ' ', 'M', 'u', 's', 'i', 'c', ' ', 'P', 'l', 'a', 'y', 'e', 'r']
}

impl Default for MusicPlayerSettings {
    fn default() -> (s: Self)
        ensures
            s.stream.address@ == Seq::<char>::empty(),
            s.stream.port == 5004,
            s.stream.interface.is_none(),
            s.stream.session_name@ == music_session_name(),
            s.stream.sap,
            s.stream.ptp_domain == 0,
            s.stream.payload_type == 97,
            s.stream.packet_time_ms == 1,
            s.stream.ttl == 32,
            s.playlist.files@.len() == 0,
    {
        let name = ['A', 'E', 'S', '6', '7', ' ', 'M', 'u', 's', 'i', 'c', ' ', 'P', 'l', 'a', 'y', 'e', 'r'];
        assert(name@ =~= music_session_name());
        let empty: [char; 0] = [];
        MusicPlayerSettings {
            stream: StreamSettings {
                address: string_from_chars(&empty),
                port: 5004,
                interface: None,
                session_name: string_from_chars(&name),
                sap: true,
                ptp_domain: 0,
                payload_type: 97,
                packet_time_ms: 1,
                ttl: 32,
            },
            playlist: PlaylistSettings { files: Vec::new() },
        }
    }
}

/// The fields of the settings form, in form order.
#[derive(Debug, Clone, Copy, PartialEq, Eq, Structural)]
pub enum SettingsField {
    SessionName,
    Address,
    Port,
    Interface,
    Sap,
    PtpDomain,
    PayloadType,
    PacketTimeMs,
    Ttl,
}

/// Position of a field in the form.
pub open spec fn field_index(f: SettingsField) -> int {
    match f {
        SettingsField::SessionName => 0,
        SettingsField::Address => 1,
        SettingsField::Port => 2,
        SettingsField::Interface => 3,
        SettingsField::Sap => 4,
        SettingsField::PtpDomain => 5,
        SettingsField::PayloadType => 6,
        SettingsField::PacketTimeMs => 7,
        SettingsField::Ttl => 8,
    }
}

impl SettingsField {
    fn at(i: u8) -> (f: Self)
        requires
            i < 9,
        ensures
            field_index(f) == i,
    {
        if i == 0 {
            SettingsField::SessionName
        } else if i == 1 {
            SettingsField::Address
        } else if i == 2 {
            SettingsField::Port
        } else if i == 3 {
            SettingsField::Interface
        } else if i == 4 {
            SettingsField::Sap
        } else if i == 5 {
            SettingsField::PtpDomain
        } else if i == 6 {
            SettingsField::PayloadType
        } else if i == 7 {
            SettingsField::PacketTimeMs
        } else {
            SettingsField::Ttl
        }
    }

    fn index(self) -> (i: u8)
        ensures
            i == field_index(self),
    {
        match self {
            SettingsField::SessionName => 0,
            SettingsField::Address => 1,
            SettingsField::Port => 2,
            SettingsField::Interface => 3,
            SettingsField::Sap => 4,
            SettingsField::PtpDomain => 5,
            SettingsField::PayloadType => 6,
            SettingsField::PacketTimeMs => 7,
            SettingsField::Ttl => 8,
        }
    }

    /// The field after this one, wrapping from the last to the first.
    pub fn next(self) -> (f: Self)
        ensures
            field_index(f) == (field_index(self) + 1) % 9,
    {
        SettingsField::at((self.index() + 1) % 9)
    }

    /// The field before this one, wrapping from the first to the last.
    pub fn previous(self) -> (f: Self)
        ensures
            field_index(f) == (field_index(self) + 8) % 9,
    {
        SettingsField::at((self.index() + 8) % 9)
    }
}

/// Fields are known by their position.
pub proof fn lemma_field_index_injective(a: SettingsField, b: SettingsField)
    requires
        field_index(a) == field_index(b),
    ensures
        a == b,
{
}

/// Moving to the next field and back returns to the same field, and nine steps go round
/// the form.
pub proof fn lemma_field_navigation(f: SettingsField, g: SettingsField, h: SettingsField)
    requires
        field_index(g) == (field_index(f) + 1) % 9,
        field_index(h) == (field_index(g) + 8) % 9,
    ensures
        h == f,
{
}

/// Values of the settings form that are refused.
#[derive(Debug, Clone, Copy, PartialEq, Eq, Structural)]
pub enum FieldError {
    EmptySessionName,
    EmptyAddress,
    /// Not an integer in the field's range.
    NotAnInteger { field: SettingsField },
    ZeroPort,
    NotABoolean,
    PayloadTypeOutOfRange,
    /// Packet time must be greater than zero.
    ZeroPacketTime,
    ZeroTtl,
    /// A value that must be greater than zero.
    NotPositive { field: SettingsField },
}

/// Text trimmed of white space.
pub open spec fn trimmed(s: Seq<char>) -> Seq<char> {
    trim_end(trim_start(s))
}

/// What std's unsigned integer parser reads: an optional `+` and one or more digits.
pub open spec fn unsigned_value(s: Seq<char>) -> Option<nat> {
    if s.len() > 0 && s[0] == '+' {
        decimal_value(s.skip(1))
    } else {
        decimal_value(s)
    }
}

/// `unsigned_value`, when it is at most `max`.
pub open spec fn unsigned_at_most(s: Seq<char>, max: nat) -> Option<nat> {
    match unsigned_value(s) {
        Some(v) => if v <= max { Some(v) } else { None },
        None => None,
    }
}

fn parse_unsigned(s: &[char], max: u64) -> (r: Option<u64>)
    requires
        max <= 0xffff_ffff,
    ensures
        match r {
            Some(v) => unsigned_at_most(s@, max as nat) == Some(v as nat),
            None => unsigned_at_most(s@, max as nat).is_none(),
        },
{
    if s.len() > 0 && s[0] == '+' {
        let rest = crate::text::char_range(s, 1, s.len());
        assert(rest@ =~= s@.skip(1));
        crate::text::parse_decimal(rest, max)
    } else {
        crate::text::parse_decimal(s, max)
    }
}

/// ASCII lower case.
pub open spec fn lower(s: Seq<char>) -> Seq<char> {
    s.map_values(|c: char| crate::sap::ascii_lower(c))
}

/// The words that mean yes.
pub open spec fn is_true_word(w: Seq<char>) -> bool {
    ||| w == seq!['t', 'r', 'u', 'e']
    ||| w == seq!['y', 'e', 's']
    ||| w == seq!['y']
    ||| w == seq!['1']
    ||| w == seq!['o', 'n']
    ||| w == seq!['e', 'n', 'a', 'b', 'l', 'e', 'd']
}

/// The words that mean no.
pub open spec fn is_false_word(w: Seq<char>) -> bool {
    ||| w == seq!['f', 'a', 'l', 's', 'e']
    ||| w == seq!['n', 'o']
    ||| w == seq!['n']
    ||| w == seq!['0']
    ||| w == seq!['o', 'f', 'f']
    ||| w == seq!['d', 'i', 's', 'a', 'b', 'l', 'e', 'd']
}

/// The words that clear the interface.
pub open spec fn is_clear_word(w: Seq<char>) -> bool {
    w.len() == 0 || w == seq!['n', 'o', 'n', 'e'] || w == seq!['c', 'l', 'e', 'a', 'r'] || w == seq!['-']
}

pub(crate) fn equals_word(s: &[char], w: &[char]) -> (r: bool)
    ensures
        r == (s@ == w@),
{
    if s.len() != w.len() {
        return false;
    }
    let r = crate::text::starts_with(s, w);
    assert(s@.take(w@.len() as int) =~= s@);
    r
}

pub(crate) fn lower_chars(s: &[char]) -> (r: Vec<char>)
    ensures
        r@ == lower(s@),
{
    let mut out: Vec<char> = Vec::new();
    let mut i: usize = 0;
    while i < s.len()
        invariant
            i <= s@.len(),
            out@ == s@.take(i as int).map_values(|c: char| crate::sap::ascii_lower(c)),
        decreases s@.len() - i,
    {
        let c = s[i];
        let l = if 'A' <= c && c <= 'Z' {
            ((c as u32) + 32) as u8 as char
        } else {
            c
        };
        proof {
            if 'A' <= c <= 'Z' {
                assert((((c as u32) + 32) as u8) as char == ((c as u32) + 32) as char);
            }
        }
        out.push(l);
        assert(s@.take(i + 1) =~= s@.take(i as int).push(c));
        assert(out@ =~= s@.take(i + 1).map_values(|c: char| crate::sap::ascii_lower(c)));
        i = i + 1;
    }
    assert(s@.take(s@.len() as int) =~= s@);
    out
}

/// Read a yes/no answer in any ASCII case.
fn parse_bool_chars(s: &[char]) -> (r: Option<bool>)
    ensures
        r == (if is_true_word(lower(s@)) {
            Some(true)
        } else if is_false_word(lower(s@)) {
            Some(false)
        } else {
            None::<bool>
        }),
{
    let w = lower_chars(s);
    let w = w.as_slice();
    let t1 = ['t', 'r', 'u', 'e'];
    let t2 = ['y', 'e', 's'];
    let t3 = ['y'];
    let t4 = ['1'];
    let t5 = ['o', 'n'];
    let t6 = ['e', 'n', 'a', 'b', 'l', 'e', 'd'];
    let f1 = ['f', 'a', 'l', 's', 'e'];
    let f2 = ['n', 'o'];
    let f3 = ['n'];
    let f4 = ['0'];
    let f5 = ['o', 'f', 'f'];
    let f6 = ['d', 'i', 's', 'a', 'b', 'l', 'e', 'd'];
    assert(t1@ =~= seq!['t', 'r', 'u', 'e'] && t2@ =~= seq!['y', 'e', 's'] && t3@ =~= seq!['y']);
    assert(t4@ =~= seq!['1'] && t5@ =~= seq!['o', 'n'] && t6@ =~= seq!['e', 'n', 'a', 'b', 'l', 'e', 'd']);
    assert(f1@ =~= seq!['f', 'a', 'l', 's', 'e'] && f2@ =~= seq!['n', 'o'] && f3@ =~= seq!['n']);
    assert(f4@ =~= seq!['0'] && f5@ =~= seq!['o', 'f', 'f'] && f6@ =~= seq!['d', 'i', 's', 'a', 'b', 'l', 'e', 'd']);
    if equals_word(w, &t1) || equals_word(w, &t2) || equals_word(w, &t3) || equals_word(w, &t4)
        || equals_word(w, &t5) || equals_word(w, &t6) {
        return Some(true);
    }
    if equals_word(w, &f1) || equals_word(w, &f2) || equals_word(w, &f3) || equals_word(w, &f4)
        || equals_word(w, &f5) || equals_word(w, &f6) {
        return Some(false);
    }
    None
}

pub(crate) fn trim_text(s: &str) -> (r: Vec<char>)
    ensures
        r@ == trimmed(s@),
{
    let chars = chars_of(s);
    let n = chars.len();
    let c = chars.as_slice();
    let mut start: usize = 0;
    assert(c@.skip(0) =~= c@);
    while start < n && crate::sap::is_white_space_char(c[start])
        invariant
            n == c@.len(),
            start <= n,
            trim_start(c@) == trim_start(c@.skip(start as int)),
        decreases n - start,
    {
        assert(c@.skip(start as int).drop_first() =~= c@.skip(start + 1));
        start = start + 1;
    }
    let mut end: usize = n;
    assert(c@.skip(start as int) =~= c@.subrange(start as int, n as int));
    while end > start && crate::sap::is_white_space_char(c[end - 1])
        invariant
            n == c@.len(),
            start <= end <= n,
            trim_end(c@.skip(start as int)) == trim_end(c@.subrange(start as int, end as int)),
        decreases end,
    {
        assert(c@.subrange(start as int, end as int).drop_last() =~= c@.subrange(start as int, end - 1));
        end = end - 1;
    }
    let mut out: Vec<char> = Vec::new();
    let mut i: usize = start;
    while i < end
        invariant
            start <= i <= end <= n,
            n == c@.len(),
            out@ == c@.subrange(start as int, i as int),
        decreases end - i,
    {
        out.push(c[i]);
        assert(c@.subrange(start as int, i + 1) =~= c@.subrange(start as int, i as int).push(c@[i as int]));
        i = i + 1;
    }
    out
}

/// The settings after `field` is set to the text `value`, or the error, following the
/// form's rules: names and addresses must not be blank, numbers must be in range (a
/// port, packet time and TTL above zero, a dynamic payload type), the interface is
/// cleared by a blank value or `none`, `clear` or `-`, and SAP takes a yes/no word.
pub open spec fn field_value_accepted(s: StreamSettings, field: SettingsField, value: Seq<char>, r: Result<(), FieldError>, s2: StreamSettings) -> bool {
    let v = trimmed(value);
    let unchanged = s2.address@ == s.address@ && s2.port == s.port && crate::sdp::opt_text(s2.interface) == crate::sdp::opt_text(s.interface) && s2.session_name@ == s.session_name@ && s2.sap == s.sap && s2.ptp_domain == s.ptp_domain && s2.payload_type == s.payload_type && s2.packet_time_ms == s.packet_time_ms && s2.ttl == s.ttl;
    let same_but = |f: SettingsField| (f == SettingsField::Address || s2.address@ == s.address@) && (f == SettingsField::Port || s2.port == s.port) && (f == SettingsField::Interface || crate::sdp::opt_text(s2.interface) == crate::sdp::opt_text(s.interface)) && (f == SettingsField::SessionName || s2.session_name@ == s.session_name@) && (f == SettingsField::Sap || s2.sap == s.sap) && (f == SettingsField::PtpDomain || s2.ptp_domain == s.ptp_domain) && (f == SettingsField::PayloadType || s2.payload_type == s.payload_type) && (f == SettingsField::PacketTimeMs || s2.packet_time_ms == s.packet_time_ms) && (f == SettingsField::Ttl || s2.ttl == s.ttl);
    match field {
        SettingsField::SessionName => if v.len() == 0 {
            r == Err::<(), FieldError>(FieldError::EmptySessionName) && unchanged
        } else {
            r is Ok && same_but(field) && s2.session_name@ == v
        },
        SettingsField::Address => if v.len() == 0 {
            r == Err::<(), FieldError>(FieldError::EmptyAddress) && unchanged
        } else {
            r is Ok && same_but(field) && s2.address@ == v
        },
        SettingsField::Port => match unsigned_at_most(v, 65535) {
            None => r == Err::<(), FieldError>(FieldError::NotAnInteger { field }) && unchanged,
            Some(p) => if p == 0 {
                r == Err::<(), FieldError>(FieldError::ZeroPort) && unchanged
            } else {
                r is Ok && same_but(field) && s2.port == p
            },
        },
        SettingsField::Interface => r is Ok && same_but(field) && if is_clear_word(v) {
            s2.interface.is_none()
        } else {
            crate::sdp::opt_text(s2.interface) == Some(v)
        },
        SettingsField::Sap => if is_true_word(lower(v)) {
            r is Ok && same_but(field) && s2.sap
        } else if is_false_word(lower(v)) {
            r is Ok && same_but(field) && !s2.sap
        } else {
            r == Err::<(), FieldError>(FieldError::NotABoolean) && unchanged
        },
        SettingsField::PtpDomain => match unsigned_at_most(v, 255) {
            None => r == Err::<(), FieldError>(FieldError::NotAnInteger { field }) && unchanged,
            Some(d) => r is Ok && same_but(field) && s2.ptp_domain == d,
        },
        SettingsField::PayloadType => match unsigned_at_most(v, 255) {
            None => r == Err::<(), FieldError>(FieldError::NotAnInteger { field }) && unchanged,
            Some(p) => if 96 <= p <= 127 {
                r is Ok && same_but(field) && s2.payload_type == p
            } else {
                r == Err::<(), FieldError>(FieldError::PayloadTypeOutOfRange) && unchanged
            },
        },
        SettingsField::PacketTimeMs => match unsigned_at_most(v, 0xffff_ffff) {
            None => r == Err::<(), FieldError>(FieldError::NotAnInteger { field }) && unchanged,
            Some(p) => if p == 0 {
                r == Err::<(), FieldError>(FieldError::ZeroPacketTime) && unchanged
            } else {
                r is Ok && same_but(field) && s2.packet_time_ms == p
            },
        },
        SettingsField::Ttl => match unsigned_at_most(v, 255) {
            None => r == Err::<(), FieldError>(FieldError::NotAnInteger { field }) && unchanged,
            Some(t) => if t == 0 {
                r == Err::<(), FieldError>(FieldError::ZeroTtl) && unchanged
            } else {
                r is Ok && same_but(field) && s2.ttl == t
            },
        },
    }
}

/// Set a field of the settings form from the text the user typed.
pub fn apply_field_value(stream: &mut StreamSettings, field: SettingsField, value: &str) -> (r: Result<(), FieldError>)
    ensures
        field_value_accepted(*old(stream), field, value@, r, *final(stream)),
{
    let v = trim_text(value);
    let vs = v.as_slice();
    match field {
        SettingsField::SessionName => {
            if vs.len() == 0 {
                return Err(FieldError::EmptySessionName);
            }
            stream.session_name = string_from_chars(vs);
        },
        SettingsField::Address => {
            if vs.len() == 0 {
                return Err(FieldError::EmptyAddress);
            }
            stream.address = string_from_chars(vs);
        },
        SettingsField::Port => {
            let port = match parse_unsigned(vs, 65535) {
                Some(p) => p,
                None => return Err(FieldError::NotAnInteger { field }),
            };
            if port == 0 {
                return Err(FieldError::ZeroPort);
            }
            stream.port = port as u16;
        },
        SettingsField::Interface => {
            let none = ['n', 'o', 'n', 'e'];
            let clear = ['c', 'l', 'e', 'a', 'r'];
            let dash = ['-'];
            assert(none@ =~= seq!['n', 'o', 'n', 'e']);
            assert(clear@ =~= seq!['c', 'l', 'e', 'a', 'r']);
            assert(dash@ =~= seq!['-']);
            if vs.len() == 0 || equals_word(vs, &none) || equals_word(vs, &clear) || equals_word(vs, &dash) {
                stream.interface = None;
            } else {
                stream.interface = Some(string_from_chars(vs));
            }
        },
        SettingsField::Sap => {
            match parse_bool_chars(vs) {
                Some(b) => stream.sap = b,
                None => return Err(FieldError::NotABoolean),
            }
        },
        SettingsField::PtpDomain => {
            match parse_unsigned(vs, 255) {
                Some(d) => stream.ptp_domain = d as u8,
                None => return Err(FieldError::NotAnInteger { field }),
            }
        },
        SettingsField::PayloadType => {
            let pt = match parse_unsigned(vs, 255) {
                Some(p) => p,
                None => return Err(FieldError::NotAnInteger { field }),
            };
            if !(96 <= pt && pt <= 127) {
                return Err(FieldError::PayloadTypeOutOfRange);
            }
            stream.payload_type = pt as u8;
        },
        SettingsField::PacketTimeMs => {
            let p = match parse_unsigned(vs, 0xffff_ffff) {
                Some(p) => p,
                None => return Err(FieldError::NotAnInteger { field }),
            };
            if p == 0 {
                return Err(FieldError::ZeroPacketTime);
            }
            stream.packet_time_ms = p as u32;
        },
        SettingsField::Ttl => {
            let t = match parse_unsigned(vs, 255) {
                Some(t) => t,
                None => return Err(FieldError::NotAnInteger { field }),
            };
            if t == 0 {
                return Err(FieldError::ZeroTtl);
            }
            stream.ttl = t as u8;
        },
    }
    Ok(())
}

/// Settings that streaming cannot start without.
#[derive(Debug, Clone, Copy, PartialEq, Eq, Structural)]
pub enum SettingsError {
    AddressRequired,
    InterfaceRequired,
}

/// The address is blank.
pub open spec fn address_missing(s: StreamSettings) -> bool {
    trimmed(s.address@).len() == 0
}

/// No interface, or an empty one.
pub open spec fn interface_missing(s: StreamSettings) -> bool {
    match s.interface {
        None => true,
        Some(i) => i@.len() == 0,
    }
}

fn address_missing_exec(s: &StreamSettings) -> (r: bool)
    ensures
        r == address_missing(*s),
{
    trim_text(s.address.as_str()).len() == 0
}

fn interface_missing_exec(s: &StreamSettings) -> (r: bool)
    ensures
        r == interface_missing(*s),
{
    match &s.interface {
        None => true,
        Some(i) => chars_of(i.as_str()).len() == 0,
    }
}

/// Streaming needs an address and an interface.
pub fn validate_settings(stream: &StreamSettings) -> (r: Result<(), SettingsError>)
    ensures
        address_missing(*stream) ==> r == Err::<(), SettingsError>(SettingsError::AddressRequired),
        !address_missing(*stream) && interface_missing(*stream) ==> r == Err::<(), SettingsError>(SettingsError::InterfaceRequired),
        !address_missing(*stream) && !interface_missing(*stream) ==> r == Ok::<(), SettingsError>(()),
{
    if address_missing_exec(stream) {
        return Err(SettingsError::AddressRequired);
    }
    if interface_missing_exec(stream) {
        return Err(SettingsError::InterfaceRequired);
    }
    Ok(())
}

/// Whether the form should flag `field` as a missing required value.
pub fn is_required_setting_missing(stream: &StreamSettings, field: SettingsField) -> (r: bool)
    ensures
        r == match field {
            SettingsField::Address => address_missing(*stream),
            SettingsField::Interface => interface_missing(*stream),
            _ => false,
        },
{
    match field {
        SettingsField::Address => address_missing_exec(stream),
        SettingsField::Interface => interface_missing_exec(stream),
        _ => false,
    }
}

/// Whether the app opens on the settings form: on first launch, or when a required
/// setting is missing.
pub fn settings_required_at_start(stream: &StreamSettings, settings_created: bool) -> (r: bool)
    ensures
        r == (settings_created || address_missing(*stream) || interface_missing(*stream)),
{
    settings_created || address_missing_exec(stream) || interface_missing_exec(stream)
}

/// One choice of the interface picker.
#[derive(Debug, Clone)]
pub struct PickerOption {
    pub label: String,
    pub interface_name: String,
}

/// A list of choices with one selected.
#[derive(Debug, Clone)]
pub struct SettingsPicker {
    pub options: Vec<PickerOption>,
    pub selected: usize,
}

impl SettingsPicker {
    /// A picker over `options` with `selected` chosen, kept within the list.
    pub fn new_interface(options: Vec<PickerOption>, selected: usize) -> (p: Self)
        ensures
            p.options@ == options@,
            p.selected == if options@.len() == 0 {
                0
            } else if selected < options@.len() {
                selected as int
            } else {
                options@.len() - 1
            },
    {
        let last = if options.len() == 0 { 0 } else { options.len() - 1 };
        let selected = if selected < last { selected } else { last };
        SettingsPicker { options, selected }
    }

    /// The selected choice, when the selection is within the list.
    pub fn selected_option(&self) -> (r: Option<&PickerOption>)
        ensures
            self.selected < self.options@.len() ==> r == Some(&self.options@[self.selected as int]),
            self.selected >= self.options@.len() ==> r.is_none(),
    {
        if self.selected < self.options.len() {
            Some(&self.options[self.selected])
        } else {
            None
        }
    }

    /// Select the next choice, wrapping round.
    pub fn move_next(&mut self)
        requires
            old(self).options@.len() > 0 ==> old(self).selected < usize::MAX,
        ensures
            *final(self) == (SettingsPicker {
                selected: if old(self).options@.len() == 0 {
                    old(self).selected
                } else {
                    ((old(self).selected + 1) % (old(self).options@.len() as int)) as usize
                },
                ..*old(self)
            }),
    {
        if self.options.len() > 0 {
            self.selected = (self.selected + 1) % self.options.len();
        }
    }

    /// Select the previous choice, wrapping round.
    pub fn move_previous(&mut self)
        requires
            old(self).options@.len() > 0 ==> old(self).selected + old(self).options@.len() <= usize::MAX,
        ensures
            *final(self) == (SettingsPicker {
                selected: if old(self).options@.len() == 0 {
                    old(self).selected
                } else {
                    ((old(self).selected + old(self).options@.len() - 1) % (old(self).options@.len() as int)) as usize
                },
                ..*old(self)
            }),
    {
        let len = self.options.len();
        if len > 0 {
            self.selected = (self.selected + len - 1) % len;
        }
    }
}

/// Where playback is.
#[derive(Debug, Clone, PartialEq, Eq)]
pub enum PlaybackState {
    Stopped,
    Starting { track_index: usize },
    Streaming { track_index: usize },
    Stopping { track_index: usize },
    Error { message: String },
}

/// A track to stream: its place in the queue, its file, and the stream settings as they
/// were when the start was asked for.
#[derive(Debug, Clone, PartialEq, Eq)]
pub struct PlaybackStartRequest {
    pub track_index: usize,
    pub path: String,
    pub stream: StreamSettings,
}

/// What the stream task is asked to do.
#[derive(Debug, Clone, PartialEq, Eq)]
pub enum PlaybackCommand {
    /// Stream the requested track with the request's settings.
    Start(PlaybackStartRequest),
    Stop,
}

/// A copy of the stream settings.
fn copy_stream_settings(s: &StreamSettings) -> (c: StreamSettings)
    ensures
        c == *s,
{
    let interface = match &s.interface {
        Some(i) => Some(i.clone()),
        None => None,
    };
    StreamSettings {
        address: s.address.clone(),
        port: s.port,
        interface,
        session_name: s.session_name.clone(),
        sap: s.sap,
        ptp_domain: s.ptp_domain,
        payload_type: s.payload_type,
        packet_time_ms: s.packet_time_ms,
        ttl: s.ttl,
    }
}

/// What the last action did, for the status line.
#[derive(Debug, Clone, Copy, PartialEq, Eq, Structural)]
pub enum QueueNotice {
    SettingsIncomplete(SettingsError),
    QueueEmpty,
    Starting { track_index: usize },
    Stopping,
    StillStopping,
    Streaming { track_index: usize },
    Failed,
    Stopped,
    QueueFinished,
    Removed { track_index: usize },
}

/// Playback and queue selection of the queued sender.
#[derive(Debug, Clone)]
pub struct QueuePlayer {
    pub queue_selected: usize,
    pub playback_state: PlaybackState,
    pub pending_command: Option<PlaybackCommand>,
    pub started_at_ns: Option<u64>,
    pub duration_ns: Option<u64>,
}

/// The index kept within a list of `len` entries.
pub open spec fn clamp_index(i: int, len: int) -> int {
    if len == 0 {
        0
    } else if i < len - 1 {
        i
    } else {
        len - 1
    }
}

/// The track that playback is on, if any.
pub open spec fn active_track(s: PlaybackState) -> Option<usize> {
    match s {
        PlaybackState::Starting { track_index } => Some(track_index),
        PlaybackState::Streaming { track_index } => Some(track_index),
        PlaybackState::Stopping { track_index } => Some(track_index),
        _ => None,
    }
}

fn clamp_exec(i: usize, len: usize) -> (r: usize)
    ensures
        r == clamp_index(i as int, len as int),
{
    if len == 0 {
        0
    } else if i < len - 1 {
        i
    } else {
        len - 1
    }
}

/// The notice of a start request: what is missing, an empty queue, or the track that
/// starts.
pub open spec fn start_notice(q: QueuePlayer, settings: MusicPlayerSettings) -> QueueNotice {
    if address_missing(settings.stream) {
        QueueNotice::SettingsIncomplete(SettingsError::AddressRequired)
    } else if interface_missing(settings.stream) {
        QueueNotice::SettingsIncomplete(SettingsError::InterfaceRequired)
    } else if settings.playlist.files@.len() == 0 {
        QueueNotice::QueueEmpty
    } else {
        QueueNotice::Starting {
            track_index: clamp_index(q.queue_selected as int, settings.playlist.files@.len() as int) as usize,
        }
    }
}

/// `new` is `old` after a start request under `settings`, which gave notice `n`: with
/// complete settings and a non-empty queue, the selected track (kept within the queue)
/// is starting and its start is the pending command; otherwise nothing changes.
pub open spec fn start_requested(old: QueuePlayer, settings: MusicPlayerSettings, new: QueuePlayer, n: QueueNotice) -> bool {
    &&& n == start_notice(old, settings)
    &&& match n {
        QueueNotice::Starting { track_index: t } => {
            &&& new == (QueuePlayer {
                queue_selected: t,
                playback_state: PlaybackState::Starting { track_index: t },
                pending_command: new.pending_command,
                started_at_ns: None,
                duration_ns: None,
            })
            &&& (new.pending_command matches Some(PlaybackCommand::Start(request))
                && request.track_index == t && request.path@ == settings.playlist.files@[t as int]@
                && request.stream == settings.stream)
        },
        _ => new == old,
    }
}

/// `new` is `old` after a stop request for the stream on `t`.
pub open spec fn stop_requested(old: QueuePlayer, t: usize, new: QueuePlayer) -> bool {
    new == (QueuePlayer {
        playback_state: PlaybackState::Stopping { track_index: t },
        pending_command: Some(PlaybackCommand::Stop),
        ..old
    })
}

/// `new` is `old` after Space: a stopped or failed player starts, a starting or streaming
/// one stops, and one that is stopping keeps stopping.
pub open spec fn playback_toggled(old: QueuePlayer, settings: MusicPlayerSettings, new: QueuePlayer, n: QueueNotice) -> bool {
    match old.playback_state {
        PlaybackState::Starting { track_index } => stop_requested(old, track_index, new)
            && n == QueueNotice::Stopping,
        PlaybackState::Streaming { track_index } => stop_requested(old, track_index, new)
            && n == QueueNotice::Stopping,
        PlaybackState::Stopping { .. } => new == old && n == QueueNotice::StillStopping,
        _ => start_requested(old, settings, new, n),
    }
}

/// `new` is `old` after the stream task ended on track `t` with `result`: a failure is
/// shown; a requested stop leaves playback stopped; otherwise the next queued track is
/// requested, or playback stops at the end of the queue.
pub open spec fn stream_finished(old: QueuePlayer, settings: MusicPlayerSettings, t: usize, result: Result<(), String>, new: QueuePlayer, n: QueueNotice) -> bool {
    let cleared = QueuePlayer { started_at_ns: None, duration_ns: None, ..old };
    let len = settings.playlist.files@.len();
    match result {
        Err(message) => n == QueueNotice::Failed && new == (QueuePlayer {
            playback_state: PlaybackState::Error { message },
            ..cleared
        }),
        Ok(_) => if old.playback_state matches PlaybackState::Stopping { .. } {
            n == QueueNotice::Stopped && new == (QueuePlayer {
                playback_state: PlaybackState::Stopped,
                ..cleared
            })
        } else if t + 1 < len {
            start_requested(QueuePlayer { queue_selected: (t + 1) as usize, ..cleared }, settings, new, n)
        } else {
            n == QueueNotice::QueueFinished && new == (QueuePlayer {
                playback_state: PlaybackState::Stopped,
                queue_selected: clamp_index(t as int, len as int) as usize,
                ..cleared
            })
        },
    }
}

impl QueuePlayer {
    /// Stopped, with the first track selected.
    pub fn new() -> (q: Self)
        ensures
            q.queue_selected == 0,
            q.playback_state == PlaybackState::Stopped,
            q.pending_command.is_none(),
            q.started_at_ns.is_none(),
            q.duration_ns.is_none(),
    {
        QueuePlayer {
            queue_selected: 0,
            playback_state: PlaybackState::Stopped,
            pending_command: None,
            started_at_ns: None,
            duration_ns: None,
        }
    }

    /// The track that playback is on, if any.
    pub fn active_track_index(&self) -> (r: Option<usize>)
        ensures
            r == active_track(self.playback_state),
    {
        match self.playback_state {
            PlaybackState::Starting { track_index } => Some(track_index),
            PlaybackState::Streaming { track_index } => Some(track_index),
            PlaybackState::Stopping { track_index } => Some(track_index),
            _ => None,
        }
    }

    /// Ask to stream the selected track: the settings must be complete and the queue
    /// not empty; the selection is kept within the queue.
    pub fn request_stream_start(&mut self, settings: &MusicPlayerSettings) -> (n: QueueNotice)
        ensures
            start_requested(*old(self), *settings, *final(self), n),
    {
        if let Err(e) = validate_settings(&settings.stream) {
            return QueueNotice::SettingsIncomplete(e);
        }
        let len = settings.playlist.files.len();
        if len == 0 {
            return QueueNotice::QueueEmpty;
        }
        let track_index = clamp_exec(self.queue_selected, len);
        let path = settings.playlist.files[track_index].clone();
        self.queue_selected = track_index;
        self.started_at_ns = None;
        self.duration_ns = None;
        self.playback_state = PlaybackState::Starting { track_index };
        let stream = copy_stream_settings(&settings.stream);
        self.pending_command = Some(PlaybackCommand::Start(PlaybackStartRequest { track_index, path, stream }));
        QueueNotice::Starting { track_index }
    }

    /// Ask the stream on `track_index` to stop.
    pub fn request_stream_stop(&mut self, track_index: usize) -> (n: QueueNotice)
        ensures
            n == QueueNotice::Stopping,
            stop_requested(*old(self), track_index, *final(self)),
    {
        self.playback_state = PlaybackState::Stopping { track_index };
        self.pending_command = Some(PlaybackCommand::Stop);
        QueueNotice::Stopping
    }

    /// Space on the player screen: start when stopped or failed, stop when starting or
    /// streaming, and wait while stopping.
    pub fn toggle_playback(&mut self, settings: &MusicPlayerSettings) -> (n: QueueNotice)
        ensures
            playback_toggled(*old(self), *settings, *final(self), n),
    {
        match &self.playback_state {
            PlaybackState::Stopped | PlaybackState::Error { .. } => self.request_stream_start(settings),
            PlaybackState::Starting { track_index } | PlaybackState::Streaming { track_index } => {
                let t = *track_index;
                self.request_stream_stop(t)
            },
            PlaybackState::Stopping { .. } => QueueNotice::StillStopping,
        }
    }

    /// Take the command waiting for the stream task.
    pub fn take_playback_command(&mut self) -> (c: Option<PlaybackCommand>)
        ensures
            c == old(self).pending_command,
            *final(self) == (QueuePlayer { pending_command: None, ..*old(self) }),
    {
        self.pending_command.take()
    }

    /// The stream task started `track_index` at monotonic time `started_at_ns`, for a
    /// track of `duration_ns` when known.
    pub fn mark_stream_started(&mut self, files_len: usize, track_index: usize, started_at_ns: u64, duration_ns: Option<u64>) -> (n: QueueNotice)
        ensures
            *final(self) == (QueuePlayer {
                queue_selected: clamp_index(track_index as int, files_len as int) as usize,
                playback_state: PlaybackState::Streaming { track_index },
                started_at_ns: Some(started_at_ns),
                duration_ns,
                ..*old(self)
            }),
            n == (QueueNotice::Streaming { track_index }),
    {
        self.started_at_ns = Some(started_at_ns);
        self.duration_ns = duration_ns;
        self.playback_state = PlaybackState::Streaming { track_index };
        self.queue_selected = clamp_exec(track_index, files_len);
        QueueNotice::Streaming { track_index }
    }

    /// The stream task ended on `track_index`: on failure playback shows the error; a
    /// requested stop leaves playback stopped; otherwise the next queued track starts,
    /// or playback stops at the end of the queue.
    pub fn mark_stream_finished(&mut self, settings: &MusicPlayerSettings, track_index: usize, result: Result<(), String>) -> (n: QueueNotice)
        ensures
            stream_finished(*old(self), *settings, track_index, result, *final(self), n),
    {
        self.started_at_ns = None;
        self.duration_ns = None;
        if let Err(message) = result {
            self.playback_state = PlaybackState::Error { message };
            return QueueNotice::Failed;
        }
        if let PlaybackState::Stopping { .. } = self.playback_state {
            self.playback_state = PlaybackState::Stopped;
            return QueueNotice::Stopped;
        }
        let len = settings.playlist.files.len();
        if len > 0 && track_index < len - 1 {
            self.queue_selected = track_index + 1;
            self.request_stream_start(settings)
        } else {
            self.playback_state = PlaybackState::Stopped;
            self.queue_selected = clamp_exec(track_index, len);
            QueueNotice::QueueFinished
        }
    }

    /// Select the next queued track, wrapping round.
    pub fn move_queue_selection_next(&mut self, files_len: usize)
        ensures
            *final(self) == (QueuePlayer {
                queue_selected: if files_len > 0 {
                    ((old(self).queue_selected + 1) % (files_len as int)) as usize
                } else {
                    old(self).queue_selected
                },
                ..*old(self)
            }),
    {
        if files_len > 0 {
            let r = self.queue_selected % files_len;
            let next = if r + 1 == files_len { 0 } else { r + 1 };
            proof {
                let s = old(self).queue_selected as int;
                let n = files_len as int;
                assert((s + 1) % n == if (s % n) + 1 == n { 0 } else { (s % n) + 1 }) by (nonlinear_arith)
                    requires
                        n > 0,
                        s >= 0,
                {
                    vstd::arithmetic::div_mod::lemma_fundamental_div_mod(s, n);
                    vstd::arithmetic::div_mod::lemma_mod_bound(s, n);
                    if (s % n) + 1 == n {
                        vstd::arithmetic::div_mod::lemma_fundamental_div_mod_converse(s + 1, n, s / n + 1, 0);
                    } else {
                        vstd::arithmetic::div_mod::lemma_fundamental_div_mod_converse(s + 1, n, s / n, s % n + 1);
                    }
                }
            }
            self.queue_selected = next;
        }
    }

    /// Select the previous queued track, wrapping round.
    pub fn move_queue_selection_previous(&mut self, files_len: usize)
        ensures
            *final(self) == (QueuePlayer {
                queue_selected: if files_len > 0 {
                    ((old(self).queue_selected + files_len - 1) % (files_len as int)) as usize
                } else {
                    old(self).queue_selected
                },
                ..*old(self)
            }),
    {
        if files_len > 0 {
            let r = self.queue_selected % files_len;
            let previous = if r == 0 { files_len - 1 } else { r - 1 };
            proof {
                let s = old(self).queue_selected as int;
                let n = files_len as int;
                assert((s + n - 1) % n == if s % n == 0 { n - 1 } else { (s % n) - 1 }) by (nonlinear_arith)
                    requires
                        n > 0,
                        s >= 0,
                {
                    vstd::arithmetic::div_mod::lemma_fundamental_div_mod(s, n);
                    vstd::arithmetic::div_mod::lemma_mod_bound(s, n);
                    if s % n == 0 {
                        vstd::arithmetic::div_mod::lemma_fundamental_div_mod_converse(s + n - 1, n, s / n, n - 1);
                    } else {
                        vstd::arithmetic::div_mod::lemma_fundamental_div_mod_converse(s + n - 1, n, s / n + 1, s % n - 1);
                    }
                }
            }
            self.queue_selected = previous;
        }
    }

    /// Remove the selected track from the queue and return it; the selection stays
    /// within the queue.
    pub fn remove_selected_queue_item(&mut self, files: &mut Vec<String>) -> (r: Option<String>)
        ensures
            old(files)@.len() == 0 ==> r.is_none() && final(files)@ == old(files)@ && *final(self) == *old(self),
            old(files)@.len() > 0 ==> {
                let i = clamp_index(old(self).queue_selected as int, old(files)@.len() as int);
                &&& (r matches Some(removed) && removed == old(files)@[i])
                &&& final(files)@ == old(files)@.remove(i)
                &&& *final(self) == (QueuePlayer {
                    queue_selected: clamp_index(old(self).queue_selected as int, old(files)@.len() - 1) as usize,
                    ..*old(self)
                })
            },
    {
        let len = files.len();
        if len == 0 {
            return None;
        }
        let index = clamp_exec(self.queue_selected, len);
        let removed = files.remove(index);
        self.queue_selected = clamp_exec(self.queue_selected, files.len());
        Some(removed)
    }
}

/// Elapsed and due packet counts of the playback meter.
#[derive(Debug, Clone, Copy, PartialEq, Eq, Structural)]
pub struct PlaybackMeter {
    pub elapsed_ns: u64,
    pub playhead_ns: u64,
    pub duration_ns: Option<u64>,
    pub target_packets: u64,
    pub target_packet_rate: u64,
}

impl QueuePlayer {
    /// The meter at monotonic time `now_ns` for packets of `packet_time_ms` (taken as 1
    /// when zero): time since the stream started (zero when not streaming or when `now_ns`
    /// is earlier), the playhead (the elapsed time, at most the track's duration), and
    /// the packets due so far and per second.
    pub fn playback_meter_at(&self, now_ns: u64, packet_time_ms: u32) -> (m: PlaybackMeter)
        ensures
            ({
                let elapsed = match self.started_at_ns {
                    Some(s) => if now_ns >= s { now_ns - s } else { 0 },
                    None => 0,
                };
                let p = if packet_time_ms >= 1 { packet_time_ms as int } else { 1 };
                &&& m.elapsed_ns == elapsed
                &&& m.playhead_ns == match self.duration_ns {
                    Some(d) => if elapsed < d { elapsed } else { d as int },
                    None => elapsed,
                }
                &&& m.duration_ns == self.duration_ns
                &&& m.target_packets == elapsed / 1_000_000 / p
                &&& m.target_packet_rate == 1000int / p
            }),
    {
        let elapsed: u64 = match self.started_at_ns {
            Some(s) => if now_ns >= s { now_ns - s } else { 0 },
            None => 0,
        };
        let p: u64 = if packet_time_ms >= 1 { packet_time_ms as u64 } else { 1 };
        let playhead = match self.duration_ns {
            Some(d) => if elapsed < d { elapsed } else { d },
            None => elapsed,
        };
        PlaybackMeter {
            elapsed_ns: elapsed,
            playhead_ns: playhead,
            duration_ns: self.duration_ns,
            target_packets: elapsed / 1_000_000 / p,
            target_packet_rate: 1000 / p,
        }
    }
}

/// Read a yes/no word (trimmed, any ASCII case).
pub fn parse_bool(value: &str) -> (r: Result<bool, FieldError>)
    ensures
        is_true_word(lower(trimmed(value@))) ==> r == Ok::<bool, FieldError>(true),
        !is_true_word(lower(trimmed(value@))) && is_false_word(lower(trimmed(value@))) ==> r
            == Ok::<bool, FieldError>(false),
        !is_true_word(lower(trimmed(value@))) && !is_false_word(lower(trimmed(value@))) ==> r
            == Err::<bool, FieldError>(FieldError::NotABoolean),
{
    let v = trim_text(value);
    match parse_bool_chars(v.as_slice()) {
        Some(b) => Ok(b),
        None => Err(FieldError::NotABoolean),
    }
}

/// Read an integer from 0 to 255 (trimmed) for `field`.
pub fn parse_u8(value: &str, field: SettingsField) -> (r: Result<u8, FieldError>)
    ensures
        match unsigned_at_most(trimmed(value@), 255) {
            Some(n) => r == Ok::<u8, FieldError>(n as u8),
            None => r == Err::<u8, FieldError>(FieldError::NotAnInteger { field }),
        },
{
    let v = trim_text(value);
    match parse_unsigned(v.as_slice(), 255) {
        Some(n) => Ok(n as u8),
        None => Err(FieldError::NotAnInteger { field }),
    }
}

/// Read an integer from 0 to 65535 (trimmed) for `field`.
pub fn parse_u16(value: &str, field: SettingsField) -> (r: Result<u16, FieldError>)
    ensures
        match unsigned_at_most(trimmed(value@), 65535) {
            Some(n) => r == Ok::<u16, FieldError>(n as u16),
            None => r == Err::<u16, FieldError>(FieldError::NotAnInteger { field }),
        },
{
    let v = trim_text(value);
    match parse_unsigned(v.as_slice(), 65535) {
        Some(n) => Ok(n as u16),
        None => Err(FieldError::NotAnInteger { field }),
    }
}

/// Read a 32-bit integer greater than zero (trimmed) for `field`.
pub fn parse_positive_u32(value: &str, field: SettingsField) -> (r: Result<u32, FieldError>)
    ensures
        match unsigned_at_most(trimmed(value@), 0xffff_ffff) {
            Some(n) => if n == 0 {
                r == Err::<u32, FieldError>(FieldError::NotPositive { field })
            } else {
                r == Ok::<u32, FieldError>(n as u32)
            },
            None => r == Err::<u32, FieldError>(FieldError::NotAnInteger { field }),
        },
{
    let v = trim_text(value);
    match parse_unsigned(v.as_slice(), 0xffff_ffff) {
        Some(n) => {
            if n == 0 {
                Err(FieldError::NotPositive { field })
            } else {
                Ok(n as u32)
            }
        },
        None => Err(FieldError::NotAnInteger { field }),
    }
}

/// The label of a settings field.
pub open spec fn field_label(f: SettingsField) -> Seq<char> {
    match f {
        SettingsField::SessionName => "Session name"@,
        SettingsField::Address => "Stream address"@,
        SettingsField::Port => "Port"@,
        SettingsField::Interface => "Interface"@,
        SettingsField::Sap => "SAP announcements"@,
        SettingsField::PtpDomain => "PTP domain"@,
        SettingsField::PayloadType => "Payload type"@,
        SettingsField::PacketTimeMs => "Packet time"@,
        SettingsField::Ttl => "TTL"@,
    }
}

/// The hint shown under a settings field.
pub open spec fn field_hint(f: SettingsField) -> Seq<char> {
    match f {
        SettingsField::SessionName => "Shown in SDP/SAP."@,
        SettingsField::Address => "Multicast destination for RTP audio."@,
        SettingsField::Port => "RTP UDP port."@,
        SettingsField::Interface => "Enter chooses a local interface; e allows manual name/IP entry."@,
        SettingsField::Sap => "Toggle SAP stream discovery announcements."@,
        SettingsField::PtpDomain => "PTP domain advertised with the stream."@,
        SettingsField::PayloadType => "Dynamic RTP payload type, 96-127."@,
        SettingsField::PacketTimeMs => "AES67 packet time in milliseconds."@,
        SettingsField::Ttl => "Multicast time-to-live."@,
    }
}

/// The value of a field as the form shows it.
pub open spec fn field_value_text(f: SettingsField, s: StreamSettings) -> Seq<char> {
    match f {
        SettingsField::SessionName => s.session_name@,
        SettingsField::Address => s.address@,
        SettingsField::Port => crate::stream::decimal_text(s.port as nat),
        SettingsField::Interface => match s.interface {
            Some(i) => i@,
            None => Seq::<char>::empty(),
        },
        SettingsField::Sap => if s.sap { "enabled"@ } else { "disabled"@ },
        SettingsField::PtpDomain => crate::stream::decimal_text(s.ptp_domain as nat),
        SettingsField::PayloadType => crate::stream::decimal_text(s.payload_type as nat),
        SettingsField::PacketTimeMs => crate::stream::decimal_text(s.packet_time_ms as nat) + " ms"@,
        SettingsField::Ttl => crate::stream::decimal_text(s.ttl as nat),
    }
}

/// The value a field's editor starts from: the shown value, the packet time without its
/// unit.
pub open spec fn field_edit_text(f: SettingsField, s: StreamSettings) -> Seq<char> {
    match f {
        SettingsField::PacketTimeMs => crate::stream::decimal_text(s.packet_time_ms as nat),
        _ => field_value_text(f, s),
    }
}

/// Decimal text of a number, as a string.
pub(crate) fn decimal_string(n: u64) -> (s: String)
    ensures
        s@ == crate::stream::decimal_text(n as nat),
{
    let mut out: Vec<char> = Vec::new();
    crate::stream::push_decimal(&mut out, n);
    assert(out@ =~= crate::stream::decimal_text(n as nat));
    string_from_chars(out.as_slice())
}

impl SettingsField {
    /// The field's label.
    pub fn label(self) -> (s: String)
        ensures
            s@ == field_label(self),
    {
        match self {
            SettingsField::SessionName => "Session name".to_owned(),
            SettingsField::Address => "Stream address".to_owned(),
            SettingsField::Port => "Port".to_owned(),
            SettingsField::Interface => "Interface".to_owned(),
            SettingsField::Sap => "SAP announcements".to_owned(),
            SettingsField::PtpDomain => "PTP domain".to_owned(),
            SettingsField::PayloadType => "Payload type".to_owned(),
            SettingsField::PacketTimeMs => "Packet time".to_owned(),
            SettingsField::Ttl => "TTL".to_owned(),
        }
    }

    /// The hint shown with the field.
    pub fn hint(self) -> (s: String)
        ensures
            s@ == field_hint(self),
    {
        match self {
            SettingsField::SessionName => "Shown in SDP/SAP.".to_owned(),
            SettingsField::Address => "Multicast destination for RTP audio.".to_owned(),
            SettingsField::Port => "RTP UDP port.".to_owned(),
            SettingsField::Interface => "Enter chooses a local interface; e allows manual name/IP entry.".to_owned(),
            SettingsField::Sap => "Toggle SAP stream discovery announcements.".to_owned(),
            SettingsField::PtpDomain => "PTP domain advertised with the stream.".to_owned(),
            SettingsField::PayloadType => "Dynamic RTP payload type, 96-127.".to_owned(),
            SettingsField::PacketTimeMs => "AES67 packet time in milliseconds.".to_owned(),
            SettingsField::Ttl => "Multicast time-to-live.".to_owned(),
        }
    }

    /// The field's value as the form shows it.
    pub fn value(self, stream: &StreamSettings) -> (s: String)
        ensures
            s@ == field_value_text(self, *stream),
    {
        match self {
            SettingsField::SessionName => stream.session_name.clone(),
            SettingsField::Address => stream.address.clone(),
            SettingsField::Port => decimal_string(stream.port as u64),
            SettingsField::Interface => match &stream.interface {
                Some(i) => i.clone(),
                None => String::new(),
            },
            SettingsField::Sap => if stream.sap {
                "enabled".to_owned()
            } else {
                "disabled".to_owned()
            },
            SettingsField::PtpDomain => decimal_string(stream.ptp_domain as u64),
            SettingsField::PayloadType => decimal_string(stream.payload_type as u64),
            SettingsField::PacketTimeMs => {
                let mut s = decimal_string(stream.packet_time_ms as u64);
                s.append(" ms");
                s
            },
            SettingsField::Ttl => decimal_string(stream.ttl as u64),
        }
    }

    /// The text the field's editor starts from.
    pub fn edit_value(self, stream: &StreamSettings) -> (s: String)
        ensures
            s@ == field_edit_text(self, *stream),
    {
        match self {
            SettingsField::PacketTimeMs => decimal_string(stream.packet_time_ms as u64),
            _ => self.value(stream),
        }
    }
}

/// The streamer configuration for a queued track: the settings' stream values at 48 kHz,
/// played once, with a random SSRC and quiet output.
pub fn stream_config_from_settings(stream: &StreamSettings) -> (c: crate::stream::StreamConfig)
    ensures
        c.target_sample_rate == 48_000,
        c.packet_time_ms == stream.packet_time_ms,
        c.ptp_domain == stream.ptp_domain,
        !c.verbose,
        c.duration.is_none(),
        !c.loop_playback,
        c.ttl == stream.ttl,
        c.sap == stream.sap,
        c.payload_type == stream.payload_type,
        c.ssrc.is_none(),
        c.session_name@ == stream.session_name@,
{
    crate::stream::StreamConfig {
        target_sample_rate: 48_000,
        packet_time_ms: stream.packet_time_ms,
        ptp_domain: stream.ptp_domain,
        verbose: false,
        duration: None,
        loop_playback: false,
        ttl: stream.ttl,
        sap: stream.sap,
        payload_type: stream.payload_type,
        ssrc: None,
        session_name: stream.session_name.clone(),
    }
}

} // verus!
