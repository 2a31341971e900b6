//! Merging of the streamer's command-line values, configuration file and defaults: a value
//! given on the command line wins over the file, the file over the default.

use vstd::prelude::*;
use crate::text::string_from_chars;

verus! {

/// The `[stream]` table of the configuration file.
#[derive(Debug, Clone)]
pub struct StreamTable {
    pub name: Option<String>,
    pub address: Option<String>,
    pub port: Option<u16>,
    pub interface: Option<String>,
    pub packet_time_ms: Option<u32>,
    pub payload_type: Option<u8>,
    pub ssrc: Option<u32>,
    pub ttl: Option<u8>,
    pub sap: Option<bool>,
    pub ptp_domain: Option<u8>,
}

/// The `[runtime]` table of the configuration file.
#[derive(Debug, Clone, Copy, PartialEq, Eq, Structural)]
pub struct RuntimeTable {
    pub verbose: Option<bool>,
}

/// The default session name, `AES67 Stream`.
pub open spec fn default_session_name() -> Seq<char> {
    seq!['A', 'E', 'S', '6', '7', ' ', 'S', 't', 'r', 'e', 'a', 'm']
}

fn default_session_name_string() -> (s: String)
    ensures
        s@ == default_session_name(),
{
    let name = ['A', 'E', 'S', '6', '7', ' ', 'S', 't', 'r', 'e', 'a', 'm'];
    assert(name@ =~= default_session_name());
    string_from_chars(&name)
}

impl Default for StreamTable {
    fn default() -> (t: Self)
        ensures
            t.name matches Some(n) && n@ == default_session_name(),
            t.address matches Some(a) && a@ == seq!['2', '3', '9', '.', '1', '9', '2', '.', '1', '.', '1'],
            t.port == Some(5004u16),
            t.interface.is_none(),
            t.packet_time_ms == Some(1u32),
            t.payload_type == Some(97u8),
            t.ssrc.is_none(),
            t.ttl == Some(32u8),
            t.sap == Some(true),
            t.ptp_domain == Some(0u8),
    {
        let address = ['2', '3', '9', '.', '1', '9', '2', '.', '1', '.', '1'];
        assert(address@ =~= seq!['2', '3', '9', '.', '1', '9', '2', '.', '1', '.', '1']);
        StreamTable {
            name: Some(default_session_name_string()),
            address: Some(string_from_chars(&address)),
            port: Some(5004),
            interface: None,
            packet_time_ms: Some(1),
            payload_type: Some(97),
            ssrc: None,
            ttl: Some(32),
            sap: Some(true),
            ptp_domain: Some(0),
        }
    }
}

impl Default for RuntimeTable {
    fn default() -> (t: Self)
        ensures
            t.verbose == Some(false),
    {
        RuntimeTable { verbose: Some(false) }
    }
}

/// Invalid configured values.
#[derive(Debug, Clone, Copy, PartialEq, Eq, Structural)]
pub enum ConfigError {
    /// `stream.ttl` is zero.
    ZeroTtl,
    /// `stream.payload_type` is above 127.
    PayloadTypeOutOfRange { payload_type: u8 },
    /// `stream.packet_time_ms` is zero.
    ZeroPacketTime,
}

/// The port: from the command line, else the file, else the command line's default,
/// else 5004.
pub fn merged_port(cli_port: Option<u16>, config_port: Option<u16>, cli_default: Option<u16>) -> (p: u16)
    ensures
        p == match (cli_port, config_port, cli_default) {
            (Some(c), _, _) => c,
            (None, Some(f), _) => f,
            (None, None, Some(d)) => d,
            (None, None, None) => 5004u16,
        },
{
    if let Some(c) = cli_port {
        return c;
    }
    match config_port {
        Some(f) => f,
        None => match cli_default {
            Some(d) => d,
            None => 5004,
        },
    }
}

/// Verbose output: the command-line flag, or the file's setting (off by default).
pub fn merged_verbose(cli_flag: bool, config_verbose: Option<bool>) -> (v: bool)
    ensures
        v == (cli_flag || config_verbose == Some(true)),
{
    cli_flag || match config_verbose {
        Some(v) => v,
        None => false,
    }
}

/// Looping: on when the command line asks for it, else the file's setting (off by
/// default).
pub fn merged_loop_playback(cli_flag: bool, config_loop: Option<bool>) -> (l: bool)
    ensures
        l == (cli_flag || config_loop == Some(true)),
{
    if cli_flag {
        return true;
    }
    match config_loop {
        Some(l) => l,
        None => false,
    }
}

/// The multicast TTL: the file's value or 32; zero is refused.
pub fn merged_ttl(config_ttl: Option<u8>) -> (r: Result<u8, ConfigError>)
    ensures
        config_ttl == Some(0u8) ==> r == Err::<u8, ConfigError>(ConfigError::ZeroTtl),
        config_ttl.is_none() ==> r == Ok::<u8, ConfigError>(32),
        (config_ttl matches Some(t) && t > 0) ==> r == Ok::<u8, ConfigError>(config_ttl.unwrap()),
{
    let ttl = match config_ttl {
        Some(t) => t,
        None => 32,
    };
    if ttl == 0 {
        return Err(ConfigError::ZeroTtl);
    }
    Ok(ttl)
}

/// SAP announcements: the file's setting, on by default.
pub fn merged_sap(config_sap: Option<bool>) -> (s: bool)
    ensures
        s == (config_sap != Some(false)),
{
    match config_sap {
        Some(s) => s,
        None => true,
    }
}

/// The RTP payload type: the file's value or 97; above 127 is refused.
pub fn merged_payload_type(config_payload_type: Option<u8>) -> (r: Result<u8, ConfigError>)
    ensures
        ({
            let pt = match config_payload_type {
                Some(p) => p,
                None => 97u8,
            };
            if pt > 127 {
                r == Err::<u8, ConfigError>(ConfigError::PayloadTypeOutOfRange { payload_type: pt })
            } else {
                r == Ok::<u8, ConfigError>(pt)
            }
        }),
{
    let payload_type = match config_payload_type {
        Some(p) => p,
        None => 97,
    };
    if payload_type > 127 {
        return Err(ConfigError::PayloadTypeOutOfRange { payload_type });
    }
    Ok(payload_type)
}

/// The SSRC: the file's value, if any.
pub fn merged_ssrc(config_ssrc: Option<u32>) -> (s: Option<u32>)
    ensures
        s == config_ssrc,
{
    config_ssrc
}

/// The session name: the file's value or `AES67 Stream`.
pub fn merged_session_name(config_name: Option<String>) -> (s: String)
    ensures
        s@ == match config_name {
            Some(n) => n@,
            None => default_session_name(),
        },
{
    match config_name {
        Some(n) => n,
        None => default_session_name_string(),
    }
}

/// The packet time: the file's value or 1 ms; zero is refused.
pub fn merged_packet_time_ms(config_packet_time_ms: Option<u32>) -> (r: Result<u32, ConfigError>)
    ensures
        config_packet_time_ms.is_none() ==> r == Ok::<u32, ConfigError>(1),
        config_packet_time_ms == Some(0u32) ==> r == Err::<u32, ConfigError>(ConfigError::ZeroPacketTime),
        (config_packet_time_ms matches Some(p) && p > 0) ==> r == Ok::<u32, ConfigError>(config_packet_time_ms.unwrap()),
{
    match config_packet_time_ms {
        None => Ok(1),
        Some(0) => Err(ConfigError::ZeroPacketTime),
        Some(p) => Ok(p),
    }
}

/// A required text value: from the command line, else the file.
pub fn merged_required(cli_value: Option<String>, config_value: Option<String>) -> (r: Option<String>)
    ensures
        crate::sdp::opt_text(r) == match (cli_value, config_value) {
            (Some(c), _) => Some(c@),
            (None, Some(f)) => Some(f@),
            (None, None) => None,
        },
{
    match cli_value {
        Some(c) => Some(c),
        None => config_value,
    }
}


/// The interface: from the command line, else the file, else none (chosen later).
pub fn merged_interface(cli_interface: Option<String>, config_interface: Option<String>) -> (r: Option<String>)
    ensures
        crate::sdp::opt_text(r) == match (cli_interface, config_interface) {
            (Some(c), _) => Some(c@),
            (None, Some(f)) => Some(f@),
            (None, None) => None,
        },
{
    match cli_interface {
        Some(c) => Some(c),
        None => config_interface,
    }
}

/// The PTP domain: from the command line, else the file, else none (the default domain).
pub fn merged_ptp_domain(cli_domain: Option<u8>, config_domain: Option<u8>) -> (r: Option<u8>)
    ensures
        r == match (cli_domain, config_domain) {
            (Some(c), _) => Some(c),
            (None, Some(f)) => Some(f),
            (None, None) => None,
        },
{
    match cli_domain {
        Some(c) => Some(c),
        None => config_domain,
    }
}

/// The error text for a required value given neither on the command line nor in the file.
pub fn missing_required_value(name: &str, cli_flag: &str, config_key: &str) -> (s: String)
    ensures
        s@ == "missing "@ + name@ + "; pass "@ + cli_flag@ + " or set "@ + config_key@ + " in the config file"@,
{
    let mut s = "missing ".to_owned();
    s.append(name);
    s.append("; pass ");
    s.append(cli_flag);
    s.append(" or set ");
    s.append(config_key);
    s.append(" in the config file");
    s
}

} // verus!
