//! Decisions of the receiver: playout preroll, jitter buffer and output buffer sizing, the
//! session of a plain receive configuration and the counting null output.

use vstd::prelude::*;
use crate::sdp::{Aes67SessionDescription, AudioEncoding};

verus! {

/// Receiver counters.
#[derive(Debug, Clone, Copy, PartialEq, Eq, Structural)]
pub struct PlayerStats {
    pub packets_received: u64,
    pub packets_accepted: u64,
    pub packets_decoded: u64,
    pub frames_decoded: u64,
    pub silence_frames: u64,
}

impl Default for PlayerStats {
    fn default() -> (s: Self)
        ensures
            s == (PlayerStats {
                packets_received: 0,
                packets_accepted: 0,
                packets_decoded: 0,
                frames_decoded: 0,
                silence_frames: 0,
            }),
    {
        PlayerStats {
            packets_received: 0,
            packets_accepted: 0,
            packets_decoded: 0,
            frames_decoded: 0,
            silence_frames: 0,
        }
    }
}

/// Packets buffered before playout starts: the latency in whole packets, rounded up,
/// and at least one.
pub fn preroll_packets(latency_ms: u32, packet_time_ms: u32) -> (n: usize)
    requires
        packet_time_ms > 0,
    ensures
        n == if (latency_ms + packet_time_ms - 1) / packet_time_ms as int >= 1 {
            (latency_ms + packet_time_ms - 1) / packet_time_ms as int
        } else {
            1
        },
{
    let q = latency_ms / packet_time_ms;
    assert(latency_ms % packet_time_ms != 0 ==> q < 0xffff_ffff) by (nonlinear_arith)
        requires
            q == latency_ms / packet_time_ms,
            packet_time_ms > 0,
    ;
    let rounded = if latency_ms % packet_time_ms != 0 {
        q + 1
    } else {
        q
    };
    proof {
        let l = latency_ms as int;
        let p = packet_time_ms as int;
        assert((l + p - 1) / p == if l % p != 0 { l / p + 1 } else { l / p }) by (nonlinear_arith)
            requires
                p > 0,
                l >= 0,
        ;
    }
    if rounded >= 1 {
        rounded as usize
    } else {
        1
    }
}

/// Jitter buffer capacity: one second of packets, and at least 128.
pub fn jitter_capacity_packets(session: &Aes67SessionDescription) -> (n: usize)
    requires
        session.packet_time_ms > 0,
    ensures
        n == if (1000 + session.packet_time_ms - 1) / session.packet_time_ms as int >= 128 {
            (1000 + session.packet_time_ms - 1) / session.packet_time_ms as int
        } else {
            128
        },
{
    let p = session.packet_time_ms as usize;
    let q = 1000usize / p;
    let packets_per_second = if 1000usize % p != 0 {
        q + 1
    } else {
        q
    };
    proof {
        let pp = p as int;
        assert((1000 + pp - 1) / pp == if 1000int % pp != 0 { 1000int / pp + 1 } else { 1000int / pp }) by (nonlinear_arith)
            requires
                pp > 0,
        ;
    }
    if packets_per_second >= 128 {
        packets_per_second
    } else {
        128
    }
}

/// Output ring capacity in samples: four times the latency (at least 125 ms), at the
/// stream rate and channel count.
pub fn output_buffer_capacity_samples(sample_rate: u32, channels: u16, latency_ms: u32) -> (n: usize)
    requires
        (if latency_ms >= 125 { latency_ms as int } else { 125 }) * 4 <= u32::MAX,
        sample_rate as int * channels as int * ((if latency_ms >= 125 { latency_ms as int } else { 125 }) * 4) <= u64::MAX,
    ensures
        n == (sample_rate as int * channels as int * ((if latency_ms >= 125 { latency_ms as int } else { 125 }) * 4) / 1000) as usize,
{
    let base: u32 = if latency_ms >= 125 {
        latency_ms
    } else {
        125
    };
    let buffer_ms = base * 4;
    assert(sample_rate as int * channels as int <= sample_rate as int * channels as int * buffer_ms as int) by (nonlinear_arith)
        requires
            buffer_ms >= 1,
    ;
    let total: u64 = sample_rate as u64 * channels as u64 * buffer_ms as u64;
    (total / 1000) as usize
}

/// Why a receive configuration does not make a session.
#[derive(Debug, Clone, Copy, PartialEq, Eq, Structural)]
pub enum SessionArgsError {
    MissingAddress,
    MissingPort,
    MissingChannels,
    MissingPayloadType,
}

/// The session of a receive configuration given on the command line: L24 at 48 kHz,
/// 1 ms packets, with the given address, port, channel count and payload type.
pub fn session_from_stream_args(
    address: Option<[u8; 4]>,
    port: Option<u16>,
    channels: Option<u16>,
    payload_type: Option<u8>,
) -> (r: Result<Aes67SessionDescription, SessionArgsError>)
    ensures
        address.is_none() ==> r == Err::<Aes67SessionDescription, SessionArgsError>(SessionArgsError::MissingAddress),
        address.is_some() && port.is_none() ==> r == Err::<Aes67SessionDescription, SessionArgsError>(SessionArgsError::MissingPort),
        address.is_some() && port.is_some() && channels.is_none() ==> r == Err::<Aes67SessionDescription, SessionArgsError>(SessionArgsError::MissingChannels),
        address.is_some() && port.is_some() && channels.is_some() && payload_type.is_none() ==> r == Err::<Aes67SessionDescription, SessionArgsError>(SessionArgsError::MissingPayloadType),
        address.is_some() && port.is_some() && channels.is_some() && payload_type.is_some() ==> (r matches Ok(d) && d.session_name.is_none() && d.address == address.unwrap() && d.ttl.is_none() && d.port == port.unwrap() && d.payload_type == payload_type.unwrap() && d.encoding == AudioEncoding::L24 && d.sample_rate == 48_000 && d.channels == channels.unwrap() && d.packet_time_ms == 1 && d.ts_refclk.is_none() && d.mediaclk.is_none()),
{
    let address = match address {
        Some(a) => a,
        None => return Err(SessionArgsError::MissingAddress),
    };
    let port = match port {
        Some(p) => p,
        None => return Err(SessionArgsError::MissingPort),
    };
    let channels = match channels {
        Some(c) => c,
        None => return Err(SessionArgsError::MissingChannels),
    };
    let payload_type = match payload_type {
        Some(p) => p,
        None => return Err(SessionArgsError::MissingPayloadType),
    };
    Ok(
        Aes67SessionDescription {
            session_name: None,
            address,
            ttl: None,
            port,
            payload_type,
            encoding: AudioEncoding::L24,
            sample_rate: 48_000,
            channels,
            packet_time_ms: 1,
            ts_refclk: None,
            mediaclk: None,
        },
    )
}

/// Counters of an audio output.
#[derive(Debug, Clone, Copy, PartialEq, Eq, Structural)]
pub struct OutputStats {
    pub frames_written: u64,
    pub samples_written: u64,
    pub silence_frames: u64,
    pub dropped_samples: u64,
}

/// Rejected output writes.
#[derive(Debug, Clone, Copy, PartialEq, Eq, Structural)]
pub enum OutputError {
    /// A channel count of zero.
    ZeroChannels,
    /// An interleaved sample count that is not a whole number of frames.
    PartialFrame { samples: usize, channels: u16 },
}

/// An output that discards audio and counts it.
#[derive(Debug)]
pub struct NullOutput {
    stats: OutputStats,
}

impl NullOutput {
    /// The counters.
    pub closed spec fn stats_view(&self) -> OutputStats {
        self.stats
    }

    /// An output with zero counts.
    pub fn new() -> (o: Self)
        ensures
            o.stats_view() == (OutputStats { frames_written: 0, samples_written: 0, silence_frames: 0, dropped_samples: 0 }),
    {
        NullOutput { stats: OutputStats { frames_written: 0, samples_written: 0, silence_frames: 0, dropped_samples: 0 } }
    }

    /// Count `sample_count` interleaved samples of `channels` channels and return the
    /// number of frames.
    pub fn write_interleaved(&mut self, sample_count: usize, channels: u16) -> (r: Result<usize, OutputError>)
        requires
            old(self).stats_view().frames_written + sample_count <= u64::MAX,
            old(self).stats_view().samples_written + sample_count <= u64::MAX,
        ensures
            channels == 0 ==> r == Err::<usize, OutputError>(OutputError::ZeroChannels) && final(self).stats_view() == old(self).stats_view(),
            channels > 0 && (sample_count as nat) % (channels as nat) != 0 ==> r == Err::<usize, OutputError>(OutputError::PartialFrame { samples: sample_count, channels }) && final(self).stats_view() == old(self).stats_view(),
            channels > 0 && (sample_count as nat) % (channels as nat) == 0 ==> r == Ok::<usize, OutputError>(((sample_count as nat) / (channels as nat)) as usize) && final(self).stats_view() == (OutputStats {
                frames_written: (old(self).stats_view().frames_written + (sample_count as nat) / (channels as nat)) as u64,
                samples_written: (old(self).stats_view().samples_written + sample_count) as u64,
                ..old(self).stats_view()
            }),
    {
        if channels == 0 {
            return Err(OutputError::ZeroChannels);
        }
        if sample_count % channels as usize != 0 {
            return Err(OutputError::PartialFrame { samples: sample_count, channels });
        }
        let frames = sample_count / channels as usize;
        self.stats.frames_written = self.stats.frames_written + frames as u64;
        self.stats.samples_written = self.stats.samples_written + sample_count as u64;
        Ok(frames)
    }

    /// Count `frames` frames of silence of `channels` channels.
    pub fn write_silence(&mut self, frames: u32, channels: u16) -> (r: Result<(), OutputError>)
        requires
            old(self).stats_view().frames_written + frames <= u64::MAX,
            old(self).stats_view().samples_written + frames * channels <= u64::MAX,
            old(self).stats_view().silence_frames + frames <= u64::MAX,
        ensures
            channels == 0 ==> r == Err::<(), OutputError>(OutputError::ZeroChannels) && final(self).stats_view() == old(self).stats_view(),
            channels > 0 ==> r == Ok::<(), OutputError>(()) && final(self).stats_view() == (OutputStats {
                frames_written: (old(self).stats_view().frames_written + frames) as u64,
                samples_written: (old(self).stats_view().samples_written + frames * channels) as u64,
                silence_frames: (old(self).stats_view().silence_frames + frames) as u64,
                ..old(self).stats_view()
            }),
    {
        if channels == 0 {
            return Err(OutputError::ZeroChannels);
        }
        assert(frames as int * channels as int <= 0xffff_ffff * 0xffff) by (nonlinear_arith)
            requires
                frames <= 0xffff_ffff,
                channels <= 0xffff,
        ;
        self.stats.frames_written = self.stats.frames_written + frames as u64;
        self.stats.samples_written = self.stats.samples_written + frames as u64 * channels as u64;
        self.stats.silence_frames = self.stats.silence_frames + frames as u64;
        Ok(())
    }

    /// The counters.
    pub fn stats(&self) -> (s: OutputStats)
        ensures
            s == self.stats_view(),
    {
        self.stats
    }
}

/// Why playout fails.
#[derive(Debug, Clone, Copy, PartialEq, Eq, Structural)]
pub enum PlayoutError {
    /// A packet decoded to another number of frames than the session's packet holds.
    UnexpectedFrameCount { frames: usize, expected: u32 },
    /// The receiver stopped before any packet was decoded.
    NothingDecoded,
}

/// Playout progress of the receiver: counters, and whether the preroll is complete.
#[derive(Debug, Clone, Copy, PartialEq, Eq, Structural)]
pub struct Playout {
    pub stats: PlayerStats,
    pub started_playout: bool,
    pub preroll_packets: usize,
}

impl Playout {
    /// Nothing received yet; playout starts once `preroll_packets` packets are buffered.
    pub fn new(preroll_packets: usize) -> (p: Self)
        ensures
            p.stats == (PlayerStats {
                packets_received: 0,
                packets_accepted: 0,
                packets_decoded: 0,
                frames_decoded: 0,
                silence_frames: 0,
            }),
            !p.started_playout,
            p.preroll_packets == preroll_packets,
    {
        Playout {
            stats: PlayerStats {
                packets_received: 0,
                packets_accepted: 0,
                packets_decoded: 0,
                frames_decoded: 0,
                silence_frames: 0,
            },
            started_playout: false,
            preroll_packets,
        }
    }

    /// A packet arrived and the jitter buffer took it (`accepted`) or not, and now holds
    /// `buffered` packets. Returns whether buffered packets are to be played out now.
    pub fn packet_received(&mut self, accepted: bool, buffered: usize) -> (play: bool)
        requires
            old(self).stats.packets_received < u64::MAX,
            old(self).stats.packets_accepted < u64::MAX,
        ensures
            final(self).stats == (PlayerStats {
                packets_received: (old(self).stats.packets_received + 1) as u64,
                packets_accepted: if accepted {
                    (old(self).stats.packets_accepted + 1) as u64
                } else {
                    old(self).stats.packets_accepted
                },
                ..old(self).stats
            }),
            final(self).started_playout == (old(self).started_playout || buffered >= old(self).preroll_packets),
            final(self).preroll_packets == old(self).preroll_packets,
            play == final(self).started_playout,
    {
        self.stats.packets_received = self.stats.packets_received + 1;
        if accepted {
            self.stats.packets_accepted = self.stats.packets_accepted + 1;
        }
        if !self.started_playout && buffered >= self.preroll_packets {
            self.started_playout = true;
        }
        self.started_playout
    }

    /// A packet decoded to `frames` frames; the session's packets hold `frames_per_packet`.
    pub fn packet_decoded(&mut self, frames: usize, frames_per_packet: u32) -> (r: Result<(), PlayoutError>)
        requires
            old(self).stats.packets_decoded < u64::MAX,
            old(self).stats.frames_decoded + frames <= u64::MAX,
        ensures
            frames != frames_per_packet ==> r == Err::<(), PlayoutError>(
                PlayoutError::UnexpectedFrameCount { frames, expected: frames_per_packet },
            ) && *final(self) == *old(self),
            frames == frames_per_packet ==> r is Ok && *final(self) == (Playout {
                stats: PlayerStats {
                    packets_decoded: (old(self).stats.packets_decoded + 1) as u64,
                    frames_decoded: (old(self).stats.frames_decoded + frames) as u64,
                    ..old(self).stats
                },
                ..*old(self)
            }),
    {
        if frames as u64 != frames_per_packet as u64 {
            return Err(PlayoutError::UnexpectedFrameCount { frames, expected: frames_per_packet });
        }
        self.stats.packets_decoded = self.stats.packets_decoded + 1;
        self.stats.frames_decoded = self.stats.frames_decoded + frames as u64;
        Ok(())
    }

    /// `frames` frames of silence were played for a lost packet.
    pub fn silence_written(&mut self, frames: u32)
        requires
            old(self).stats.silence_frames + frames <= u64::MAX,
        ensures
            *final(self) == (Playout {
                stats: PlayerStats {
                    silence_frames: (old(self).stats.silence_frames + frames) as u64,
                    ..old(self).stats
                },
                ..*old(self)
            }),
    {
        self.stats.silence_frames = self.stats.silence_frames + frames as u64;
    }

    /// The run ended: it failed when nothing was decoded.
    pub fn finish(&self) -> (r: Result<(), PlayoutError>)
        ensures
            self.stats.packets_decoded == 0 ==> r == Err::<(), PlayoutError>(PlayoutError::NothingDecoded),
            self.stats.packets_decoded > 0 ==> r is Ok,
    {
        if self.stats.packets_decoded == 0 {
            Err(PlayoutError::NothingDecoded)
        } else {
            Ok(())
        }
    }
}

} // verus!
