//! The receiver's jitter buffer: RTP packets of one stream are held by sequence number
//! and played out in sequence order, with silence in place of packets that never came.

use vstd::prelude::*;
use crate::rtp::{RtpHeader, RtpPacket};

verus! {

/// What the jitter buffer accepts and how much it holds.
#[derive(Debug, Clone, Copy, PartialEq, Eq, Structural)]
pub struct JitterBufferConfig {
    /// The payload type every packet must carry.
    pub payload_type: u8,
    /// The SSRC every packet must carry, when one is required.
    pub ssrc: Option<u32>,
    /// Audio frames in each packet (the length of the silence that replaces a lost one).
    pub frames_per_packet: u32,
    /// The most packets held at once.
    pub capacity_packets: usize,
}

/// Why a jitter buffer cannot be made or a packet does not belong to the stream.
#[derive(Debug, Clone, Copy, PartialEq, Eq, Structural)]
pub enum JitterError {
    /// A buffer must be able to hold at least one packet.
    ZeroCapacity,
    /// Packets must hold at least one frame.
    ZeroFramesPerPacket,
    /// The packet carries another payload type than the stream's.
    PayloadTypeMismatch { expected: u8, actual: u8 },
    /// The packet carries another SSRC than the required one.
    SsrcMismatch { expected: u32, actual: u32 },
}

/// What became of an inserted packet.
#[derive(Debug, Clone, Copy, PartialEq, Eq, Structural)]
pub enum InsertResult {
    /// Held for playout.
    Accepted,
    /// A packet with this sequence number is already held.
    Duplicate,
    /// Its turn has passed: playout has moved beyond its sequence number.
    Late,
    /// The buffer is full.
    DroppedFull,
}

/// What comes out for the next sequence number.
#[derive(Debug, Clone, PartialEq, Eq)]
pub enum PlayoutPacket {
    /// The packet with that sequence number.
    Packet(RtpPacket),
    /// The packet never came: this many frames of silence take its place.
    Silence { sequence_number: u16, frames: u32 },
}

/// Counters of the jitter buffer.
#[derive(Debug, Clone, Copy, PartialEq, Eq, Structural)]
pub struct JitterBufferStats {
    pub accepted_packets: u64,
    pub duplicate_packets: u64,
    pub late_packets: u64,
    pub dropped_full_packets: u64,
    pub lost_packets: u64,
}

/// How far sequence number `k` lies ahead of `n`, modulo 2^16.
pub open spec fn ahead(n: u16, k: u16) -> int {
    if k >= n {
        k - n
    } else {
        k - n + 0x10000
    }
}

/// A packet as the buffer's view holds it: header and payload bytes.
pub open spec fn entry(p: RtpPacket) -> (RtpHeader, Seq<u8>) {
    (p.header, p.payload@)
}

/// The held packets by sequence number (a later packet with the same number would
/// shadow an earlier one; the buffer never holds two).
pub open spec fn entries_map(s: Seq<RtpPacket>) -> Map<u16, (RtpHeader, Seq<u8>)>
    decreases s.len(),
{
    if s.len() == 0 {
        Map::empty()
    } else {
        entries_map(s.drop_last()).insert(s.last().header.sequence_number, entry(s.last()))
    }
}

/// No two held packets share a sequence number.
pub open spec fn distinct_sequences(s: Seq<RtpPacket>) -> bool {
    forall|i: int, j: int|
        0 <= i < s.len() && 0 <= j < s.len() && i != j ==> s[i].header.sequence_number
            != s[j].header.sequence_number
}

proof fn lemma_entries_dom(s: Seq<RtpPacket>, k: u16)
    ensures
        entries_map(s).contains_key(k) <==> exists|i: int|
            0 <= i < s.len() && s[i].header.sequence_number == k,
    decreases s.len(),
{
    if s.len() > 0 {
        lemma_entries_dom(s.drop_last(), k);
        if entries_map(s).contains_key(k) && s.last().header.sequence_number != k {
            let i = choose|i: int| 0 <= i < s.len() - 1 && s.drop_last()[i].header.sequence_number == k;
            assert(s[i].header.sequence_number == k);
        }
        if exists|i: int| 0 <= i < s.len() && s[i].header.sequence_number == k {
            let i = choose|i: int| 0 <= i < s.len() && s[i].header.sequence_number == k;
            if i < s.len() - 1 {
                assert(s.drop_last()[i].header.sequence_number == k);
            }
        }
    }
}

proof fn lemma_entries_value(s: Seq<RtpPacket>, i: int)
    requires
        distinct_sequences(s),
        0 <= i < s.len(),
    ensures
        entries_map(s).contains_key(s[i].header.sequence_number),
        entries_map(s)[s[i].header.sequence_number] == entry(s[i]),
    decreases s.len(),
{
    if i < s.len() - 1 {
        let t = s.drop_last();
        assert(t[i] == s[i]);
        assert(distinct_sequences(t));
        lemma_entries_value(t, i);
        assert(s.last().header.sequence_number != s[i].header.sequence_number);
    }
}

proof fn lemma_entries_len(s: Seq<RtpPacket>)
    requires
        distinct_sequences(s),
    ensures
        entries_map(s).dom().finite(),
        entries_map(s).len() == s.len(),
    decreases s.len(),
{
    if s.len() > 0 {
        let t = s.drop_last();
        assert(distinct_sequences(t));
        lemma_entries_len(t);
        let k = s.last().header.sequence_number;
        lemma_entries_dom(t, k);
        if entries_map(t).contains_key(k) {
            let i = choose|i: int| 0 <= i < t.len() && t[i].header.sequence_number == k;
            assert(s[i].header.sequence_number == s[s.len() - 1].header.sequence_number);
        }
        assert(entries_map(s).dom() == entries_map(t).dom().insert(k));
    }
}

proof fn lemma_entries_remove(s: Seq<RtpPacket>, i: int)
    requires
        distinct_sequences(s),
        0 <= i < s.len(),
    ensures
        distinct_sequences(s.remove(i)),
        entries_map(s.remove(i)) == entries_map(s).remove(s[i].header.sequence_number),
{
    let r = s.remove(i);
    let k = s[i].header.sequence_number;
    assert forall|a: int, b: int|
        0 <= a < r.len() && 0 <= b < r.len() && a != b implies r[a].header.sequence_number
            != r[b].header.sequence_number by {
        let a2 = if a < i { a } else { a + 1 };
        let b2 = if b < i { b } else { b + 1 };
        assert(r[a] == s[a2]);
        assert(r[b] == s[b2]);
    }
    assert forall|key: u16| #[trigger] entries_map(r).contains_key(key) <==> entries_map(s).remove(k).contains_key(key) by {
        lemma_entries_dom(r, key);
        lemma_entries_dom(s, key);
        if exists|j: int| 0 <= j < s.len() && s[j].header.sequence_number == key {
            if key != k {
                let j = choose|j: int| 0 <= j < s.len() && s[j].header.sequence_number == key;
                let j2 = if j < i { j } else { j - 1 };
                assert(r[j2] == s[j]);
            }
        }
        if exists|j: int| 0 <= j < r.len() && r[j].header.sequence_number == key {
            let j = choose|j: int| 0 <= j < r.len() && r[j].header.sequence_number == key;
            let j2 = if j < i { j } else { j + 1 };
            assert(r[j] == s[j2]);
        }
    }
    assert forall|key: u16| #[trigger] entries_map(r).contains_key(key) implies entries_map(r)[key]
        == entries_map(s)[key] by {
        lemma_entries_dom(r, key);
        let j = choose|j: int| 0 <= j < r.len() && r[j].header.sequence_number == key;
        let j2 = if j < i { j } else { j + 1 };
        assert(r[j] == s[j2]);
        lemma_entries_value(r, j);
        lemma_entries_value(s, j2);
    }
    assert(entries_map(r) =~= entries_map(s).remove(k));
}

/// The buffer as its contracts see it.
pub struct JitterView {
    pub config: JitterBufferConfig,
    /// The sequence number that plays next; none before the first accepted packet.
    pub next_sequence: Option<u16>,
    /// The held packets by sequence number.
    pub packets: Map<u16, (RtpHeader, Seq<u8>)>,
    pub stats: JitterBufferStats,
}

/// RTP packets of one stream waiting for playout, kept in sequence order.
pub struct RtpJitterBuffer {
    config: JitterBufferConfig,
    next_sequence: Option<u16>,
    packets: Vec<RtpPacket>,
    stats: JitterBufferStats,
}

impl View for RtpJitterBuffer {
    type V = JitterView;

    closed spec fn view(&self) -> JitterView {
        JitterView {
            config: self.config,
            next_sequence: self.next_sequence,
            packets: entries_map(self.packets@),
            stats: self.stats,
        }
    }
}

/// The buffer's invariant, over its view: it holds no more than its capacity, nothing
/// before the first accepted packet, and only packets whose turn has not passed.
pub open spec fn jitter_wf(v: JitterView) -> bool {
    &&& v.config.capacity_packets > 0
    &&& v.config.frames_per_packet > 0
    &&& v.packets.dom().finite()
    &&& v.packets.len() <= v.config.capacity_packets
    &&& v.next_sequence.is_none() ==> v.packets.len() == 0
    &&& forall|k: u16| #[trigger] v.packets.contains_key(k) ==> (v.next_sequence matches Some(n)
        && ahead(n, k) < 0x8000)
}

/// How `insert` classifies a packet of the stream with sequence number `k`.
pub open spec fn insert_outcome(v: JitterView, k: u16) -> InsertResult {
    if v.next_sequence matches Some(n) && ahead(n, k) >= 0x8000 {
        InsertResult::Late
    } else if v.packets.contains_key(k) {
        InsertResult::Duplicate
    } else if v.packets.len() >= v.config.capacity_packets {
        InsertResult::DroppedFull
    } else {
        InsertResult::Accepted
    }
}

/// The counters after a packet classified `r`.
pub open spec fn stats_after_insert(s: JitterBufferStats, r: InsertResult) -> JitterBufferStats {
    match r {
        InsertResult::Accepted => JitterBufferStats { accepted_packets: (s.accepted_packets + 1) as u64, ..s },
        InsertResult::Duplicate => JitterBufferStats { duplicate_packets: (s.duplicate_packets + 1) as u64, ..s },
        InsertResult::Late => JitterBufferStats { late_packets: (s.late_packets + 1) as u64, ..s },
        InsertResult::DroppedFull => JitterBufferStats {
            dropped_full_packets: (s.dropped_full_packets + 1) as u64,
            ..s
        },
    }
}

/// Every counter can take one more.
pub open spec fn counters_below_max(s: JitterBufferStats) -> bool {
    &&& s.accepted_packets < u64::MAX
    &&& s.duplicate_packets < u64::MAX
    &&& s.late_packets < u64::MAX
    &&& s.dropped_full_packets < u64::MAX
    &&& s.lost_packets < u64::MAX
}

/// The sequence number after `n`, wrapping after 65535.
pub open spec fn following(n: u16) -> u16 {
    if n == 0xffff {
        0
    } else {
        (n + 1) as u16
    }
}

impl RtpJitterBuffer {
    #[verifier::type_invariant]
    spec fn wf(self) -> bool {
        &&& distinct_sequences(self.packets@)
        &&& jitter_wf(self@)
    }

    /// An empty buffer for the stream `config` describes; it needs room for at least one
    /// packet of at least one frame.
    pub fn new(config: JitterBufferConfig) -> (r: Result<Self, JitterError>)
        ensures
            config.capacity_packets == 0 ==> r == Err::<Self, JitterError>(JitterError::ZeroCapacity),
            config.capacity_packets > 0 && config.frames_per_packet == 0 ==> r == Err::<Self, JitterError>(
                JitterError::ZeroFramesPerPacket,
            ),
            config.capacity_packets > 0 && config.frames_per_packet > 0 ==> (r matches Ok(b) && b@ == (
            JitterView {
                config,
                next_sequence: None,
                packets: Map::empty(),
                stats: JitterBufferStats {
                    accepted_packets: 0,
                    duplicate_packets: 0,
                    late_packets: 0,
                    dropped_full_packets: 0,
                    lost_packets: 0,
                },
            })),
    {
        if config.capacity_packets == 0 {
            return Err(JitterError::ZeroCapacity);
        }
        if config.frames_per_packet == 0 {
            return Err(JitterError::ZeroFramesPerPacket);
        }
        let b = RtpJitterBuffer {
            config,
            next_sequence: None,
            packets: Vec::new(),
            stats: JitterBufferStats {
                accepted_packets: 0,
                duplicate_packets: 0,
                late_packets: 0,
                dropped_full_packets: 0,
                lost_packets: 0,
            },
        };
        assert(entries_map(b.packets@) =~= Map::empty());
        Ok(b)
    }

    /// The index of the held packet with sequence number `k`, if one is held.
    fn find(&self, k: u16) -> (r: Option<usize>)
        ensures
            r matches Some(i) ==> i < self.packets@.len() && self.packets@[i as int].header.sequence_number == k,
            r is None ==> !self@.packets.contains_key(k),
    {
        let mut i: usize = 0;
        while i < self.packets.len()
            invariant
                i <= self.packets@.len(),
                forall|j: int| 0 <= j < i ==> self.packets@[j].header.sequence_number != k,
            decreases self.packets@.len() - i,
        {
            if self.packets[i].header.sequence_number == k {
                return Some(i);
            }
            i = i + 1;
        }
        proof {
            lemma_entries_dom(self.packets@, k);
        }
        None
    }

    /// Offer a packet: a packet of another payload type, or of another SSRC where one is
    /// required, is refused with an error and changes nothing. Otherwise a packet whose
    /// turn has passed is late, one already held is a duplicate, one that finds the
    /// buffer full is dropped, and any other is held; the first packet held sets the
    /// sequence number that plays first. The matching counter goes up by one.
    pub fn insert(&mut self, packet: RtpPacket) -> (r: Result<InsertResult, JitterError>)
        requires
            counters_below_max(old(self)@.stats),
        ensures
            jitter_wf(final(self)@),
            packet.header.payload_type != old(self)@.config.payload_type ==> r == Err::<InsertResult, JitterError>(
                JitterError::PayloadTypeMismatch {
                    expected: old(self)@.config.payload_type,
                    actual: packet.header.payload_type,
                },
            ) && final(self)@ == old(self)@,
            packet.header.payload_type == old(self)@.config.payload_type && (old(self)@.config.ssrc matches Some(s)
                && s != packet.header.ssrc) ==> r == Err::<InsertResult, JitterError>(
                JitterError::SsrcMismatch { expected: old(self)@.config.ssrc.unwrap(), actual: packet.header.ssrc },
            ) && final(self)@ == old(self)@,
            packet.header.payload_type == old(self)@.config.payload_type && !(old(self)@.config.ssrc matches Some(s)
                && s != packet.header.ssrc) ==> ({
                let k = packet.header.sequence_number;
                let outcome = insert_outcome(old(self)@, k);
                &&& r == Ok::<InsertResult, JitterError>(outcome)
                &&& final(self)@.config == old(self)@.config
                &&& final(self)@.stats == stats_after_insert(old(self)@.stats, outcome)
                &&& outcome == InsertResult::Accepted ==> {
                    &&& final(self)@.packets == old(self)@.packets.insert(k, entry(packet))
                    &&& final(self)@.next_sequence == if old(self)@.next_sequence.is_none() {
                        Some(k)
                    } else {
                        old(self)@.next_sequence
                    }
                }
                &&& outcome != InsertResult::Accepted ==> {
                    &&& final(self)@.packets == old(self)@.packets
                    &&& final(self)@.next_sequence == old(self)@.next_sequence
                }
            }),
    {
        proof {
            use_type_invariant(&*self);
            lemma_entries_len(self.packets@);
        }
        if packet.header.payload_type != self.config.payload_type {
            return Err(
                JitterError::PayloadTypeMismatch {
                    expected: self.config.payload_type,
                    actual: packet.header.payload_type,
                },
            );
        }
        if let Some(s) = self.config.ssrc {
            if s != packet.header.ssrc {
                return Err(JitterError::SsrcMismatch { expected: s, actual: packet.header.ssrc });
            }
        }
        let k = packet.header.sequence_number;
        if let Some(n) = self.next_sequence {
            if k.wrapping_sub(n) >= 0x8000 {
                self.stats.late_packets = self.stats.late_packets + 1;
                return Ok(InsertResult::Late);
            }
        }
        if self.find(k).is_some() {
            proof {
                lemma_entries_dom(self.packets@, k);
            }
            self.stats.duplicate_packets = self.stats.duplicate_packets + 1;
            return Ok(InsertResult::Duplicate);
        }
        if self.packets.len() >= self.config.capacity_packets {
            self.stats.dropped_full_packets = self.stats.dropped_full_packets + 1;
            return Ok(InsertResult::DroppedFull);
        }
        let ghost old_packets = self.packets@;
        let ghost added = packet;
        let first = self.next_sequence.is_none();
        let mut stats = self.stats;
        stats.accepted_packets = stats.accepted_packets + 1;
        let next = if first {
            Some(k)
        } else {
            self.next_sequence
        };
        proof {
            let s2 = old_packets.push(added);
            assert forall|a: int, b: int|
                0 <= a < s2.len() && 0 <= b < s2.len() && a != b implies s2[a].header.sequence_number
                    != s2[b].header.sequence_number by {
                if a == old_packets.len() || b == old_packets.len() {
                    lemma_entries_dom(old_packets, k);
                    if a < old_packets.len() {
                        assert(old_packets[a].header.sequence_number != k);
                    }
                    if b < old_packets.len() {
                        assert(old_packets[b].header.sequence_number != k);
                    }
                } else {
                    assert(s2[a] == old_packets[a]);
                    assert(s2[b] == old_packets[b]);
                }
            }
            assert(s2.drop_last() =~= old_packets);
            lemma_entries_len(s2);
            if first {
                entries_map(old_packets).dom().lemma_len0_is_empty();
            }
            let nn = next.unwrap();
            assert(ahead(nn, k) < 0x8000);
            assert forall|key: u16| #[trigger] entries_map(s2).contains_key(key) implies (next matches Some(n)
                && ahead(n, key) < 0x8000) by {
                if key != k {
                    assert(entries_map(old_packets).contains_key(key));
                }
            }
        }
        self.next_sequence = next;
        let mut packets = Vec::new();
        std::mem::swap(&mut packets, &mut self.packets);
        packets.push(packet);
        self.packets = packets;
        self.stats = stats;
        Ok(InsertResult::Accepted)
    }

    /// The next item of playout, once anything is held: the packet with the next
    /// sequence number, taken out of the buffer, or silence of one packet's frames in
    /// its place (counted as lost); either way the next sequence number moves on by one.
    /// An empty buffer gives nothing and changes nothing.
    pub fn pop_next(&mut self) -> (r: Option<PlayoutPacket>)
        requires
            old(self)@.stats.lost_packets < u64::MAX,
        ensures
            jitter_wf(final(self)@),
            final(self)@.config == old(self)@.config,
            old(self)@.packets.len() == 0 ==> r is None && final(self)@ == old(self)@,
            old(self)@.packets.len() > 0 ==> ({
                let n = old(self)@.next_sequence.unwrap();
                &&& final(self)@.next_sequence == Some(following(n))
                &&& old(self)@.packets.contains_key(n) ==> {
                    &&& r matches Some(PlayoutPacket::Packet(p)) && p.header.sequence_number == n
                        && entry(p) == old(self)@.packets[n]
                    &&& final(self)@.packets == old(self)@.packets.remove(n)
                    &&& final(self)@.stats == old(self)@.stats
                }
                &&& !old(self)@.packets.contains_key(n) ==> {
                    &&& r == Some(PlayoutPacket::Silence { sequence_number: n, frames: old(self)@.config.frames_per_packet })
                    &&& final(self)@.packets == old(self)@.packets
                    &&& final(self)@.stats == (JitterBufferStats {
                        lost_packets: (old(self)@.stats.lost_packets + 1) as u64,
                        ..old(self)@.stats
                    })
                }
            }),
    {
        proof {
            use_type_invariant(&*self);
            lemma_entries_len(self.packets@);
        }
        if self.packets.len() == 0 {
            return None;
        }
        let n = match self.next_sequence {
            Some(n) => n,
            None => {
                proof {
                    assert(false);
                }
                return None;
            },
        };
        let following_n = n.wrapping_add(1);
        let ghost old_packets = self.packets@;
        match self.find(n) {
            Some(i) => {
                proof {
                    lemma_entries_value(old_packets, i as int);
                    lemma_entries_remove(old_packets, i as int);
                    lemma_entries_len(old_packets.remove(i as int));
                    let m = entries_map(old_packets.remove(i as int));
                    assert forall|key: u16| #[trigger] m.contains_key(key) implies ahead(following_n, key) < 0x8000 by {
                        assert(entries_map(old_packets).contains_key(key));
                        assert(key != n);
                    }
                }
                let mut packets = Vec::new();
                std::mem::swap(&mut packets, &mut self.packets);
                let p = packets.remove(i);
                self.packets = packets;
                self.next_sequence = Some(following_n);
                Some(PlayoutPacket::Packet(p))
            },
            None => {
                proof {
                    let m = entries_map(old_packets);
                    assert forall|key: u16| #[trigger] m.contains_key(key) implies ahead(following_n, key) < 0x8000 by {
                        assert(key != n);
                    }
                }
                let mut stats = self.stats;
                stats.lost_packets = stats.lost_packets + 1;
                self.stats = stats;
                self.next_sequence = Some(following_n);
                Some(PlayoutPacket::Silence { sequence_number: n, frames: self.config.frames_per_packet })
            },
        }
    }

    /// The number of packets held.
    pub fn len(&self) -> (n: usize)
        ensures
            n == self@.packets.len(),
    {
        proof {
            use_type_invariant(self);
            lemma_entries_len(self.packets@);
        }
        self.packets.len()
    }

    /// Whether no packet is held.
    pub fn is_empty(&self) -> (r: bool)
        ensures
            r == (self@.packets.len() == 0),
    {
        proof {
            use_type_invariant(self);
            lemma_entries_len(self.packets@);
        }
        self.packets.len() == 0
    }

    /// The counters.
    pub fn stats(&self) -> (s: JitterBufferStats)
        ensures
            s == self@.stats,
    {
        self.stats
    }

    /// What the buffer was made with.
    pub fn config(&self) -> (c: JitterBufferConfig)
        ensures
            c == self@.config,
    {
        self.config
    }
}

} // verus!
