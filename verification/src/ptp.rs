//! PTP client decisions: best master clock selection, local master fallback and the
//! offset/delay arithmetic. Sockets and timers live with the caller, which feeds this
//! state machine the packets it receives and the times it reads.

use vstd::prelude::*;
use crate::ptp_messages::{
    AnnounceMessage, ClockIdentity, ClockQuality, DelayReqMessage, DelayRespMessage,
    FollowUpMessage, LocalAnnounceMessage, MessageType, PtpError, PtpHeader, SyncMessage,
    Timestamp, DELAY_REQ_CODE, DELAY_RESP_CODE, FOLLOW_UP_CODE, SYNC_CODE, TWO_STEP_FLAG,
    identity_bytes, identity_value, local_announce_bytes_ok, message_type_of,
    outgoing_header_ok, spec_parse_announce, timestamp_bytes, timestamp_fields,
    timestamp_message_ok, timestamp_nanos,
};
use crate::rtp::be_u16;
use crate::socket::UdpSocketDefaults;

verus! {

/// DSCP value used for PTP event and general messages (EF).
pub const PTP_DSCP: u8 = 46;

/// Socket buffer size requested for PTP sockets.
pub const PTP_SOCKET_BUFFER_SIZE: usize = 262_144;

/// How often the grandmaster selection is refreshed (nanoseconds).
pub const MASTER_SELECTION_REFRESH_NS: u64 = 1_000_000_000;

/// How often a client that is its own master announces itself (nanoseconds).
pub const LOCAL_MASTER_ANNOUNCE_INTERVAL_NS: u64 = 2_000_000_000;

/// How often a client that is its own master sends Sync (nanoseconds).
pub const LOCAL_MASTER_SYNC_INTERVAL_NS: u64 = 1_000_000_000;

/// The fixed socket options of the PTP event and general sockets.
pub fn ptp_socket_defaults() -> (d: UdpSocketDefaults)
    ensures
        d == (UdpSocketDefaults {
            reuse_address: true,
            reuse_port: true,
            multicast_loop_v4: true,
            send_buffer_size: Some(262_144usize),
            recv_buffer_size: Some(262_144usize),
        }),
{
    UdpSocketDefaults {
        reuse_address: true,
        reuse_port: true,
        multicast_loop_v4: true,
        send_buffer_size: Some(PTP_SOCKET_BUFFER_SIZE),
        recv_buffer_size: Some(PTP_SOCKET_BUFFER_SIZE),
    }
}

/// Port state of the PTP client.
#[derive(Debug, Clone, Copy, PartialEq, Eq, Structural)]
pub enum PtpState {
    Initializing,
    Listening,
    Uncalibrated,
    Slave,
    Master,
    Passive,
}

impl Default for PtpState {
    fn default() -> (s: Self)
        ensures
            s == PtpState::Initializing,
    {
        PtpState::Initializing
    }
}

/// PTP client configuration.
#[derive(Debug, Clone, Copy, PartialEq, Eq)]
pub struct PtpConfig {
    pub domain: u8,
    pub priority1: u8,
    pub priority2: u8,
    /// IPv4 address of the interface, as four octets.
    pub interface_ip: [u8; 4],
    pub clock_identity: Option<ClockIdentity>,
}

impl Default for PtpConfig {
    fn default() -> (c: Self)
        ensures
            c.domain == 0,
            c.priority1 == 128,
            c.priority2 == 128,
            c.interface_ip@ == seq![0u8, 0u8, 0u8, 0u8],
            c.clock_identity.is_none(),
    {
        let c = PtpConfig {
            domain: 0,
            priority1: 128,
            priority2: 128,
            interface_ip: [0, 0, 0, 0],
            clock_identity: None,
        };
        assert(c.interface_ip@ =~= seq![0u8, 0u8, 0u8, 0u8]);
        c
    }
}

/// Statistics and state reported by the PTP client.
#[derive(Debug, Clone, Copy, PartialEq, Eq, Structural)]
pub struct PtpStats {
    pub offset_ns: i64,
    pub mean_path_delay_ns: i64,
    pub sync_count: u64,
    pub announce_count: u64,
    pub state: PtpState,
    pub local_identity: ClockIdentity,
    pub master_identity: Option<ClockIdentity>,
}

impl Default for PtpStats {
    fn default() -> (s: Self)
        ensures
            s == (PtpStats {
                offset_ns: 0,
                mean_path_delay_ns: 0,
                sync_count: 0,
                announce_count: 0,
                state: PtpState::Initializing,
                local_identity: ClockIdentity { value: 0 },
                master_identity: None,
            }),
    {
        PtpStats {
            offset_ns: 0,
            mean_path_delay_ns: 0,
            sync_count: 0,
            announce_count: 0,
            state: PtpState::Initializing,
            local_identity: ClockIdentity { value: 0 },
            master_identity: None,
        }
    }
}

/// Announce receipt timeout in nanoseconds for an announce interval of `2^k` seconds:
/// three intervals, kept between 100 ms and 60 s.
pub open spec fn spec_announce_timeout_ns(k: i8) -> int {
    if k >= 5 {
        60_000_000_000int
    } else if k <= -5 {
        100_000_000int
    } else if k >= 0 {
        3_000_000_000int * vstd::arithmetic::power2::pow2(k as nat) as int
    } else {
        3_000_000_000int / vstd::arithmetic::power2::pow2((-k) as nat) as int
    }
}

/// Announce receipt timeout (in nanoseconds) for a log announce interval.
pub fn announce_timeout(log_message_interval: i8) -> (ns: u64)
    ensures
        ns == spec_announce_timeout_ns(log_message_interval),
{
    proof {
        vstd::arithmetic::power2::lemma2_to64();
    }
    let k = log_message_interval;
    if k >= 5 {
        60_000_000_000
    } else if k <= -5 {
        100_000_000
    } else if k >= 0 {
        let ns: u64 = 3_000_000_000u64 << (k as u64);
        proof {
            let kk = k as u64;
            assert(0 <= kk <= 4);
            assert(ns == 3_000_000_000int * (vstd::arithmetic::power2::pow2(kk as nat) as int)) by {
                if kk == 0 {
                    assert(3_000_000_000u64 << 0u64 == 3_000_000_000u64) by (bit_vector);
                } else if kk == 1 {
                    assert(3_000_000_000u64 << 1u64 == 6_000_000_000u64) by (bit_vector);
                } else if kk == 2 {
                    assert(3_000_000_000u64 << 2u64 == 12_000_000_000u64) by (bit_vector);
                } else if kk == 3 {
                    assert(3_000_000_000u64 << 3u64 == 24_000_000_000u64) by (bit_vector);
                } else {
                    assert(3_000_000_000u64 << 4u64 == 48_000_000_000u64) by (bit_vector);
                }
            }
        }
        ns
    } else {
        let shift: u64 = (0i8 - k) as u64;
        let ns: u64 = 3_000_000_000u64 >> shift;
        proof {
            assert(1 <= shift <= 4);
            assert(ns == 3_000_000_000int / (vstd::arithmetic::power2::pow2(shift as nat) as int)) by {
                let p = vstd::arithmetic::power2::pow2(shift as nat) as int;
                if shift == 1 {
                    assert(3_000_000_000u64 >> 1u64 == 1_500_000_000u64) by (bit_vector);
                    assert(p == 2);
                } else if shift == 2 {
                    assert(3_000_000_000u64 >> 2u64 == 750_000_000u64) by (bit_vector);
                    assert(p == 4);
                } else if shift == 3 {
                    assert(3_000_000_000u64 >> 3u64 == 375_000_000u64) by (bit_vector);
                    assert(p == 8);
                } else {
                    assert(3_000_000_000u64 >> 4u64 == 187_500_000u64) by (bit_vector);
                    assert(p == 16);
                }
            }
        }
        ns
    }
}

/// Clock quality that this client announces as local master.
pub fn local_clock_quality() -> (q: ClockQuality)
    ensures
        q == (ClockQuality {
            clock_class: 248,
            clock_accuracy: 0xfe,
            offset_scaled_log_variance: 0xffff,
        }),
{
    ClockQuality { clock_class: 248, clock_accuracy: 0xfe, offset_scaled_log_variance: 0xffff }
}

/// The clock identity in the first eight bytes of a header's source port identity.
pub fn source_clock_identity(header: &PtpHeader) -> (id: ClockIdentity)
    ensures
        id.value == identity_value(header.source_port_identity@.subrange(0, 8)),
{
    let p = header.source_port_identity;
    let id = ClockIdentity::from_bytes([p[0], p[1], p[2], p[3], p[4], p[5], p[6], p[7]]);
    assert([p[0], p[1], p[2], p[3], p[4], p[5], p[6], p[7]]@ =~= p@.subrange(0, 8));
    id
}

/// The port identity of port 1 of a clock.
pub fn source_port_identity(clock_identity: ClockIdentity) -> (p: [u8; 10])
    ensures
        p@ == identity_bytes(clock_identity.value) + seq![0u8, 1u8],
{
    let b = clock_identity.as_bytes();
    let p = [b[0], b[1], b[2], b[3], b[4], b[5], b[6], b[7], 0u8, 1u8];
    assert(p@ =~= identity_bytes(clock_identity.value) + seq![0u8, 1u8]);
    p
}

/// Whether two port identities are equal.
pub fn same_port_identity(a: &[u8; 10], b: &[u8; 10]) -> (r: bool)
    ensures
        r == (a@ == b@),
{
    let mut i: usize = 0;
    while i < 10
        invariant
            i <= 10,
            a@.take(i as int) == b@.take(i as int),
        decreases 10 - i,
    {
        if a[i] != b[i] {
            assert(a@[i as int] != b@[i as int]);
            return false;
        }
        assert(a@.take(i + 1) =~= a@.take(i as int).push(a@[i as int]));
        assert(b@.take(i + 1) =~= b@.take(i as int).push(b@[i as int]));
        i = i + 1;
    }
    assert(a@ =~= a@.take(10));
    assert(b@ =~= b@.take(10));
    true
}

/// A grandmaster seen in an Announce message, with the time (monotonic nanoseconds) it
/// was last heard from and how long it stays valid without another Announce.
#[derive(Debug, Clone, Copy, PartialEq, Eq, Structural)]
pub struct MasterCandidate {
    pub priority1: u8,
    pub clock_quality: ClockQuality,
    pub priority2: u8,
    pub grandmaster_identity: ClockIdentity,
    pub last_seen_ns: u64,
    pub timeout_ns: u64,
}

/// Best master clock comparison: `a` is preferred to `b` when its data set
/// (priority1, clock class, clock accuracy, offset scaled log variance, priority2,
/// grandmaster identity) is lexicographically smaller.
pub open spec fn dataset_less(a: MasterCandidate, b: MasterCandidate) -> bool {
    if a.priority1 != b.priority1 {
        a.priority1 < b.priority1
    } else if a.clock_quality.clock_class != b.clock_quality.clock_class {
        a.clock_quality.clock_class < b.clock_quality.clock_class
    } else if a.clock_quality.clock_accuracy != b.clock_quality.clock_accuracy {
        a.clock_quality.clock_accuracy < b.clock_quality.clock_accuracy
    } else if a.clock_quality.offset_scaled_log_variance
        != b.clock_quality.offset_scaled_log_variance {
        a.clock_quality.offset_scaled_log_variance < b.clock_quality.offset_scaled_log_variance
    } else if a.priority2 != b.priority2 {
        a.priority2 < b.priority2
    } else {
        a.grandmaster_identity.value < b.grandmaster_identity.value
    }
}

/// A candidate has expired at `now_ns` when more than its timeout has passed since it was
/// last seen (a time before `last_seen_ns` never expires it).
pub open spec fn candidate_expired(c: MasterCandidate, now_ns: u64) -> bool {
    now_ns >= c.last_seen_ns && now_ns - c.last_seen_ns > c.timeout_ns
}

/// The candidate that an Announce message describes, seen at `now_ns`.
pub open spec fn candidate_of(a: AnnounceMessage, now_ns: u64) -> MasterCandidate {
    MasterCandidate {
        priority1: a.priority1,
        clock_quality: a.clock_quality,
        priority2: a.priority2,
        grandmaster_identity: a.grandmaster_identity,
        last_seen_ns: now_ns,
        timeout_ns: spec_announce_timeout_ns(a.log_message_interval) as u64,
    }
}

impl MasterCandidate {
    /// The candidate described by an Announce message received at `now_ns`.
    pub fn from_announce(announce: &AnnounceMessage, now_ns: u64) -> (c: Self)
        ensures
            c == candidate_of(*announce, now_ns),
    {
        MasterCandidate {
            priority1: announce.priority1,
            clock_quality: announce.clock_quality,
            priority2: announce.priority2,
            grandmaster_identity: announce.grandmaster_identity,
            last_seen_ns: now_ns,
            timeout_ns: announce_timeout(announce.log_message_interval),
        }
    }

    /// Whether this candidate is a better master than `other`.
    pub fn is_better_than(&self, other: &Self) -> (r: bool)
        ensures
            r == dataset_less(*self, *other),
    {
        let a = self;
        let b = other;
        if a.priority1 != b.priority1 {
            a.priority1 < b.priority1
        } else if a.clock_quality.clock_class != b.clock_quality.clock_class {
            a.clock_quality.clock_class < b.clock_quality.clock_class
        } else if a.clock_quality.clock_accuracy != b.clock_quality.clock_accuracy {
            a.clock_quality.clock_accuracy < b.clock_quality.clock_accuracy
        } else if a.clock_quality.offset_scaled_log_variance
            != b.clock_quality.offset_scaled_log_variance {
            a.clock_quality.offset_scaled_log_variance
                < b.clock_quality.offset_scaled_log_variance
        } else if a.priority2 != b.priority2 {
            a.priority2 < b.priority2
        } else {
            a.grandmaster_identity.value < b.grandmaster_identity.value
        }
    }

    /// Whether the candidate has gone unheard for longer than its timeout at `now_ns`.
    pub fn is_expired(&self, now_ns: u64) -> (r: bool)
        ensures
            r == candidate_expired(*self, now_ns),
    {
        now_ns >= self.last_seen_ns && now_ns - self.last_seen_ns > self.timeout_ns
    }
}

/// The comparison never prefers a candidate to itself.
pub proof fn lemma_dataset_less_irreflexive(a: MasterCandidate)
    ensures
        !dataset_less(a, a),
{
}

/// The comparison is asymmetric.
pub proof fn lemma_dataset_less_asymmetric(a: MasterCandidate, b: MasterCandidate)
    ensures
        dataset_less(a, b) ==> !dataset_less(b, a),
{
}

/// The comparison is transitive.
pub proof fn lemma_dataset_less_transitive(a: MasterCandidate, b: MasterCandidate, c: MasterCandidate)
    requires
        dataset_less(a, b),
        dataset_less(b, c),
    ensures
        dataset_less(a, c),
{
}

/// Two candidates for different grandmasters are always ordered one way or the other.
pub proof fn lemma_dataset_less_total(a: MasterCandidate, b: MasterCandidate)
    requires
        a.grandmaster_identity != b.grandmaster_identity,
    ensures
        dataset_less(a, b) || dataset_less(b, a),
{
}

/// No two candidates of `s` name the same grandmaster.
pub open spec fn keys_unique(s: Set<MasterCandidate>) -> bool {
    forall|a: MasterCandidate, b: MasterCandidate|
        s.contains(a) && s.contains(b) && a.grandmaster_identity == b.grandmaster_identity ==> a
            == b
}

/// The candidates of `s` that have not expired at `now_ns`.
pub open spec fn unexpired(s: Set<MasterCandidate>, now_ns: u64) -> Set<MasterCandidate> {
    s.filter(|c: MasterCandidate| !candidate_expired(c, now_ns))
}

/// `s` with `c` recorded for its grandmaster, replacing any earlier record of it.
pub open spec fn with_candidate(s: Set<MasterCandidate>, c: MasterCandidate) -> Set<
    MasterCandidate,
> {
    s.filter(|d: MasterCandidate| d.grandmaster_identity != c.grandmaster_identity).insert(c)
}

/// `c` is in `s` and better than every other candidate of `s`.
pub open spec fn is_best_candidate(s: Set<MasterCandidate>, c: MasterCandidate) -> bool {
    &&& s.contains(c)
    &&& forall|d: MasterCandidate| s.contains(d) && d != c ==> dataset_less(c, d)
}

/// `r` is the grandmaster that best master selection picks from `s`: none when `s` is
/// empty, else the identity of its best candidate.
pub open spec fn selects(s: Set<MasterCandidate>, r: Option<ClockIdentity>) -> bool {
    match r {
        None => forall|c: MasterCandidate| !s.contains(c),
        Some(id) => exists|c: MasterCandidate|
            is_best_candidate(s, c) && c.grandmaster_identity == id,
    }
}

/// The grandmasters heard from recently, keyed by grandmaster identity.
pub struct MasterSelection {
    candidates: Vec<MasterCandidate>,
}

spec fn seq_keys_unique(v: Seq<MasterCandidate>) -> bool {
    forall|i: int, j: int|
        0 <= i < v.len() && 0 <= j < v.len() && i != j ==> v[i].grandmaster_identity
            != v[j].grandmaster_identity
}

spec fn in_prefix(v: Seq<MasterCandidate>, n: int, x: MasterCandidate) -> bool {
    exists|j: int| 0 <= j < n && v[j] == x
}

spec fn seq_set(v: Seq<MasterCandidate>) -> Set<MasterCandidate> {
    Set::new(|c: MasterCandidate| v.contains(c))
}

proof fn lemma_seq_keys_unique_set(v: Seq<MasterCandidate>)
    requires
        seq_keys_unique(v),
    ensures
        keys_unique(seq_set(v)),
{
    assert forall|a: MasterCandidate, b: MasterCandidate|
        seq_set(v).contains(a) && seq_set(v).contains(b) && a.grandmaster_identity
            == b.grandmaster_identity implies a == b by {
        let i = choose|i: int| 0 <= i < v.len() && v[i] == a;
        let j = choose|j: int| 0 <= j < v.len() && v[j] == b;
    }
}

impl View for MasterSelection {
    type V = Set<MasterCandidate>;

    closed spec fn view(&self) -> Set<MasterCandidate> {
        seq_set(self.candidates@)
    }
}

impl MasterSelection {
    #[verifier::type_invariant]
    spec fn wf(self) -> bool {
        seq_keys_unique(self.candidates@)
    }

    /// An empty selection.
    pub fn new() -> (s: Self)
        ensures
            s@ == Set::<MasterCandidate>::empty(),
            keys_unique(s@),
    {
        let s = MasterSelection { candidates: Vec::new() };
        assert(s@ =~= Set::<MasterCandidate>::empty());
        s
    }

    /// Drop the candidates that have expired at `now_ns`.
    pub fn remove_expired(&mut self, now_ns: u64)
        ensures
            final(self)@ == unexpired(old(self)@, now_ns),
            keys_unique(final(self)@),
    {
        proof {
            use_type_invariant(&*self);
        }
        let ghost old_v = self.candidates@;
        let mut kept: Vec<MasterCandidate> = Vec::new();
        let mut i: usize = 0;
        while i < self.candidates.len()
            invariant
                old_v == self.candidates@,
                seq_keys_unique(old_v),
                i <= old_v.len(),
                seq_keys_unique(kept@),
                forall|k: int|
                    0 <= k < kept@.len() ==> in_prefix(old_v, i as int, #[trigger] kept@[k]),
                forall|k: int| 0 <= k < kept@.len() ==> !candidate_expired(#[trigger] kept@[k], now_ns),
                forall|j: int|
                    0 <= j < i && !candidate_expired(#[trigger] old_v[j], now_ns) ==> kept@.contains(
                        old_v[j],
                    ),
            decreases old_v.len() - i,
        {
            let c = self.candidates[i];
            if !c.is_expired(now_ns) {
                proof {
                    assert forall|k: int| 0 <= k < kept@.len() implies kept@[k].grandmaster_identity
                        != c.grandmaster_identity by {
                        assert(in_prefix(old_v, i as int, kept@[k]));
                        let j = choose|j: int| 0 <= j < i && old_v[j] == kept@[k];
                    }
                }
                let ghost prev = kept@;
                kept.push(c);
                proof {
                    assert forall|j: int|
                        0 <= j < i + 1 && !candidate_expired(#[trigger] old_v[j], now_ns) implies kept@.contains(
                        old_v[j],
                    ) by {
                        if j == i {
                            assert(kept@[kept@.len() - 1] == old_v[j]);
                        } else {
                            assert(prev.contains(old_v[j]));
                            let k = choose|k: int| 0 <= k < prev.len() && prev[k] == old_v[j];
                            assert(kept@[k] == old_v[j]);
                        }
                    }
                    assert forall|k: int| 0 <= k < kept@.len() implies in_prefix(
                        old_v,
                        i + 1,
                        #[trigger] kept@[k],
                    ) by {
                        if k == kept@.len() - 1 {
                            assert(old_v[i as int] == kept@[k]);
                        } else {
                            assert(in_prefix(old_v, i as int, kept@[k]));
                            let j = choose|j: int| 0 <= j < i && old_v[j] == kept@[k];
                            assert(old_v[j] == kept@[k]);
                        }
                    }
                }
            }
            i = i + 1;
        }
        proof {
            assert forall|c: MasterCandidate| seq_set(kept@).contains(c) <==> unexpired(
                seq_set(old_v),
                now_ns,
            ).contains(c) by {
                if kept@.contains(c) {
                    let k = choose|k: int| 0 <= k < kept@.len() && kept@[k] == c;
                    assert(in_prefix(old_v, i as int, kept@[k]));
                    let j = choose|j: int| 0 <= j < i && old_v[j] == kept@[k];
                    assert(old_v.contains(c));
                    assert(!candidate_expired(kept@[k], now_ns));
                }
                if old_v.contains(c) && !candidate_expired(c, now_ns) {
                    let j = choose|j: int| 0 <= j < old_v.len() && old_v[j] == c;
                    assert(!candidate_expired(old_v[j], now_ns));
                }
            }
            assert(seq_set(kept@) =~= unexpired(seq_set(old_v), now_ns));
        }
        proof {
            lemma_seq_keys_unique_set(kept@);
        }
        self.candidates = kept;
    }

    /// Record `c`, replacing an earlier record of the same grandmaster.
    fn insert_candidate(&mut self, c: MasterCandidate)
        ensures
            final(self)@ == with_candidate(old(self)@, c),
    {
        proof {
            use_type_invariant(&*self);
        }
        let ghost old_v = self.candidates@;
        let mut idx: usize = 0;
        let mut found = false;
        while idx < self.candidates.len()
            invariant_except_break
                !found,
            invariant
                old_v == self.candidates@,
                idx <= old_v.len(),
                forall|j: int| 0 <= j < idx ==> old_v[j].grandmaster_identity != c.grandmaster_identity,
            ensures
                idx <= old_v.len(),
                found ==> idx < old_v.len() && old_v[idx as int].grandmaster_identity
                    == c.grandmaster_identity,
                !found ==> forall|j: int|
                    0 <= j < old_v.len() ==> old_v[j].grandmaster_identity != c.grandmaster_identity,
            decreases old_v.len() - idx,
        {
            if self.candidates[idx].grandmaster_identity.value == c.grandmaster_identity.value {
                found = true;
                break;
            }
            idx = idx + 1;
        }
        let mut v = self.candidates.clone();
        assert(v@ == old_v);
        if found {
            v.set(idx, c);
            proof {
                assert forall|i: int, j: int|
                    0 <= i < v@.len() && 0 <= j < v@.len() && i != j implies v@[i].grandmaster_identity
                    != v@[j].grandmaster_identity by {
                    if i != idx && j != idx {
                        assert(v@[i] == old_v[i] && v@[j] == old_v[j]);
                    } else if i == idx {
                        assert(v@[j] == old_v[j]);
                    } else {
                        assert(v@[i] == old_v[i]);
                    }
                }
                assert forall|d: MasterCandidate| seq_set(v@).contains(d) <==> with_candidate(
                    seq_set(old_v),
                    c,
                ).contains(d) by {
                    if v@.contains(d) {
                        let k = choose|k: int| 0 <= k < v@.len() && v@[k] == d;
                        if k != idx {
                            assert(old_v[k] == d);
                            assert(old_v.contains(d));
                        }
                    }
                    if d == c {
                        assert(v@[idx as int] == c);
                    } else if old_v.contains(d) && d.grandmaster_identity != c.grandmaster_identity {
                        let k = choose|k: int| 0 <= k < old_v.len() && old_v[k] == d;
                        assert(k != idx);
                        assert(v@[k] == d);
                    }
                }
                assert(seq_set(v@) =~= with_candidate(seq_set(old_v), c));
            }
        } else {
            v.push(c);
            proof {
                assert forall|i: int, j: int|
                    0 <= i < v@.len() && 0 <= j < v@.len() && i != j implies v@[i].grandmaster_identity
                    != v@[j].grandmaster_identity by {
                    if i < old_v.len() {
                        assert(v@[i] == old_v[i]);
                    }
                    if j < old_v.len() {
                        assert(v@[j] == old_v[j]);
                    }
                }
                assert forall|d: MasterCandidate| seq_set(v@).contains(d) <==> with_candidate(
                    seq_set(old_v),
                    c,
                ).contains(d) by {
                    if v@.contains(d) {
                        let k = choose|k: int| 0 <= k < v@.len() && v@[k] == d;
                        if k < old_v.len() {
                            assert(old_v[k] == d);
                            assert(old_v.contains(d));
                        }
                    }
                    if d == c {
                        assert(v@[old_v.len() as int] == c);
                    } else if old_v.contains(d) && d.grandmaster_identity != c.grandmaster_identity {
                        let k = choose|k: int| 0 <= k < old_v.len() && old_v[k] == d;
                        assert(v@[k] == d);
                    }
                }
                assert(seq_set(v@) =~= with_candidate(seq_set(old_v), c));
            }
        }
        self.candidates = v;
    }

    /// The identity of the best candidate, if there is any.
    pub fn best_identity(&self) -> (r: Option<ClockIdentity>)
        ensures
            selects(self@, r),
            keys_unique(self@),
    {
        proof {
            use_type_invariant(self);
            lemma_seq_keys_unique_set(self.candidates@);
        }
        let n = self.candidates.len();
        if n == 0 {
            assert forall|c: MasterCandidate| !self@.contains(c) by {}
            return None;
        }
        let ghost v = self.candidates@;
        let mut best: usize = 0;
        let mut i: usize = 1;
        while i < n
            invariant
                v == self.candidates@,
                n == v.len(),
                seq_keys_unique(v),
                best < i <= n,
                forall|j: int| 0 <= j < i && j != best ==> dataset_less(v[best as int], #[trigger] v[j]),
            decreases n - i,
        {
            if self.candidates[i].is_better_than(&self.candidates[best]) {
                proof {
                    assert forall|j: int| 0 <= j < i + 1 && j != i implies dataset_less(
                        v[i as int],
                        #[trigger] v[j],
                    ) by {
                        if j != best {
                            lemma_dataset_less_transitive(v[i as int], v[best as int], v[j]);
                        }
                    }
                }
                best = i;
            } else {
                proof {
                    lemma_dataset_less_total(v[best as int], v[i as int]);
                }
            }
            i = i + 1;
        }
        let c = self.candidates[best];
        proof {
            assert forall|d: MasterCandidate| self@.contains(d) && d != c implies dataset_less(c, d) by {
                let k = choose|k: int| 0 <= k < v.len() && v[k] == d;
                assert(k != best);
            }
            assert(v.contains(c));
            assert(is_best_candidate(self@, c));
        }
        Some(c.grandmaster_identity)
    }

    /// Record an Announce message received at `now_ns` (after dropping expired
    /// candidates) and return the selected grandmaster.
    pub fn observe(&mut self, announce: AnnounceMessage, now_ns: u64) -> (r: Option<ClockIdentity>)
        ensures
            final(self)@ == with_candidate(
                unexpired(old(self)@, now_ns),
                candidate_of(announce, now_ns),
            ),
            selects(final(self)@, r),
            keys_unique(final(self)@),
    {
        self.remove_expired(now_ns);
        let candidate = MasterCandidate::from_announce(&announce, now_ns);
        self.insert_candidate(candidate);
        self.best_identity()
    }

    /// Drop expired candidates and return the selected grandmaster.
    pub fn refresh(&mut self, now_ns: u64) -> (r: Option<ClockIdentity>)
        ensures
            final(self)@ == unexpired(old(self)@, now_ns),
            selects(final(self)@, r),
            keys_unique(final(self)@),
    {
        self.remove_expired(now_ns);
        self.best_identity()
    }
}

/// A Delay_Req that waits for its Delay_Resp, with the Sync times it was sent after.
#[derive(Debug, Clone, Copy, PartialEq, Eq)]
pub struct PendingDelayRequest {
    pub sequence_id: u16,
    pub sent_ns: u64,
    pub sync_origin_ns: u64,
    pub sync_arrival_ns: u64,
    pub requesting_port_identity: [u8; 10],
}

/// The identity derived from an interface address when no other is known.
pub open spec fn local_ipv4_identity(ip: [u8; 4]) -> ClockIdentity {
    ClockIdentity {
        value: identity_value(seq![0x02u8, 0x00u8, ip[0], 0xffu8, 0xfeu8, ip[1], ip[2], ip[3]]),
    }
}

/// The local clock identity: the configured one, else the discovered one, else the one
/// derived from the interface address.
pub open spec fn chosen_local_identity(config: PtpConfig, discovered: Option<ClockIdentity>) -> ClockIdentity {
    match config.clock_identity {
        Some(id) => id,
        None => match discovered {
            Some(id) => id,
            None => local_ipv4_identity(config.interface_ip),
        },
    }
}

/// Stats after an accepted Announce selected `m`.
pub open spec fn stats_after_announce(s: PtpStats, m: Option<ClockIdentity>) -> PtpStats {
    PtpStats {
        announce_count: (s.announce_count + 1) as u64,
        master_identity: m,
        state: if m.is_some() && s.state == PtpState::Master {
            PtpState::Listening
        } else {
            s.state
        },
        ..s
    }
}

/// Stats after a refresh of master selection selected `m`: with no master the client
/// becomes its own master, and a master heard again ends local mastership.
pub open spec fn stats_after_refresh(s: PtpStats, m: Option<ClockIdentity>) -> PtpStats {
    PtpStats {
        master_identity: m,
        state: if m.is_none() {
            PtpState::Master
        } else if s.state == PtpState::Master {
            PtpState::Listening
        } else {
            s.state
        },
        ..s
    }
}

/// Adjusted clock time: system time plus the offset, as the 64-bit patterns the clock uses.
pub open spec fn clock_time(system_ns: u64, offset_ns: i64) -> u64 {
    ((system_ns as i64) + offset_ns) as u64
}

/// The addition in `clock_time` does not overflow.
pub open spec fn clock_time_ok(system_ns: u64, offset_ns: i64) -> bool {
    i64::MIN <= (system_ns as i64) + offset_ns <= i64::MAX
}

/// Integer division by two rounding toward zero.
pub open spec fn half_toward_zero(x: int) -> int {
    if x >= 0 {
        x / 2
    } else {
        -((-x) / 2)
    }
}

/// Path delay and offset of a delay measurement:
/// `((t2 - t1) + (t4 - t3)) / 2` and `((t4 - t3) - (t2 - t1)) / 2`.
pub open spec fn delay_measurement(p: PendingDelayRequest, receive_ns: int) -> (int, int) {
    let master_to_slave = p.sync_arrival_ns - p.sync_origin_ns;
    let slave_to_master = receive_ns - p.sent_ns;
    (
        half_toward_zero(master_to_slave + slave_to_master),
        half_toward_zero(slave_to_master - master_to_slave),
    )
}

/// RTP timestamp of a clock time: elapsed samples at `sample_rate`, modulo 2^32.
pub open spec fn rtp_time(now_ns: u64, sample_rate: u32) -> u32 {
    (now_ns as int * sample_rate as int / 1_000_000_000) as u32
}

/// What applying Announce bytes `b` at `now_ns` does: a parse error is returned and
/// changes nothing; an Announce of another domain, or naming the local clock, is
/// accepted and ignored; any other is recorded, master selection is rerun and counted.
pub open spec fn announce_applied(
    config: PtpConfig,
    stats: PtpStats,
    cands: Set<MasterCandidate>,
    b: Seq<u8>,
    now_ns: u64,
    r: Result<(), PtpError>,
    stats2: PtpStats,
    cands2: Set<MasterCandidate>,
) -> bool {
    match spec_parse_announce(b) {
        Err(e) => r == Err::<(), PtpError>(e) && stats2 == stats && cands2 == cands,
        Ok(a) => r == Ok::<(), PtpError>(()) && if a.domain_number != config.domain
            || a.grandmaster_identity == stats.local_identity {
            stats2 == stats && cands2 == cands
        } else {
            &&& cands2 == with_candidate(unexpired(cands, now_ns), candidate_of(a, now_ns))
            &&& selects(cands2, stats2.master_identity)
            &&& stats2 == stats_after_announce(stats, stats2.master_identity)
        },
    }
}

/// `b` is a Delay_Resp in `domain` that answers the pending request `pending`.
pub open spec fn answers_pending(domain: u8, pending: Option<PendingDelayRequest>, b: Seq<u8>) -> bool {
    &&& b.len() >= 54
    &&& b[4] == domain
    &&& match pending {
        None => false,
        Some(p) => p.sequence_id == crate::rtp::be_u16(b[30], b[31])
            && p.requesting_port_identity@ == b.subrange(44, 54),
    }
}

/// What applying Delay_Resp bytes `b` does: a message too short is an error; one that
/// answers the pending request sets path delay and offset from the four timestamps,
/// makes the client Slave and clears the request; any other changes nothing.
pub open spec fn delay_resp_applied(
    domain: u8,
    stats: PtpStats,
    offset: i64,
    pending: Option<PendingDelayRequest>,
    b: Seq<u8>,
    r: Result<(), PtpError>,
    stats2: PtpStats,
    offset2: i64,
    pending2: Option<PendingDelayRequest>,
) -> bool {
    if b.len() < 34 {
        r == Err::<(), PtpError>(PtpError::HeaderTooShort { len: b.len() as usize })
            && stats2 == stats && offset2 == offset && pending2 == pending
    } else if b.len() < 54 {
        r == Err::<(), PtpError>(PtpError::DelayRespTooShort { len: b.len() as usize })
            && stats2 == stats && offset2 == offset && pending2 == pending
    } else if answers_pending(domain, pending, b) {
        let p = pending.unwrap();
        let receive = crate::ptp_messages::timestamp_fields(b.subrange(34, 44));
        let (delay, off) = delay_measurement(p, timestamp_nanos(receive) as int);
        &&& r == Ok::<(), PtpError>(())
        &&& stats2 == (PtpStats {
            mean_path_delay_ns: delay as i64,
            offset_ns: off as i64,
            state: PtpState::Slave,
            ..stats
        })
        &&& offset2 == off as i64
        &&& pending2.is_none()
    } else {
        r == Ok::<(), PtpError>(()) && stats2 == stats && offset2 == offset && pending2 == pending
    }
}

fn half_toward_zero_i128(x: i128) -> (r: i128)
    ensures
        r == half_toward_zero(x as int),
{
    if x >= 0 {
        x / 2
    } else {
        let m: i128 = if x == i128::MIN {
            0x4000_0000_0000_0000_0000_0000_0000_0000i128
        } else {
            (0i128 - x) / 2
        };
        0i128 - m
    }
}

/// The PTP client's state: its configuration, the statistics it reports, the grandmasters
/// it has heard from and the offset of its clock from system time.
pub struct PtpClient {
    config: PtpConfig,
    stats: PtpStats,
    selection: MasterSelection,
    clock_offset_ns: i64,
}

impl PtpClient {
    /// The configuration.
    pub closed spec fn config_view(&self) -> PtpConfig {
        self.config
    }

    /// The statistics.
    pub closed spec fn stats_view(&self) -> PtpStats {
        self.stats
    }

    /// The master candidates.
    pub closed spec fn candidates_view(&self) -> Set<MasterCandidate> {
        self.selection@
    }

    /// The clock offset from system time in nanoseconds.
    pub closed spec fn offset_view(&self) -> i64 {
        self.clock_offset_ns
    }

    /// A client that has heard from no grandmaster, with its clock at system time.
    /// `discovered` is the identity derived from the interface's MAC address, where one
    /// was found.
    pub fn new(config: PtpConfig, discovered: Option<ClockIdentity>) -> (c: Self)
        ensures
            c.config_view() == config,
            c.stats_view() == (PtpStats {
                offset_ns: 0,
                mean_path_delay_ns: 0,
                sync_count: 0,
                announce_count: 0,
                state: PtpState::Initializing,
                local_identity: chosen_local_identity(config, discovered),
                master_identity: None,
            }),
            c.candidates_view() == Set::<MasterCandidate>::empty(),
            c.offset_view() == 0,
    {
        let local_identity = match config.clock_identity {
            Some(id) => id,
            None => match discovered {
                Some(id) => id,
                None => ClockIdentity::from_local_ipv4(config.interface_ip),
            },
        };
        let mut stats = PtpStats::default();
        stats.local_identity = local_identity;
        PtpClient { config, stats, selection: MasterSelection::new(), clock_offset_ns: 0 }
    }

    /// A copy of the statistics.
    pub fn get_stats(&self) -> (s: PtpStats)
        ensures
            s == self.stats_view(),
    {
        self.stats
    }

    /// The configuration.
    pub fn config(&self) -> (c: PtpConfig)
        ensures
            c == self.config_view(),
    {
        self.config
    }

    /// The clock offset from system time in nanoseconds.
    pub fn clock_offset_ns(&self) -> (o: i64)
        ensures
            o == self.offset_view(),
    {
        self.clock_offset_ns
    }

    /// The clock that timestamps refer to: the selected grandmaster, else this client.
    pub fn reference_clock_identity(&self) -> (id: ClockIdentity)
        ensures
            id == match self.stats_view().master_identity {
                Some(m) => m,
                None => self.stats_view().local_identity,
            },
    {
        match self.stats.master_identity {
            Some(m) => m,
            None => self.stats.local_identity,
        }
    }

    /// Clock time for a system time reading `system_ns`.
    pub fn get_time(&self, system_ns: u64) -> (t: u64)
        requires
            clock_time_ok(system_ns, self.offset_view()),
        ensures
            t == clock_time(system_ns, self.offset_view()),
    {
        ((system_ns as i64) + self.clock_offset_ns) as u64
    }

    /// RTP timestamp at `sample_rate` for a system time reading `system_ns`.
    pub fn rtp_timestamp(&self, sample_rate: u32, system_ns: u64) -> (r: Result<u32, PtpError>)
        requires
            clock_time_ok(system_ns, self.offset_view()),
        ensures
            r == Ok::<u32, PtpError>(rtp_time(clock_time(system_ns, self.offset_view()), sample_rate)),
    {
        let now_ns = self.get_time(system_ns);
        assert(now_ns as int * sample_rate as int <= 0xffff_ffff_ffff_ffff * 0xffff_ffff) by (nonlinear_arith)
            requires
                now_ns <= 0xffff_ffff_ffff_ffff,
                sample_rate <= 0xffff_ffff,
        ;
        let product: u128 = now_ns as u128 * sample_rate as u128;
        Ok((product / 1_000_000_000) as u32)
    }

    /// The client is acting as master: no grandmaster is selected and the state is Master.
    pub fn local_master_is_active(&self) -> (r: bool)
        ensures
            r == (self.stats_view().master_identity.is_none() && self.stats_view().state
                == PtpState::Master),
    {
        self.stats.master_identity.is_none() && self.stats.state == PtpState::Master
    }

    /// Timing messages are taken from the selected grandmaster only (from anyone while
    /// none is selected).
    pub fn timing_source_is_selected(&self, header: &PtpHeader) -> (r: bool)
        ensures
            r == match self.stats_view().master_identity {
                None => true,
                Some(m) => m.value == identity_value(header.source_port_identity@.subrange(0, 8)),
            },
    {
        match self.stats.master_identity {
            None => true,
            Some(m) => m.value == source_clock_identity(header).value,
        }
    }

    /// Enter the Listening state, as the client does when it starts.
    pub fn start_listening(&mut self)
        ensures
            final(self).stats_view() == (PtpStats { state: PtpState::Listening, ..old(self).stats_view() }),
            final(self).config_view() == old(self).config_view(),
            final(self).candidates_view() == old(self).candidates_view(),
            final(self).offset_view() == old(self).offset_view(),
    {
        self.stats.state = PtpState::Listening;
    }

    /// Apply an Announce message received at monotonic time `now_ns`. Announces of
    /// another domain, or that name this client as grandmaster, are ignored.
    pub fn apply_announce_bytes(&mut self, bytes: &[u8], now_ns: u64) -> (r: Result<(), PtpError>)
        requires
            old(self).stats_view().announce_count < u64::MAX,
        ensures
            final(self).config_view() == old(self).config_view(),
            final(self).offset_view() == old(self).offset_view(),
            announce_applied(
                old(self).config_view(),
                old(self).stats_view(),
                old(self).candidates_view(),
                bytes@,
                now_ns,
                r,
                final(self).stats_view(),
                final(self).candidates_view(),
            ),
    {
        let announce = match AnnounceMessage::from_bytes(bytes) {
            Ok(a) => a,
            Err(e) => return Err(e),
        };
        if announce.domain_number != self.config.domain {
            return Ok(());
        }
        if announce.grandmaster_identity.value == self.stats.local_identity.value {
            return Ok(());
        }
        let master_identity = self.selection.observe(announce, now_ns);
        self.stats.announce_count = self.stats.announce_count + 1;
        self.stats.master_identity = master_identity;
        if master_identity.is_some() && self.stats.state == PtpState::Master {
            self.stats.state = PtpState::Listening;
        }
        Ok(())
    }

    /// Drop grandmasters that have gone quiet by monotonic time `now_ns` and reselect;
    /// with none left the client becomes master itself.
    pub fn refresh_master_selection(&mut self, now_ns: u64)
        ensures
            final(self).config_view() == old(self).config_view(),
            final(self).offset_view() == old(self).offset_view(),
            final(self).candidates_view() == unexpired(old(self).candidates_view(), now_ns),
            selects(final(self).candidates_view(), final(self).stats_view().master_identity),
            final(self).stats_view() == stats_after_refresh(
                old(self).stats_view(),
                final(self).stats_view().master_identity,
            ),
    {
        let master_identity = self.selection.refresh(now_ns);
        self.stats.master_identity = master_identity;
        if master_identity.is_none() {
            self.stats.state = PtpState::Master;
        } else if self.stats.state == PtpState::Master {
            self.stats.state = PtpState::Listening;
        }
    }

    /// Apply a Delay_Resp message to the pending Delay_Req: when it answers that request,
    /// set the path delay and clock offset from the four timestamps and become Slave.
    pub fn apply_delay_resp_bytes(
        &mut self,
        pending_delay_request: &mut Option<PendingDelayRequest>,
        bytes: &[u8],
    ) -> (r: Result<(), PtpError>)
        ensures
            final(self).config_view() == old(self).config_view(),
            final(self).candidates_view() == old(self).candidates_view(),
            delay_resp_applied(
                old(self).config_view().domain,
                old(self).stats_view(),
                old(self).offset_view(),
                *old(pending_delay_request),
                bytes@,
                r,
                final(self).stats_view(),
                final(self).offset_view(),
                *final(pending_delay_request),
            ),
    {
        let delay_resp = match DelayRespMessage::from_bytes(bytes) {
            Ok(m) => m,
            Err(e) => return Err(e),
        };
        if delay_resp.domain_number != self.config.domain {
            return Ok(());
        }
        let pending = match *pending_delay_request {
            None => return Ok(()),
            Some(p) => p,
        };
        if delay_resp.sequence_id != pending.sequence_id || !same_port_identity(
            &delay_resp.requesting_port_identity,
            &pending.requesting_port_identity,
        ) {
            return Ok(());
        }
        let receive_ns = delay_resp.receive_timestamp.as_nanos();
        proof {
            assert(timestamp_nanos(delay_resp.receive_timestamp) <= 0xffff_ffff_ffff_ffffu64 as int
                * 1_000_000_000 + 0xffff_ffffu32 as int) by (nonlinear_arith)
                requires
                    delay_resp.receive_timestamp.seconds <= 0xffff_ffff_ffff_ffffu64,
                    delay_resp.receive_timestamp.nanoseconds <= 0xffff_ffffu32,
            ;
        }
        let master_to_slave: i128 = pending.sync_arrival_ns as i128 - pending.sync_origin_ns as i128;
        let slave_to_master: i128 = receive_ns as i128 - pending.sent_ns as i128;
        let mean_path_delay = half_toward_zero_i128(master_to_slave + slave_to_master);
        let offset = half_toward_zero_i128(slave_to_master - master_to_slave);
        self.clock_offset_ns = offset as i64;
        self.stats.mean_path_delay_ns = mean_path_delay as i64;
        self.stats.offset_ns = offset as i64;
        self.stats.state = PtpState::Slave;
        *pending_delay_request = None;
        Ok(())
    }
}

/// What the PTP receive loop keeps between packets and timer ticks.
#[derive(Debug, Clone, Copy, PartialEq, Eq)]
pub struct PtpLoopState {
    pub local_port_identity: [u8; 10],
    pub last_sync_ts: Option<u64>,
    pub last_sync_seq_id: Option<u16>,
    pub delay_req_sequence_id: u16,
    pub pending_delay_request: Option<PendingDelayRequest>,
    pub local_announce_sequence_id: u16,
    pub local_sync_sequence_id: u16,
}

/// What the loop does after a message on the general port.
#[derive(Debug, Clone, Copy, PartialEq, Eq, Structural)]
pub enum GeneralAction {
    /// Nothing to send.
    Nothing,
    /// A Follow_Up completed a Sync: read the system time and send a Delay_Req.
    SendDelayRequest { sync_origin_ns: u64, sync_arrival_ns: u64 },
}

/// The timestamp of a nanosecond count.
pub open spec fn timestamp_of(n: u64) -> Timestamp {
    Timestamp { seconds: n / 1_000_000_000, nanoseconds: (n % 1_000_000_000) as u32 }
}

/// `b` is a PTP message of this client's domain that another port sent.
pub open spec fn foreign_message(b: Seq<u8>, domain: u8, port: Seq<u8>) -> bool {
    b.len() >= 34 && b[4] == domain && b.subrange(20, 30) != port
}

/// Timing messages from the sender of `b` are used under the selection in `stats`.
pub open spec fn selected_source(stats: PtpStats, b: Seq<u8>) -> bool {
    match stats.master_identity {
        None => true,
        Some(m) => m.value == identity_value(b.subrange(20, 28)),
    }
}

/// Stats after a Sync from the selected master.
pub open spec fn stats_after_sync(s: PtpStats) -> PtpStats {
    PtpStats {
        sync_count: (s.sync_count + 1) as u64,
        state: if s.state == PtpState::Listening {
            PtpState::Uncalibrated
        } else {
            s.state
        },
        ..s
    }
}

/// The offset a Follow_Up gives: precise origin time minus Sync arrival time, both as
/// 64-bit values.
pub open spec fn follow_up_offset(origin_ns: u64, arrival_ns: u64) -> int {
    (origin_ns as i64) - (arrival_ns as i64)
}

impl PtpClient {
    /// Fresh loop state for this client's port.
    pub fn loop_state(&self) -> (st: PtpLoopState)
        ensures
            st.local_port_identity@ == identity_bytes(self.stats_view().local_identity.value)
                + seq![0u8, 1u8],
            st.last_sync_ts.is_none(),
            st.last_sync_seq_id.is_none(),
            st.delay_req_sequence_id == 0,
            st.pending_delay_request.is_none(),
            st.local_announce_sequence_id == 0,
            st.local_sync_sequence_id == 0,
    {
        PtpLoopState {
            local_port_identity: source_port_identity(self.stats.local_identity),
            last_sync_ts: None,
            last_sync_seq_id: None,
            delay_req_sequence_id: 0,
            pending_delay_request: None,
            local_announce_sequence_id: 0,
            local_sync_sequence_id: 0,
        }
    }

    /// Announce timer: while acting as master, the Announce to send (interval 2^1 s).
    pub fn local_announce_tick(&self, st: &mut PtpLoopState) -> (r: Option<Vec<u8>>)
        ensures
            !self.local_master_active_spec() ==> r.is_none() && *final(st) == *old(st),
            self.local_master_active_spec() ==> {
                &&& r matches Some(b) && local_announce_bytes_ok(
                    b@,
                    LocalAnnounceMessage {
                        domain_number: self.config_view().domain,
                        source_port_identity: old(st).local_port_identity,
                        sequence_id: old(st).local_announce_sequence_id,
                        log_message_interval: 1,
                        priority1: self.config_view().priority1,
                        clock_quality: ClockQuality {
                            clock_class: 248,
                            clock_accuracy: 0xfe,
                            offset_scaled_log_variance: 0xffff,
                        },
                        priority2: self.config_view().priority2,
                        grandmaster_identity: self.stats_view().local_identity,
                    },
                )
                &&& *final(st) == (PtpLoopState {
                    local_announce_sequence_id: old(st).local_announce_sequence_id.wrapping_add(1),
                    ..*old(st)
                })
            },
    {
        if !self.local_master_is_active() {
            return None;
        }
        let announce = LocalAnnounceMessage {
            domain_number: self.config.domain,
            source_port_identity: st.local_port_identity,
            sequence_id: st.local_announce_sequence_id,
            log_message_interval: 1,
            priority1: self.config.priority1,
            clock_quality: local_clock_quality(),
            priority2: self.config.priority2,
            grandmaster_identity: self.stats.local_identity,
        };
        st.local_announce_sequence_id = st.local_announce_sequence_id.wrapping_add(1);
        Some(announce.to_bytes())
    }

    /// The client is acting as master.
    pub closed spec fn local_master_active_spec(&self) -> bool {
        self.stats.master_identity.is_none() && self.stats.state == PtpState::Master
    }

    /// Sync timer: while acting as master, the Sync and Follow_Up to send, both stamped
    /// with the clock time for system time `system_ns`.
    pub fn local_sync_tick(&self, st: &mut PtpLoopState, system_ns: u64) -> (r: Option<(Vec<u8>, Vec<u8>)>)
        requires
            clock_time_ok(system_ns, self.offset_view()),
        ensures
            !self.local_master_active_spec() ==> r.is_none() && *final(st) == *old(st),
            self.local_master_active_spec() ==> {
                let ts = timestamp_of(clock_time(system_ns, self.offset_view()));
                &&& r matches Some((sync, follow_up)) && timestamp_message_ok(
                    sync@,
                    SYNC_CODE,
                    self.config_view().domain,
                    TWO_STEP_FLAG,
                    old(st).local_port_identity@,
                    old(st).local_sync_sequence_id,
                    0,
                    0,
                    ts,
                ) && timestamp_message_ok(
                    follow_up@,
                    FOLLOW_UP_CODE,
                    self.config_view().domain,
                    0,
                    old(st).local_port_identity@,
                    old(st).local_sync_sequence_id,
                    2,
                    0,
                    ts,
                )
                &&& *final(st) == (PtpLoopState {
                    local_sync_sequence_id: old(st).local_sync_sequence_id.wrapping_add(1),
                    ..*old(st)
                })
            },
    {
        if !self.local_master_is_active() {
            return None;
        }
        let timestamp = Timestamp::from_nanos(self.get_time(system_ns));
        let sync = SyncMessage {
            domain_number: self.config.domain,
            source_port_identity: st.local_port_identity,
            sequence_id: st.local_sync_sequence_id,
            origin_timestamp: timestamp,
        };
        let follow_up = FollowUpMessage {
            domain_number: self.config.domain,
            source_port_identity: st.local_port_identity,
            sequence_id: st.local_sync_sequence_id,
            precise_origin_timestamp: timestamp,
        };
        st.local_sync_sequence_id = st.local_sync_sequence_id.wrapping_add(1);
        Some((sync.to_bytes(), follow_up.to_bytes()))
    }

    /// A message on the event port, received at system time `system_ns`. A Sync from the
    /// selected master is recorded; while acting as master a Delay_Req is answered with
    /// the Delay_Resp returned here.
    pub fn handle_event_message(&mut self, st: &mut PtpLoopState, bytes: &[u8], system_ns: u64) -> (r: Option<Vec<u8>>)
        requires
            old(self).stats_view().sync_count < u64::MAX,
            clock_time_ok(system_ns, old(self).offset_view()),
        ensures
            final(self).config_view() == old(self).config_view(),
            final(self).candidates_view() == old(self).candidates_view(),
            final(self).offset_view() == old(self).offset_view(),
            ({
                let b = bytes@;
                let kind = message_type_of(b[0]);
                if foreign_message(b, old(self).config_view().domain, old(st).local_port_identity@)
                    && kind == MessageType::Sync && selected_source(old(self).stats_view(), b) {
                    &&& r.is_none()
                    &&& final(self).stats_view() == stats_after_sync(old(self).stats_view())
                    &&& *final(st) == (PtpLoopState {
                        last_sync_ts: Some(system_ns),
                        last_sync_seq_id: Some(be_u16(b[30], b[31])),
                        ..*old(st)
                    })
                } else if foreign_message(b, old(self).config_view().domain, old(st).local_port_identity@)
                    && kind == MessageType::DelayReq && old(self).local_master_active_spec() {
                    &&& r matches Some(resp) && {
                        &&& outgoing_header_ok(
                            resp@,
                            DELAY_RESP_CODE,
                            54,
                            old(self).config_view().domain,
                            0,
                            old(st).local_port_identity@,
                            be_u16(b[30], b[31]),
                            3,
                            0,
                        )
                        &&& resp@.subrange(34, 44) == timestamp_bytes(
                            timestamp_of(clock_time(system_ns, old(self).offset_view())),
                        )
                        &&& resp@.subrange(44, 54) == b.subrange(20, 30)
                    }
                    &&& final(self).stats_view() == old(self).stats_view()
                    &&& *final(st) == *old(st)
                } else {
                    &&& r.is_none()
                    &&& final(self).stats_view() == old(self).stats_view()
                    &&& *final(st) == *old(st)
                }
            }),
    {
        let header = match PtpHeader::from_bytes(bytes) {
            Ok(h) => h,
            Err(_) => return None,
        };
        if header.domain_number != self.config.domain {
            return None;
        }
        if same_port_identity(&header.source_port_identity, &st.local_port_identity) {
            return None;
        }
        proof {
            assert(header.source_port_identity@.subrange(0, 8) =~= bytes@.subrange(20, 28));
        }
        match header.message_type {
            MessageType::Sync => {
                if !self.timing_source_is_selected(&header) {
                    return None;
                }
                st.last_sync_ts = Some(system_ns);
                st.last_sync_seq_id = Some(header.sequence_id);
                self.stats.sync_count = self.stats.sync_count + 1;
                if self.stats.state == PtpState::Listening {
                    self.stats.state = PtpState::Uncalibrated;
                }
                None
            },
            MessageType::DelayReq => {
                if !self.local_master_is_active() {
                    return None;
                }
                let receive_timestamp = Timestamp::from_nanos(self.get_time(system_ns));
                let delay_resp = DelayRespMessage {
                    domain_number: self.config.domain,
                    sequence_id: header.sequence_id,
                    receive_timestamp,
                    requesting_port_identity: header.source_port_identity,
                };
                Some(delay_resp.to_bytes(st.local_port_identity))
            },
            _ => None,
        }
    }

    /// A message on the general port, received at monotonic time `now_ns`. A Follow_Up
    /// that completes the last Sync sets the clock offset and asks for a Delay_Req; a
    /// Delay_Resp or Announce is applied, its errors ignored.
    pub fn handle_general_message(&mut self, st: &mut PtpLoopState, bytes: &[u8], now_ns: u64) -> (r: Result<GeneralAction, PtpError>)
        requires
            old(self).stats_view().announce_count < u64::MAX,
        ensures
            final(self).config_view() == old(self).config_view(),
            ({
                let b = bytes@;
                let kind = message_type_of(b[0]);
                let domain = old(self).config_view().domain;
                let foreign = foreign_message(b, domain, old(st).local_port_identity@);
                if foreign && kind == MessageType::FollowUp && selected_source(old(self).stats_view(), b)
                    && old(st).last_sync_ts.is_some() && old(st).last_sync_seq_id == Some(
                    be_u16(b[30], b[31]),
                ) && b.len() >= 44 {
                    let origin = timestamp_nanos(timestamp_fields(b.subrange(34, 44))) as u64;
                    let arrival = old(st).last_sync_ts.unwrap();
                    let offset = follow_up_offset(origin, arrival);
                    if i64::MIN <= offset <= i64::MAX {
                        &&& r == Ok::<GeneralAction, PtpError>(
                            GeneralAction::SendDelayRequest {
                                sync_origin_ns: origin,
                                sync_arrival_ns: arrival,
                            },
                        )
                        &&& final(self).offset_view() == offset
                        &&& final(self).stats_view() == (PtpStats {
                            offset_ns: offset as i64,
                            state: PtpState::Uncalibrated,
                            ..old(self).stats_view()
                        })
                        &&& final(self).candidates_view() == old(self).candidates_view()
                        &&& *final(st) == *old(st)
                    } else {
                        &&& r == Err::<GeneralAction, PtpError>(PtpError::OffsetOverflow)
                        &&& final(self).offset_view() == old(self).offset_view()
                        &&& final(self).stats_view() == old(self).stats_view()
                        &&& final(self).candidates_view() == old(self).candidates_view()
                        &&& *final(st) == *old(st)
                    }
                } else if foreign && kind == MessageType::DelayResp {
                    &&& r == Ok::<GeneralAction, PtpError>(GeneralAction::Nothing)
                    &&& final(self).candidates_view() == old(self).candidates_view()
                    &&& exists|e: Result<(), PtpError>|
                        delay_resp_applied(
                            domain,
                            old(self).stats_view(),
                            old(self).offset_view(),
                            old(st).pending_delay_request,
                            b,
                            e,
                            final(self).stats_view(),
                            final(self).offset_view(),
                            final(st).pending_delay_request,
                        )
                    &&& *final(st) == (PtpLoopState {
                        pending_delay_request: final(st).pending_delay_request,
                        ..*old(st)
                    })
                } else if foreign && kind == MessageType::Announce {
                    &&& r == Ok::<GeneralAction, PtpError>(GeneralAction::Nothing)
                    &&& final(self).offset_view() == old(self).offset_view()
                    &&& exists|e: Result<(), PtpError>|
                        announce_applied(
                            old(self).config_view(),
                            old(self).stats_view(),
                            old(self).candidates_view(),
                            b,
                            now_ns,
                            e,
                            final(self).stats_view(),
                            final(self).candidates_view(),
                        )
                    &&& *final(st) == *old(st)
                } else {
                    &&& r == Ok::<GeneralAction, PtpError>(GeneralAction::Nothing)
                    &&& final(self).offset_view() == old(self).offset_view()
                    &&& final(self).stats_view() == old(self).stats_view()
                    &&& final(self).candidates_view() == old(self).candidates_view()
                    &&& *final(st) == *old(st)
                }
            }),
    {
        let header = match PtpHeader::from_bytes(bytes) {
            Ok(h) => h,
            Err(_) => return Ok(GeneralAction::Nothing),
        };
        if header.domain_number != self.config.domain {
            return Ok(GeneralAction::Nothing);
        }
        if same_port_identity(&header.source_port_identity, &st.local_port_identity) {
            return Ok(GeneralAction::Nothing);
        }
        proof {
            assert(header.source_port_identity@.subrange(0, 8) =~= bytes@.subrange(20, 28));
        }
        match header.message_type {
            MessageType::FollowUp => {
                if !self.timing_source_is_selected(&header) {
                    return Ok(GeneralAction::Nothing);
                }
                let (sync_seq, arrival_ns) = match (st.last_sync_seq_id, st.last_sync_ts) {
                    (Some(q), Some(a)) => (q, a),
                    _ => return Ok(GeneralAction::Nothing),
                };
                if header.sequence_id != sync_seq || bytes.len() < 44 {
                    return Ok(GeneralAction::Nothing);
                }
                let origin = match Timestamp::from_bytes(slice_from(bytes, 34)) {
                    Ok(t) => t,
                    Err(_) => return Ok(GeneralAction::Nothing),
                };
                proof {
                    assert(bytes@.subrange(34, bytes@.len() as int).subrange(0, 10) =~= bytes@.subrange(34, 44));
                    assert(timestamp_fields(bytes@.subrange(34, bytes@.len() as int)) == timestamp_fields(bytes@.subrange(34, 44)));
                }
                let origin_ns = origin.as_nanos() as u64;
                let offset = match (origin_ns as i64).checked_sub(arrival_ns as i64) {
                    Some(o) => o,
                    None => return Err(PtpError::OffsetOverflow),
                };
                self.clock_offset_ns = offset;
                self.stats.offset_ns = offset;
                self.stats.state = PtpState::Uncalibrated;
                Ok(GeneralAction::SendDelayRequest { sync_origin_ns: origin_ns, sync_arrival_ns: arrival_ns })
            },
            MessageType::DelayResp => {
                let _ = self.apply_delay_resp_bytes(&mut st.pending_delay_request, bytes);
                Ok(GeneralAction::Nothing)
            },
            MessageType::Announce => {
                let _ = self.apply_announce_bytes(bytes, now_ns);
                Ok(GeneralAction::Nothing)
            },
            _ => Ok(GeneralAction::Nothing),
        }
    }

    /// Send the Delay_Req that a Follow_Up asked for, at system time `sent_ns`: record it
    /// as pending and return its bytes.
    pub fn begin_delay_request(
        &self,
        st: &mut PtpLoopState,
        sync_origin_ns: u64,
        sync_arrival_ns: u64,
        sent_ns: u64,
    ) -> (b: Vec<u8>)
        ensures
            timestamp_message_ok(
                b@,
                DELAY_REQ_CODE,
                self.config_view().domain,
                0,
                old(st).local_port_identity@,
                old(st).delay_req_sequence_id,
                1,
                0x7f,
                timestamp_of(sent_ns),
            ),
            *final(st) == (PtpLoopState {
                pending_delay_request: Some(
                    PendingDelayRequest {
                        sequence_id: old(st).delay_req_sequence_id,
                        sent_ns,
                        sync_origin_ns,
                        sync_arrival_ns,
                        requesting_port_identity: old(st).local_port_identity,
                    },
                ),
                delay_req_sequence_id: old(st).delay_req_sequence_id.wrapping_add(1),
                ..*old(st)
            }),
    {
        let delay_req = DelayReqMessage {
            domain_number: self.config.domain,
            source_port_identity: st.local_port_identity,
            sequence_id: st.delay_req_sequence_id,
            origin_timestamp: Timestamp::from_nanos(sent_ns),
        };
        st.pending_delay_request = Some(
            PendingDelayRequest {
                sequence_id: st.delay_req_sequence_id,
                sent_ns,
                sync_origin_ns,
                sync_arrival_ns,
                requesting_port_identity: st.local_port_identity,
            },
        );
        st.delay_req_sequence_id = st.delay_req_sequence_id.wrapping_add(1);
        delay_req.to_bytes()
    }
}

/// The bytes of `bytes` from `start` on.
fn slice_from(bytes: &[u8], start: usize) -> (s: &[u8])
    requires
        start <= bytes@.len(),
    ensures
        s@ == bytes@.subrange(start as int, bytes@.len() as int),
{
    vstd::slice::slice_subrange(bytes, start, bytes.len())
}

/// At most one candidate of a set is better than all the others.
pub proof fn lemma_best_candidate_unique(s: Set<MasterCandidate>, a: MasterCandidate, b: MasterCandidate)
    requires
        is_best_candidate(s, a),
        is_best_candidate(s, b),
    ensures
        a == b,
{
    if a != b {
        assert(dataset_less(a, b));
        assert(dataset_less(b, a));
    }
}

/// Master selection is a function of the candidate set.
pub proof fn lemma_selection_is_determined(
    s: Set<MasterCandidate>,
    r1: Option<ClockIdentity>,
    r2: Option<ClockIdentity>,
)
    requires
        selects(s, r1),
        selects(s, r2),
    ensures
        r1 == r2,
{
    match (r1, r2) {
        (Some(x), Some(y)) => {
            let a = choose|c: MasterCandidate| is_best_candidate(s, c) && c.grandmaster_identity == x;
            let b = choose|c: MasterCandidate| is_best_candidate(s, c) && c.grandmaster_identity == y;
            lemma_best_candidate_unique(s, a, b);
        },
        (Some(x), None) => {
            let a = choose|c: MasterCandidate| is_best_candidate(s, c) && c.grandmaster_identity == x;
            assert(s.contains(a));
        },
        (None, Some(y)) => {
            let b = choose|c: MasterCandidate| is_best_candidate(s, c) && c.grandmaster_identity == y;
            assert(s.contains(b));
        },
        (None, None) => {},
    }
}

/// An Announce whose data set beats every other grandmaster still heard from makes its
/// grandmaster the selected one.
pub proof fn lemma_better_announce_is_selected(
    s: Set<MasterCandidate>,
    a: AnnounceMessage,
    now_ns: u64,
    r: Option<ClockIdentity>,
)
    requires
        forall|d: MasterCandidate|
            unexpired(s, now_ns).contains(d) && d.grandmaster_identity != a.grandmaster_identity
                ==> dataset_less(candidate_of(a, now_ns), d),
        selects(with_candidate(unexpired(s, now_ns), candidate_of(a, now_ns)), r),
    ensures
        r == Some(a.grandmaster_identity),
{
    let c = candidate_of(a, now_ns);
    let t = with_candidate(unexpired(s, now_ns), c);
    assert(t.contains(c));
    assert(is_best_candidate(t, c));
    lemma_selection_is_determined(t, r, Some(a.grandmaster_identity));
}

/// An Announce from a grandmaster that another one still heard from beats is recorded
/// but not selected.
pub proof fn lemma_worse_announce_is_not_selected(
    s: Set<MasterCandidate>,
    a: AnnounceMessage,
    now_ns: u64,
    d: MasterCandidate,
    r: Option<ClockIdentity>,
)
    requires
        unexpired(s, now_ns).contains(d),
        d.grandmaster_identity != a.grandmaster_identity,
        dataset_less(d, candidate_of(a, now_ns)),
        selects(with_candidate(unexpired(s, now_ns), candidate_of(a, now_ns)), r),
    ensures
        with_candidate(unexpired(s, now_ns), candidate_of(a, now_ns)).contains(candidate_of(a, now_ns)),
        r != Some(a.grandmaster_identity),
{
    let c = candidate_of(a, now_ns);
    let t = with_candidate(unexpired(s, now_ns), c);
    assert(t.contains(d));
    if r == Some(a.grandmaster_identity) {
        let b = choose|b: MasterCandidate| is_best_candidate(t, b) && b.grandmaster_identity == a.grandmaster_identity;
        assert(b == c);
        assert(dataset_less(c, d));
    }
}

/// Once every grandmaster has gone quiet, a refresh selects none and the client becomes
/// master itself.
pub proof fn lemma_all_expired_means_local_master(
    s: Set<MasterCandidate>,
    now_ns: u64,
    stats: PtpStats,
    r: Option<ClockIdentity>,
)
    requires
        forall|c: MasterCandidate| s.contains(c) ==> candidate_expired(c, now_ns),
        selects(unexpired(s, now_ns), r),
    ensures
        r.is_none(),
        stats_after_refresh(stats, r).state == PtpState::Master,
        stats_after_refresh(stats, r).master_identity.is_none(),
{
    if r.is_some() {
        let b = choose|b: MasterCandidate| is_best_candidate(unexpired(s, now_ns), b) && b.grandmaster_identity == r.unwrap();
        assert(unexpired(s, now_ns).contains(b));
    }
}

/// An accepted Announce always leaves a grandmaster selected, so it ends local
/// mastership.
pub proof fn lemma_accepted_announce_ends_local_master(
    s: Set<MasterCandidate>,
    a: AnnounceMessage,
    now_ns: u64,
    stats: PtpStats,
    r: Option<ClockIdentity>,
)
    requires
        selects(with_candidate(unexpired(s, now_ns), candidate_of(a, now_ns)), r),
    ensures
        r.is_some(),
        !(stats_after_announce(stats, r).master_identity.is_none()
            && stats_after_announce(stats, r).state == PtpState::Master),
{
    let c = candidate_of(a, now_ns);
    assert(with_candidate(unexpired(s, now_ns), c).contains(c));
}

/// With a symmetric path of delay `d` and a slave clock `theta` ahead of the master
/// (so `t2 - t1 == d + theta` and `t4 - t3 == d - theta`), the measurement gives back the
/// delay and the correction `-theta`.
pub proof fn lemma_delay_measurement_recovers_path(p: PendingDelayRequest, receive_ns: int, d: int, theta: int)
    requires
        p.sync_arrival_ns - p.sync_origin_ns == d + theta,
        receive_ns - p.sent_ns == d - theta,
    ensures
        delay_measurement(p, receive_ns) == (d, -theta),
{
}

} // verus!
