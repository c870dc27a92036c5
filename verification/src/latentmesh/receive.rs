//! Receive-side session state: which sources a receiver tracks, how it
//! bounds and rate-limits their untrusted frames before authentication, and
//! the per-source replay high-water marks that admission advances.

use std::collections::BTreeMap;
use vstd::prelude::*;
use vstd::std_specs::btree::spec_keys_iter;
use vstd::std_specs::iter::IteratorSpec;

use super::protocol::{
    stream_id_of, stream_id_for_source, wire_sequence_of, AirError, ProtocolError, ProtocolResult,
};

verus! {

/// `a - b`, clamped at zero.
pub open spec fn sat_sub(a: u64, b: u64) -> u64 {
    if a >= b {
        (a - b) as u64
    } else {
        0
    }
}

/// Numeric limits of a receive session.
#[derive(Clone, Copy, Debug, PartialEq, Eq, Structural)]
pub struct RxLimits {
    /// Sources tracked at once, authenticated or not.
    pub max_peers: usize,
    /// Frames accepted per source and rate window before authentication.
    pub max_frames_per_window: u32,
    pub frame_window_ms: u64,
    /// A partial message older than this since its first fragment is dropped.
    pub reassembly_timeout_ms: u64,
    pub max_snapshot_age_ms: u64,
    pub max_future_skew_ms: u64,
    pub advisory_ttl_ms: u64,
    /// Partial messages in flight per source.
    pub max_contexts: usize,
}

/// Whether receive limits are usable: peers in 1..=256, frames per window in
/// 1..=65536, and nonzero windows, timeouts, ages and TTL.
pub open spec fn rx_limits_valid(l: RxLimits) -> bool {
    &&& 1 <= l.max_peers <= 256
    &&& 1 <= l.max_frames_per_window <= 65_536
    &&& l.frame_window_ms != 0
    &&& l.reassembly_timeout_ms != 0
    &&& l.max_snapshot_age_ms != 0
    &&& l.advisory_ttl_ms != 0
}

/// Check the numeric part of a receive configuration.
pub fn validate_rx_limits(limits: &RxLimits) -> (result: ProtocolResult<()>)
    ensures
        result is Ok <==> rx_limits_valid(*limits),
        result is Err ==> result == Err::<(), ProtocolError>(ProtocolError::Air(AirError::InvalidLength)),
{
    if limits.max_peers == 0 || limits.max_peers > 256 || limits.max_frames_per_window == 0
        || limits.max_frames_per_window > 65_536 || limits.frame_window_ms == 0
        || limits.reassembly_timeout_ms == 0 || limits.max_snapshot_age_ms == 0
        || limits.advisory_ttl_ms == 0 {
        return Err(ProtocolError::Air(AirError::InvalidLength));
    }
    Ok(())
}

/// Replay and freshness state of one authenticated source in its current
/// epoch. Advisory contents are held beside it by the session.
#[derive(Clone, Copy, Debug, PartialEq, Eq, Structural)]
pub struct PeerRuntime {
    pub epoch: u32,
    pub last_logical_sequence: u64,
    pub last_timestamp_ms: u64,
    pub accepted_at_ms: u64,
    /// Whether an advisory snapshot (and the state it was derived from) is held.
    pub has_snapshot: bool,
    /// Whether the next admitted envelope must be a signed full keyframe.
    pub requires_keyframe: bool,
}

/// Pre-authentication rate window of one source.
#[derive(Clone, Copy, Debug, PartialEq, Eq, Structural)]
pub struct RateWindow {
    pub last_received_ms: Option<u64>,
    pub window_started_ms: u64,
    pub frames_in_window: u32,
}

/// Identity of a partial message: stream id and wire sequence.
pub type ContextKey = (u16, u16);

/// Pre-authentication ingress state of one source: its rate window and the
/// first-fragment time of each partial message in flight.
pub struct Ingress {
    pub rate: RateWindow,
    pub contexts: BTreeMap<ContextKey, u64>,
}

/// Everything a receiver tracks about one source.
pub struct SourceEntry {
    pub peer: Option<PeerRuntime>,
    pub ingress: Option<Ingress>,
}

/// Abstract ingress state.
pub struct IngressView {
    pub rate: RateWindow,
    pub contexts: Map<ContextKey, u64>,
}

/// Abstract state of one source.
pub struct SourceView {
    pub peer: Option<PeerRuntime>,
    pub ingress: Option<IngressView>,
}

impl View for Ingress {
    type V = IngressView;

    open spec fn view(&self) -> IngressView {
        IngressView { rate: self.rate, contexts: self.contexts@ }
    }
}

impl View for SourceEntry {
    type V = SourceView;

    open spec fn view(&self) -> SourceView {
        SourceView {
            peer: self.peer,
            ingress: match self.ingress {
                Some(i) => Some(i@),
                None => None,
            },
        }
    }
}

/// Frame and envelope counters of a receive session.
#[derive(Clone, Copy, Debug, Default, PartialEq, Eq, Structural)]
pub struct ProtocolMetrics {
    pub frames_seen: u64,
    pub completed_envelopes: u64,
    pub accepted_snapshots: u64,
    pub crc_rejections: u64,
    pub authentication_rejections: u64,
    pub replay_rejections: u64,
    pub semantic_rejections: u64,
}

/// Receive session state with bounded sources and fragment contexts.
pub struct RxState {
    limits: RxLimits,
    sources: BTreeMap<u32, SourceEntry>,
    metrics: ProtocolMetrics,
}

impl RxState {
    pub closed spec fn limits_spec(self) -> RxLimits {
        self.limits
    }

    pub closed spec fn metrics_spec(self) -> ProtocolMetrics {
        self.metrics
    }

    /// The sources tracked, authenticated or not.
    pub closed spec fn source_ids(self) -> Set<u32> {
        self.sources@.dom()
    }

    /// What is tracked about source `id`, if anything.
    pub closed spec fn source(self, id: u32) -> Option<SourceView> {
        if self.sources@.contains_key(id) {
            Some(self.sources@[id]@)
        } else {
            None
        }
    }

    /// Replay state of source `id`, if it has been admitted or restored.
    pub open spec fn peer(self, id: u32) -> Option<PeerRuntime> {
        match self.source(id) {
            Some(s) => s.peer,
            None => None,
        }
    }

    /// Number of tracked sources.
    pub open spec fn active_sources(self) -> nat {
        self.source_ids().len()
    }

    /// Invariant: valid limits; at most `max_peers` sources, each with replay
    /// or ingress state; each ingress within its frame and context bounds.
    pub closed spec fn wf(self) -> bool {
        &&& rx_limits_valid(self.limits)
        &&& self.sources@.dom().finite()
        &&& self.sources@.len() <= self.limits.max_peers
        &&& forall|id: u32| #[trigger]
            self.sources@.contains_key(id) ==> source_wf(self.sources@[id]@, self.limits)
    }

    /// Start with no sources.
    pub fn new(limits: RxLimits) -> (result: ProtocolResult<Self>)
        ensures
            result is Ok <==> rx_limits_valid(limits),
            result is Err ==> result == Err::<RxState, ProtocolError>(
                ProtocolError::Air(AirError::InvalidLength),
            ),
            result matches Ok(s) ==> s.wf() && s.limits_spec() == limits && s.source_ids()
                == Set::<u32>::empty() && s.metrics_spec() == (ProtocolMetrics {
                frames_seen: 0,
                completed_envelopes: 0,
                accepted_snapshots: 0,
                crc_rejections: 0,
                authentication_rejections: 0,
                replay_rejections: 0,
                semantic_rejections: 0,
            }),
    {
        validate_rx_limits(&limits)?;
        Ok(
            RxState {
                limits,
                sources: BTreeMap::new(),
                metrics: ProtocolMetrics {
                    frames_seen: 0,
                    completed_envelopes: 0,
                    accepted_snapshots: 0,
                    crc_rejections: 0,
                    authentication_rejections: 0,
                    replay_rejections: 0,
                    semantic_rejections: 0,
                },
            },
        )
    }

    pub fn limits(&self) -> (limits: RxLimits)
        ensures
            limits == self.limits_spec(),
    {
        self.limits
    }

    pub fn metrics(&self) -> (metrics: ProtocolMetrics)
        ensures
            metrics == self.metrics_spec(),
    {
        self.metrics
    }

    /// Number of tracked sources.
    pub fn active_source_count(&self) -> (count: usize)
        requires
            self.wf(),
        ensures
            count == self.active_sources(),
    {
        self.sources.len()
    }

    /// Replay state of source `source_id`.
    pub fn peer_runtime(&self, source_id: u32) -> (peer: Option<PeerRuntime>)
        ensures
            peer == self.peer(source_id),
    {
        match self.sources.get(&source_id) {
            Some(entry) => entry.peer,
            None => None,
        }
    }
}

/// Per-source bounds.
pub open spec fn source_wf(s: SourceView, l: RxLimits) -> bool {
    &&& (s.peer is Some || s.ingress is Some)
    &&& s.ingress matches Some(i) ==> {
        &&& i.rate.frames_in_window <= l.max_frames_per_window
        &&& i.contexts.dom().finite()
        &&& i.contexts.len() <= l.max_contexts
    }
}

proof fn lemma_push_keeps_contains<A>(s: Seq<A>, x: A, y: A)
    requires
        s.contains(y),
    ensures
        s.push(x).contains(y),
{
    let i = choose|i: int| 0 <= i < s.len() && s[i] == y;
    assert(s.push(x)[i] == y);
}

proof fn lemma_push_to_set<A>(s: Seq<A>, x: A)
    ensures
        s.push(x).to_set() == s.to_set().insert(x),
{
    assert forall|y: A| #[trigger] s.push(x).to_set().contains(y) <==> s.to_set().insert(
        x,
    ).contains(y) by {
        if s.contains(y) {
            lemma_push_keeps_contains(s, x, y);
        }
        if y == x {
            assert(s.push(x)[s.len() as int] == x);
        }
        if s.push(x).contains(y) {
            let i = choose|i: int| 0 <= i < s.len() + 1 && s.push(x)[i] == y;
            if i < s.len() {
                assert(s[i] == y);
            }
        }
    }
    assert(s.push(x).to_set() =~= s.to_set().insert(x));
}

/// Partial messages whose first fragment is older than `timeout` at `now`.
pub open spec fn expired_contexts(contexts: Map<ContextKey, u64>, now: u64, timeout: u64) -> Set<
    ContextKey,
> {
    contexts.dom().filter(|k: ContextKey| sat_sub(now, contexts[k]) > timeout)
}

/// Remove the partial messages that have outlived `timeout`, returning them.
fn expire_contexts(contexts: &mut BTreeMap<ContextKey, u64>, now: u64, timeout: u64) -> (expired:
    Vec<ContextKey>)
    ensures
        expired@.to_set() == expired_contexts(old(contexts)@, now, timeout),
        final(contexts)@ == old(contexts)@.remove_keys(expired_contexts(old(contexts)@, now, timeout)),
{
    broadcast use vstd::seq_lib::group_seq_properties;

    let ghost original = contexts@;
    let mut expired: Vec<ContextKey> = Vec::new();
    for key in iter: contexts.keys()
        invariant
            iter.seq().unref().to_set() == original.dom(),
            contexts@ == original,
            forall|j: int| 0 <= j < expired@.len() ==> original.contains_key(#[trigger] expired@[j]) && sat_sub(now, original[expired@[j]]) > timeout,
            forall|j: int| 0 <= j < iter.index() ==> sat_sub(now, original[*iter.seq()[j]]) > timeout ==> expired@.contains(*iter.seq()[j]),
    {
        assert(iter.seq()[iter.index() as int] == key);
        assert(iter.seq().unref().contains(*key));
        assert(original.contains_key(*key));
        let started = match contexts.get(key) {
            Some(started) => *started,
            None => 0,
        };
        assert(started == original[*key]);
        let ghost before = expired@;
        if now.saturating_sub(started) > timeout {
            expired.push(*key);
        }
        proof {
            assert forall|j: int|
                0 <= j < iter.index() + 1 && sat_sub(now, original[*iter.seq()[j]])
                    > timeout implies expired@.contains(*iter.seq()[j]) by {
                if j < iter.index() {
                    if expired@ != before {
                        lemma_push_keeps_contains(before, *key, *iter.seq()[j]);
                    }
                } else {
                    assert(expired@[expired@.len() - 1] == *key);
                }
            }
            assert forall|j: int| 0 <= j < expired@.len() implies original.contains_key(
                #[trigger] expired@[j],
            ) && sat_sub(now, original[expired@[j]]) > timeout by {
                if j < before.len() {
                    assert(expired@[j] == before[j]);
                }
            }
        }
    }
    let ghost expired_set = expired_contexts(original, now, timeout);
    assert(expired@.to_set() =~= expired_set);
    let mut i: usize = 0;
    while i < expired.len()
        invariant
            0 <= i <= expired@.len(),
            contexts@ == original.remove_keys(expired@.take(i as int).to_set()),
        decreases expired@.len() - i,
    {
        let key = expired[i];
        contexts.remove(&key);
        assert(expired@.take(i + 1) =~= expired@.take(i as int).push(key));
        proof {
            lemma_push_to_set(expired@.take(i as int), key);
        }
        assert(contexts@ =~= original.remove_keys(expired@.take(i + 1).to_set()));
        i = i + 1;
    }
    assert(expired@.take(expired@.len() as int) =~= expired@);
    expired
}

/// The ingress of a source seen for the first time at `now`.
pub open spec fn fresh_ingress(now: u64) -> IngressView {
    IngressView {
        rate: RateWindow { last_received_ms: None, window_started_ms: now, frames_in_window: 0 },
        contexts: Map::empty(),
    }
}

/// The pre-authentication gate for one frame that claims to come from source
/// `expected` (a locally configured transport-peer mapping), received at
/// `now` with frame stream id `stream_id`. Returns what is then tracked about
/// the source, the partial messages dropped for age, and the verdict.
///
/// In order: the frame's profile and flags must be the session's, its stream
/// id must be the source's, and the source must have a trusted key; a source
/// not yet tracked is refused when `max_peers` sources are; the receive clock
/// may not run backwards; partial messages past the reassembly timeout are
/// dropped; the rate window restarts once it has elapsed; and a source may
/// send at most `max_frames_per_window` frames per window.
pub open spec fn frame_gate(
    l: RxLimits,
    active: nat,
    existing: Option<SourceView>,
    expected: u32,
    now: u64,
    stream_id: u16,
    profile_matches: bool,
    flags_match: bool,
    has_trusted_key: bool,
) -> (Option<SourceView>, Set<ContextKey>, ProtocolResult<()>) {
    if !profile_matches {
        (existing, Set::empty(), Err(ProtocolError::MetadataMismatch("profile")))
    } else if !flags_match {
        (existing, Set::empty(), Err(ProtocolError::MetadataMismatch("flags")))
    } else if stream_id != stream_id_of(expected) {
        (existing, Set::empty(), Err(ProtocolError::MetadataMismatch("source_hint_stream_id")))
    } else if !has_trusted_key {
        (existing, Set::empty(), Err(ProtocolError::UntrustedPeer(expected)))
    } else {
        let peer = match existing {
            Some(s) => s.peer,
            None => None,
        };
        let current = match existing {
            Some(s) => s.ingress,
            None => None,
        };
        if current is None && peer is None && active == l.max_peers {
            (existing, Set::empty(), Err(ProtocolError::PeerCapacity(l.max_peers)))
        } else {
            let ingress = match current {
                Some(i) => i,
                None => fresh_ingress(now),
            };
            if ingress.rate.last_received_ms matches Some(last) && now < last {
                (
                    Some(SourceView { peer, ingress: Some(ingress) }),
                    Set::empty(),
                    Err(ProtocolError::ReceiveClockRegression { source_id: expected }),
                )
            } else {
                let expired = expired_contexts(ingress.contexts, now, l.reassembly_timeout_ms);
                let contexts = ingress.contexts.remove_keys(expired);
                let rate = if sat_sub(now, ingress.rate.window_started_ms) >= l.frame_window_ms {
                    RateWindow { window_started_ms: now, frames_in_window: 0, ..ingress.rate }
                } else {
                    ingress.rate
                };
                if rate.frames_in_window >= l.max_frames_per_window {
                    (
                        Some(
                            SourceView { peer, ingress: Some(IngressView { rate, contexts }) },
                        ),
                        expired,
                        Err(ProtocolError::RateLimited { source_id: expected }),
                    )
                } else {
                    let counted = RateWindow {
                        last_received_ms: Some(now),
                        window_started_ms: rate.window_started_ms,
                        frames_in_window: (rate.frames_in_window + 1) as u32,
                    };
                    (
                        Some(
                            SourceView {
                                peer,
                                ingress: Some(IngressView { rate: counted, contexts }),
                            },
                        ),
                        expired,
                        Ok(()),
                    )
                }
            }
        }
    }
}

impl RxState {
    /// Count one frame as seen.
    pub fn record_frame_seen(&mut self)
        ensures
            same_replay_state(*old(self), *final(self)),
            final(self).wf() == old(self).wf(),
            final(self).limits_spec() == old(self).limits_spec(),
            forall|id: u32| #[trigger] final(self).source(id) == old(self).source(id),
            final(self).source_ids() == old(self).source_ids(),
            final(self).metrics_spec() == (ProtocolMetrics {
                frames_seen: old(self).metrics_spec().frames_seen.saturating_add(1),
                ..old(self).metrics_spec()
            }),
    {
        self.metrics.frames_seen = self.metrics.frames_seen.saturating_add(1);
    }

    /// Run the pre-authentication gate for one frame (see [`frame_gate`]).
    /// The caller drops the returned partial messages from its reassembler,
    /// whatever the verdict.
    pub fn open_frame(
        &mut self,
        expected_source_id: u32,
        received_at_ms: u64,
        stream_id: u16,
        profile_matches: bool,
        flags_match: bool,
        has_trusted_key: bool,
    ) -> (outcome: (Vec<ContextKey>, ProtocolResult<()>))
        requires
            old(self).wf(),
        ensures
            same_replay_state(*old(self), *final(self)),
            final(self).wf(),
            final(self).limits_spec() == old(self).limits_spec(),
            final(self).metrics_spec() == old(self).metrics_spec(),
            ({
                let (entry, expired, verdict) = frame_gate(
                    old(self).limits_spec(),
                    old(self).active_sources(),
                    old(self).source(expected_source_id),
                    expected_source_id,
                    received_at_ms,
                    stream_id,
                    profile_matches,
                    flags_match,
                    has_trusted_key,
                );
                &&& final(self).source(expected_source_id) == entry
                &&& outcome.0@.to_set() == expired
                &&& outcome.1 == verdict
            }),
            forall|id: u32|
                id != expected_source_id ==> #[trigger] final(self).source(id) == old(self).source(id),
    {
        if !profile_matches {
            return (Vec::new(), Err(ProtocolError::MetadataMismatch("profile")));
        }
        if !flags_match {
            return (Vec::new(), Err(ProtocolError::MetadataMismatch("flags")));
        }
        if stream_id != stream_id_for_source(expected_source_id) {
            return (Vec::new(), Err(ProtocolError::MetadataMismatch("source_hint_stream_id")));
        }
        if !has_trusted_key {
            return (Vec::new(), Err(ProtocolError::UntrustedPeer(expected_source_id)));
        }
        let (has_peer, has_ingress) = match self.sources.get(&expected_source_id) {
            Some(entry) => (entry.peer.is_some(), entry.ingress.is_some()),
            None => (false, false),
        };
        if !has_ingress && !has_peer && self.sources.len() == self.limits.max_peers {
            return (Vec::new(), Err(ProtocolError::PeerCapacity(self.limits.max_peers)));
        }
        let ghost old_sources = self.sources@;
        let taken = self.sources.remove(&expected_source_id);
        let (peer, current) = match taken {
            Some(entry) => (entry.peer, entry.ingress),
            None => (None, None),
        };
        let mut ingress = match current {
            Some(ingress) => ingress,
            None => Ingress {
                rate: RateWindow {
                    last_received_ms: None,
                    window_started_ms: received_at_ms,
                    frames_in_window: 0,
                },
                contexts: BTreeMap::new(),
            },
        };
        let ghost opened = ingress@;
        proof {
            assert(old_sources.contains_key(expected_source_id) ==> source_wf(
                old_sources[expected_source_id]@,
                self.limits,
            ));
        }
        if let Some(last) = ingress.rate.last_received_ms {
            if received_at_ms < last {
                self.sources.insert(
                    expected_source_id,
                    SourceEntry { peer, ingress: Some(ingress) },
                );
                proof {
                    self.lemma_reinsert(old_sources, expected_source_id);
                }
                return (
                    Vec::new(),
                    Err(ProtocolError::ReceiveClockRegression { source_id: expected_source_id }),
                );
            }
        }
        let expired = expire_contexts(
            &mut ingress.contexts,
            received_at_ms,
            self.limits.reassembly_timeout_ms,
        );
        proof {
            opened.contexts.lemma_remove_keys_len(
                expired_contexts(opened.contexts, received_at_ms, self.limits.reassembly_timeout_ms),
            );
        }
        if received_at_ms.saturating_sub(ingress.rate.window_started_ms)
            >= self.limits.frame_window_ms {
            ingress.rate.window_started_ms = received_at_ms;
            ingress.rate.frames_in_window = 0;
        }
        if ingress.rate.frames_in_window >= self.limits.max_frames_per_window {
            self.sources.insert(expected_source_id, SourceEntry { peer, ingress: Some(ingress) });
            proof {
                self.lemma_reinsert(old_sources, expected_source_id);
            }
            return (expired, Err(ProtocolError::RateLimited { source_id: expected_source_id }));
        }
        ingress.rate.frames_in_window = ingress.rate.frames_in_window + 1;
        ingress.rate.last_received_ms = Some(received_at_ms);
        self.sources.insert(expected_source_id, SourceEntry { peer, ingress: Some(ingress) });
        proof {
            self.lemma_reinsert(old_sources, expected_source_id);
        }
        (expired, Ok(()))
    }

    /// After re-inserting source `id` into a map it was removed from (or was
    /// admitted to below capacity), the source count stays within bounds and
    /// every other source is unchanged.
    proof fn lemma_reinsert(self, before: Map<u32, SourceEntry>, id: u32)
        requires
            before.dom().finite(),
            before.len() <= self.limits.max_peers,
            before.contains_key(id) || before.len() < self.limits.max_peers,
            self.sources@ == before.remove(id).insert(id, self.sources@[id]),
        ensures
            self.sources@.dom().finite(),
            self.sources@.len() <= self.limits.max_peers,
            forall|other: u32| other != id ==> (#[trigger] self.sources@.contains_key(other) <==> before.contains_key(other)),
            forall|other: u32| other != id && before.contains_key(other) ==> #[trigger] self.sources@[other] == before[other],
    {
        if before.contains_key(id) {
            assert(before.remove(id).insert(id, self.sources@[id]).dom() =~= before.dom());
        } else {
            assert(before.remove(id) =~= before);
        }
    }
}

/// Signed fields of a reassembled envelope that admission reads.
#[derive(Clone, Copy, Debug, PartialEq, Eq, Structural)]
pub struct EnvelopeHeader {
    pub source_id: u32,
    pub epoch: u32,
    pub message_id: u32,
    pub logical_sequence: u64,
    pub priority: u8,
}

/// Unsigned outer frame metadata of a reassembled message.
#[derive(Clone, Copy, Debug, PartialEq, Eq, Structural)]
pub struct MessageHeader {
    pub stream_id: u16,
    pub sequence: u16,
    pub priority: u8,
}

/// What a replay window says of a wire sequence number.
#[derive(Clone, Copy, Debug, PartialEq, Eq, Structural)]
pub enum ReplayVerdict {
    Accept,
    Duplicate,
    TooOld,
}

/// How a delta is to be applied and which replay window classifies it.
#[derive(Clone, Copy, Debug, PartialEq, Eq, Structural)]
pub struct EpochEntry {
    /// Apply the delta to the empty state (a keyframe) rather than to the
    /// state last admitted from this source.
    pub empty_base: bool,
    /// Classify with a new replay window (first message of an epoch) rather
    /// than the source's current one.
    pub fresh_window: bool,
}

/// Metadata of an admitted advisory.
#[derive(Clone, Copy, Debug, PartialEq, Eq)]
pub struct ReceiveMetadata {
    pub source_id: u32,
    pub epoch: u32,
    pub message_id: u32,
    pub logical_sequence: u64,
    pub wire_sequence: u16,
    pub stream_id: u16,
    pub priority: u8,
    pub state_hash: [u8; 16],
    /// Complete signed semantic envelope size before Air frame overhead.
    pub encoded_message_bytes: usize,
    /// Number of Air fragments that carried this logical message.
    pub fragment_count: u8,
    /// True when the signed delta is independent of prior receiver state.
    pub keyframe: bool,
    /// Always zero. Nonzero learned residuals are rejected before admission.
    pub learned_residuals: usize,
}

/// The outer metadata of a reassembled message must agree with its signed
/// envelope: the source with the transport peer hint, then class, priority,
/// state tag, stream id, the low 16 bits of the logical sequence, and the
/// message id, which must be the logical sequence as 32 bits.
pub open spec fn binding_outcome(
    expected: u32,
    envelope: EnvelopeHeader,
    message: MessageHeader,
    class_matches: bool,
    state_tag_matches: bool,
) -> ProtocolResult<()> {
    if envelope.source_id != expected {
        Err(ProtocolError::SourceHintMismatch { expected, actual: envelope.source_id })
    } else if !class_matches {
        Err(ProtocolError::MetadataMismatch("class"))
    } else if envelope.priority != message.priority {
        Err(ProtocolError::MetadataMismatch("priority"))
    } else if !state_tag_matches {
        Err(ProtocolError::MetadataMismatch("state_tag"))
    } else if message.stream_id != stream_id_of(envelope.source_id) {
        Err(ProtocolError::MetadataMismatch("stream_id"))
    } else if message.sequence != wire_sequence_of(envelope.logical_sequence) {
        Err(ProtocolError::MetadataMismatch("sequence"))
    } else if envelope.logical_sequence > u32::MAX {
        Err(ProtocolError::SequenceExhausted)
    } else if envelope.message_id != envelope.logical_sequence {
        Err(ProtocolError::MetadataMismatch("message_id"))
    } else {
        Ok(())
    }
}

/// Check that a reassembled message's outer metadata is bound to its signed
/// envelope (see [`binding_outcome`]). `class_matches` and
/// `state_tag_matches` compare the codec's class and state-hash tag.
pub fn check_envelope_binding(
    expected_source_id: u32,
    envelope: &EnvelopeHeader,
    message: &MessageHeader,
    class_matches: bool,
    state_tag_matches: bool,
) -> (result: ProtocolResult<()>)
    ensures
        result == binding_outcome(
            expected_source_id,
            *envelope,
            *message,
            class_matches,
            state_tag_matches,
        ),
{
    if envelope.source_id != expected_source_id {
        return Err(
            ProtocolError::SourceHintMismatch {
                expected: expected_source_id,
                actual: envelope.source_id,
            },
        );
    }
    if !class_matches {
        return Err(ProtocolError::MetadataMismatch("class"));
    }
    if envelope.priority != message.priority {
        return Err(ProtocolError::MetadataMismatch("priority"));
    }
    if !state_tag_matches {
        return Err(ProtocolError::MetadataMismatch("state_tag"));
    }
    if message.stream_id != stream_id_for_source(envelope.source_id) {
        return Err(ProtocolError::MetadataMismatch("stream_id"));
    }
    if message.sequence as u64 != envelope.logical_sequence % 0x1_0000 {
        return Err(ProtocolError::MetadataMismatch("sequence"));
    }
    if envelope.logical_sequence > u32::MAX as u64 {
        return Err(ProtocolError::SequenceExhausted);
    }
    if envelope.message_id as u64 != envelope.logical_sequence {
        return Err(ProtocolError::MetadataMismatch("message_id"));
    }
    Ok(())
}

/// How an authenticated delta enters the source's epoch: learned residuals
/// are refused outright; an older epoch is stale; within the current epoch a
/// keyframe is required when the receiver lost its base state; a new source or
/// a newer epoch must start with a keyframe at logical sequence zero.
pub open spec fn epoch_outcome(
    peer: Option<PeerRuntime>,
    envelope: EnvelopeHeader,
    keyframe: bool,
    residual_count: nat,
) -> ProtocolResult<EpochEntry> {
    if residual_count != 0 {
        Err(ProtocolError::LearnedResidualForbidden)
    } else {
        match peer {
            Some(p) => if envelope.epoch < p.epoch {
                Err(
                    ProtocolError::StaleEpoch {
                        source_id: envelope.source_id,
                        received: envelope.epoch,
                        current: p.epoch,
                    },
                )
            } else if envelope.epoch == p.epoch {
                if (p.requires_keyframe || !p.has_snapshot) && !keyframe {
                    Err(
                        ProtocolError::KeyframeRequired {
                            source_id: envelope.source_id,
                            epoch: envelope.epoch,
                        },
                    )
                } else {
                    Ok(EpochEntry { empty_base: keyframe, fresh_window: false })
                }
            } else {
                new_epoch_outcome(envelope, keyframe)
            },
            None => new_epoch_outcome(envelope, keyframe),
        }
    }
}

/// A new source or epoch must open with a keyframe at logical sequence zero.
pub open spec fn new_epoch_outcome(envelope: EnvelopeHeader, keyframe: bool) -> ProtocolResult<
    EpochEntry,
> {
    if envelope.logical_sequence != 0 || !keyframe {
        Err(
            ProtocolError::InvalidEpochStart {
                source_id: envelope.source_id,
                epoch: envelope.epoch,
            },
        )
    } else {
        Ok(EpochEntry { empty_base: true, fresh_window: true })
    }
}

/// A replay verdict other than `Accept` refuses the envelope, and within the
/// current epoch the logical sequence must exceed the last one admitted.
pub open spec fn replay_outcome(
    peer: Option<PeerRuntime>,
    envelope: EnvelopeHeader,
    verdict: ReplayVerdict,
) -> ProtocolResult<()> {
    match verdict {
        ReplayVerdict::Duplicate => Err(
            ProtocolError::Replay { source_id: envelope.source_id, epoch: envelope.epoch },
        ),
        ReplayVerdict::TooOld => Err(
            ProtocolError::TooOld { source_id: envelope.source_id, epoch: envelope.epoch },
        ),
        ReplayVerdict::Accept => match peer {
            Some(p) => if envelope.epoch == p.epoch && envelope.logical_sequence
                <= p.last_logical_sequence {
                Err(
                    ProtocolError::StaleLogical {
                        source_id: envelope.source_id,
                        received: envelope.logical_sequence,
                        last: p.last_logical_sequence,
                    },
                )
            } else {
                Ok(())
            },
            None => Ok(()),
        },
    }
}

/// The decoded snapshot must describe the authenticated source, must not be
/// from beyond the accepted future skew nor older than the receive window,
/// and within the current epoch its timestamp may not go backwards.
pub open spec fn snapshot_outcome(
    l: RxLimits,
    peer: Option<PeerRuntime>,
    envelope: EnvelopeHeader,
    node_id: u32,
    timestamp_ms: u64,
    received_at_ms: u64,
) -> ProtocolResult<()> {
    if node_id != envelope.source_id {
        Err(ProtocolError::SourceMismatch { source_id: envelope.source_id, node_id })
    } else if timestamp_ms > received_at_ms + l.max_future_skew_ms {
        Err(ProtocolError::SnapshotFromFuture { source_id: envelope.source_id })
    } else if sat_sub(received_at_ms, timestamp_ms) > l.max_snapshot_age_ms {
        Err(ProtocolError::SnapshotTooOld { source_id: envelope.source_id })
    } else {
        match peer {
            Some(p) => if envelope.epoch == p.epoch && timestamp_ms < p.last_timestamp_ms {
                Err(
                    ProtocolError::StaleTimestamp {
                        source_id: envelope.source_id,
                        received: timestamp_ms,
                        last: p.last_timestamp_ms,
                    },
                )
            } else {
                Ok(())
            },
            None => Ok(()),
        }
    }
}

/// The replay state of a source right after an admission.
pub open spec fn admitted_peer(envelope: EnvelopeHeader, timestamp_ms: u64, received_at_ms: u64) -> PeerRuntime {
    PeerRuntime {
        epoch: envelope.epoch,
        last_logical_sequence: envelope.logical_sequence,
        last_timestamp_ms: timestamp_ms,
        accepted_at_ms: received_at_ms,
        has_snapshot: true,
        requires_keyframe: false,
    }
}

impl RxState {
    /// Register a frame with the reassembly bookkeeping of its source. A
    /// frame that opens a new partial message is refused once
    /// `max_contexts` are in flight; otherwise its arrival time is recorded.
    pub fn register_fragment(
        &mut self,
        source_id: u32,
        key: ContextKey,
        is_new_context: bool,
        received_at_ms: u64,
    ) -> (result: ProtocolResult<()>)
        requires
            old(self).wf(),
        ensures
            same_replay_state(*old(self), *final(self)),
            final(self).wf(),
            final(self).limits_spec() == old(self).limits_spec(),
            final(self).metrics_spec() == old(self).metrics_spec(),
            final(self).source_ids() == old(self).source_ids(),
            forall|id: u32| id != source_id ==> #[trigger] final(self).source(id) == old(self).source(id),
            ({
                match old(self).source(source_id) {
                    Some(SourceView { peer, ingress: Some(i) }) => if is_new_context
                        && i.contexts.len() == old(self).limits_spec().max_contexts {
                        &&& result == Err::<(), ProtocolError>(
                            ProtocolError::Air(AirError::ReassemblyFull),
                        )
                        &&& final(self).source(source_id) == old(self).source(source_id)
                    } else {
                        &&& result is Ok
                        &&& final(self).source(source_id) == Some(
                            SourceView {
                                peer,
                                ingress: Some(
                                    IngressView {
                                        rate: i.rate,
                                        contexts: if is_new_context {
                                            i.contexts.insert(key, received_at_ms)
                                        } else {
                                            i.contexts
                                        },
                                    },
                                ),
                            },
                        )
                    },
                    _ => {
                        &&& result == Err::<(), ProtocolError>(
                            ProtocolError::IngressUnavailable { source_id },
                        )
                        &&& final(self).source(source_id) == old(self).source(source_id)
                    },
                }
            }),
    {
        let ghost before = self.sources@;
        let full = match self.sources.get(&source_id) {
            Some(entry) => match &entry.ingress {
                Some(ingress) => ingress.contexts.len() == self.limits.max_contexts,
                None => return Err(ProtocolError::IngressUnavailable { source_id }),
            },
            None => return Err(ProtocolError::IngressUnavailable { source_id }),
        };
        if is_new_context && full {
            return Err(ProtocolError::Air(AirError::ReassemblyFull));
        }
        if !is_new_context {
            return Ok(());
        }
        proof {
            assert(source_wf(before[source_id]@, self.limits));
        }
        let entry = self.sources.remove(&source_id).unwrap();
        let SourceEntry { peer, ingress } = entry;
        let mut ingress = ingress.unwrap();
        let ghost contexts_before = ingress.contexts@;
        ingress.contexts.insert(key, received_at_ms);
        proof {
            if contexts_before.contains_key(key) {
                assert(contexts_before.insert(key, received_at_ms).dom() =~= contexts_before.dom());
            }
        }
        self.sources.insert(source_id, SourceEntry { peer, ingress: Some(ingress) });
        proof {
            self.lemma_reinsert(before, source_id);
        }
        Ok(())
    }

    /// Forget the bookkeeping of a partial message: after the codec rejected
    /// a frame that opened it, or after it completed.
    fn forget_context(&mut self, source_id: u32, key: ContextKey)
        requires
            old(self).wf(),
        ensures
            final(self).wf(),
            final(self).limits_spec() == old(self).limits_spec(),
            final(self).metrics_spec() == old(self).metrics_spec(),
            final(self).source_ids() == old(self).source_ids(),
            forall|id: u32| id != source_id ==> #[trigger] final(self).source(id) == old(self).source(id),
            final(self).source(source_id) == match old(self).source(source_id) {
                Some(SourceView { peer, ingress: Some(i) }) => Some(
                    SourceView {
                        peer,
                        ingress: Some(IngressView { rate: i.rate, contexts: i.contexts.remove(key) }),
                    },
                ),
                other => other,
            },
    {
        let ghost before = self.sources@;
        let has_ingress = match self.sources.get(&source_id) {
            Some(entry) => entry.ingress.is_some(),
            None => false,
        };
        if !has_ingress {
            return;
        }
        proof {
            assert(source_wf(before[source_id]@, self.limits));
        }
        let entry = self.sources.remove(&source_id).unwrap();
        let SourceEntry { peer, ingress } = entry;
        let mut ingress = ingress.unwrap();
        ingress.contexts.remove(&key);
        self.sources.insert(source_id, SourceEntry { peer, ingress: Some(ingress) });
        proof {
            self.lemma_reinsert(before, source_id);
        }
    }

    /// The codec rejected a frame: forget its partial message if the frame
    /// opened it.
    pub fn fragment_rejected(&mut self, source_id: u32, key: ContextKey, was_new_context: bool)
        requires
            old(self).wf(),
        ensures
            same_replay_state(*old(self), *final(self)),
            final(self).wf(),
            final(self).limits_spec() == old(self).limits_spec(),
            final(self).metrics_spec() == old(self).metrics_spec(),
            final(self).source_ids() == old(self).source_ids(),
            forall|id: u32| id != source_id ==> #[trigger] final(self).source(id) == old(self).source(id),
            !was_new_context ==> final(self).source(source_id) == old(self).source(source_id),
            was_new_context ==> final(self).source(source_id) == match old(self).source(source_id) {
                Some(SourceView { peer, ingress: Some(i) }) => Some(
                    SourceView {
                        peer,
                        ingress: Some(IngressView { rate: i.rate, contexts: i.contexts.remove(key) }),
                    },
                ),
                other => other,
            },
    {
        if was_new_context {
            self.forget_context(source_id, key);
        }
    }

    /// A partial message completed: forget it and count the envelope.
    pub fn fragment_completed(&mut self, source_id: u32, key: ContextKey)
        requires
            old(self).wf(),
        ensures
            same_replay_state(*old(self), *final(self)),
            final(self).wf(),
            final(self).limits_spec() == old(self).limits_spec(),
            final(self).source_ids() == old(self).source_ids(),
            forall|id: u32| id != source_id ==> #[trigger] final(self).source(id) == old(self).source(id),
            final(self).source(source_id) == match old(self).source(source_id) {
                Some(SourceView { peer, ingress: Some(i) }) => Some(
                    SourceView {
                        peer,
                        ingress: Some(IngressView { rate: i.rate, contexts: i.contexts.remove(key) }),
                    },
                ),
                other => other,
            },
            final(self).metrics_spec() == (ProtocolMetrics {
                completed_envelopes: old(self).metrics_spec().completed_envelopes.saturating_add(1),
                ..old(self).metrics_spec()
            }),
    {
        self.forget_context(source_id, key);
        let ghost mid = *self;
        self.metrics.completed_envelopes = self.metrics.completed_envelopes.saturating_add(1);
        assert forall|id: u32| id != source_id implies #[trigger] self.source(id) == old(self).source(
            id,
        ) by {
            assert(mid.source(id) == old(self).source(id));
        }
    }

    /// Decide how an authenticated delta enters its source's epoch (see
    /// [`epoch_outcome`]).
    pub fn screen_epoch(&self, envelope: &EnvelopeHeader, keyframe: bool, residual_count: usize) -> (result:
        ProtocolResult<EpochEntry>)
        ensures
            result == epoch_outcome(self.peer(envelope.source_id), *envelope, keyframe, residual_count as nat),
    {
        if residual_count != 0 {
            return Err(ProtocolError::LearnedResidualForbidden);
        }
        match self.peer_runtime(envelope.source_id) {
            Some(p) => {
                if envelope.epoch < p.epoch {
                    return Err(
                        ProtocolError::StaleEpoch {
                            source_id: envelope.source_id,
                            received: envelope.epoch,
                            current: p.epoch,
                        },
                    );
                }
                if envelope.epoch == p.epoch {
                    if (p.requires_keyframe || !p.has_snapshot) && !keyframe {
                        return Err(
                            ProtocolError::KeyframeRequired {
                                source_id: envelope.source_id,
                                epoch: envelope.epoch,
                            },
                        );
                    }
                    return Ok(EpochEntry { empty_base: keyframe, fresh_window: false });
                }
            },
            None => {},
        }
        if envelope.logical_sequence != 0 || !keyframe {
            return Err(
                ProtocolError::InvalidEpochStart {
                    source_id: envelope.source_id,
                    epoch: envelope.epoch,
                },
            );
        }
        Ok(EpochEntry { empty_base: true, fresh_window: true })
    }

    /// Apply the replay window's verdict and the logical high-water mark
    /// (see [`replay_outcome`]).
    pub fn screen_replay(&self, envelope: &EnvelopeHeader, verdict: ReplayVerdict) -> (result:
        ProtocolResult<()>)
        ensures
            result == replay_outcome(self.peer(envelope.source_id), *envelope, verdict),
    {
        match verdict {
            ReplayVerdict::Duplicate => {
                return Err(
                    ProtocolError::Replay { source_id: envelope.source_id, epoch: envelope.epoch },
                );
            },
            ReplayVerdict::TooOld => {
                return Err(
                    ProtocolError::TooOld { source_id: envelope.source_id, epoch: envelope.epoch },
                );
            },
            ReplayVerdict::Accept => {},
        }
        if let Some(p) = self.peer_runtime(envelope.source_id) {
            if envelope.epoch == p.epoch && envelope.logical_sequence <= p.last_logical_sequence {
                return Err(
                    ProtocolError::StaleLogical {
                        source_id: envelope.source_id,
                        received: envelope.logical_sequence,
                        last: p.last_logical_sequence,
                    },
                );
            }
        }
        Ok(())
    }

    /// Check the decoded snapshot's identity and freshness (see
    /// [`snapshot_outcome`]).
    pub fn screen_snapshot(
        &self,
        envelope: &EnvelopeHeader,
        node_id: u32,
        timestamp_ms: u64,
        received_at_ms: u64,
    ) -> (result: ProtocolResult<()>)
        ensures
            result == snapshot_outcome(
                self.limits_spec(),
                self.peer(envelope.source_id),
                *envelope,
                node_id,
                timestamp_ms,
                received_at_ms,
            ),
    {
        if node_id != envelope.source_id {
            return Err(ProtocolError::SourceMismatch { source_id: envelope.source_id, node_id });
        }
        if timestamp_ms > received_at_ms.saturating_add(self.limits.max_future_skew_ms) {
            return Err(ProtocolError::SnapshotFromFuture { source_id: envelope.source_id });
        }
        if received_at_ms.saturating_sub(timestamp_ms) > self.limits.max_snapshot_age_ms {
            return Err(ProtocolError::SnapshotTooOld { source_id: envelope.source_id });
        }
        if let Some(p) = self.peer_runtime(envelope.source_id) {
            if envelope.epoch == p.epoch && timestamp_ms < p.last_timestamp_ms {
                return Err(
                    ProtocolError::StaleTimestamp {
                        source_id: envelope.source_id,
                        received: timestamp_ms,
                        last: p.last_timestamp_ms,
                    },
                );
            }
        }
        Ok(())
    }

    /// Commit an admission whose envelope passed every screen and whose
    /// replay window accepted the commit: the source's replay state becomes
    /// [`admitted_peer`], and the accepted-snapshot counter advances.
    pub fn commit_admission(
        &mut self,
        envelope: &EnvelopeHeader,
        message: &MessageHeader,
        keyframe: bool,
        fragment_count: u8,
        encoded_message_bytes: usize,
        state_hash: [u8; 16],
        timestamp_ms: u64,
        received_at_ms: u64,
    ) -> (result: ProtocolResult<ReceiveMetadata>)
        requires
            old(self).wf(),
            old(self).source_ids().contains(envelope.source_id),
        ensures
            final(self).wf(),
            final(self).limits_spec() == old(self).limits_spec(),
            old(self).peer(envelope.source_id) is None && old(self).active_sources()
                > old(self).limits_spec().max_peers ==> result == Err::<ReceiveMetadata, ProtocolError>(
                ProtocolError::PeerCapacity(old(self).limits_spec().max_peers),
            ) && final(self).metrics_spec() == old(self).metrics_spec(),
            old(self).peer(envelope.source_id) is Some || old(self).active_sources()
                <= old(self).limits_spec().max_peers ==> result is Ok,
            result is Ok ==> {
                &&& result->Ok_0 == (ReceiveMetadata {
                    source_id: envelope.source_id,
                    epoch: envelope.epoch,
                    message_id: envelope.message_id,
                    logical_sequence: envelope.logical_sequence,
                    wire_sequence: message.sequence,
                    stream_id: message.stream_id,
                    priority: envelope.priority,
                    state_hash,
                    encoded_message_bytes,
                    fragment_count,
                    keyframe,
                    learned_residuals: 0,
                })
                &&& final(self).peer(envelope.source_id) == Some(
                    admitted_peer(*envelope, timestamp_ms, received_at_ms),
                )
                &&& final(self).metrics_spec() == (ProtocolMetrics {
                    accepted_snapshots: old(self).metrics_spec().accepted_snapshots.saturating_add(
                        1,
                    ),
                    ..old(self).metrics_spec()
                })
            },
            result is Err ==> *final(self) == *old(self),
            result is Err ==> same_replay_state(*old(self), *final(self)),
            result is Err ==> forall|id: u32| #[trigger] final(self).source(id) == old(self).source(id),
            forall|id: u32|
                id != envelope.source_id ==> #[trigger] final(self).source(id) == old(self).source(id),
            // An admission keeps the source's ingress bookkeeping.
            final(self).source(envelope.source_id) matches Some(after) ==> after.ingress == match old(
                self,
            ).source(envelope.source_id) {
                Some(before) => before.ingress,
                None => None,
            },
    {
        let source_id = envelope.source_id;
        let existing = self.peer_runtime(source_id);
        if existing.is_none() && self.sources.len() > self.limits.max_peers {
            return Err(ProtocolError::PeerCapacity(self.limits.max_peers));
        }
        let ghost before = self.sources@;
        let taken = self.sources.remove(&source_id);
        let ingress = match taken {
            Some(entry) => entry.ingress,
            None => None,
        };
        let peer = PeerRuntime {
            epoch: envelope.epoch,
            last_logical_sequence: envelope.logical_sequence,
            last_timestamp_ms: timestamp_ms,
            accepted_at_ms: received_at_ms,
            has_snapshot: true,
            requires_keyframe: false,
        };
        proof {
            if before.contains_key(source_id) {
                assert(source_wf(before[source_id]@, self.limits));
            }
        }
        self.sources.insert(source_id, SourceEntry { peer: Some(peer), ingress });
        proof {
            self.lemma_reinsert(before, source_id);
        }
        self.metrics.accepted_snapshots = self.metrics.accepted_snapshots.saturating_add(1);
        Ok(
            ReceiveMetadata {
                source_id,
                epoch: envelope.epoch,
                message_id: envelope.message_id,
                logical_sequence: envelope.logical_sequence,
                wire_sequence: message.sequence,
                stream_id: message.stream_id,
                priority: envelope.priority,
                state_hash,
                encoded_message_bytes,
                fragment_count,
                keyframe,
                learned_residuals: 0,
            },
        )
    }
}

/// The high-water marks a receiver can persist and restore for one source.
#[derive(Clone, Copy, Debug, PartialEq, Eq, Structural)]
pub struct ReplayCheckpoint {
    pub source_id: u32,
    pub epoch: u32,
    pub last_logical_sequence: u64,
    pub last_timestamp_ms: u64,
}

/// Whether an advisory snapshot has outlived the advisory TTL at `now`.
pub open spec fn snapshot_expired(p: PeerRuntime, now: u64, ttl: u64) -> bool {
    p.has_snapshot && sat_sub(now, p.accepted_at_ms) > ttl
}

/// A source whose snapshot expired keeps its high-water marks, holds no
/// advisory state, and needs a keyframe next.
pub open spec fn expire_peer(p: PeerRuntime, now: u64, ttl: u64) -> PeerRuntime {
    if snapshot_expired(p, now, ttl) {
        PeerRuntime { has_snapshot: false, requires_keyframe: true, ..p }
    } else {
        p
    }
}

/// What is tracked about a source after the TTL sweep at `now`.
pub open spec fn expire_source(s: Option<SourceView>, now: u64, ttl: u64) -> Option<SourceView> {
    match s {
        Some(v) => Some(
            SourceView {
                peer: match v.peer {
                    Some(p) => Some(expire_peer(p, now, ttl)),
                    None => None,
                },
                ingress: v.ingress,
            },
        ),
        None => None,
    }
}

/// A checkpoint is restorable when its source has a trusted key, its logical
/// sequence fits a message id, and it does not roll the source's replay
/// state backwards; a source not yet tracked also needs room.
pub open spec fn restore_outcome(
    l: RxLimits,
    active: nat,
    existing: Option<SourceView>,
    checkpoint: ReplayCheckpoint,
    has_trusted_key: bool,
) -> ProtocolResult<()> {
    if !has_trusted_key {
        Err(ProtocolError::UntrustedPeer(checkpoint.source_id))
    } else if checkpoint.last_logical_sequence > u32::MAX {
        Err(ProtocolError::SequenceExhausted)
    } else {
        let peer = match existing {
            Some(s) => s.peer,
            None => None,
        };
        match peer {
            Some(p) => if checkpoint.epoch < p.epoch || (checkpoint.epoch == p.epoch
                && checkpoint.last_logical_sequence <= p.last_logical_sequence) {
                Err(ProtocolError::CheckpointRollback { source_id: checkpoint.source_id })
            } else {
                Ok(())
            },
            None => if active == l.max_peers {
                Err(ProtocolError::PeerCapacity(l.max_peers))
            } else {
                Ok(())
            },
        }
    }
}

/// Restoring a checkpoint for a source that already has replay state, with a
/// trusted key and a logical sequence that fits a message id, succeeds
/// exactly when it moves the source forward: a strictly newer epoch (whatever
/// its sequence), or the same epoch with a strictly greater logical sequence.
/// Anything else is refused as a rollback of that source.
pub proof fn law_restore_moves_forward_only(
    l: RxLimits,
    active: nat,
    existing: Option<SourceView>,
    checkpoint: ReplayCheckpoint,
    p: PeerRuntime,
)
    requires
        existing matches Some(s) && s.peer == Some(p),
        checkpoint.last_logical_sequence <= u32::MAX,
    ensures
        restore_outcome(l, active, existing, checkpoint, true) is Ok <==> (checkpoint.epoch > p.epoch
            || (checkpoint.epoch == p.epoch && checkpoint.last_logical_sequence
            > p.last_logical_sequence)),
        restore_outcome(l, active, existing, checkpoint, true) is Err ==> restore_outcome(
            l,
            active,
            existing,
            checkpoint,
            true,
        ) == Err::<(), ProtocolError>(
            ProtocolError::CheckpointRollback { source_id: checkpoint.source_id },
        ),
{
}

/// The replay state a checkpoint restores: no advisory state, and a signed
/// full keyframe is mandatory before any delta.
pub open spec fn restored_peer(checkpoint: ReplayCheckpoint) -> PeerRuntime {
    PeerRuntime {
        epoch: checkpoint.epoch,
        last_logical_sequence: checkpoint.last_logical_sequence,
        last_timestamp_ms: checkpoint.last_timestamp_ms,
        accepted_at_ms: 0,
        has_snapshot: false,
        requires_keyframe: true,
    }
}

/// The checkpoint of an authenticated source.
pub open spec fn checkpoint_of(id: u32, p: PeerRuntime) -> ReplayCheckpoint {
    ReplayCheckpoint {
        source_id: id,
        epoch: p.epoch,
        last_logical_sequence: p.last_logical_sequence,
        last_timestamp_ms: p.last_timestamp_ms,
    }
}

/// `c` lists the replay high-water marks of `s`: one checkpoint for each
/// source with replay state, and nothing else, in ascending source-id order.
pub open spec fn lists_checkpoints(s: RxState, c: Seq<ReplayCheckpoint>) -> bool {
    &&& forall|j: int| #![trigger c[j]]
        0 <= j < c.len() ==> s.peer(c[j].source_id) is Some && c[j] == checkpoint_of(
            c[j].source_id,
            s.peer(c[j].source_id)->Some_0,
        )
    &&& forall|id: u32| #[trigger] s.peer(id) is Some ==> c.contains(checkpoint_of(id, s.peer(id)->Some_0))
    &&& forall|a: int, b: int| 0 <= a < b < c.len() ==> c[a].source_id < c[b].source_id
}

/// Checkpoints in strictly ascending source-id order.
pub open spec fn ascending_sources(c: Seq<ReplayCheckpoint>) -> bool {
    forall|a: int, b: int| 0 <= a < b < c.len() ==> c[a].source_id < c[b].source_id
}

/// Two lists in strictly ascending source order that hold the same
/// checkpoints are the same list.
proof fn lemma_ascending_lists_equal(x: Seq<ReplayCheckpoint>, y: Seq<ReplayCheckpoint>)
    requires
        ascending_sources(x),
        ascending_sources(y),
        forall|e: ReplayCheckpoint| x.contains(e) <==> y.contains(e),
    ensures
        x == y,
    decreases x.len(),
{
    if x.len() == 0 {
        if y.len() > 0 {
            assert(y.contains(y[0]));
        }
        assert(x =~= y);
    } else {
        assert(x.contains(x[0]));
        if y.len() == 0 {
            assert(false);
        }
        assert(y.contains(y[0]));
        let k = choose|k: int| 0 <= k < y.len() && y[k] == x[0];
        let m = choose|m: int| 0 <= m < x.len() && x[m] == y[0];
        if k > 0 {
            assert(y[0].source_id < y[k].source_id);
            if m > 0 {
                assert(x[0].source_id < x[m].source_id);
            }
            assert(false);
        }
        let xs = x.drop_first();
        let ys = y.drop_first();
        assert forall|e: ReplayCheckpoint| xs.contains(e) <==> ys.contains(e) by {
            if xs.contains(e) {
                let i = choose|i: int| 0 <= i < xs.len() && xs[i] == e;
                assert(x[i + 1] == e);
                assert(x.contains(e));
                assert(x[0].source_id < e.source_id);
                let j = choose|j: int| 0 <= j < y.len() && y[j] == e;
                assert(j != 0);
                assert(ys[j - 1] == e);
            }
            if ys.contains(e) {
                let i = choose|i: int| 0 <= i < ys.len() && ys[i] == e;
                assert(y[i + 1] == e);
                assert(y.contains(e));
                assert(y[0].source_id < e.source_id);
                let j = choose|j: int| 0 <= j < x.len() && x[j] == e;
                assert(j != 0);
                assert(xs[j - 1] == e);
            }
        }
        lemma_ascending_lists_equal(xs, ys);
        assert(x =~= y) by {
            assert forall|i: int| 0 <= i < x.len() implies x[i] == y[i] by {
                if i > 0 {
                    assert(x[i] == xs[i - 1]);
                    assert(y[i] == ys[i - 1]);
                }
            }
        }
    }
}

/// Replay checkpoints are a function of the sources' replay state alone: two
/// receivers whose sources hold the same replay state list the same
/// checkpoints. So a step that keeps every source's replay state, as every
/// receive step short of a successful `commit_admission` does, leaves
/// `replay_checkpoints` as it was.
pub proof fn law_checkpoints_follow_replay_state(
    a: RxState,
    b: RxState,
    ca: Seq<ReplayCheckpoint>,
    cb: Seq<ReplayCheckpoint>,
)
    requires
        forall|id: u32| #[trigger] a.peer(id) == b.peer(id),
        lists_checkpoints(a, ca),
        lists_checkpoints(b, cb),
    ensures
        ca == cb,
{
    assert forall|e: ReplayCheckpoint| ca.contains(e) <==> cb.contains(e) by {
        if ca.contains(e) {
            let j = choose|j: int| 0 <= j < ca.len() && ca[j] == e;
            assert(ca[j] == e);
            assert(a.peer(e.source_id) == b.peer(e.source_id));
            assert(b.peer(e.source_id) is Some);
        }
        if cb.contains(e) {
            let j = choose|j: int| 0 <= j < cb.len() && cb[j] == e;
            assert(cb[j] == e);
            assert(a.peer(e.source_id) == b.peer(e.source_id));
            assert(a.peer(e.source_id) is Some);
        }
    }
    lemma_ascending_lists_equal(ca, cb);
}

/// `b` holds the same replay and advisory state for every source as `a`.
pub open spec fn same_replay_state(a: RxState, b: RxState) -> bool {
    forall|id: u32| #[trigger] a.peer(id) == b.peer(id)
}

/// A receive that fails leaves every source's replay checkpoint and advisory
/// state as it was. A receive runs its steps in order (`record_frame_seen`,
/// `open_frame`, `register_fragment`, `fragment_rejected` or
/// `fragment_completed`, the three `&self` screens, then `commit_admission`,
/// and `record_rejection` on failure); each of them except a successful
/// `commit_admission` keeps the replay state, and a failed receive never
/// commits. So across the whole run of states the replay state is unchanged,
/// and the receiver lists the same checkpoints at the end as at the start.
pub proof fn law_failed_receive_keeps_replay_state(states: Seq<RxState>, c: Seq<ReplayCheckpoint>)
    requires
        states.len() >= 1,
        forall|i: int| 0 <= i < states.len() - 1 ==> same_replay_state(#[trigger] states[i], states[i + 1]),
        lists_checkpoints(states[0], c),
    ensures
        same_replay_state(states[0], states.last()),
        lists_checkpoints(states.last(), c),
    decreases states.len(),
{
    if states.len() > 1 {
        let front = states.drop_last();
        assert forall|i: int| 0 <= i < front.len() - 1 implies same_replay_state(
            #[trigger] front[i],
            front[i + 1],
        ) by {
            assert(front[i] == states[i] && front[i + 1] == states[i + 1]);
            assert(same_replay_state(states[i], states[i + 1]));
        }
        law_failed_receive_keeps_replay_state(front, c);
        let n = states.len() - 1;
        assert(front.last() == states[n - 1]);
        assert(same_replay_state(states[n - 1], states[n]));
        let a = states[0];
        let b = states.last();
        assert forall|id: u32| #[trigger] a.peer(id) == b.peer(id) by {
            assert(a.peer(id) == front.last().peer(id));
            assert(states[n - 1].peer(id) == states[n].peer(id));
        }
        assert forall|id: u32| #[trigger] b.peer(id) is Some implies c.contains(
            checkpoint_of(id, b.peer(id)->Some_0),
        ) by {
            assert(a.peer(id) == b.peer(id));
        }
        assert forall|j: int| #![trigger c[j]] 0 <= j < c.len() implies b.peer(c[j].source_id) is Some
            && c[j] == checkpoint_of(c[j].source_id, b.peer(c[j].source_id)->Some_0) by {
            assert(a.peer(c[j].source_id) == b.peer(c[j].source_id));
        }
    }
}

/// Which counter a rejection is recorded in.
pub enum RejectionCounter {
    Crc,
    Authentication,
    Replay,
    Semantic,
}

/// Rejections are classified as CRC failures, authentication failures,
/// replays (including stale epochs and logical sequences), or semantic.
pub open spec fn rejection_counter(error: ProtocolError) -> RejectionCounter {
    match error {
        ProtocolError::Air(AirError::CrcMismatch) => RejectionCounter::Crc,
        ProtocolError::AuthenticationFailed
        | ProtocolError::SignatureRequired
        | ProtocolError::UntrustedPeer(_) => RejectionCounter::Authentication,
        ProtocolError::Replay { .. }
        | ProtocolError::TooOld { .. }
        | ProtocolError::StaleEpoch { .. }
        | ProtocolError::StaleLogical { .. } => RejectionCounter::Replay,
        _ => RejectionCounter::Semantic,
    }
}

/// The counters after recording one rejection.
pub open spec fn after_rejection(m: ProtocolMetrics, error: ProtocolError) -> ProtocolMetrics {
    match rejection_counter(error) {
        RejectionCounter::Crc => ProtocolMetrics {
            crc_rejections: m.crc_rejections.saturating_add(1),
            ..m
        },
        RejectionCounter::Authentication => ProtocolMetrics {
            authentication_rejections: m.authentication_rejections.saturating_add(1),
            ..m
        },
        RejectionCounter::Replay => ProtocolMetrics {
            replay_rejections: m.replay_rejections.saturating_add(1),
            ..m
        },
        RejectionCounter::Semantic => ProtocolMetrics {
            semantic_rejections: m.semantic_rejections.saturating_add(1),
            ..m
        },
    }
}

/// A map's keys iterate in increasing order.
proof fn lemma_source_keys_increasing(m: &BTreeMap<u32, SourceEntry>)
    ensures
        forall|a: int, b: int|
            0 <= a < b < spec_keys_iter(m).remaining().len() ==> *spec_keys_iter(m).remaining()[a]
                < *spec_keys_iter(m).remaining()[b],
{
    broadcast use vstd::laws_cmp::group_laws_cmp;
    broadcast use vstd::std_specs::btree::group_btree_axioms;

    let keys = spec_keys_iter(m).remaining();
    assert(vstd::laws_cmp::obeys_cmp::<u32>());
    assert(vstd::laws_cmp::obeys_cmp::<&u32>());
    assert(vstd::std_specs::btree::increasing_seq(keys));
    assert forall|a: int, b: int| 0 <= a < b < keys.len() implies *keys[a] < *keys[b] by {
        assert(vstd::std_specs::cmp::OrdSpec::cmp_spec(&keys[a], &keys[b]) is Less);
    }
}

impl RxState {
    /// The ids of all tracked sources, each once.
    fn source_id_list(&self) -> (ids: Vec<u32>)
        ensures
            ids@.to_set() == self.source_ids(),
            ids@.no_duplicates(),
            forall|a: int, b: int| 0 <= a < b < ids@.len() ==> ids@[a] < ids@[b],
    {
        proof {
            lemma_source_keys_increasing(&self.sources);
        }
        let mut ids: Vec<u32> = Vec::new();
        for key in iter: self.sources.keys()
            invariant
                forall|a: int, b: int| 0 <= a < b < iter.seq().len() ==> *iter.seq()[a] < *iter.seq()[b],
                ids@ == iter.seq().unref().take(iter.index() as int),
                iter.seq().unref().to_set() == self.sources@.dom(),
                iter.seq().unref().no_duplicates(),
                ids@.no_duplicates(),
                iter.index() == iter.seq().len() ==> ids@.to_set() == self.sources@.dom(),
        {
            assert(iter.seq().unref().take(iter.index() + 1) =~= iter.seq().unref().take(
                iter.index() as int,
            ).push(*key));
            ids.push(*key);
            proof {
                assert forall|i: int, j: int|
                    0 <= i < ids@.len() && 0 <= j < ids@.len() && i != j implies ids@[i]
                    != ids@[j] by {
                    assert(ids@[i] == iter.seq().unref()[i]);
                    assert(ids@[j] == iter.seq().unref()[j]);
                }
                assert(iter.seq().unref().take(iter.seq().len() as int) =~= iter.seq().unref());
            }
        }
        ids
    }

    /// Record one rejection in its counter (see [`rejection_counter`]).
    pub fn record_rejection(&mut self, error: &ProtocolError)
        ensures
            same_replay_state(*old(self), *final(self)),
            final(self).wf() == old(self).wf(),
            final(self).limits_spec() == old(self).limits_spec(),
            final(self).source_ids() == old(self).source_ids(),
            forall|id: u32| #[trigger] final(self).source(id) == old(self).source(id),
            final(self).metrics_spec() == after_rejection(old(self).metrics_spec(), *error),
    {
        match error {
            ProtocolError::Air(AirError::CrcMismatch) => {
                self.metrics.crc_rejections = self.metrics.crc_rejections.saturating_add(1);
            },
            ProtocolError::AuthenticationFailed
            | ProtocolError::SignatureRequired
            | ProtocolError::UntrustedPeer(_) => {
                self.metrics.authentication_rejections =
                self.metrics.authentication_rejections.saturating_add(1);
            },
            ProtocolError::Replay { .. }
            | ProtocolError::TooOld { .. }
            | ProtocolError::StaleEpoch { .. }
            | ProtocolError::StaleLogical { .. } => {
                self.metrics.replay_rejections = self.metrics.replay_rejections.saturating_add(1);
            },
            _ => {
                self.metrics.semantic_rejections = self.metrics.semantic_rejections.saturating_add(
                    1,
                );
            },
        }
    }

    /// Restore only replay high-water state. No advisory state is restored, so
    /// a newer signed full keyframe is mandatory before delta admission.
    pub fn restore_replay_checkpoint(
        &mut self,
        checkpoint: ReplayCheckpoint,
        has_trusted_key: bool,
    ) -> (result: ProtocolResult<()>)
        requires
            old(self).wf(),
        ensures
            final(self).wf(),
            final(self).limits_spec() == old(self).limits_spec(),
            final(self).metrics_spec() == old(self).metrics_spec(),
            result == restore_outcome(
                old(self).limits_spec(),
                old(self).active_sources(),
                old(self).source(checkpoint.source_id),
                checkpoint,
                has_trusted_key,
            ),
            result is Err ==> forall|id: u32| #[trigger] final(self).source(id) == old(self).source(id),
            result is Ok ==> final(self).source(checkpoint.source_id) == Some(
                SourceView {
                    peer: Some(restored_peer(checkpoint)),
                    ingress: match old(self).source(checkpoint.source_id) {
                        Some(s) => s.ingress,
                        None => None,
                    },
                },
            ),
            forall|id: u32|
                id != checkpoint.source_id ==> #[trigger] final(self).source(id) == old(self).source(id),
    {
        if !has_trusted_key {
            return Err(ProtocolError::UntrustedPeer(checkpoint.source_id));
        }
        if checkpoint.last_logical_sequence > u32::MAX as u64 {
            return Err(ProtocolError::SequenceExhausted);
        }
        let source_id = checkpoint.source_id;
        match self.peer_runtime(source_id) {
            Some(current) => {
                if checkpoint.epoch < current.epoch || (checkpoint.epoch == current.epoch
                    && checkpoint.last_logical_sequence <= current.last_logical_sequence) {
                    return Err(ProtocolError::CheckpointRollback { source_id });
                }
            },
            None => {
                if self.sources.len() == self.limits.max_peers {
                    return Err(ProtocolError::PeerCapacity(self.limits.max_peers));
                }
            },
        }
        let ghost before = self.sources@;
        let taken = self.sources.remove(&source_id);
        let ingress = match taken {
            Some(entry) => entry.ingress,
            None => None,
        };
        proof {
            if before.contains_key(source_id) {
                assert(source_wf(before[source_id]@, self.limits));
            }
        }
        let peer = PeerRuntime {
            epoch: checkpoint.epoch,
            last_logical_sequence: checkpoint.last_logical_sequence,
            last_timestamp_ms: checkpoint.last_timestamp_ms,
            accepted_at_ms: 0,
            has_snapshot: false,
            requires_keyframe: true,
        };
        self.sources.insert(source_id, SourceEntry { peer: Some(peer), ingress });
        proof {
            self.lemma_reinsert(before, source_id);
        }
        Ok(())
    }
}

/// Whether source `id` of state `s` holds a snapshot that has outlived the TTL.
pub open spec fn holds_expired_snapshot(s: RxState, id: u32, now: u64) -> bool {
    s.peer(id) matches Some(p) && snapshot_expired(p, now, s.limits_spec().advisory_ttl_ms)
}

/// The tracked sources among `ids` whose snapshot has outlived the TTL.
pub open spec fn expired_ids(s: RxState, ids: Set<u32>, now: u64) -> Set<u32> {
    ids.filter(|id: u32| holds_expired_snapshot(s, id, now))
}

proof fn lemma_expired_ids_insert(s: RxState, ids: Set<u32>, k: u32, now: u64)
    requires
        ids.finite(),
        !ids.contains(k),
    ensures
        expired_ids(s, ids.insert(k), now).len() == expired_ids(s, ids, now).len() + (if holds_expired_snapshot(s, k, now) {
            1int
        } else {
            0int
        }),
{
    if holds_expired_snapshot(s, k, now) {
        assert(expired_ids(s, ids.insert(k), now) =~= expired_ids(s, ids, now).insert(k));
    } else {
        assert(expired_ids(s, ids.insert(k), now) =~= expired_ids(s, ids, now));
    }
}

impl RxState {
    /// Expire advisory snapshots older than the advisory TTL while retaining
    /// replay high-water marks. Returns how many snapshots expired.
    pub fn expire_stale(&mut self, now_ms: u64) -> (expired: usize)
        requires
            old(self).wf(),
        ensures
            final(self).wf(),
            final(self).limits_spec() == old(self).limits_spec(),
            final(self).metrics_spec() == old(self).metrics_spec(),
            final(self).source_ids() == old(self).source_ids(),
            forall|id: u32| #[trigger] final(self).source(id) == expire_source(
                old(self).source(id),
                now_ms,
                old(self).limits_spec().advisory_ttl_ms,
            ),
            expired == expired_ids(*old(self), old(self).source_ids(), now_ms).len(),
    {
        broadcast use vstd::seq_lib::seq_to_set_is_finite;

        let ids = self.source_id_list();
        let ghost original = *self;
        assert(expired_ids(original, ids@.take(0).to_set(), now_ms) =~= Set::<u32>::empty());
        let ttl = self.limits.advisory_ttl_ms;
        let mut expired: usize = 0;
        let mut i: usize = 0;
        while i < ids.len()
            invariant
                0 <= i <= ids@.len(),
                ids@.to_set() == original.source_ids(),
                ids@.no_duplicates(),
                self.wf(),
                original.wf(),
                ttl == original.limits_spec().advisory_ttl_ms,
                self.limits_spec() == original.limits_spec(),
                self.metrics_spec() == original.metrics_spec(),
                self.source_ids() == original.source_ids(),
                forall|id: u32| #[trigger]
                    self.source(id) == if ids@.take(i as int).contains(id) {
                        expire_source(original.source(id), now_ms, ttl)
                    } else {
                        original.source(id)
                    },
                expired == expired_ids(original, ids@.take(i as int).to_set(), now_ms).len(),
                expired <= i,
            decreases ids@.len() - i,
        {
            let id = ids[i];
            let ghost done = ids@.take(i as int);
            assert(ids@.take(i + 1) =~= done.push(id));
            assert(!done.contains(id)) by {
                if done.contains(id) {
                    let j = choose|j: int| 0 <= j < done.len() && done[j] == id;
                    assert(ids@[j] == ids@[i as int]);
                }
            }
            assert(ids@.to_set().contains(id)) by {
                assert(ids@[i as int] == id);
            }
            proof {
                lemma_push_to_set(done, id);
                lemma_expired_ids_insert(original, done.to_set(), id, now_ms);
            }
            assert(self.source(id) == original.source(id));
            let stale = match self.sources.get(&id) {
                Some(entry) => match entry.peer {
                    Some(p) => p.has_snapshot && now_ms.saturating_sub(p.accepted_at_ms) > ttl,
                    None => false,
                },
                None => false,
            };
            assert(self.peer(id) == original.peer(id));
            assert(stale == holds_expired_snapshot(original, id, now_ms));
            let ghost mid = *self;
            if stale {
                let ghost before = self.sources@;
                proof {
                    assert(source_wf(before[id]@, self.limits));
                }
                let entry = self.sources.remove(&id).unwrap();
                let SourceEntry { peer, ingress } = entry;
                let mut p = peer.unwrap();
                p.has_snapshot = false;
                p.requires_keyframe = true;
                self.sources.insert(id, SourceEntry { peer: Some(p), ingress });
                proof {
                    self.lemma_reinsert(before, id);
                    assert(self.sources@.dom() =~= before.dom());
                }
                expired = expired + 1;
            }
            proof {
                assert forall|other: u32| #[trigger]
                    self.source(other) == if ids@.take(i + 1).contains(other) {
                        expire_source(original.source(other), now_ms, ttl)
                    } else {
                        original.source(other)
                    } by {
                    if other != id {
                        assert(mid.source(other) == self.source(other));
                        assert(ids@.take(i + 1).contains(other) == done.contains(other)) by {
                            if ids@.take(i + 1).contains(other) {
                                let j = choose|j: int| 0 <= j < i + 1 && #[trigger] ids@.take(i + 1)[j] == other;
                                assert(done[j] == other);
                            }
                            if done.contains(other) {
                                let j = choose|j: int| 0 <= j < done.len() && done[j] == other;
                                assert(ids@.take(i + 1)[j] == other);
                            }
                        }
                    } else {
                        assert(ids@.take(i + 1)[i as int] == id);
                    }
                }
            }
            i = i + 1;
        }
        assert(ids@.take(ids@.len() as int) =~= ids@);
        expired
    }

    /// The replay high-water marks of every authenticated source, one each,
    /// in ascending source-id order.
    pub fn replay_checkpoints(&self) -> (checkpoints: Vec<ReplayCheckpoint>)
        requires
            self.wf(),
        ensures
            forall|j: int| #![trigger checkpoints@[j]]
                0 <= j < checkpoints@.len() ==> self.peer(checkpoints@[j].source_id) is Some
                    && checkpoints@[j] == checkpoint_of(
                    checkpoints@[j].source_id,
                    self.peer(checkpoints@[j].source_id)->Some_0,
                ),
            forall|id: u32|
                #[trigger] self.peer(id) is Some ==> checkpoints@.contains(
                    checkpoint_of(id, self.peer(id)->Some_0),
                ),
            forall|a: int, b: int|
                0 <= a < b < checkpoints@.len() ==> checkpoints@[a].source_id
                    < checkpoints@[b].source_id,
            lists_checkpoints(*self, checkpoints@),
    {
        let ids = self.source_id_list();
        let mut checkpoints: Vec<ReplayCheckpoint> = Vec::new();
        let mut i: usize = 0;
        while i < ids.len()
            invariant
                0 <= i <= ids@.len(),
                ids@.to_set() == self.source_ids(),
                ids@.no_duplicates(),
                forall|j: int| #![trigger checkpoints@[j]]
                    0 <= j < checkpoints@.len() ==> self.peer(checkpoints@[j].source_id) is Some
                        && checkpoints@[j] == checkpoint_of(
                        checkpoints@[j].source_id,
                        self.peer(checkpoints@[j].source_id)->Some_0,
                    ) && ids@.take(i as int).contains(checkpoints@[j].source_id),
                forall|k: int|
                    0 <= k < i && #[trigger] self.peer(ids@[k]) is Some ==> checkpoints@.contains(
                        checkpoint_of(ids@[k], self.peer(ids@[k])->Some_0),
                    ),
                forall|a: int, b: int| 0 <= a < b < ids@.len() ==> ids@[a] < ids@[b],
                forall|a: int, b: int|
                    0 <= a < b < checkpoints@.len() ==> checkpoints@[a].source_id
                        < checkpoints@[b].source_id,
            decreases ids@.len() - i,
        {
            let id = ids[i];
            let ghost before = checkpoints@;
            assert(ids@.take(i + 1) =~= ids@.take(i as int).push(id));
            assert(!ids@.take(i as int).contains(id)) by {
                if ids@.take(i as int).contains(id) {
                    let j = choose|j: int| 0 <= j < i && ids@.take(i as int)[j] == id;
                    assert(ids@[j] == ids@[i as int]);
                }
            }
            assert forall|j: int| 0 <= j < before.len() implies before[j].source_id < id by {
                assert(ids@.take(i as int).contains(before[j].source_id));
                let m = choose|m: int| 0 <= m < i && ids@.take(i as int)[m] == before[j].source_id;
                assert(ids@[m] == before[j].source_id);
            }
            if let Some(p) = self.peer_runtime(id) {
                checkpoints.push(
                    ReplayCheckpoint {
                        source_id: id,
                        epoch: p.epoch,
                        last_logical_sequence: p.last_logical_sequence,
                        last_timestamp_ms: p.last_timestamp_ms,
                    },
                );
                proof {
                    assert(checkpoints@[checkpoints@.len() - 1] == checkpoint_of(id, p));
                }
            }
            proof {
                assert forall|j: int| #![trigger checkpoints@[j]]
                    0 <= j < checkpoints@.len() implies ids@.take(i + 1).contains(
                        checkpoints@[j].source_id,
                    ) by {
                    if j < before.len() {
                        assert(checkpoints@[j] == before[j]);
                        let m = choose|m: int|
                            0 <= m < i && ids@.take(i as int)[m] == before[j].source_id;
                        assert(ids@.take(i + 1)[m] == before[j].source_id);
                    } else {
                        assert(ids@.take(i + 1)[i as int] == id);
                    }
                }
                assert forall|k: int|
                    0 <= k < i + 1 && #[trigger] self.peer(ids@[k]) is Some implies checkpoints@.contains(
                        checkpoint_of(ids@[k], self.peer(ids@[k])->Some_0),
                    ) by {
                    if k < i {
                        let c = checkpoint_of(ids@[k], self.peer(ids@[k])->Some_0);
                        if checkpoints@ != before {
                            lemma_push_keeps_contains(before, checkpoints@[before.len() as int], c);
                            assert(checkpoints@ == before.push(checkpoints@[before.len() as int]));
                        }
                    } else {
                        assert(checkpoints@[checkpoints@.len() - 1] == checkpoint_of(
                            ids@[k],
                            self.peer(ids@[k])->Some_0,
                        ));
                    }
                }
            }
            i = i + 1;
        }
        proof {
            assert forall|id: u32| #[trigger] self.peer(id) is Some implies checkpoints@.contains(
                checkpoint_of(id, self.peer(id)->Some_0),
            ) by {
                assert(self.source_ids().contains(id));
                assert(ids@.to_set().contains(id));
                let k = choose|k: int| 0 <= k < ids@.len() && ids@[k] == id;
                assert(self.peer(ids@[k]) is Some);
            }
        }
        checkpoints
    }
}

/// A receiver never tracks more than `max_peers` sources, never counts more
/// than `max_frames_per_window` frames in a source's rate window, and never
/// holds more than `max_contexts` partial messages per source.
pub proof fn law_receive_state_is_bounded(s: RxState, id: u32)
    requires
        s.wf(),
    ensures
        s.active_sources() <= s.limits_spec().max_peers,
        s.source(id) matches Some(v) ==> (v.peer is Some || v.ingress is Some),
        s.source(id) matches Some(SourceView { ingress: Some(i), .. }) ==> {
            &&& i.rate.frames_in_window <= s.limits_spec().max_frames_per_window
            &&& i.contexts.len() <= s.limits_spec().max_contexts
        },
{
    if s.sources@.contains_key(id) {
        assert(source_wf(s.sources@[id]@, s.limits));
    }
}

/// A frame that passes the pre-authentication gate was counted in its
/// source's rate window, which stays within `max_frames_per_window`, and the
/// source's receive clock now stands at that frame's time.
pub proof fn law_frame_gate_counts_within_rate(
    l: RxLimits,
    active: nat,
    existing: Option<SourceView>,
    expected: u32,
    now: u64,
    stream_id: u16,
    profile_matches: bool,
    flags_match: bool,
    has_trusted_key: bool,
)
    requires
        frame_gate(l, active, existing, expected, now, stream_id, profile_matches, flags_match, has_trusted_key).2 is Ok,
    ensures
        ({
            let (entry, _, _) = frame_gate(
                l,
                active,
                existing,
                expected,
                now,
                stream_id,
                profile_matches,
                flags_match,
                has_trusted_key,
            );
            &&& entry matches Some(SourceView { ingress: Some(i), .. })
            &&& entry->Some_0.ingress->Some_0.rate.frames_in_window <= l.max_frames_per_window
            &&& entry->Some_0.ingress->Some_0.rate.frames_in_window >= 1
            &&& entry->Some_0.ingress->Some_0.rate.last_received_ms == Some(now)
        }),
        stream_id == stream_id_of(expected),
        has_trusted_key && profile_matches && flags_match,
{
}

/// Learned residuals never enter an advisory snapshot, whatever the
/// source's state.
pub proof fn law_learned_residuals_never_admitted(
    peer: Option<PeerRuntime>,
    envelope: EnvelopeHeader,
    keyframe: bool,
    residual_count: nat,
)
    requires
        residual_count != 0,
    ensures
        epoch_outcome(peer, envelope, keyframe, residual_count) == Err::<EpochEntry, ProtocolError>(
            ProtocolError::LearnedResidualForbidden,
        ),
{
}

/// An envelope that passes every admission screen moves its source's replay
/// state strictly forward: a newer epoch, or in the same epoch a greater
/// logical sequence and a timestamp that did not go backwards. A source's
/// first admission, or a new epoch, is a keyframe at logical sequence zero.
pub proof fn law_admission_advances_high_water(
    l: RxLimits,
    peer: Option<PeerRuntime>,
    envelope: EnvelopeHeader,
    keyframe: bool,
    verdict: ReplayVerdict,
    node_id: u32,
    timestamp_ms: u64,
    received_at_ms: u64,
)
    requires
        epoch_outcome(peer, envelope, keyframe, 0) is Ok,
        replay_outcome(peer, envelope, verdict) is Ok,
        snapshot_outcome(l, peer, envelope, node_id, timestamp_ms, received_at_ms) is Ok,
    ensures
        verdict == ReplayVerdict::Accept,
        node_id == envelope.source_id,
        timestamp_ms <= received_at_ms + l.max_future_skew_ms,
        sat_sub(received_at_ms, timestamp_ms) <= l.max_snapshot_age_ms,
        ({
            let next = admitted_peer(envelope, timestamp_ms, received_at_ms);
            match peer {
                Some(p) => {
                    ||| next.epoch > p.epoch && envelope.logical_sequence == 0 && keyframe
                    ||| next.epoch == p.epoch && next.last_logical_sequence > p.last_logical_sequence
                        && next.last_timestamp_ms >= p.last_timestamp_ms
                },
                None => envelope.logical_sequence == 0 && keyframe,
            }
        }),
{
}

/// Once an envelope is admitted, delivering it again is refused even if
/// the replay window were to accept its wire sequence.
pub proof fn law_admitted_envelope_cannot_replay(
    envelope: EnvelopeHeader,
    timestamp_ms: u64,
    received_at_ms: u64,
    verdict: ReplayVerdict,
)
    ensures
        replay_outcome(Some(admitted_peer(envelope, timestamp_ms, received_at_ms)), envelope, verdict)
            is Err,
        replay_outcome(
            Some(admitted_peer(envelope, timestamp_ms, received_at_ms)),
            envelope,
            ReplayVerdict::Accept,
        ) == Err::<(), ProtocolError>(
            ProtocolError::StaleLogical {
                source_id: envelope.source_id,
                received: envelope.logical_sequence,
                last: envelope.logical_sequence,
            },
        ),
{
}

/// A restored checkpoint rejects old messages of its epoch and admits no
/// delta of that epoch until a signed full keyframe arrives.
pub proof fn law_restored_checkpoint_requires_keyframe(
    checkpoint: ReplayCheckpoint,
    envelope: EnvelopeHeader,
)
    requires
        envelope.epoch == checkpoint.epoch,
    ensures
        epoch_outcome(Some(restored_peer(checkpoint)), envelope, false, 0) == Err::<
            EpochEntry,
            ProtocolError,
        >(ProtocolError::KeyframeRequired { source_id: envelope.source_id, epoch: envelope.epoch }),
        envelope.logical_sequence <= checkpoint.last_logical_sequence ==> replay_outcome(
            Some(restored_peer(checkpoint)),
            envelope,
            ReplayVerdict::Accept,
        ) is Err,
{
}

/// The TTL sweep drops advisory state but keeps the replay high-water marks,
/// and an expired source needs a keyframe before any delta.
pub proof fn law_expiry_keeps_replay_checkpoint(p: PeerRuntime, id: u32, now: u64, ttl: u64)
    ensures
        checkpoint_of(id, expire_peer(p, now, ttl)) == checkpoint_of(id, p),
        snapshot_expired(p, now, ttl) ==> !expire_peer(p, now, ttl).has_snapshot && expire_peer(
            p,
            now,
            ttl,
        ).requires_keyframe,
        !snapshot_expired(p, now, ttl) ==> expire_peer(p, now, ttl) == p,
{
}

/// Outer metadata bound to an envelope routes it by its own source's stream
/// and carries the low bits of its logical sequence, which is also its id.
pub proof fn law_binding_ties_metadata_to_signed_fields(
    expected: u32,
    envelope: EnvelopeHeader,
    message: MessageHeader,
    class_matches: bool,
    state_tag_matches: bool,
)
    requires
        binding_outcome(expected, envelope, message, class_matches, state_tag_matches) is Ok,
    ensures
        envelope.source_id == expected,
        message.stream_id == stream_id_of(expected),
        message.sequence == wire_sequence_of(envelope.logical_sequence),
        envelope.message_id == envelope.logical_sequence,
        message.priority == envelope.priority,
        class_matches && state_tag_matches,
{
}

} // verus!
