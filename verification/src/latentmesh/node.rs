//! Safe composition boundary for protocol, policy, and operational metrics.
//!
//! A node can publish read-only local telemetry, verify remote observations,
//! and evaluate delivery policy. It owns no flight controller, topology,
//! geofence, actuator, or fail-safe mutation handle.

use vstd::prelude::*;

use super::metrics::{
    after_drop, after_residual_suppressed, sat_add, DropCounter, LatentMeshMetrics, MetricsSnapshot,
};
use super::policy::{sat_mul, saturating_mul, AuthorityLevel, SecurityContext};
use super::protocol::ProtocolError;

verus! {

/// Expiry of the observe-only context attached to an advisory received at
/// `received_at_ms`: the shorter of the advisory TTL and the policy's
/// maximum context age, saturating.
pub open spec fn observe_only_expiry(received_at_ms: u64, advisory_ttl_ms: u64, max_context_age_ms: u64) -> u64 {
    sat_add(
        received_at_ms,
        if advisory_ttl_ms <= max_context_age_ms {
            advisory_ttl_ms
        } else {
            max_context_age_ms
        },
    )
}

/// A verified observation paired with locally constructed trust metadata.
///
/// The fields are private so a deserialized radio payload cannot manufacture
/// this type. It remains advisory and carries no flight-control capability:
/// its context is always observe-only.
#[derive(Clone, Debug)]
pub struct VerifiedAdvisory<R> {
    received: R,
    security: SecurityContext,
}

impl<R> VerifiedAdvisory<R> {
    pub closed spec fn received_spec(self) -> R {
        self.received
    }

    pub closed spec fn context_spec(self) -> SecurityContext {
        self.security
    }

    /// Pair an advisory whose signature was verified at `received_at_ms` with
    /// its authenticated, trusted, observe-only context.
    pub fn new(received: R, received_at_ms: u64, advisory_ttl_ms: u64, max_context_age_ms: u64) -> (advisory: Self)
        ensures
            advisory.received_spec() == received,
            advisory.context_spec().authenticated_flag(),
            advisory.context_spec().trusted_flag(),
            advisory.context_spec().issued_at() == received_at_ms,
            advisory.context_spec().expires_at() == observe_only_expiry(
                received_at_ms,
                advisory_ttl_ms,
                max_context_age_ms,
            ),
            advisory.context_spec().authority() == AuthorityLevel::ObserveOnly,
    {
        let context_age = if advisory_ttl_ms <= max_context_age_ms {
            advisory_ttl_ms
        } else {
            max_context_age_ms
        };
        VerifiedAdvisory {
            received,
            security: SecurityContext::verified_observe_only(
                received_at_ms,
                received_at_ms.saturating_add(context_age),
            ),
        }
    }

    pub fn received(&self) -> (received: &R)
        ensures
            *received == self.received_spec(),
    {
        &self.received
    }

    pub fn security_context(&self) -> (context: &SecurityContext)
        ensures
            *context == self.context_spec(),
    {
        &self.security
    }

    pub fn into_received(self) -> (received: R)
        ensures
            received == self.received_spec(),
    {
        self.received
    }
}

/// The operational counter a protocol rejection is recorded in.
pub open spec fn protocol_drop_counter(error: ProtocolError) -> DropCounter {
    match error {
        ProtocolError::AuthenticationFailed
        | ProtocolError::SignatureRequired
        | ProtocolError::UntrustedPeer(_)
        | ProtocolError::SourceHintMismatch { .. } => DropCounter::Authentication,
        ProtocolError::Replay { .. }
        | ProtocolError::TooOld { .. }
        | ProtocolError::StaleEpoch { .. }
        | ProtocolError::StaleLogical { .. }
        | ProtocolError::CheckpointRollback { .. } => DropCounter::Replay,
        ProtocolError::StaleTimestamp { .. }
        | ProtocolError::SnapshotTooOld { .. }
        | ProtocolError::SnapshotFromFuture { .. }
        | ProtocolError::ReceiveClockRegression { .. }
        | ProtocolError::KeyframeRequired { .. } => DropCounter::Stale,
        _ => DropCounter::Policy,
    }
}

/// The counters after a protocol rejection: one drop in its counter, a
/// residual suppression for a learned residual, and a reassembly failure for
/// any codec failure.
pub open spec fn after_protocol_drop(m: MetricsSnapshot, error: ProtocolError) -> MetricsSnapshot {
    let dropped = after_drop(m, protocol_drop_counter(error));
    let suppressed = if error == ProtocolError::LearnedResidualForbidden {
        after_residual_suppressed(dropped)
    } else {
        dropped
    };
    if error is Air {
        MetricsSnapshot {
            reassembly_failures: sat_add(suppressed.reassembly_failures, 1),
            ..suppressed
        }
    } else {
        suppressed
    }
}

/// Count a protocol rejection without retaining payload data.
pub fn record_protocol_drop(metrics: &mut LatentMeshMetrics, error: &ProtocolError)
    ensures
        final(metrics)@ == after_protocol_drop(old(metrics)@, *error),
{
    let counter = match error {
        ProtocolError::AuthenticationFailed
        | ProtocolError::SignatureRequired
        | ProtocolError::UntrustedPeer(_)
        | ProtocolError::SourceHintMismatch { .. } => DropCounter::Authentication,
        ProtocolError::Replay { .. }
        | ProtocolError::TooOld { .. }
        | ProtocolError::StaleEpoch { .. }
        | ProtocolError::StaleLogical { .. }
        | ProtocolError::CheckpointRollback { .. } => DropCounter::Replay,
        ProtocolError::StaleTimestamp { .. }
        | ProtocolError::SnapshotTooOld { .. }
        | ProtocolError::SnapshotFromFuture { .. }
        | ProtocolError::ReceiveClockRegression { .. }
        | ProtocolError::KeyframeRequired { .. } => DropCounter::Stale,
        _ => DropCounter::Policy,
    };
    metrics.record_drop(counter);
    if let ProtocolError::LearnedResidualForbidden = error {
        metrics.record_residual_suppressed();
    }
    if let ProtocolError::Air(_) = error {
        metrics.record_reassembly_failure();
    }
}

/// Wire bytes of a received message: its encoded size plus one minimal
/// frame overhead per fragment, saturating.
pub open spec fn received_wire_bytes(encoded_message_bytes: usize, fragment_count: u8, frame_min_bytes: usize) -> u64 {
    sat_add(encoded_message_bytes as u64, sat_mul(fragment_count as u64, frame_min_bytes as u64))
}

/// Count a verified receipt: its logical and wire bytes and one completed
/// reassembly of `fragment_count` fragments.
pub fn record_verified_receipt(
    metrics: &mut LatentMeshMetrics,
    encoded_message_bytes: usize,
    fragment_count: u8,
    frame_min_bytes: usize,
)
    ensures
        final(metrics)@ == (MetricsSnapshot {
            received_messages: sat_add(old(metrics)@.received_messages, 1),
            received_logical_bytes: sat_add(
                old(metrics)@.received_logical_bytes,
                encoded_message_bytes as u64,
            ),
            received_wire_bytes: sat_add(
                old(metrics)@.received_wire_bytes,
                received_wire_bytes(encoded_message_bytes, fragment_count, frame_min_bytes),
            ),
            reassemblies_completed: sat_add(old(metrics)@.reassemblies_completed, 1),
            reassembled_fragments: sat_add(old(metrics)@.reassembled_fragments, fragment_count as u64),
            ..old(metrics)@
        }),
{
    let logical_bytes = encoded_message_bytes as u64;
    let wire_bytes = logical_bytes.saturating_add(
        saturating_mul(fragment_count as u64, frame_min_bytes as u64),
    );
    metrics.record_receive(logical_bytes, wire_bytes);
    metrics.record_reassembly_completed(fragment_count as u64);
}

/// Sum of frame lengths, saturating.
pub open spec fn total_frame_bytes(lengths: Seq<usize>) -> u64
    decreases lengths.len(),
{
    if lengths.len() == 0 {
        0
    } else {
        sat_add(total_frame_bytes(lengths.drop_last()), lengths.last() as u64)
    }
}

/// Count a transmission of `logical_bytes` carried by frames of the given
/// encoded lengths.
pub fn record_transmission(metrics: &mut LatentMeshMetrics, logical_bytes: u64, frame_lengths: &[usize])
    ensures
        final(metrics)@ == (MetricsSnapshot {
            sent_messages: sat_add(old(metrics)@.sent_messages, 1),
            sent_logical_bytes: sat_add(old(metrics)@.sent_logical_bytes, logical_bytes),
            sent_wire_bytes: sat_add(old(metrics)@.sent_wire_bytes, total_frame_bytes(frame_lengths@)),
            ..old(metrics)@
        }),
{
    let mut wire_bytes: u64 = 0;
    let mut i: usize = 0;
    while i < frame_lengths.len()
        invariant
            0 <= i <= frame_lengths@.len(),
            wire_bytes == total_frame_bytes(frame_lengths@.take(i as int)),
        decreases frame_lengths@.len() - i,
    {
        assert(frame_lengths@.take(i + 1).drop_last() =~= frame_lengths@.take(i as int));
        wire_bytes = wire_bytes.saturating_add(frame_lengths[i] as u64);
        i = i + 1;
    }
    assert(frame_lengths@.take(frame_lengths@.len() as int) =~= frame_lengths@);
    metrics.record_send(logical_bytes, wire_bytes);
}

/// Every verified advisory is observe-only, authenticated and trusted, and
/// its context never outlives the advisory TTL or the maximum context age.
pub proof fn law_verified_advisories_are_observe_only<R>(advisory: VerifiedAdvisory<R>, received_at_ms: u64, advisory_ttl_ms: u64, max_context_age_ms: u64)
    requires
        advisory.context_spec().issued_at() == received_at_ms,
        advisory.context_spec().expires_at() == observe_only_expiry(
            received_at_ms,
            advisory_ttl_ms,
            max_context_age_ms,
        ),
    ensures
        advisory.context_spec().expires_at() <= received_at_ms + advisory_ttl_ms,
        advisory.context_spec().expires_at() <= received_at_ms + max_context_age_ms,
        advisory.context_spec().expires_at() >= advisory.context_spec().issued_at(),
{
}

} // verus!
