//! Payload-agnostic counters for a LatentMesh node.
//!
//! Counters accept only sizes and event categories. They never retain peer
//! identifiers, payloads, signatures, tokens, or key material. Every update
//! saturates at `u64::MAX` instead of wrapping, so a security counter can never
//! become misleadingly small.

use vstd::prelude::*;

use super::policy::PolicyDropReason;

verus! {

/// Operational drop categories.
#[derive(Clone, Copy, Debug, PartialEq, Eq, Structural)]
pub enum DropCounter {
    Authentication,
    Replay,
    Stale,
    Policy,
}

/// Copyable point-in-time view suitable for telemetry or tests.
#[derive(Clone, Copy, Debug, Default, PartialEq, Eq, Structural)]
pub struct MetricsSnapshot {
    pub sent_messages: u64,
    pub received_messages: u64,
    pub sent_logical_bytes: u64,
    pub sent_wire_bytes: u64,
    pub received_logical_bytes: u64,
    pub received_wire_bytes: u64,
    pub authentication_drops: u64,
    pub replay_drops: u64,
    pub stale_drops: u64,
    pub policy_drops: u64,
    pub reassemblies_completed: u64,
    pub reassembly_failures: u64,
    pub reassembled_fragments: u64,
    pub residual_suppressions: u64,
}

/// `a + b`, clamped to `u64::MAX`.
pub open spec fn sat_add(a: u64, b: u64) -> u64 {
    if a + b > u64::MAX {
        u64::MAX
    } else {
        (a + b) as u64
    }
}

/// The snapshot whose every counter is zero.
pub open spec fn zero_snapshot() -> MetricsSnapshot {
    MetricsSnapshot {
        sent_messages: 0,
        received_messages: 0,
        sent_logical_bytes: 0,
        sent_wire_bytes: 0,
        received_logical_bytes: 0,
        received_wire_bytes: 0,
        authentication_drops: 0,
        replay_drops: 0,
        stale_drops: 0,
        policy_drops: 0,
        reassemblies_completed: 0,
        reassembly_failures: 0,
        reassembled_fragments: 0,
        residual_suppressions: 0,
    }
}

/// Add `value` to a counter, saturating at `u64::MAX`.
pub fn saturating_add(counter: &mut u64, value: u64)
    ensures
        *final(counter) == sat_add(*old(counter), value),
{
    *counter = counter.saturating_add(value);
}

/// Read a counter.
pub fn load(counter: &u64) -> (value: u64)
    ensures
        value == *counter,
{
    *counter
}

/// Counters for one node. The view is the current snapshot.
#[derive(Debug, Default)]
pub struct LatentMeshMetrics {
    sent_messages: u64,
    received_messages: u64,
    sent_logical_bytes: u64,
    sent_wire_bytes: u64,
    received_logical_bytes: u64,
    received_wire_bytes: u64,
    authentication_drops: u64,
    replay_drops: u64,
    stale_drops: u64,
    policy_drops: u64,
    reassemblies_completed: u64,
    reassembly_failures: u64,
    reassembled_fragments: u64,
    residual_suppressions: u64,
}

impl View for LatentMeshMetrics {
    type V = MetricsSnapshot;

    closed spec fn view(&self) -> MetricsSnapshot {
        MetricsSnapshot {
            sent_messages: self.sent_messages,
            received_messages: self.received_messages,
            sent_logical_bytes: self.sent_logical_bytes,
            sent_wire_bytes: self.sent_wire_bytes,
            received_logical_bytes: self.received_logical_bytes,
            received_wire_bytes: self.received_wire_bytes,
            authentication_drops: self.authentication_drops,
            replay_drops: self.replay_drops,
            stale_drops: self.stale_drops,
            policy_drops: self.policy_drops,
            reassemblies_completed: self.reassemblies_completed,
            reassembly_failures: self.reassembly_failures,
            reassembled_fragments: self.reassembled_fragments,
            residual_suppressions: self.residual_suppressions,
        }
    }
}

/// The snapshot after one drop of kind `kind`.
pub open spec fn after_drop(m: MetricsSnapshot, kind: DropCounter) -> MetricsSnapshot {
    match kind {
        DropCounter::Authentication => MetricsSnapshot {
            authentication_drops: sat_add(m.authentication_drops, 1),
            ..m
        },
        DropCounter::Replay => MetricsSnapshot { replay_drops: sat_add(m.replay_drops, 1), ..m },
        DropCounter::Stale => MetricsSnapshot { stale_drops: sat_add(m.stale_drops, 1), ..m },
        DropCounter::Policy => MetricsSnapshot { policy_drops: sat_add(m.policy_drops, 1), ..m },
    }
}

/// The stable operational counter that a policy rejection is classified under.
pub open spec fn policy_drop_counter(reason: PolicyDropReason) -> DropCounter {
    match reason {
        PolicyDropReason::Unauthenticated | PolicyDropReason::UntrustedSource => {
            DropCounter::Authentication
        },
        PolicyDropReason::StaleInput | PolicyDropReason::DeadlineExpired => DropCounter::Stale,
        _ => DropCounter::Policy,
    }
}

/// The snapshot after one residual suppression.
pub open spec fn after_residual_suppressed(m: MetricsSnapshot) -> MetricsSnapshot {
    MetricsSnapshot { residual_suppressions: sat_add(m.residual_suppressions, 1), ..m }
}

/// The snapshot after a policy rejection for `reason`: one drop in its
/// classified counter and, for a residual rejection, one residual suppression.
pub open spec fn after_policy_drop(m: MetricsSnapshot, reason: PolicyDropReason) -> MetricsSnapshot {
    let dropped = after_drop(m, policy_drop_counter(reason));
    if reason == PolicyDropReason::ResidualNotValidated {
        after_residual_suppressed(dropped)
    } else {
        dropped
    }
}

impl LatentMeshMetrics {
    pub fn new() -> (metrics: Self)
        ensures
            metrics@ == zero_snapshot(),
    {
        LatentMeshMetrics {
            sent_messages: 0,
            received_messages: 0,
            sent_logical_bytes: 0,
            sent_wire_bytes: 0,
            received_logical_bytes: 0,
            received_wire_bytes: 0,
            authentication_drops: 0,
            replay_drops: 0,
            stale_drops: 0,
            policy_drops: 0,
            reassemblies_completed: 0,
            reassembly_failures: 0,
            reassembled_fragments: 0,
            residual_suppressions: 0,
        }
    }

    pub fn record_send(&mut self, logical_bytes: u64, wire_bytes: u64)
        ensures
            final(self)@ == (MetricsSnapshot {
                sent_messages: sat_add(old(self)@.sent_messages, 1),
                sent_logical_bytes: sat_add(old(self)@.sent_logical_bytes, logical_bytes),
                sent_wire_bytes: sat_add(old(self)@.sent_wire_bytes, wire_bytes),
                ..old(self)@
            }),
    {
        saturating_add(&mut self.sent_messages, 1);
        saturating_add(&mut self.sent_logical_bytes, logical_bytes);
        saturating_add(&mut self.sent_wire_bytes, wire_bytes);
    }

    pub fn record_receive(&mut self, logical_bytes: u64, wire_bytes: u64)
        ensures
            final(self)@ == (MetricsSnapshot {
                received_messages: sat_add(old(self)@.received_messages, 1),
                received_logical_bytes: sat_add(old(self)@.received_logical_bytes, logical_bytes),
                received_wire_bytes: sat_add(old(self)@.received_wire_bytes, wire_bytes),
                ..old(self)@
            }),
    {
        saturating_add(&mut self.received_messages, 1);
        saturating_add(&mut self.received_logical_bytes, logical_bytes);
        saturating_add(&mut self.received_wire_bytes, wire_bytes);
    }

    pub fn record_drop(&mut self, kind: DropCounter)
        ensures
            final(self)@ == after_drop(old(self)@, kind),
    {
        match kind {
            DropCounter::Authentication => saturating_add(&mut self.authentication_drops, 1),
            DropCounter::Replay => saturating_add(&mut self.replay_drops, 1),
            DropCounter::Stale => saturating_add(&mut self.stale_drops, 1),
            DropCounter::Policy => saturating_add(&mut self.policy_drops, 1),
        }
    }

    /// Classify a policy rejection into the stable operational counters. A
    /// residual rejection increments both the policy and residual counters so
    /// suppression remains visible without recording residual contents.
    pub fn record_policy_drop(&mut self, reason: PolicyDropReason)
        ensures
            final(self)@ == after_policy_drop(old(self)@, reason),
    {
        let kind = match reason {
            PolicyDropReason::Unauthenticated | PolicyDropReason::UntrustedSource => {
                DropCounter::Authentication
            },
            PolicyDropReason::StaleInput | PolicyDropReason::DeadlineExpired => DropCounter::Stale,
            _ => DropCounter::Policy,
        };
        self.record_drop(kind);
        if reason == PolicyDropReason::ResidualNotValidated {
            self.record_residual_suppressed();
        }
    }

    /// Record successful reconstruction of one logical message.
    pub fn record_reassembly_completed(&mut self, fragment_count: u64)
        ensures
            final(self)@ == (MetricsSnapshot {
                reassemblies_completed: sat_add(old(self)@.reassemblies_completed, 1),
                reassembled_fragments: sat_add(old(self)@.reassembled_fragments, fragment_count),
                ..old(self)@
            }),
    {
        saturating_add(&mut self.reassemblies_completed, 1);
        saturating_add(&mut self.reassembled_fragments, fragment_count);
    }

    pub fn record_reassembly_failure(&mut self)
        ensures
            final(self)@ == (MetricsSnapshot {
                reassembly_failures: sat_add(old(self)@.reassembly_failures, 1),
                ..old(self)@
            }),
    {
        saturating_add(&mut self.reassembly_failures, 1);
    }

    pub fn record_residual_suppressed(&mut self)
        ensures
            final(self)@ == after_residual_suppressed(old(self)@),
    {
        saturating_add(&mut self.residual_suppressions, 1);
    }

    pub fn snapshot(&self) -> (snapshot: MetricsSnapshot)
        ensures
            snapshot == self@,
    {
        MetricsSnapshot {
            sent_messages: load(&self.sent_messages),
            received_messages: load(&self.received_messages),
            sent_logical_bytes: load(&self.sent_logical_bytes),
            sent_wire_bytes: load(&self.sent_wire_bytes),
            received_logical_bytes: load(&self.received_logical_bytes),
            received_wire_bytes: load(&self.received_wire_bytes),
            authentication_drops: load(&self.authentication_drops),
            replay_drops: load(&self.replay_drops),
            stale_drops: load(&self.stale_drops),
            policy_drops: load(&self.policy_drops),
            reassemblies_completed: load(&self.reassemblies_completed),
            reassembly_failures: load(&self.reassembly_failures),
            reassembled_fragments: load(&self.reassembled_fragments),
            residual_suppressions: load(&self.residual_suppressions),
        }
    }
}

/// A counter never decreases and never wraps: it grows by exactly the value
/// added, or stops at `u64::MAX`.
pub proof fn law_counters_saturate_instead_of_wrapping(counter: u64, value: u64)
    ensures
        sat_add(counter, value) >= counter,
        sat_add(counter, value) == counter + value || sat_add(counter, value) == u64::MAX,
        counter + value > u64::MAX ==> sat_add(counter, value) == u64::MAX,
{
}

/// Authentication and trust rejections land in the authentication counter,
/// staleness and expired deadlines in the stale counter, everything else in
/// the policy counter; a residual rejection is additionally counted as a
/// suppression, and no other counter moves.
pub proof fn law_policy_drops_are_classified(m: MetricsSnapshot, reason: PolicyDropReason)
    ensures
        ({
            let after = after_policy_drop(m, reason);
            &&& after.sent_messages == m.sent_messages
            &&& after.received_messages == m.received_messages
            &&& after.replay_drops == m.replay_drops
            &&& after.reassemblies_completed == m.reassemblies_completed
            &&& after.reassembly_failures == m.reassembly_failures
            &&& (reason == PolicyDropReason::Unauthenticated || reason
                == PolicyDropReason::UntrustedSource) ==> after.authentication_drops == sat_add(
                m.authentication_drops,
                1,
            ) && after.policy_drops == m.policy_drops
            &&& (reason == PolicyDropReason::StaleInput || reason
                == PolicyDropReason::DeadlineExpired) ==> after.stale_drops == sat_add(
                m.stale_drops,
                1,
            ) && after.policy_drops == m.policy_drops
            &&& reason == PolicyDropReason::ResidualNotValidated ==> after.policy_drops == sat_add(
                m.policy_drops,
                1,
            ) && after.residual_suppressions == sat_add(m.residual_suppressions, 1)
            &&& reason != PolicyDropReason::ResidualNotValidated ==> after.residual_suppressions
                == m.residual_suppressions
        }),
{
}

} // verus!
