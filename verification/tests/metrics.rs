use ruview_swarm::latentmesh::metrics::{
    load, saturating_add, DropCounter, LatentMeshMetrics, MetricsSnapshot,
};
use ruview_swarm::latentmesh::policy::PolicyDropReason;

#[test]
fn snapshot_starts_at_zero_and_tracks_wire_vs_logical_bytes() {
    let mut metrics = LatentMeshMetrics::new();
    assert_eq!(metrics.snapshot(), MetricsSnapshot::default());
    metrics.record_send(100, 70);
    metrics.record_receive(200, 140);
    let snapshot = metrics.snapshot();
    assert_eq!(snapshot.sent_messages, 1);
    assert_eq!(snapshot.received_messages, 1);
    assert_eq!(snapshot.sent_logical_bytes, 100);
    assert_eq!(snapshot.sent_wire_bytes, 70);
    assert_eq!(snapshot.received_logical_bytes, 200);
    assert_eq!(snapshot.received_wire_bytes, 140);
}

#[test]
fn security_policy_and_reassembly_events_are_distinct() {
    let mut metrics = LatentMeshMetrics::new();
    metrics.record_drop(DropCounter::Authentication);
    metrics.record_drop(DropCounter::Replay);
    metrics.record_drop(DropCounter::Stale);
    metrics.record_drop(DropCounter::Policy);
    metrics.record_reassembly_completed(4);
    metrics.record_reassembly_failure();
    metrics.record_residual_suppressed();
    let snapshot = metrics.snapshot();
    assert_eq!(snapshot.authentication_drops, 1);
    assert_eq!(snapshot.replay_drops, 1);
    assert_eq!(snapshot.stale_drops, 1);
    assert_eq!(snapshot.policy_drops, 1);
    assert_eq!(snapshot.reassemblies_completed, 1);
    assert_eq!(snapshot.reassembly_failures, 1);
    assert_eq!(snapshot.reassembled_fragments, 4);
    assert_eq!(snapshot.residual_suppressions, 1);
}

#[test]
fn policy_reasons_are_classified_without_payload_context() {
    let mut metrics = LatentMeshMetrics::new();
    metrics.record_policy_drop(PolicyDropReason::Unauthenticated);
    metrics.record_policy_drop(PolicyDropReason::StaleInput);
    metrics.record_policy_drop(PolicyDropReason::ResidualNotValidated);
    let snapshot = metrics.snapshot();
    assert_eq!(snapshot.authentication_drops, 1);
    assert_eq!(snapshot.stale_drops, 1);
    assert_eq!(snapshot.policy_drops, 1);
    assert_eq!(snapshot.residual_suppressions, 1);
}

#[test]
fn counters_saturate_instead_of_wrapping() {
    let mut counter: u64 = u64::MAX - 1;
    saturating_add(&mut counter, 10);
    assert_eq!(load(&counter), u64::MAX);
}

#[test]
fn snapshot_debug_surface_contains_counts_not_sensitive_context() {
    let mut metrics = LatentMeshMetrics::new();
    metrics.record_send(7, 9);
    let debug = format!("{:?}", metrics.snapshot());
    assert!(debug.contains("sent_wire_bytes"));
    assert!(!debug.contains("payload"));
    assert!(!debug.contains("peer"));
    assert!(!debug.contains("token"));
    assert!(!debug.contains("key"));
}

#[test]
fn repeated_recording_accumulates_exact_totals() {
    let mut metrics = LatentMeshMetrics::new();
    for _ in 0..4_000 {
        metrics.record_send(10, 12);
        metrics.record_drop(DropCounter::Policy);
    }
    let snapshot = metrics.snapshot();
    assert_eq!(snapshot.sent_messages, 4_000);
    assert_eq!(snapshot.sent_logical_bytes, 40_000);
    assert_eq!(snapshot.sent_wire_bytes, 48_000);
    assert_eq!(snapshot.policy_drops, 4_000);
}

#[test]
fn byte_totals_saturate_at_the_counter_limit() {
    let mut metrics = LatentMeshMetrics::new();
    metrics.record_send(u64::MAX - 5, 1);
    metrics.record_send(100, 1);
    let snapshot = metrics.snapshot();
    assert_eq!(snapshot.sent_logical_bytes, u64::MAX);
    assert_eq!(snapshot.sent_wire_bytes, 2);
    assert_eq!(snapshot.sent_messages, 2);
}

#[test]
fn every_policy_reason_lands_in_exactly_one_counter() {
    let reasons = [
        PolicyDropReason::InvalidMetric,
        PolicyDropReason::Unauthenticated,
        PolicyDropReason::UntrustedSource,
        PolicyDropReason::StaleInput,
        PolicyDropReason::DeadlineExpired,
        PolicyDropReason::DeadlineUnreachable,
        PolicyDropReason::UnknownAction,
        PolicyDropReason::ForbiddenAction,
        PolicyDropReason::ExcessiveAuthority,
        PolicyDropReason::ProposalOutOfBounds,
        PolicyDropReason::ManifestNotApproved,
        PolicyDropReason::TrafficClassMismatch,
        PolicyDropReason::LinkTooDegraded,
        PolicyDropReason::EnergyBudgetExceeded,
        PolicyDropReason::ResidualNotValidated,
        PolicyDropReason::InsufficientUtility,
    ];
    for reason in reasons {
        let mut metrics = LatentMeshMetrics::new();
        metrics.record_policy_drop(reason);
        let s = metrics.snapshot();
        let total = s.authentication_drops + s.replay_drops + s.stale_drops + s.policy_drops;
        let residual = s.residual_suppressions;
        assert_eq!(total, 1, "{reason:?}");
        assert_eq!(residual, u64::from(reason == PolicyDropReason::ResidualNotValidated));
    }
}
