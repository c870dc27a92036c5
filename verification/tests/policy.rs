use ruview_swarm::latentmesh::policy::{
    AuthorityLevel, AuthorizedCapability, CapabilityGate, PolicyDropReason, RequestedAction,
    SecurityContext,
};

const NOW: u64 = 1_000_000;

fn context(authority: AuthorityLevel) -> SecurityContext {
    SecurityContext::from_local_verifier(true, true, NOW - 100, NOW + 10_000, authority)
}

#[test]
fn capability_gate_allows_only_the_five_coordination_capabilities() {
    let mut gate = CapabilityGate::default();
    assert!(gate.approve_manifest(7));
    let allowed = [
        RequestedAction::Observe,
        RequestedAction::StateSync,
        RequestedAction::SnapshotRequest,
        RequestedAction::NonbindingAdvisory,
        RequestedAction::CooperativeTaskProposal {
            manifest_id: 7,
            participant_count: 4,
            ttl_ms: 10_000,
            effort_units: 100,
        },
    ];
    for action in allowed {
        let authority = if matches!(
            action,
            RequestedAction::NonbindingAdvisory | RequestedAction::CooperativeTaskProposal { .. }
        ) {
            AuthorityLevel::MissionCoordination
        } else {
            AuthorityLevel::ObserveOnly
        };
        assert!(gate.authorize(NOW, &context(authority), action).is_ok());
    }
}

#[test]
fn every_flight_or_actuator_action_is_categorically_rejected() {
    let gate = CapabilityGate::default();
    let forbidden = [
        RequestedAction::ActuatorCommand,
        RequestedAction::Arm,
        RequestedAction::Disarm,
        RequestedAction::FlightModeChange,
        RequestedAction::AttitudeSetpoint,
        RequestedAction::RateSetpoint,
        RequestedAction::VelocitySetpoint,
        RequestedAction::PositionSetpoint,
        RequestedAction::GeofenceOverride,
        RequestedAction::FailsafeOverride,
        RequestedAction::PayloadRelease,
    ];
    for action in forbidden {
        assert_eq!(
            gate.authorize(NOW, &context(AuthorityLevel::ObserveOnly), action),
            Err(PolicyDropReason::ForbiddenAction)
        );
    }
}

#[test]
fn unknown_excessive_untrusted_and_stale_inputs_fail_closed() {
    let gate = CapabilityGate::default();
    assert_eq!(
        gate.authorize(
            NOW,
            &context(AuthorityLevel::ObserveOnly),
            RequestedAction::Unknown(77)
        ),
        Err(PolicyDropReason::UnknownAction)
    );
    assert_eq!(
        gate.authorize(
            NOW,
            &context(AuthorityLevel::FlightAuthority),
            RequestedAction::NonbindingAdvisory
        ),
        Err(PolicyDropReason::ExcessiveAuthority)
    );
    let bad = SecurityContext::from_local_verifier(
        false,
        true,
        NOW - 100,
        NOW + 10_000,
        AuthorityLevel::ObserveOnly,
    );
    assert_eq!(
        gate.authorize(NOW, &bad, RequestedAction::Observe),
        Err(PolicyDropReason::Unauthenticated)
    );
    let bad = SecurityContext::from_local_verifier(
        true,
        false,
        NOW - 100,
        NOW + 10_000,
        AuthorityLevel::ObserveOnly,
    );
    assert_eq!(
        gate.authorize(NOW, &bad, RequestedAction::Observe),
        Err(PolicyDropReason::UntrustedSource)
    );
    let bad = SecurityContext::from_local_verifier(
        true,
        true,
        NOW - 31_000,
        NOW + 10_000,
        AuthorityLevel::ObserveOnly,
    );
    assert_eq!(
        gate.authorize(NOW, &bad, RequestedAction::Observe),
        Err(PolicyDropReason::StaleInput)
    );
}

#[test]
fn bounded_proposals_are_enforced() {
    let mut gate = CapabilityGate::default();
    assert!(gate.approve_manifest(7));
    let action = RequestedAction::CooperativeTaskProposal {
        manifest_id: 7,
        participant_count: 65,
        ttl_ms: 1,
        effort_units: 1,
    };
    assert_eq!(
        gate.authorize(NOW, &context(AuthorityLevel::MissionCoordination), action),
        Err(PolicyDropReason::ProposalOutOfBounds)
    );
}

#[test]
fn cooperative_proposals_require_a_locally_approved_manifest() {
    let mut gate = CapabilityGate::default();
    let action = RequestedAction::CooperativeTaskProposal {
        manifest_id: 41,
        participant_count: 4,
        ttl_ms: 1_000,
        effort_units: 10,
    };
    assert_eq!(
        gate.authorize(NOW, &context(AuthorityLevel::MissionCoordination), action),
        Err(PolicyDropReason::ManifestNotApproved)
    );
    assert!(gate.approve_manifest(41));
    assert_eq!(
        gate.authorize(NOW, &context(AuthorityLevel::MissionCoordination), action),
        Ok(AuthorizedCapability::CooperativeTaskProposal)
    );
    assert!(gate.revoke_manifest(41));
    assert_eq!(
        gate.authorize(NOW, &context(AuthorityLevel::MissionCoordination), action),
        Err(PolicyDropReason::ManifestNotApproved)
    );
    assert!(!gate.approve_manifest(0));
}
