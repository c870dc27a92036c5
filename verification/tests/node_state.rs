use ed25519_dalek::{Signer, SigningKey};
use ruview_swarm::latentmesh::metrics::{DropCounter, LatentMeshMetrics};
use ruview_swarm::latentmesh::node::{
    record_protocol_drop, record_transmission, record_verified_receipt, VerifiedAdvisory,
};
use ruview_swarm::latentmesh::policy::{
    expanded_wire_bytes, AuthorityLevel, CapabilityGate, RequestedAction, Redundancy,
};
use ruview_swarm::latentmesh::protocol::{AirError, ProtocolError};
use ruview_swarm::latentmesh::signature::{require_signature_and_key, verify_envelope_signature};
use ruview_swarm::latentmesh::state::{
    decode_identity, failsafe_code, failsafe_from_code, required_field_ids, required_q16_raw,
    required_u64, validate_field_set, FailSafeState, StateError, Symbol, FIELD_NODE_ID,
    FIELD_SCHEMA_VERSION,
};

#[test]
fn verified_advisories_are_observe_only_and_expire_within_the_context_age() {
    let advisory = VerifiedAdvisory::new(42u8, 1_000, 60_000, 30_000);
    let context = advisory.security_context();
    assert!(context.is_authenticated());
    assert!(context.is_trusted_source());
    assert_eq!(context.requested_authority(), AuthorityLevel::ObserveOnly);
    assert_eq!(context.issued_at_ms(), 1_000);
    assert_eq!(context.expires_at_ms(), 31_000);
    assert_eq!(*advisory.received(), 42);
    let short = VerifiedAdvisory::new((), 1_000, 5_000, 30_000);
    assert_eq!(short.security_context().expires_at_ms(), 6_000);
    let gate = CapabilityGate::default();
    assert!(gate
        .authorize(2_000, advisory.security_context(), RequestedAction::Observe)
        .is_ok());
    assert!(gate
        .authorize(2_000, advisory.security_context(), RequestedAction::NonbindingAdvisory)
        .is_ok());
    assert_eq!(advisory.into_received(), 42);
}

#[test]
fn protocol_drops_are_counted_by_category() {
    let mut metrics = LatentMeshMetrics::new();
    record_protocol_drop(&mut metrics, &ProtocolError::AuthenticationFailed);
    record_protocol_drop(&mut metrics, &ProtocolError::Replay { source_id: 1, epoch: 1 });
    record_protocol_drop(&mut metrics, &ProtocolError::SnapshotTooOld { source_id: 1 });
    record_protocol_drop(&mut metrics, &ProtocolError::LearnedResidualForbidden);
    record_protocol_drop(&mut metrics, &ProtocolError::Air(AirError::CrcMismatch));
    let s = metrics.snapshot();
    assert_eq!(s.authentication_drops, 1);
    assert_eq!(s.replay_drops, 1);
    assert_eq!(s.stale_drops, 1);
    assert_eq!(s.policy_drops, 2);
    assert_eq!(s.residual_suppressions, 1);
    assert_eq!(s.reassembly_failures, 1);
    metrics.record_drop(DropCounter::Replay);
    assert_eq!(metrics.snapshot().replay_drops, 2);
}

#[test]
fn receipts_and_transmissions_count_wire_overhead() {
    let mut metrics = LatentMeshMetrics::new();
    record_verified_receipt(&mut metrics, 300, 3, 20);
    record_transmission(&mut metrics, 300, &[120, 120, 100]);
    let s = metrics.snapshot();
    assert_eq!(s.received_messages, 1);
    assert_eq!(s.received_logical_bytes, 300);
    assert_eq!(s.received_wire_bytes, 360);
    assert_eq!(s.reassemblies_completed, 1);
    assert_eq!(s.reassembled_fragments, 3);
    assert_eq!(s.sent_messages, 1);
    assert_eq!(s.sent_logical_bytes, 300);
    assert_eq!(s.sent_wire_bytes, 340);
}

#[test]
fn redundant_copies_and_parity_round_up_to_whole_bytes() {
    assert_eq!(expanded_wire_bytes(128, Redundancy { copies: 1, parity_percent: 0 }), 128);
    assert_eq!(expanded_wire_bytes(100, Redundancy { copies: 2, parity_percent: 25 }), 250);
    assert_eq!(expanded_wire_bytes(3, Redundancy { copies: 1, parity_percent: 10 }), 4);
    assert_eq!(
        expanded_wire_bytes(u32::MAX, Redundancy { copies: 255, parity_percent: 255 }),
        3_888_019_143_799
    );
}

#[test]
fn failsafe_codes_round_trip_and_unknown_codes_are_refused() {
    let all = [
        FailSafeState::Nominal,
        FailSafeState::AutonomousHold,
        FailSafeState::LowBatteryWarn,
        FailSafeState::ReturnToHome,
        FailSafeState::EmergencyLand,
        FailSafeState::EmergencyDiverge,
        FailSafeState::ControlledDescent,
    ];
    for (code, state) in all.iter().enumerate() {
        assert_eq!(failsafe_code(state), code as u64);
        assert_eq!(failsafe_from_code(code as u64), Ok(*state));
    }
    assert_eq!(failsafe_from_code(7), Err(StateError::UnknownFailsafe(7)));
}

#[test]
fn the_field_set_must_be_exactly_the_schema() {
    let mut ids = required_field_ids();
    assert_eq!(ids.len(), 14);
    assert_eq!(validate_field_set(&ids), Ok(()));
    ids.reverse();
    assert_eq!(validate_field_set(&ids), Ok(()));
    ids.retain(|id| *id != FIELD_NODE_ID);
    assert_eq!(
        validate_field_set(&ids),
        Err(StateError::MissingField { field_id: FIELD_NODE_ID })
    );
    let mut extended = required_field_ids();
    extended.push(0x7777);
    assert_eq!(
        validate_field_set(&extended),
        Err(StateError::UnknownField { field_id: 0x7777 })
    );
    let mut both = required_field_ids();
    both.retain(|id| *id != FIELD_SCHEMA_VERSION);
    both.insert(0, 0x9999);
    assert_eq!(
        validate_field_set(&both),
        Err(StateError::MissingField { field_id: FIELD_SCHEMA_VERSION })
    );
}

#[test]
fn typed_symbols_are_read_strictly() {
    assert_eq!(required_u64(Some(Symbol::U64(9)), 1), Ok(9));
    assert_eq!(
        required_u64(Some(Symbol::Q16(9)), 1),
        Err(StateError::WrongType { field_id: 1 })
    );
    assert_eq!(required_u64(None, 1), Err(StateError::MissingField { field_id: 1 }));
    assert_eq!(required_q16_raw(Some(Symbol::Q16(-65_536)), 2), Ok(-65_536));
    assert_eq!(
        required_q16_raw(Some(Symbol::Other), 2),
        Err(StateError::WrongType { field_id: 2 })
    );
}

#[test]
fn identity_requires_schema_one_a_u32_node_and_a_known_failsafe() {
    assert_eq!(decode_identity(1, 7, 3), Ok((7, FailSafeState::ReturnToHome)));
    assert_eq!(decode_identity(2, 7, 3), Err(StateError::UnsupportedSchema(2)));
    assert_eq!(
        decode_identity(1, u64::from(u32::MAX) + 1, 3),
        Err(StateError::OutOfRange { field: "node_id", minimum: "0", maximum: "u32::MAX" })
    );
    assert_eq!(decode_identity(1, 7, 9), Err(StateError::UnknownFailsafe(9)));
}

#[test]
fn envelopes_need_a_signature_and_a_trusted_key() {
    assert_eq!(
        require_signature_and_key(5, None, Some([1; 32])),
        Err(ProtocolError::SignatureRequired)
    );
    assert_eq!(
        require_signature_and_key(5, Some([2; 64]), None),
        Err(ProtocolError::UntrustedPeer(5))
    );
    assert_eq!(
        require_signature_and_key(5, Some([2; 64]), Some([1; 32])),
        Ok(([2; 64], [1; 32]))
    );
}

#[test]
fn ed25519_signatures_are_verified_strictly() {
    let signer = SigningKey::from_bytes(&[7u8; 32]);
    let public = signer.verifying_key().to_bytes();
    let message = b"latentmesh envelope bytes";
    let signature = signer.sign(message).to_bytes();
    assert_eq!(verify_envelope_signature(&public, message, &signature), Ok(()));
    let mut tampered = *message;
    tampered[0] ^= 1;
    assert_eq!(
        verify_envelope_signature(&public, &tampered, &signature),
        Err(ProtocolError::AuthenticationFailed)
    );
    let other = SigningKey::from_bytes(&[8u8; 32]).verifying_key().to_bytes();
    assert_eq!(
        verify_envelope_signature(&other, message, &signature),
        Err(ProtocolError::AuthenticationFailed)
    );
}
