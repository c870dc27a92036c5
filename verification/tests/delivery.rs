use ruview_swarm::latentmesh::policy::{
    delivery_treatment, screen_residual, AckMode, LossBand, PolicyDropReason, Redundancy,
    ResidualFacts, ResidualLimits, TrafficClass,
};

const BANDS: [LossBand; 6] = [
    LossBand::Clean,
    LossBand::Light,
    LossBand::Moderate,
    LossBand::Heavy,
    LossBand::Severe,
    LossBand::Lost,
];

const CLASSES: [TrafficClass; 7] = [
    TrafficClass::CriticalCoordination,
    TrafficClass::CooperativeTask,
    TrafficClass::StateSync,
    TrafficClass::SnapshotRequest,
    TrafficClass::Observation,
    TrafficClass::LearnedResidual,
    TrafficClass::BulkSnapshot,
];

fn redundancy(copies: u8, parity_percent: u8) -> Redundancy {
    Redundancy { copies, parity_percent }
}

#[test]
fn clean_link_observation_needs_no_acknowledgement() {
    assert_eq!(
        delivery_treatment(LossBand::Clean, TrafficClass::Observation),
        Some((AckMode::NoAck, redundancy(1, 0)))
    );
    assert_eq!(
        delivery_treatment(LossBand::Clean, TrafficClass::StateSync),
        Some((AckMode::Opportunistic, redundancy(1, 0)))
    );
    assert_eq!(
        delivery_treatment(LossBand::Clean, TrafficClass::CooperativeTask),
        Some((AckMode::Required, redundancy(1, 0)))
    );
}

#[test]
fn redundancy_grows_with_loss() {
    let class = TrafficClass::CriticalCoordination;
    assert_eq!(delivery_treatment(LossBand::Light, class), Some((AckMode::Required, redundancy(1, 20))));
    assert_eq!(delivery_treatment(LossBand::Moderate, class), Some((AckMode::Required, redundancy(2, 35))));
    assert_eq!(delivery_treatment(LossBand::Heavy, class), Some((AckMode::Required, redundancy(3, 50))));
    assert_eq!(delivery_treatment(LossBand::Severe, class), Some((AckMode::Required, redundancy(3, 50))));
    assert_eq!(
        delivery_treatment(LossBand::Light, TrafficClass::Observation),
        Some((AckMode::Opportunistic, redundancy(1, 20)))
    );
    assert_eq!(
        delivery_treatment(LossBand::Moderate, TrafficClass::BulkSnapshot),
        Some((AckMode::Required, redundancy(2, 35)))
    );
}

#[test]
fn degraded_links_carry_only_consequential_traffic() {
    for class in CLASSES {
        assert_eq!(delivery_treatment(LossBand::Lost, class), None);
        let consequential =
            matches!(class, TrafficClass::CriticalCoordination | TrafficClass::CooperativeTask);
        assert_eq!(delivery_treatment(LossBand::Severe, class).is_some(), consequential);
    }
}

#[test]
fn more_loss_never_buys_less() {
    let rank = |ack: AckMode| match ack {
        AckMode::NoAck => 0,
        AckMode::Opportunistic => 1,
        AckMode::Required => 2,
    };
    for class in CLASSES {
        for (i, lighter) in BANDS.iter().enumerate() {
            for heavier in &BANDS[i..] {
                if let Some((heavy_ack, heavy_red)) = delivery_treatment(*heavier, class) {
                    let (light_ack, light_red) = delivery_treatment(*lighter, class).unwrap();
                    assert!(light_red.copies <= heavy_red.copies);
                    assert!(light_red.parity_percent <= heavy_red.parity_percent);
                    assert!(rank(light_ack) <= rank(heavy_ack));
                }
            }
        }
    }
}

const NOW: u64 = 1_000_000;

fn limits() -> ResidualLimits {
    ResidualLimits { max_clock_skew_ms: 250, max_evidence_age_ms: 60_000, min_samples: 1_000 }
}

fn evidence() -> ResidualFacts {
    ResidualFacts {
        evaluated_at_ms: NOW - 1_000,
        causal_controls_passed: true,
        sample_count: 5_000,
        metrics_valid: true,
        metrics_meet_bounds: true,
        model_compatible: true,
        decoder_trusted: true,
        semantic_fallback_available: true,
    }
}

#[test]
fn sufficient_residual_evidence_is_accepted() {
    assert_eq!(screen_residual(&limits(), NOW, TrafficClass::LearnedResidual, Some(evidence())), Ok(()));
    assert_eq!(screen_residual(&limits(), NOW, TrafficClass::Observation, None), Ok(()));
}

#[test]
fn residual_evidence_belongs_to_residual_traffic_only() {
    assert_eq!(
        screen_residual(&limits(), NOW, TrafficClass::LearnedResidual, None),
        Err(PolicyDropReason::ResidualNotValidated)
    );
    assert_eq!(
        screen_residual(&limits(), NOW, TrafficClass::Observation, Some(evidence())),
        Err(PolicyDropReason::TrafficClassMismatch)
    );
}

#[test]
fn weak_or_stale_residual_evidence_is_refused() {
    let mut malformed = evidence();
    malformed.metrics_valid = false;
    assert_eq!(
        screen_residual(&limits(), NOW, TrafficClass::LearnedResidual, Some(malformed)),
        Err(PolicyDropReason::InvalidMetric)
    );
    let mut few = evidence();
    few.sample_count = 999;
    let mut old = evidence();
    old.evaluated_at_ms = NOW - 60_001;
    let mut future = evidence();
    future.evaluated_at_ms = NOW + 251;
    let mut weak = evidence();
    weak.metrics_meet_bounds = false;
    let mut untrusted = evidence();
    untrusted.decoder_trusted = false;
    for facts in [few, old, future, weak, untrusted] {
        assert_eq!(
            screen_residual(&limits(), NOW, TrafficClass::LearnedResidual, Some(facts)),
            Err(PolicyDropReason::ResidualNotValidated)
        );
    }
    let mut edge = evidence();
    edge.evaluated_at_ms = NOW - 60_000;
    edge.sample_count = 1_000;
    assert_eq!(screen_residual(&limits(), NOW, TrafficClass::LearnedResidual, Some(edge)), Ok(()));
}
