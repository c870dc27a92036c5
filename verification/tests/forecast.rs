use ruview_swarm::forecast::{
    is_eligible_for_new_work, AdvisoryWindow, ForecastBounds, ForecastMetrics,
    ForecastPolicyError, ForecastRolloutMode, ForecastSchedule, ForecastState, ObservationHistory,
    RefreshStart,
};

const BOUNDS: ForecastBounds = ForecastBounds {
    max_horizon: 64,
    max_step_ms: 60_000,
    max_span_ms: 3_600_000,
};

fn canary() -> ForecastSchedule {
    ForecastSchedule {
        rollout: ForecastRolloutMode::CanaryReduceOnly,
        ..ForecastSchedule::default()
    }
}

#[test]
fn default_schedule_is_shadow() {
    let schedule = ForecastSchedule::default();
    assert_eq!(schedule.rollout, ForecastRolloutMode::Shadow);
    assert_eq!(ForecastRolloutMode::default(), ForecastRolloutMode::Shadow);
    assert_eq!(schedule.history_capacity, 128);
    assert_eq!(schedule.minimum_history, 8);
    assert_eq!(ForecastMetrics::default().observations_accepted, 0);
}

#[test]
fn invalid_schedules_are_refused_in_order() {
    let base = ForecastSchedule::default();
    let check = |s: ForecastSchedule| ForecastState::<u8>::try_new(s, BOUNDS).err();
    assert_eq!(
        check(ForecastSchedule { history_capacity: 0, ..base }),
        Some(ForecastPolicyError::HistoryCapacity)
    );
    assert_eq!(
        check(ForecastSchedule { history_capacity: 16_385, ..base }),
        Some(ForecastPolicyError::HistoryCapacity)
    );
    assert_eq!(
        check(ForecastSchedule { minimum_history: 129, ..base }),
        Some(ForecastPolicyError::MinimumHistory)
    );
    assert_eq!(
        check(ForecastSchedule { step_ms: 0, ..base }),
        Some(ForecastPolicyError::ZeroCadence)
    );
    assert_eq!(
        check(ForecastSchedule { horizon: 65, ..base }),
        Some(ForecastPolicyError::ExceedsBackend)
    );
    assert_eq!(
        check(ForecastSchedule { horizon: 64, step_ms: 60_000, ..base }),
        Some(ForecastPolicyError::ExceedsBackend)
    );
    assert_eq!(check(base), None);
    assert_eq!(
        ForecastPolicyError::HistoryCapacity.message(),
        "history_capacity must be in 1..=16384"
    );
}

#[test]
fn invalid_schedule_falls_back_to_disabled() {
    let bad = ForecastSchedule { history_capacity: 0, ..canary() };
    let mut state = ForecastState::<u8>::new_or_disabled(bad, BOUNDS);
    assert_eq!(state.schedule().rollout, ForecastRolloutMode::Disabled);
    for t in 1..=10u64 {
        if state.observe(t * 1_000, 0, true) {
            assert_eq!(state.begin_refresh(t * 1_000), RefreshStart::Abstain);
        }
    }
    assert_eq!(state.metrics().forecasts_issued, 0);
    assert!(state.is_eligible_for_new_work(None, u64::MAX));
}

#[test]
fn history_is_bounded_and_non_monotonic_input_is_rejected() {
    let schedule = ForecastSchedule { history_capacity: 8, minimum_history: 2, ..ForecastSchedule::default() };
    let mut state = ForecastState::try_new(schedule, BOUNDS).unwrap();
    for step in 1..=20u64 {
        state.observe(step, step, true);
    }
    state.observe(20, 99, true);
    assert_eq!(state.history_len(), 8);
    assert_eq!(state.metrics().observations_rejected, 1);
    assert_eq!(state.metrics().observations_accepted, 20);
    let kept: Vec<u64> = state.history().iter().map(|(t, _)| *t).collect();
    assert_eq!(kept, (13..=20).collect::<Vec<u64>>());
    state.observe(21, 0, false);
    assert_eq!(state.metrics().observations_rejected, 2);
    assert_eq!(state.history_len(), 8);
}

#[test]
fn refresh_waits_for_history_and_fresh_input() {
    let mut state = ForecastState::try_new(canary(), BOUNDS).unwrap();
    for t in 1..=7u64 {
        assert!(state.observe(t * 1_000, (), true));
        assert_eq!(state.begin_refresh(t * 1_000), RefreshStart::Abstain);
    }
    assert!(state.observe(8_000, (), true));
    assert_eq!(state.begin_refresh(8_000), RefreshStart::Proceed);
    assert_eq!(state.begin_refresh(13_001), RefreshStart::StaleInput);
    assert_eq!(state.metrics().abstentions, 7);
    assert_eq!(state.metrics().stale_inputs, 1);
    let window = state.record_forecast(8_000, 8_000, false, true);
    assert_eq!(window.expires_at_ms, 13_000);
    assert_eq!(state.metrics().forecasts_issued, 1);
    assert_eq!(state.metrics().eligibility_reductions, 1);
    assert!(!state.observe(8_500, (), true));
    assert!(state.observe(9_000, (), true));
}

#[test]
fn canary_is_reduce_only_and_stale_advice_is_ignored() {
    let low = AdvisoryWindow { expires_at_ms: 13_000, meets_thresholds: false };
    let fine = AdvisoryWindow { expires_at_ms: 13_000, meets_thresholds: true };
    let canary = ForecastRolloutMode::CanaryReduceOnly;
    assert!(!is_eligible_for_new_work(canary, Some(low), 8_000));
    assert!(!is_eligible_for_new_work(canary, Some(low), 13_000));
    assert!(is_eligible_for_new_work(canary, Some(low), 13_001));
    assert!(is_eligible_for_new_work(canary, Some(fine), 8_000));
    assert!(is_eligible_for_new_work(canary, None, 8_000));
    assert!(is_eligible_for_new_work(ForecastRolloutMode::Shadow, Some(low), 8_000));
    assert!(is_eligible_for_new_work(ForecastRolloutMode::Disabled, Some(low), 8_000));
}

#[test]
fn observation_history_evicts_the_oldest_when_full() {
    let mut h = ObservationHistory::new(2);
    assert!(h.insert_newer(5, 'a'));
    assert!(!h.insert_newer(5, 'b'));
    assert!(h.insert_newer(6, 'c'));
    assert!(h.insert_newer(9, 'd'));
    assert_eq!(h.len(), 2);
    assert_eq!(h.capacity(), 2);
    assert_eq!(h.last_timestamp(), Some(9));
    assert_eq!(h.entries(), &[(6, 'c'), (9, 'd')]);
}

#[test]
fn only_a_forecast_strictly_below_a_threshold_counts_as_a_reduction() {
    let mut state = ForecastState::try_new(canary(), BOUNDS).unwrap();
    for t in 1..=8u64 {
        state.observe(t * 1_000, (), true);
    }
    assert_eq!(state.begin_refresh(8_000), RefreshStart::Proceed);
    // A value that compares with nothing neither meets nor falls below.
    let window = state.record_forecast(8_000, 8_000, false, false);
    assert!(!window.meets_thresholds);
    assert_eq!(state.metrics().forecasts_issued, 1);
    assert_eq!(state.metrics().eligibility_reductions, 0);
    assert!(!state.is_eligible_for_new_work(Some(window), 8_000));
}
