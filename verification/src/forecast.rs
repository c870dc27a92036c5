//! Predictive advisory gating.
//!
//! This module is outside flight authority. It keeps a bounded, strictly
//! time-ordered history of observations, decides when a forecast is due and
//! whether its inputs are fresh, counts what happened, and produces one
//! policy output: a reduce-only eligibility result for *new* cooperative
//! work. The default rollout is shadow mode, where that result is ignored.
//! The observations themselves and the forecasting model stay with the
//! caller; this module only needs their timestamps.

use std::collections::VecDeque;

use vstd::prelude::*;

use super::latentmesh::metrics::sat_add;

verus! {

/// Deployment stage. Promotion from shadow requires independent evidence.
#[derive(Clone, Copy, Debug, PartialEq, Eq, Structural)]
pub enum ForecastRolloutMode {
    Disabled,
    Shadow,
    CanaryReduceOnly,
}

impl Default for ForecastRolloutMode {
    fn default() -> (mode: Self)
        ensures
            mode == ForecastRolloutMode::Shadow,
    {
        ForecastRolloutMode::Shadow
    }
}

/// Payload-free operational counters.
#[derive(Clone, Copy, Debug, PartialEq, Eq, Structural)]
pub struct ForecastMetrics {
    pub observations_accepted: u64,
    pub observations_rejected: u64,
    pub forecasts_issued: u64,
    pub abstentions: u64,
    pub stale_inputs: u64,
    pub invalid_outputs: u64,
    pub eligibility_reductions: u64,
}

/// The metrics whose every counter is zero.
pub open spec fn zero_forecast_metrics() -> ForecastMetrics {
    ForecastMetrics {
        observations_accepted: 0,
        observations_rejected: 0,
        forecasts_issued: 0,
        abstentions: 0,
        stale_inputs: 0,
        invalid_outputs: 0,
        eligibility_reductions: 0,
    }
}

impl Default for ForecastMetrics {
    fn default() -> (m: Self)
        ensures
            m == zero_forecast_metrics(),
    {
        ForecastMetrics {
            observations_accepted: 0,
            observations_rejected: 0,
            forecasts_issued: 0,
            abstentions: 0,
            stale_inputs: 0,
            invalid_outputs: 0,
            eligibility_reductions: 0,
        }
    }
}

/// The integer part of a forecast policy: rollout stage, history bounds and
/// cadence. The battery and link thresholds belong to the caller.
#[derive(Clone, Copy, Debug, PartialEq, Eq, Structural)]
pub struct ForecastSchedule {
    pub rollout: ForecastRolloutMode,
    pub history_capacity: usize,
    pub minimum_history: usize,
    pub max_input_age_ms: u64,
    pub horizon: usize,
    pub step_ms: u64,
    pub advisory_ttl_ms: u64,
}

/// The default schedule: shadow rollout, 128 observations kept, 8 needed,
/// inputs fresh for 5 s, six one-second steps, advisories valid for 5 s.
pub open spec fn default_schedule() -> ForecastSchedule {
    ForecastSchedule {
        rollout: ForecastRolloutMode::Shadow,
        history_capacity: 128,
        minimum_history: 8,
        max_input_age_ms: 5_000,
        horizon: 6,
        step_ms: 1_000,
        advisory_ttl_ms: 5_000,
    }
}

impl Default for ForecastSchedule {
    fn default() -> (s: Self)
        ensures
            s == default_schedule(),
    {
        ForecastSchedule {
            rollout: ForecastRolloutMode::Shadow,
            history_capacity: 128,
            minimum_history: 8,
            max_input_age_ms: 5_000,
            horizon: 6,
            step_ms: 1_000,
            advisory_ttl_ms: 5_000,
        }
    }
}

/// The largest forecast the backend accepts: horizon steps, step length and
/// total span.
#[derive(Clone, Copy, Debug, PartialEq, Eq, Structural)]
pub struct ForecastBounds {
    pub max_horizon: usize,
    pub max_step_ms: u64,
    pub max_span_ms: u64,
}

/// Why a schedule was refused.
#[derive(Clone, Copy, Debug, PartialEq, Eq, Structural)]
pub enum ForecastPolicyError {
    /// The history capacity is outside `1..=16384`.
    HistoryCapacity,
    /// The minimum history is zero or larger than the capacity.
    MinimumHistory,
    /// The horizon, the step or the advisory lifetime is zero.
    ZeroCadence,
    /// The horizon, the step or their product exceeds the backend's bounds.
    ExceedsBackend,
}

impl ForecastPolicyError {
    /// The operator-facing description of the refusal.
    pub fn message(&self) -> (m: &'static str)
        ensures
            m@ == policy_error_message(*self),
    {
        match self {
            ForecastPolicyError::HistoryCapacity => "history_capacity must be in 1..=16384",
            ForecastPolicyError::MinimumHistory => "minimum_history must fit within history_capacity",
            ForecastPolicyError::ZeroCadence => "horizon, step_ms, and advisory_ttl_ms must be nonzero",
            ForecastPolicyError::ExceedsBackend => "forecast horizon or cadence exceeds RuForecast bounds",
        }
    }
}

/// The description of each refusal.
pub open spec fn policy_error_message(e: ForecastPolicyError) -> Seq<char> {
    match e {
        ForecastPolicyError::HistoryCapacity => "history_capacity must be in 1..=16384"@,
        ForecastPolicyError::MinimumHistory => "minimum_history must fit within history_capacity"@,
        ForecastPolicyError::ZeroCadence => "horizon, step_ms, and advisory_ttl_ms must be nonzero"@,
        ForecastPolicyError::ExceedsBackend => "forecast horizon or cadence exceeds RuForecast bounds"@,
    }
}

/// The refusal a schedule earns, checked in order, or none.
pub open spec fn schedule_error(s: ForecastSchedule, b: ForecastBounds) -> Option<ForecastPolicyError> {
    if s.history_capacity == 0 || s.history_capacity > 16_384 {
        Some(ForecastPolicyError::HistoryCapacity)
    } else if s.minimum_history == 0 || s.minimum_history > s.history_capacity {
        Some(ForecastPolicyError::MinimumHistory)
    } else if s.horizon == 0 || s.step_ms == 0 || s.advisory_ttl_ms == 0 {
        Some(ForecastPolicyError::ZeroCadence)
    } else if s.horizon > b.max_horizon || s.step_ms > b.max_step_ms || s.horizon * s.step_ms
        > b.max_span_ms {
        Some(ForecastPolicyError::ExceedsBackend)
    } else {
        None
    }
}

/// Check a schedule against its own bounds and the backend's.
pub fn validate_schedule(s: &ForecastSchedule, b: &ForecastBounds) -> (r: Result<
    (),
    ForecastPolicyError,
>)
    ensures
        r matches Err(e) ==> schedule_error(*s, *b) == Some(e),
        r is Ok <==> schedule_error(*s, *b) is None,
{
    if s.history_capacity == 0 || s.history_capacity > 16_384 {
        return Err(ForecastPolicyError::HistoryCapacity);
    }
    if s.minimum_history == 0 || s.minimum_history > s.history_capacity {
        return Err(ForecastPolicyError::MinimumHistory);
    }
    if s.horizon == 0 || s.step_ms == 0 || s.advisory_ttl_ms == 0 {
        return Err(ForecastPolicyError::ZeroCadence);
    }
    if s.horizon > b.max_horizon || s.step_ms > b.max_step_ms {
        return Err(ForecastPolicyError::ExceedsBackend);
    }
    let horizon: u64 = s.horizon as u64;
    match horizon.checked_mul(s.step_ms) {
        None => Err(ForecastPolicyError::ExceedsBackend),
        Some(span) => {
            if span > b.max_span_ms {
                Err(ForecastPolicyError::ExceedsBackend)
            } else {
                Ok(())
            }
        },
    }
}

/// The timestamps of a history are strictly increasing.
pub open spec fn strictly_increasing<T>(h: Seq<(u64, T)>) -> bool {
    forall|i: int, j: int| 0 <= i < j < h.len() ==> h[i].0 < h[j].0
}

/// A bounded history of timestamped observations, oldest first. Timestamps
/// strictly increase; when full, admitting a new observation evicts the
/// oldest one.
pub struct ObservationHistory<T> {
    capacity: usize,
    entries: VecDeque<(u64, T)>,
}

impl<T> View for ObservationHistory<T> {
    type V = Seq<(u64, T)>;

    closed spec fn view(&self) -> Seq<(u64, T)> {
        self.entries@
    }
}

/// The history after admitting `(t, v)` to `h` with room for `cap` entries.
pub open spec fn admitted<T>(h: Seq<(u64, T)>, cap: nat, t: u64, v: T) -> Seq<(u64, T)> {
    if h.len() >= cap {
        h.drop_first().push((t, v))
    } else {
        h.push((t, v))
    }
}

/// `t` comes strictly after every observation of `h`.
pub open spec fn is_newer<T>(h: Seq<(u64, T)>, t: u64) -> bool {
    h.len() == 0 || h.last().0 < t
}

impl<T> ObservationHistory<T> {
    /// How many observations the history keeps.
    pub closed spec fn capacity_spec(&self) -> nat {
        self.capacity as nat
    }

    /// Bounded, nonzero capacity and strictly increasing timestamps.
    pub closed spec fn wf(&self) -> bool {
        &&& 1 <= self.capacity
        &&& self.entries@.len() <= self.capacity
        &&& strictly_increasing(self.entries@)
    }

    /// What well-formedness gives a reader of the history.
    pub proof fn lemma_wf_bounds(&self)
        requires
            self.wf(),
        ensures
            self@.len() <= self.capacity_spec(),
            self.capacity_spec() >= 1,
            strictly_increasing(self@),
    {
    }

    /// An empty history that keeps at most `capacity` observations.
    pub fn new(capacity: usize) -> (h: Self)
        requires
            capacity >= 1,
        ensures
            h.wf(),
            h@ == Seq::<(u64, T)>::empty(),
            h.capacity_spec() == capacity,
    {
        ObservationHistory { capacity, entries: VecDeque::new() }
    }

    /// How many observations are held.
    pub fn len(&self) -> (n: usize)
        ensures
            n == self@.len(),
    {
        self.entries.len()
    }

    /// How many observations the history keeps.
    pub fn capacity(&self) -> (n: usize)
        ensures
            n == self.capacity_spec(),
    {
        self.capacity
    }

    /// The newest timestamp, if any.
    pub fn last_timestamp(&self) -> (t: Option<u64>)
        ensures
            self@.len() == 0 ==> t is None,
            self@.len() > 0 ==> t == Some(self@.last().0),
    {
        if self.entries.len() == 0 {
            None
        } else {
            Some(self.entries[self.entries.len() - 1].0)
        }
    }

    /// The held observations, oldest first.
    pub fn entries(&self) -> (e: &VecDeque<(u64, T)>)
        ensures
            e@ == self@,
    {
        &self.entries
    }

    /// Admit `(timestamp, value)` if it is newer than every held observation,
    /// evicting the oldest one when full. A duplicate or older timestamp is
    /// refused and the history is unchanged.
    pub fn insert_newer(&mut self, timestamp: u64, value: T) -> (accepted: bool)
        requires
            old(self).wf(),
        ensures
            final(self).wf(),
            final(self).capacity_spec() == old(self).capacity_spec(),
            accepted == is_newer(old(self)@, timestamp),
            accepted ==> final(self)@ == admitted(
                old(self)@,
                old(self).capacity_spec(),
                timestamp,
                value,
            ),
            !accepted ==> final(self)@ == old(self)@,
    {
        let n = self.entries.len();
        if n > 0 && timestamp <= self.entries[n - 1].0 {
            return false;
        }
        let ghost before = self.entries@;
        if n >= self.capacity {
            let _oldest = self.entries.pop_front();
            assert(self.entries@ =~= before.drop_first());
        }
        self.entries.push_back((timestamp, value));
        proof {
            let h = self.entries@;
            assert forall|i: int, j: int| 0 <= i < j < h.len() implies h[i].0 < h[j].0 by {
                if j == h.len() - 1 {
                    if n >= self.capacity {
                        assert(h[i] == before[i + 1]);
                    } else {
                        assert(h[i] == before[i]);
                    }
                } else if n >= self.capacity {
                    assert(h[i] == before[i + 1] && h[j] == before[j + 1]);
                } else {
                    assert(h[i] == before[i] && h[j] == before[j]);
                }
            }
        }
        true
    }
}

/// Whether a forecast is due at `t`: none was issued yet, or at least one
/// step has passed since the last one.
pub open spec fn refresh_due(last_forecast_at_ms: Option<u64>, t: u64, step_ms: u64) -> bool {
    match last_forecast_at_ms {
        None => true,
        Some(last) => t - last >= step_ms,
    }
}

/// How a refresh begun at `now` under `schedule`, with history `h`, starts:
/// it abstains while forecasting is disabled or the history is shorter than
/// the minimum, refuses input older than the freshness bound, and otherwise
/// proceeds.
pub open spec fn refresh_start<T>(schedule: ForecastSchedule, h: Seq<(u64, T)>, now: u64) -> RefreshStart {
    if schedule.rollout == ForecastRolloutMode::Disabled || h.len() < schedule.minimum_history {
        RefreshStart::Abstain
    } else if now - h.last().0 > schedule.max_input_age_ms {
        RefreshStart::StaleInput
    } else {
        RefreshStart::Proceed
    }
}

/// What a due refresh may do.
#[derive(Clone, Copy, Debug, PartialEq, Eq, Structural)]
pub enum RefreshStart {
    /// Forecasting is disabled or the history is still too short.
    Abstain,
    /// The newest observation is older than the freshness bound.
    StaleInput,
    /// The history may be handed to the forecaster.
    Proceed,
}

/// The reference an advisory's eligibility decision needs: when it expires
/// and whether its forecast stays at or above every local threshold.
#[derive(Clone, Copy, Debug, PartialEq, Eq, Structural)]
pub struct AdvisoryWindow {
    pub expires_at_ms: u64,
    pub meets_thresholds: bool,
}

/// Eligibility for new cooperative work: only a canary rollout holding an
/// unexpired advisory that falls below a threshold withholds it.
pub open spec fn eligible(
    rollout: ForecastRolloutMode,
    advisory: Option<AdvisoryWindow>,
    now_ms: u64,
) -> bool {
    match advisory {
        Some(a) => !(rollout == ForecastRolloutMode::CanaryReduceOnly && now_ms <= a.expires_at_ms
            && !a.meets_thresholds),
        None => true,
    }
}

/// The forecasting state one orchestrator owns, apart from the model and the
/// thresholds: schedule, history, the time of the last forecast, counters.
pub struct ForecastState<T> {
    schedule: ForecastSchedule,
    history: ObservationHistory<T>,
    last_forecast_at_ms: Option<u64>,
    metrics: ForecastMetrics,
}

impl<T> ForecastState<T> {
    /// The schedule in force.
    pub closed spec fn schedule_spec(&self) -> ForecastSchedule {
        self.schedule
    }

    /// The held observations, oldest first.
    pub closed spec fn history_spec(&self) -> Seq<(u64, T)> {
        self.history@
    }

    /// When the last forecast was issued.
    pub closed spec fn last_forecast_spec(&self) -> Option<u64> {
        self.last_forecast_at_ms
    }

    /// The counters.
    pub closed spec fn metrics_spec(&self) -> ForecastMetrics {
        self.metrics
    }

    /// The schedule is valid and the history is bounded by its capacity and
    /// strictly increasing.
    pub closed spec fn wf(&self) -> bool {
        &&& self.history.wf()
        &&& self.history.capacity_spec() == self.schedule.history_capacity
        &&& 1 <= self.schedule.minimum_history <= self.schedule.history_capacity <= 16_384
        &&& self.schedule.step_ms >= 1
        &&& self.schedule.horizon >= 1
        &&& self.schedule.advisory_ttl_ms >= 1
    }

    /// What well-formedness gives a reader of the state.
    pub proof fn lemma_wf_bounds(&self)
        requires
            self.wf(),
        ensures
            self.history_spec().len() <= self.schedule_spec().history_capacity,
            self.schedule_spec().history_capacity >= 1,
            strictly_increasing(self.history_spec()),
    {
        self.history.lemma_wf_bounds();
    }

    /// A fresh state for a valid schedule, or the schedule's refusal.
    pub fn try_new(schedule: ForecastSchedule, bounds: ForecastBounds) -> (r: Result<
        Self,
        ForecastPolicyError,
    >)
        ensures
            r matches Err(e) ==> schedule_error(schedule, bounds) == Some(e),
            r is Ok <==> schedule_error(schedule, bounds) is None,
            r matches Ok(s) ==> {
                &&& s.wf()
                &&& s.schedule_spec() == schedule
                &&& s.history_spec().len() == 0
                &&& s.last_forecast_spec() is None
                &&& s.metrics_spec() == zero_forecast_metrics()
            },
    {
        match validate_schedule(&schedule, &bounds) {
            Err(e) => Err(e),
            Ok(()) => Ok(ForecastState {
                schedule,
                history: ObservationHistory::new(schedule.history_capacity),
                last_forecast_at_ms: None,
                metrics: ForecastMetrics::default(),
            }),
        }
    }

    /// A fresh state for `schedule`; an invalid schedule falls back to the
    /// default schedule with forecasting disabled.
    pub fn new_or_disabled(schedule: ForecastSchedule, bounds: ForecastBounds) -> (s: Self)
        requires
            schedule_error(default_schedule(), bounds) is None,
        ensures
            s.wf(),
            schedule_error(schedule, bounds) is None ==> s.schedule_spec() == schedule,
            schedule_error(schedule, bounds) is Some ==> s.schedule_spec() == (ForecastSchedule {
                rollout: ForecastRolloutMode::Disabled,
                ..default_schedule()
            }),
            s.history_spec().len() == 0,
            s.metrics_spec() == zero_forecast_metrics(),
    {
        match Self::try_new(schedule, bounds) {
            Ok(s) => s,
            Err(_) => {
                let safe = ForecastSchedule {
                    rollout: ForecastRolloutMode::Disabled,
                    ..ForecastSchedule::default()
                };
                match Self::try_new(safe, bounds) {
                    Ok(s) => s,
                    Err(_) => {
                        assert(false);
                        ForecastState {
                            schedule: safe,
                            history: ObservationHistory::new(128),
                            last_forecast_at_ms: None,
                            metrics: ForecastMetrics::default(),
                        }
                    },
                }
            },
        }
    }

    /// The schedule in force.
    pub fn schedule(&self) -> (s: ForecastSchedule)
        ensures
            s == self.schedule_spec(),
    {
        self.schedule
    }

    /// The counters.
    pub fn metrics(&self) -> (m: ForecastMetrics)
        ensures
            m == self.metrics_spec(),
    {
        self.metrics
    }

    /// How many observations are held.
    pub fn history_len(&self) -> (n: usize)
        ensures
            n == self.history_spec().len(),
            self.wf() ==> n <= self.schedule_spec().history_capacity,
    {
        self.history.len()
    }

    /// The held observations, oldest first.
    pub fn history(&self) -> (e: &VecDeque<(u64, T)>)
        ensures
            e@ == self.history_spec(),
    {
        self.history.entries()
    }

    /// Admit one observation whose values the caller found finite and within
    /// their physical ranges (`values_valid`). An invalid, duplicate or older
    /// observation is counted as rejected and changes nothing else. Returns
    /// whether a forecast refresh is due now.
    pub fn observe(&mut self, timestamp_ms: u64, values: T, values_valid: bool) -> (due: bool)
        requires
            old(self).wf(),
        ensures
            final(self).wf(),
            final(self).history_spec().len() <= final(self).schedule_spec().history_capacity,
            strictly_increasing(final(self).history_spec()),
            final(self).schedule_spec() == old(self).schedule_spec(),
            final(self).last_forecast_spec() == old(self).last_forecast_spec(),
            ({
                let accepted = values_valid && is_newer(old(self).history_spec(), timestamp_ms);
                let m = old(self).metrics_spec();
                if accepted {
                    &&& final(self).history_spec() == admitted(
                        old(self).history_spec(),
                        old(self).schedule_spec().history_capacity as nat,
                        timestamp_ms,
                        values,
                    )
                    &&& final(self).metrics_spec() == (ForecastMetrics {
                        observations_accepted: sat_add(m.observations_accepted, 1),
                        ..m
                    })
                    &&& due == refresh_due(
                        old(self).last_forecast_spec(),
                        timestamp_ms,
                        old(self).schedule_spec().step_ms,
                    )
                } else {
                    &&& final(self).history_spec() == old(self).history_spec()
                    &&& final(self).metrics_spec() == (ForecastMetrics {
                        observations_rejected: sat_add(m.observations_rejected, 1),
                        ..m
                    })
                    &&& !due
                }
            }),
    {
        if !values_valid {
            self.metrics.observations_rejected = self.metrics.observations_rejected.saturating_add(
                1,
            );
            return false;
        }
        if !self.history.insert_newer(timestamp_ms, values) {
            self.metrics.observations_rejected = self.metrics.observations_rejected.saturating_add(
                1,
            );
            return false;
        }
        self.metrics.observations_accepted = self.metrics.observations_accepted.saturating_add(1);
        match self.last_forecast_at_ms {
            None => true,
            Some(last) => timestamp_ms.saturating_sub(last) >= self.schedule.step_ms,
        }
    }

    /// Start a due refresh at `now_ms`: abstain while disabled or while the
    /// history is shorter than the minimum, refuse stale input, otherwise
    /// proceed. Abstentions and stale inputs are counted.
    pub fn begin_refresh(&mut self, now_ms: u64) -> (start: RefreshStart)
        requires
            old(self).wf(),
        ensures
            final(self).wf(),
            final(self).schedule_spec() == old(self).schedule_spec(),
            final(self).history_spec() == old(self).history_spec(),
            final(self).last_forecast_spec() == old(self).last_forecast_spec(),
            start == refresh_start(old(self).schedule_spec(), old(self).history_spec(), now_ms),
            ({
                let s = old(self).schedule_spec();
                let h = old(self).history_spec();
                let m = old(self).metrics_spec();
                if s.rollout == ForecastRolloutMode::Disabled || h.len() < s.minimum_history {
                    &&& start == RefreshStart::Abstain
                    &&& final(self).metrics_spec() == (ForecastMetrics {
                        abstentions: sat_add(m.abstentions, 1),
                        ..m
                    })
                } else if now_ms - h.last().0 > s.max_input_age_ms {
                    &&& start == RefreshStart::StaleInput
                    &&& final(self).metrics_spec() == (ForecastMetrics {
                        stale_inputs: sat_add(m.stale_inputs, 1),
                        ..m
                    })
                } else {
                    &&& start == RefreshStart::Proceed
                    &&& final(self).metrics_spec() == m
                }
            }),
    {
        if self.schedule.rollout == ForecastRolloutMode::Disabled || self.history.len()
            < self.schedule.minimum_history {
            self.metrics.abstentions = self.metrics.abstentions.saturating_add(1);
            return RefreshStart::Abstain;
        }
        let last = match self.history.last_timestamp() {
            Some(t) => t,
            None => {
                assert(false);
                return RefreshStart::Abstain;
            },
        };
        if now_ms.saturating_sub(last) > self.schedule.max_input_age_ms {
            self.metrics.stale_inputs = self.metrics.stale_inputs.saturating_add(1);
            return RefreshStart::StaleInput;
        }
        RefreshStart::Proceed
    }

    /// Count a forecaster output that was refused (invalid request, failed
    /// integrity or missing values).
    pub fn record_invalid_output(&mut self)
        requires
            old(self).wf(),
        ensures
            final(self).wf(),
            final(self).schedule_spec() == old(self).schedule_spec(),
            final(self).history_spec() == old(self).history_spec(),
            final(self).last_forecast_spec() == old(self).last_forecast_spec(),
            final(self).metrics_spec() == (ForecastMetrics {
                invalid_outputs: sat_add(old(self).metrics_spec().invalid_outputs, 1),
                ..old(self).metrics_spec()
            }),
    {
        self.metrics.invalid_outputs = self.metrics.invalid_outputs.saturating_add(1);
    }

    /// Count a forecaster abstention.
    pub fn record_abstention(&mut self)
        requires
            old(self).wf(),
        ensures
            final(self).wf(),
            final(self).schedule_spec() == old(self).schedule_spec(),
            final(self).history_spec() == old(self).history_spec(),
            final(self).last_forecast_spec() == old(self).last_forecast_spec(),
            final(self).metrics_spec() == (ForecastMetrics {
                abstentions: sat_add(old(self).metrics_spec().abstentions, 1),
                ..old(self).metrics_spec()
            }),
    {
        self.metrics.abstentions = self.metrics.abstentions.saturating_add(1);
    }

    /// Record an advisory issued at `now_ms` from a forecast whose origin is
    /// `origin_ms`; `meets_thresholds` says whether its forecast stays at or
    /// above every local threshold, which decides eligibility, and
    /// `falls_below` whether it falls strictly below one. (The two differ only
    /// for a forecast value that compares with nothing.) A canary rollout
    /// counts an eligibility reduction when the forecast falls below a
    /// threshold. Returns the advisory's expiry. A forecast
    /// comes only from a refresh that proceeded, which a disabled rollout
    /// never does.
    pub fn record_forecast(
        &mut self,
        now_ms: u64,
        origin_ms: u64,
        meets_thresholds: bool,
        falls_below: bool,
    ) -> (w: AdvisoryWindow)
        requires
            old(self).wf(),
            old(self).schedule_spec().rollout != ForecastRolloutMode::Disabled,
        ensures
            final(self).wf(),
            final(self).schedule_spec() == old(self).schedule_spec(),
            final(self).history_spec() == old(self).history_spec(),
            final(self).last_forecast_spec() == Some(now_ms),
            w.expires_at_ms == sat_add(origin_ms, old(self).schedule_spec().advisory_ttl_ms),
            w.meets_thresholds == meets_thresholds,
            ({
                let m = old(self).metrics_spec();
                let reduced = old(self).schedule_spec().rollout
                    == ForecastRolloutMode::CanaryReduceOnly && falls_below;
                final(self).metrics_spec() == (ForecastMetrics {
                    forecasts_issued: sat_add(m.forecasts_issued, 1),
                    eligibility_reductions: if reduced {
                        sat_add(m.eligibility_reductions, 1)
                    } else {
                        m.eligibility_reductions
                    },
                    ..m
                })
            }),
    {
        self.last_forecast_at_ms = Some(now_ms);
        self.metrics.forecasts_issued = self.metrics.forecasts_issued.saturating_add(1);
        if self.schedule.rollout == ForecastRolloutMode::CanaryReduceOnly && falls_below {
            self.metrics.eligibility_reductions = self.metrics.eligibility_reductions.saturating_add(
                1,
            );
        }
        AdvisoryWindow {
            expires_at_ms: origin_ms.saturating_add(self.schedule.advisory_ttl_ms),
            meets_thresholds,
        }
    }

    /// Whether new cooperative work may be assigned at `now_ms`, given the
    /// last advisory. Returns `false` only for a fresh canary advisory below
    /// a local threshold; every other state keeps existing behaviour.
    pub fn is_eligible_for_new_work(&self, advisory: Option<AdvisoryWindow>, now_ms: u64) -> (ok:
        bool)
        ensures
            ok == eligible(self.schedule_spec().rollout, advisory, now_ms),
    {
        is_eligible_for_new_work(self.schedule.rollout, advisory, now_ms)
    }
}

/// Whether new cooperative work may be assigned at `now_ms` under `rollout`
/// given the last advisory.
pub fn is_eligible_for_new_work(
    rollout: ForecastRolloutMode,
    advisory: Option<AdvisoryWindow>,
    now_ms: u64,
) -> (ok: bool)
    ensures
        ok == eligible(rollout, advisory, now_ms),
{
    match advisory {
        None => true,
        Some(a) => rollout != ForecastRolloutMode::CanaryReduceOnly || now_ms > a.expires_at_ms
            || a.meets_thresholds,
    }
}

/// A disabled forecast engine never forecasts: every refresh abstains, so no
/// forecast is recorded and no advisory is issued, and new work is always
/// eligible. Every operation keeps the schedule, so a state created disabled
/// (an invalid schedule falls back to disabled) stays disabled.
pub proof fn law_disabled_never_forecasts<T>(
    schedule: ForecastSchedule,
    h: Seq<(u64, T)>,
    now_ms: u64,
    advisory: Option<AdvisoryWindow>,
)
    requires
        schedule.rollout == ForecastRolloutMode::Disabled,
    ensures
        refresh_start(schedule, h, now_ms) == RefreshStart::Abstain,
        eligible(schedule.rollout, advisory, now_ms),
{
}

/// Forecasting only ever reduces eligibility, and only in the canary stage:
/// under a disabled or shadow rollout, without an advisory, with an expired
/// one, or with one that meets the thresholds, new work stays eligible.
pub proof fn law_forecast_is_reduce_only(
    rollout: ForecastRolloutMode,
    advisory: Option<AdvisoryWindow>,
    now_ms: u64,
)
    ensures
        !eligible(rollout, advisory, now_ms) ==> {
            &&& rollout == ForecastRolloutMode::CanaryReduceOnly
            &&& advisory matches Some(a) && now_ms <= a.expires_at_ms && !a.meets_thresholds
        },
{
}

/// A well-formed forecasting state never holds more observations than its
/// schedule's capacity, and holds them in strictly increasing time order.
pub proof fn law_state_history_bounded<T>(s: &ForecastState<T>)
    requires
        s.wf(),
    ensures
        s.history_spec().len() <= s.schedule_spec().history_capacity,
        s.schedule_spec().history_capacity >= 1,
        strictly_increasing(s.history_spec()),
{
    s.lemma_wf_bounds();
}

/// Inserting observations keeps the history within its capacity and in
/// strictly increasing time order, whatever is admitted.
pub proof fn law_history_stays_bounded_and_ordered<T>(
    h: Seq<(u64, T)>,
    cap: nat,
    t: u64,
    v: T,
)
    requires
        cap >= 1,
        h.len() <= cap,
        strictly_increasing(h),
        is_newer(h, t),
    ensures
        admitted(h, cap, t, v).len() <= cap,
        strictly_increasing(admitted(h, cap, t, v)),
        admitted(h, cap, t, v).last() == (t, v),
{
    let a = admitted(h, cap, t, v);
    assert forall|i: int, j: int| 0 <= i < j < a.len() implies a[i].0 < a[j].0 by {
        if h.len() >= cap {
            if j < a.len() - 1 {
                assert(a[i] == h[i + 1] && a[j] == h[j + 1]);
            } else {
                assert(a[i] == h[i + 1]);
            }
        } else {
            if j < a.len() - 1 {
                assert(a[i] == h[i] && a[j] == h[j]);
            } else {
                assert(a[i] == h[i]);
            }
        }
    }
}

} // verus!
