//! Deterministic admission and delivery policy for the LatentMesh data plane.
//!
//! This module deliberately stops at **mission coordination**. A message may
//! report state or propose bounded cooperative work, but it can never command
//! an actuator or alter flight authority. Priority, redundancy, and learned
//! compression are transport choices; none of them can raise authority.

use std::collections::BTreeSet;
use vstd::prelude::*;

verus! {

broadcast use vstd::std_specs::btree::group_btree_axioms;

/// Coarse authority tiers, ordered by consequence.
#[derive(Clone, Copy, Debug, PartialEq, Eq, PartialOrd, Ord, Hash, Structural)]
pub enum AuthorityLevel {
    /// Read or synchronize information without influencing a decision.
    ObserveOnly,
    /// Nonbinding advice or a bounded cooperative task proposal.
    MissionCoordination,
    /// Any command that can change vehicle, actuator, or payload state.
    FlightAuthority,
}

/// The highest authority any LatentMesh message may request in this crate.
pub const MAX_AUTHORITY: AuthorityLevel = AuthorityLevel::MissionCoordination;

/// Position of an authority tier in the consequence order.
pub open spec fn authority_rank(level: AuthorityLevel) -> nat {
    match level {
        AuthorityLevel::ObserveOnly => 0,
        AuthorityLevel::MissionCoordination => 1,
        AuthorityLevel::FlightAuthority => 2,
    }
}

/// Whether `level` is strictly more consequential than `ceiling`, in the
/// order in which the tiers are declared.
pub fn authority_exceeds(level: AuthorityLevel, ceiling: AuthorityLevel) -> (r: bool)
    ensures
        r == (authority_rank(level) > authority_rank(ceiling)),
{
    let l: u8 = match level {
        AuthorityLevel::ObserveOnly => 0,
        AuthorityLevel::MissionCoordination => 1,
        AuthorityLevel::FlightAuthority => 2,
    };
    let c: u8 = match ceiling {
        AuthorityLevel::ObserveOnly => 0,
        AuthorityLevel::MissionCoordination => 1,
        AuthorityLevel::FlightAuthority => 2,
    };
    l > c
}

/// Semantic action requested by a received envelope.
///
/// Denied variants are intentionally explicit. They must remain denied even
/// when a sender is authenticated, a link is degraded, or a residual model has
/// excellent measured utility.
#[derive(Clone, Copy, Debug, PartialEq, Eq, Structural)]
pub enum RequestedAction {
    Observe,
    StateSync,
    SnapshotRequest,
    NonbindingAdvisory,
    CooperativeTaskProposal {
        /// Opaque reference to a locally approved mission manifest. The wire
        /// action carries no coordinates, setpoints, or executable payload.
        manifest_id: u64,
        participant_count: u16,
        ttl_ms: u32,
        effort_units: u32,
    },
    ActuatorCommand,
    Arm,
    Disarm,
    FlightModeChange,
    AttitudeSetpoint,
    RateSetpoint,
    VelocitySetpoint,
    PositionSetpoint,
    GeofenceOverride,
    FailsafeOverride,
    PayloadRelease,
    /// Unknown wire discriminants must not inherit a permissive default.
    Unknown(u16),
}

/// Whether an action could change vehicle, actuator, or payload state.
pub open spec fn is_flight_or_actuator_action(action: RequestedAction) -> bool {
    match action {
        RequestedAction::ActuatorCommand
        | RequestedAction::Arm
        | RequestedAction::Disarm
        | RequestedAction::FlightModeChange
        | RequestedAction::AttitudeSetpoint
        | RequestedAction::RateSetpoint
        | RequestedAction::VelocitySetpoint
        | RequestedAction::PositionSetpoint
        | RequestedAction::GeofenceOverride
        | RequestedAction::FailsafeOverride
        | RequestedAction::PayloadRelease => true,
        _ => false,
    }
}

/// The capability emitted after admission. There is deliberately no flight
/// or actuator capability in this type.
#[derive(Clone, Copy, Debug, PartialEq, Eq, Structural)]
pub enum AuthorizedCapability {
    /// Read-only use. A learned residual admitted here remains ephemeral and
    /// must never be merged into canonical deterministic flight state.
    Observe,
    StateSync,
    SnapshotRequest,
    NonbindingAdvisory,
    CooperativeTaskProposal,
}

/// Why a message was refused.
#[derive(Clone, Copy, Debug, PartialEq, Eq, Structural)]
pub enum PolicyDropReason {
    InvalidMetric,
    Unauthenticated,
    UntrustedSource,
    StaleInput,
    DeadlineExpired,
    DeadlineUnreachable,
    UnknownAction,
    ForbiddenAction,
    ExcessiveAuthority,
    ProposalOutOfBounds,
    ManifestNotApproved,
    TrafficClassMismatch,
    LinkTooDegraded,
    EnergyBudgetExceeded,
    ResidualNotValidated,
    InsufficientUtility,
}

/// Authenticated envelope metadata. It contains no key material or payload.
#[derive(Clone, Copy, Debug, PartialEq, Eq)]
pub struct SecurityContext {
    authenticated: bool,
    trusted_source: bool,
    issued_at_ms: u64,
    expires_at_ms: u64,
    requested_authority: AuthorityLevel,
}

impl SecurityContext {
    pub closed spec fn authenticated_flag(self) -> bool {
        self.authenticated
    }

    pub closed spec fn trusted_flag(self) -> bool {
        self.trusted_source
    }

    pub closed spec fn issued_at(self) -> u64 {
        self.issued_at_ms
    }

    pub closed spec fn expires_at(self) -> u64 {
        self.expires_at_ms
    }

    pub closed spec fn authority(self) -> AuthorityLevel {
        self.requested_authority
    }

    /// The context that the local receive path attaches to an advisory whose
    /// signature it verified: authenticated, trusted, and observe-only.
    pub fn verified_observe_only(issued_at_ms: u64, expires_at_ms: u64) -> (ctx: Self)
        ensures
            ctx.authenticated_flag(),
            ctx.trusted_flag(),
            ctx.issued_at() == issued_at_ms,
            ctx.expires_at() == expires_at_ms,
            ctx.authority() == AuthorityLevel::ObserveOnly,
    {
        SecurityContext {
            authenticated: true,
            trusted_source: true,
            issued_at_ms,
            expires_at_ms,
            requested_authority: AuthorityLevel::ObserveOnly,
        }
    }

    /// The seam for the local verifier and trust store: the two flags are
    /// their outputs, never values read from a received envelope.
    pub fn from_local_verifier(
        authenticated: bool,
        trusted_source: bool,
        issued_at_ms: u64,
        expires_at_ms: u64,
        requested_authority: AuthorityLevel,
    ) -> (ctx: Self)
        ensures
            ctx.authenticated_flag() == authenticated,
            ctx.trusted_flag() == trusted_source,
            ctx.issued_at() == issued_at_ms,
            ctx.expires_at() == expires_at_ms,
            ctx.authority() == requested_authority,
    {
        SecurityContext {
            authenticated,
            trusted_source,
            issued_at_ms,
            expires_at_ms,
            requested_authority,
        }
    }

    pub fn is_authenticated(&self) -> (r: bool)
        ensures
            r == self.authenticated_flag(),
    {
        self.authenticated
    }

    pub fn is_trusted_source(&self) -> (r: bool)
        ensures
            r == self.trusted_flag(),
    {
        self.trusted_source
    }

    pub fn issued_at_ms(&self) -> (r: u64)
        ensures
            r == self.issued_at(),
    {
        self.issued_at_ms
    }

    pub fn expires_at_ms(&self) -> (r: u64)
        ensures
            r == self.expires_at(),
    {
        self.expires_at_ms
    }

    pub fn requested_authority(&self) -> (r: AuthorityLevel)
        ensures
            r == self.authority(),
    {
        self.requested_authority
    }
}

/// Hard limits for the capability gate.
#[derive(Clone, Copy, Debug, PartialEq, Eq, Structural)]
pub struct CapabilityGateConfig {
    /// Maximum age of an authenticated decision context. Default: 30 s.
    pub max_context_age_ms: u64,
    /// Accepted positive clock skew. Default: 2 s.
    pub max_clock_skew_ms: u64,
    /// Cooperative proposals are bounded to this many peers. Default: 64.
    pub max_proposal_participants: u16,
    /// Proposal TTL ceiling. Default: 60 s.
    pub max_proposal_ttl_ms: u32,
    /// Abstract, deployment-defined effort ceiling. Default: 10,000 units.
    pub max_proposal_effort_units: u32,
}

impl Default for CapabilityGateConfig {
    fn default() -> (config: Self)
        ensures
            config == (CapabilityGateConfig {
                max_context_age_ms: 30_000,
                max_clock_skew_ms: 2_000,
                max_proposal_participants: 64,
                max_proposal_ttl_ms: 60_000,
                max_proposal_effort_units: 10_000,
            }),
    {
        CapabilityGateConfig {
            max_context_age_ms: 30_000,
            max_clock_skew_ms: 2_000,
            max_proposal_participants: 64,
            max_proposal_ttl_ms: 60_000,
            max_proposal_effort_units: 10_000,
        }
    }
}

/// Whether an authenticated context is usable at `now`: not issued beyond the
/// accepted clock skew, not expired, and not older than the context age limit.
pub open spec fn context_is_fresh(config: CapabilityGateConfig, now: u64, ctx: SecurityContext) -> bool {
    &&& ctx.issued_at() <= now + config.max_clock_skew_ms
    &&& ctx.issued_at() <= ctx.expires_at()
    &&& now <= ctx.expires_at()
    &&& now - ctx.issued_at() <= config.max_context_age_ms
}

/// Whether a cooperative proposal's participants, TTL and effort are each
/// nonzero and within the configured ceilings.
pub open spec fn proposal_within_bounds(
    config: CapabilityGateConfig,
    participant_count: u16,
    ttl_ms: u32,
    effort_units: u32,
) -> bool {
    &&& 0 < participant_count <= config.max_proposal_participants
    &&& 0 < ttl_ms <= config.max_proposal_ttl_ms
    &&& 0 < effort_units <= config.max_proposal_effort_units
}

/// What an action is granted as, with the highest authority it may carry,
/// or why it is refused outright. `approved` is the set of locally approved
/// manifests.
pub open spec fn action_grant(
    config: CapabilityGateConfig,
    approved: Set<u64>,
    action: RequestedAction,
) -> Result<(AuthorizedCapability, AuthorityLevel), PolicyDropReason> {
    match action {
        RequestedAction::Observe => Ok((AuthorizedCapability::Observe, AuthorityLevel::ObserveOnly)),
        RequestedAction::StateSync => Ok(
            (AuthorizedCapability::StateSync, AuthorityLevel::ObserveOnly),
        ),
        RequestedAction::SnapshotRequest => Ok(
            (AuthorizedCapability::SnapshotRequest, AuthorityLevel::ObserveOnly),
        ),
        RequestedAction::NonbindingAdvisory => Ok(
            (AuthorizedCapability::NonbindingAdvisory, AuthorityLevel::MissionCoordination),
        ),
        RequestedAction::CooperativeTaskProposal {
            manifest_id,
            participant_count,
            ttl_ms,
            effort_units,
        } => if !(manifest_id != 0 && approved.contains(manifest_id)) {
            Err(PolicyDropReason::ManifestNotApproved)
        } else if !proposal_within_bounds(config, participant_count, ttl_ms, effort_units) {
            Err(PolicyDropReason::ProposalOutOfBounds)
        } else {
            Ok((AuthorizedCapability::CooperativeTaskProposal, AuthorityLevel::MissionCoordination))
        },
        RequestedAction::Unknown(_) => Err(PolicyDropReason::UnknownAction),
        _ => Err(PolicyDropReason::ForbiddenAction),
    }
}

/// The authorization decision: authentication, then trust, then the authority
/// ceiling, then freshness, then the action itself, and finally that the
/// requested authority does not exceed what the action may carry.
pub open spec fn authorize_outcome(
    config: CapabilityGateConfig,
    approved: Set<u64>,
    now: u64,
    ctx: SecurityContext,
    action: RequestedAction,
) -> Result<AuthorizedCapability, PolicyDropReason> {
    if !ctx.authenticated_flag() {
        Err(PolicyDropReason::Unauthenticated)
    } else if !ctx.trusted_flag() {
        Err(PolicyDropReason::UntrustedSource)
    } else if authority_rank(ctx.authority()) > authority_rank(MAX_AUTHORITY) {
        Err(PolicyDropReason::ExcessiveAuthority)
    } else if !context_is_fresh(config, now, ctx) {
        Err(PolicyDropReason::StaleInput)
    } else {
        match action_grant(config, approved, action) {
            Err(reason) => Err(reason),
            Ok((capability, ceiling)) => if authority_rank(ctx.authority()) > authority_rank(
                ceiling,
            ) {
                Err(PolicyDropReason::ExcessiveAuthority)
            } else {
                Ok(capability)
            },
        }
    }
}

/// Default-deny action and authority gate.
#[derive(Clone, Debug)]
pub struct CapabilityGate {
    config: CapabilityGateConfig,
    approved_manifest_ids: BTreeSet<u64>,
}

impl CapabilityGate {
    /// The configured limits of this capability gate.
    pub closed spec fn limits(self) -> CapabilityGateConfig {
        self.config
    }

    /// The manifests approved by the local mission authority.
    pub closed spec fn approved(self) -> Set<u64> {
        self.approved_manifest_ids@
    }

    pub fn new(config: CapabilityGateConfig) -> (gate: Self)
        ensures
            gate.limits() == config,
            gate.approved() == Set::<u64>::empty(),
    {
        CapabilityGate { config, approved_manifest_ids: BTreeSet::new() }
    }

    pub fn config(&self) -> (config: &CapabilityGateConfig)
        ensures
            *config == self.limits(),
    {
        &self.config
    }

    /// Add a manifest approved by the local mission authority. There is no
    /// receive-side API that calls this method; remote messages cannot approve
    /// their own manifest. Zero is reserved as "no manifest".
    pub fn approve_manifest(&mut self, manifest_id: u64) -> (added: bool)
        ensures
            final(self).limits() == old(self).limits(),
            manifest_id == 0 ==> final(self).approved() == old(self).approved() && !added,
            manifest_id != 0 ==> final(self).approved() == old(self).approved().insert(manifest_id)
                && added == !old(self).approved().contains(manifest_id),
    {
        manifest_id != 0 && self.approved_manifest_ids.insert(manifest_id)
    }

    pub fn revoke_manifest(&mut self, manifest_id: u64) -> (removed: bool)
        ensures
            final(self).limits() == old(self).limits(),
            final(self).approved() == old(self).approved().remove(manifest_id),
            removed == old(self).approved().contains(manifest_id),
    {
        self.approved_manifest_ids.remove(&manifest_id)
    }

    pub fn is_manifest_approved(&self, manifest_id: u64) -> (approved: bool)
        ensures
            approved == (manifest_id != 0 && self.approved().contains(manifest_id)),
    {
        manifest_id != 0 && self.approved_manifest_ids.contains(&manifest_id)
    }

    /// Admit only a fresh, authenticated, trusted, explicitly allowed action.
    pub fn authorize(
        &self,
        now_ms: u64,
        context: &SecurityContext,
        action: RequestedAction,
    ) -> (result: Result<AuthorizedCapability, PolicyDropReason>)
        ensures
            result == authorize_outcome(self.limits(), self.approved(), now_ms, *context, action),
    {
        if !context.authenticated {
            return Err(PolicyDropReason::Unauthenticated);
        }
        if !context.trusted_source {
            return Err(PolicyDropReason::UntrustedSource);
        }
        if authority_exceeds(context.requested_authority, MAX_AUTHORITY) {
            return Err(PolicyDropReason::ExcessiveAuthority);
        }
        if context.issued_at_ms > now_ms.saturating_add(self.config.max_clock_skew_ms)
            || context.expires_at_ms < context.issued_at_ms || now_ms > context.expires_at_ms
            || now_ms.saturating_sub(context.issued_at_ms) > self.config.max_context_age_ms
        {
            return Err(PolicyDropReason::StaleInput);
        }
        let (capability, action_ceiling) = match action {
            RequestedAction::Observe => (AuthorizedCapability::Observe, AuthorityLevel::ObserveOnly),
            RequestedAction::StateSync => (
                AuthorizedCapability::StateSync,
                AuthorityLevel::ObserveOnly,
            ),
            RequestedAction::SnapshotRequest => (
                AuthorizedCapability::SnapshotRequest,
                AuthorityLevel::ObserveOnly,
            ),
            RequestedAction::NonbindingAdvisory => (
                AuthorizedCapability::NonbindingAdvisory,
                AuthorityLevel::MissionCoordination,
            ),
            RequestedAction::CooperativeTaskProposal {
                manifest_id,
                participant_count,
                ttl_ms,
                effort_units,
            } => {
                if !self.is_manifest_approved(manifest_id) {
                    return Err(PolicyDropReason::ManifestNotApproved);
                }
                if participant_count == 0 || participant_count
                    > self.config.max_proposal_participants || ttl_ms == 0 || ttl_ms
                    > self.config.max_proposal_ttl_ms || effort_units == 0 || effort_units
                    > self.config.max_proposal_effort_units {
                    return Err(PolicyDropReason::ProposalOutOfBounds);
                }
                (AuthorizedCapability::CooperativeTaskProposal, AuthorityLevel::MissionCoordination)
            },
            RequestedAction::Unknown(_) => return Err(PolicyDropReason::UnknownAction),
            RequestedAction::ActuatorCommand
            | RequestedAction::Arm
            | RequestedAction::Disarm
            | RequestedAction::FlightModeChange
            | RequestedAction::AttitudeSetpoint
            | RequestedAction::RateSetpoint
            | RequestedAction::VelocitySetpoint
            | RequestedAction::PositionSetpoint
            | RequestedAction::GeofenceOverride
            | RequestedAction::FailsafeOverride
            | RequestedAction::PayloadRelease => return Err(PolicyDropReason::ForbiddenAction),
        };
        // An observe-only action cannot smuggle a broader authority request.
        if authority_exceeds(context.requested_authority, action_ceiling) {
            return Err(PolicyDropReason::ExcessiveAuthority);
        }
        Ok(capability)
    }
}

impl Default for CapabilityGate {
    fn default() -> (gate: Self)
        ensures
            gate.limits() == (CapabilityGateConfig {
                max_context_age_ms: 30_000,
                max_clock_skew_ms: 2_000,
                max_proposal_participants: 64,
                max_proposal_ttl_ms: 60_000,
                max_proposal_effort_units: 10_000,
            }),
            gate.approved() == Set::<u64>::empty(),
    {
        Self::new(CapabilityGateConfig::default())
    }
}

/// Traffic classes used for deterministic scheduling. They describe delivery
/// treatment, not execution authority.
#[derive(Clone, Copy, Debug, PartialEq, Eq, Hash, Structural)]
pub enum TrafficClass {
    CriticalCoordination,
    CooperativeTask,
    StateSync,
    SnapshotRequest,
    Observation,
    LearnedResidual,
    BulkSnapshot,
}

/// Freshness ceiling of a traffic class, in milliseconds.
pub open spec fn class_max_age(class: TrafficClass) -> u64 {
    match class {
        TrafficClass::CriticalCoordination
        | TrafficClass::CooperativeTask
        | TrafficClass::LearnedResidual => 2_000,
        TrafficClass::StateSync => 3_000,
        TrafficClass::Observation => 5_000,
        TrafficClass::SnapshotRequest => 10_000,
        TrafficClass::BulkSnapshot => 60_000,
    }
}

/// Which action each traffic class may carry.
pub open spec fn class_permits(class: TrafficClass, action: RequestedAction) -> bool {
    match (class, action) {
        (TrafficClass::CriticalCoordination, RequestedAction::NonbindingAdvisory) => true,
        (TrafficClass::CooperativeTask, RequestedAction::CooperativeTaskProposal { .. }) => true,
        (TrafficClass::StateSync, RequestedAction::StateSync) => true,
        (TrafficClass::SnapshotRequest, RequestedAction::SnapshotRequest) => true,
        (TrafficClass::Observation, RequestedAction::Observe) => true,
        (TrafficClass::LearnedResidual, RequestedAction::Observe) => true,
        (TrafficClass::BulkSnapshot, RequestedAction::Observe) => true,
        _ => false,
    }
}

impl TrafficClass {
    /// Freshness ceilings are transport defaults, not flight-control timing:
    /// 2 s for coordination/residuals, 3 s for state, 5 s for observations,
    /// 10 s for requests, and 60 s for a bulk snapshot.
    pub fn max_age_ms(self) -> (age: u64)
        ensures
            age == class_max_age(self),
    {
        match self {
            TrafficClass::CriticalCoordination
            | TrafficClass::CooperativeTask
            | TrafficClass::LearnedResidual => 2_000,
            TrafficClass::StateSync => 3_000,
            TrafficClass::Observation => 5_000,
            TrafficClass::SnapshotRequest => 10_000,
            TrafficClass::BulkSnapshot => 60_000,
        }
    }

    /// Whether this class may carry `action`.
    pub fn permits(self, action: RequestedAction) -> (permitted: bool)
        ensures
            permitted == class_permits(self, action),
    {
        match (self, action) {
            (TrafficClass::CriticalCoordination, RequestedAction::NonbindingAdvisory) => true,
            (TrafficClass::CooperativeTask, RequestedAction::CooperativeTaskProposal { .. }) => true,
            (TrafficClass::StateSync, RequestedAction::StateSync) => true,
            (TrafficClass::SnapshotRequest, RequestedAction::SnapshotRequest) => true,
            (TrafficClass::Observation, RequestedAction::Observe) => true,
            (TrafficClass::LearnedResidual, RequestedAction::Observe) => true,
            (TrafficClass::BulkSnapshot, RequestedAction::Observe) => true,
            _ => false,
        }
    }
}

/// Acknowledgement treatment of a delivery.
#[derive(Clone, Copy, Debug, PartialEq, Eq, Structural)]
pub enum AckMode {
    /// No acknowledgement is requested.
    NoAck,
    Opportunistic,
    Required,
}

/// Transport redundancy selected from measured loss. `copies` includes the
/// original transmission; parity is additional FEC overhead per copy.
#[derive(Clone, Copy, Debug, PartialEq, Eq, Structural)]
pub struct Redundancy {
    pub copies: u8,
    pub parity_percent: u8,
}

/// `a * b`, clamped to `u64::MAX`.
pub open spec fn sat_mul(a: u64, b: u64) -> u64 {
    if a * b > u64::MAX {
        u64::MAX
    } else {
        (a * b) as u64
    }
}

/// Multiply, saturating at `u64::MAX`.
pub fn saturating_mul(a: u64, b: u64) -> (product: u64)
    ensures
        product == sat_mul(a, b),
{
    match a.checked_mul(b) {
        Some(product) => product,
        None => u64::MAX,
    }
}

/// Wire bytes after duplicate copies and parity, rounded up to whole bytes.
pub open spec fn expanded_wire_bytes_spec(base: u32, redundancy: Redundancy) -> u64 {
    let numerator = sat_mul(
        sat_mul(base as u64, redundancy.copies as u64),
        (100 + redundancy.parity_percent) as u64,
    );
    (if numerator + 99 > u64::MAX { u64::MAX } else { (numerator + 99) as u64 }) / 100
}

/// Wire bytes actually transmitted for `base` encoded bytes under
/// `redundancy`: every copy carries the parity overhead, rounded up.
pub fn expanded_wire_bytes(base: u32, redundancy: Redundancy) -> (bytes: u64)
    ensures
        bytes == expanded_wire_bytes_spec(base, redundancy),
{
    let numerator = saturating_mul(
        saturating_mul(base as u64, redundancy.copies as u64),
        100 + redundancy.parity_percent as u64,
    );
    numerator.saturating_add(99) / 100
}

/// Measured pre-FEC packet loss, in the bands that delivery treatment
/// distinguishes. The boundaries are 10 %, 25 %, 50 %, 65 % and 80 %; each
/// band includes its lower boundary.
#[derive(Clone, Copy, Debug, PartialEq, Eq, Structural)]
pub enum LossBand {
    /// Below 10 %.
    Clean,
    /// From 10 % up to 25 %.
    Light,
    /// From 25 % up to 50 %.
    Moderate,
    /// From 50 % up to 65 %.
    Heavy,
    /// From 65 % up to 80 %.
    Severe,
    /// 80 % or more.
    Lost,
}

/// Position of a band in increasing order of loss.
pub open spec fn loss_rank(band: LossBand) -> int {
    match band {
        LossBand::Clean => 0,
        LossBand::Light => 1,
        LossBand::Moderate => 2,
        LossBand::Heavy => 3,
        LossBand::Severe => 4,
        LossBand::Lost => 5,
    }
}

/// Coordination and cooperative-task traffic: worth more effort on a bad link.
pub open spec fn is_consequential(class: TrafficClass) -> bool {
    class == TrafficClass::CriticalCoordination || class == TrafficClass::CooperativeTask
}

/// The redundancy that each loss band calls for.
pub open spec fn band_redundancy(band: LossBand) -> Redundancy {
    match band {
        LossBand::Clean => Redundancy { copies: 1, parity_percent: 0 },
        LossBand::Light => Redundancy { copies: 1, parity_percent: 20 },
        LossBand::Moderate => Redundancy { copies: 2, parity_percent: 35 },
        _ => Redundancy { copies: 3, parity_percent: 50 },
    }
}

/// How a message of `class` is delivered over a link in `band`: nothing at
/// 80 % loss, nor at 65 % unless the traffic is consequential; otherwise an
/// acknowledgement mode and the band's redundancy. Consequential traffic, and
/// any traffic from 25 % loss up, requires acknowledgement; state and
/// snapshot requests, and any traffic from 10 % up, ask for it
/// opportunistically.
pub open spec fn treatment(band: LossBand, class: TrafficClass) -> Option<(AckMode, Redundancy)> {
    if band == LossBand::Lost || (band == LossBand::Severe && !is_consequential(class)) {
        None
    } else {
        let ack = if is_consequential(class) || loss_rank(band) >= 2 {
            AckMode::Required
        } else if class == TrafficClass::StateSync || class == TrafficClass::SnapshotRequest
            || band == LossBand::Light {
            AckMode::Opportunistic
        } else {
            AckMode::NoAck
        };
        Some((ack, band_redundancy(band)))
    }
}

/// Acknowledgement and redundancy for a message of `class` over a link whose
/// loss lies in `band`; `None` when the link is too degraded for it.
pub fn delivery_treatment(band: LossBand, class: TrafficClass) -> (t: Option<(AckMode, Redundancy)>)
    ensures
        t == treatment(band, class),
{
    let consequential = match class {
        TrafficClass::CriticalCoordination | TrafficClass::CooperativeTask => true,
        _ => false,
    };
    let too_lossy = match band {
        LossBand::Lost => true,
        LossBand::Severe => !consequential,
        _ => false,
    };
    if too_lossy {
        return None;
    }
    let redundancy = match band {
        LossBand::Clean => Redundancy { copies: 1, parity_percent: 0 },
        LossBand::Light => Redundancy { copies: 1, parity_percent: 20 },
        LossBand::Moderate => Redundancy { copies: 2, parity_percent: 35 },
        _ => Redundancy { copies: 3, parity_percent: 50 },
    };
    let heavy = match band {
        LossBand::Clean | LossBand::Light => false,
        _ => true,
    };
    let ack = if consequential || heavy {
        AckMode::Required
    } else {
        let requested = match class {
            TrafficClass::StateSync | TrafficClass::SnapshotRequest => true,
            _ => false,
        };
        let light = match band {
            LossBand::Light => true,
            _ => false,
        };
        if requested || light {
            AckMode::Opportunistic
        } else {
            AckMode::NoAck
        }
    };
    Some((ack, redundancy))
}

/// Acknowledgement modes in increasing order of effort.
pub open spec fn ack_rank(ack: AckMode) -> int {
    match ack {
        AckMode::NoAck => 0,
        AckMode::Opportunistic => 1,
        AckMode::Required => 2,
    }
}

/// More loss never buys less: whatever a lossier link still delivers, a
/// cleaner one delivers too, with no more copies, no more parity and no
/// stronger acknowledgement; and consequential traffic that is delivered at
/// all is always acknowledged.
pub proof fn law_treatment_tracks_loss(lighter: LossBand, heavier: LossBand, class: TrafficClass)
    requires
        loss_rank(lighter) <= loss_rank(heavier),
        treatment(heavier, class) is Some,
    ensures
        treatment(lighter, class) is Some,
        treatment(lighter, class)->Some_0.1.copies <= treatment(heavier, class)->Some_0.1.copies,
        treatment(lighter, class)->Some_0.1.parity_percent <= treatment(
            heavier,
            class,
        )->Some_0.1.parity_percent,
        ack_rank(treatment(lighter, class)->Some_0.0) <= ack_rank(treatment(heavier, class)->Some_0.0),
        is_consequential(class) ==> treatment(heavier, class)->Some_0.0 == AckMode::Required,
{
}

/// What the residual screen reads of a learned residual's evidence: when it
/// was evaluated, its sample count and attestations, and the outcome of its
/// measured-metric checks (whether the metrics are well formed, and whether
/// they meet the policy's utility, significance, error and task-success
/// bounds).
#[derive(Clone, Copy, Debug, PartialEq, Eq, Structural)]
pub struct ResidualFacts {
    pub evaluated_at_ms: u64,
    pub causal_controls_passed: bool,
    pub sample_count: u32,
    pub metrics_valid: bool,
    pub metrics_meet_bounds: bool,
    pub model_compatible: bool,
    pub decoder_trusted: bool,
    pub semantic_fallback_available: bool,
}

/// The residual limits of the delivery policy.
#[derive(Clone, Copy, Debug, PartialEq, Eq, Structural)]
pub struct ResidualLimits {
    pub max_clock_skew_ms: u64,
    pub max_evidence_age_ms: u64,
    pub min_samples: u32,
}

/// Evidence that is fresh, large enough, and attested in every respect.
pub open spec fn evidence_sufficient(l: ResidualLimits, now: u64, e: ResidualFacts) -> bool {
    &&& e.evaluated_at_ms <= now + l.max_clock_skew_ms
    &&& now - e.evaluated_at_ms <= l.max_evidence_age_ms
    &&& e.causal_controls_passed
    &&& e.sample_count >= l.min_samples
    &&& e.metrics_meet_bounds
    &&& e.model_compatible
    &&& e.decoder_trusted
    &&& e.semantic_fallback_available
}

/// Residual evidence belongs to learned-residual traffic and to nothing else;
/// such traffic needs evidence with well-formed metrics that is sufficient.
pub open spec fn residual_outcome(
    l: ResidualLimits,
    now: u64,
    class: TrafficClass,
    evidence: Option<ResidualFacts>,
) -> Result<(), PolicyDropReason> {
    match (class, evidence) {
        (TrafficClass::LearnedResidual, Some(e)) => if !e.metrics_valid {
            Err(PolicyDropReason::InvalidMetric)
        } else if !evidence_sufficient(l, now, e) {
            Err(PolicyDropReason::ResidualNotValidated)
        } else {
            Ok(())
        },
        (TrafficClass::LearnedResidual, None) => Err(PolicyDropReason::ResidualNotValidated),
        (_, Some(_)) => Err(PolicyDropReason::TrafficClassMismatch),
        (_, None) => Ok(()),
    }
}

/// Screen a message's residual evidence against its traffic class.
pub fn screen_residual(
    limits: &ResidualLimits,
    now_ms: u64,
    class: TrafficClass,
    evidence: Option<ResidualFacts>,
) -> (r: Result<(), PolicyDropReason>)
    ensures
        r == residual_outcome(*limits, now_ms, class, evidence),
{
    let residual_class = match class {
        TrafficClass::LearnedResidual => true,
        _ => false,
    };
    match evidence {
        Some(e) => {
            if !residual_class {
                return Err(PolicyDropReason::TrafficClassMismatch);
            }
            if !e.metrics_valid {
                return Err(PolicyDropReason::InvalidMetric);
            }
            if e.evaluated_at_ms > now_ms.saturating_add(limits.max_clock_skew_ms)
                || now_ms.saturating_sub(e.evaluated_at_ms) > limits.max_evidence_age_ms
                || !e.causal_controls_passed || e.sample_count < limits.min_samples
                || !e.metrics_meet_bounds || !e.model_compatible || !e.decoder_trusted
                || !e.semantic_fallback_available {
                return Err(PolicyDropReason::ResidualNotValidated);
            }
            Ok(())
        },
        None => if residual_class {
            Err(PolicyDropReason::ResidualNotValidated)
        } else {
            Ok(())
        },
    }
}

/// A learned residual uses the link only with evidence, and evidence never
/// rides on any other class: whatever passes the screen either carries no
/// evidence on a non-residual class, or is a learned residual whose
/// well-formed evidence is sufficient.
pub proof fn law_residuals_need_sufficient_evidence(
    l: ResidualLimits,
    now: u64,
    class: TrafficClass,
    evidence: Option<ResidualFacts>,
)
    requires
        residual_outcome(l, now, class, evidence) is Ok,
    ensures
        class == TrafficClass::LearnedResidual <==> evidence is Some,
        evidence is Some ==> evidence->Some_0.metrics_valid && evidence_sufficient(
            l,
            now,
            evidence->Some_0,
        ),
{
}

/// The order in which a candidate message is screened before any link
/// arithmetic: a stale link sample, a stale or inconsistent message, an
/// expired deadline, the capability gate, and finally the pairing of traffic
/// class and action.
pub open spec fn admission_outcome(
    config: CapabilityGateConfig,
    approved: Set<u64>,
    max_link_snapshot_age_ms: u64,
    now: u64,
    link_observed_at_ms: u64,
    class: TrafficClass,
    created_at_ms: u64,
    deadline_at_ms: u64,
    ctx: SecurityContext,
    action: RequestedAction,
) -> Result<AuthorizedCapability, PolicyDropReason> {
    if link_observed_at_ms > now + config.max_clock_skew_ms || now - link_observed_at_ms
        > max_link_snapshot_age_ms {
        Err(PolicyDropReason::StaleInput)
    } else if deadline_at_ms < created_at_ms || created_at_ms > now + config.max_clock_skew_ms
        || now - created_at_ms > class_max_age(class) {
        Err(PolicyDropReason::StaleInput)
    } else if now > deadline_at_ms {
        Err(PolicyDropReason::DeadlineExpired)
    } else {
        match authorize_outcome(config, approved, now, ctx, action) {
            Err(reason) => Err(reason),
            Ok(capability) => if !class_permits(class, action) {
                Err(PolicyDropReason::TrafficClassMismatch)
            } else {
                Ok(capability)
            },
        }
    }
}

/// Screen one candidate message against its link sample's age, its own
/// freshness and deadline, the capability gate, and its traffic class.
/// This is the integer part of delivery evaluation; measured link quality,
/// energy and utility are judged after it.
pub fn admit_intent(
    gate: &CapabilityGate,
    max_link_snapshot_age_ms: u64,
    now_ms: u64,
    link_observed_at_ms: u64,
    traffic_class: TrafficClass,
    created_at_ms: u64,
    deadline_at_ms: u64,
    security: &SecurityContext,
    action: RequestedAction,
) -> (result: Result<AuthorizedCapability, PolicyDropReason>)
    ensures
        result == admission_outcome(
            gate.limits(),
            gate.approved(),
            max_link_snapshot_age_ms,
            now_ms,
            link_observed_at_ms,
            traffic_class,
            created_at_ms,
            deadline_at_ms,
            *security,
            action,
        ),
{
    let skew = gate.config().max_clock_skew_ms;
    if link_observed_at_ms > now_ms.saturating_add(skew) || now_ms.saturating_sub(
        link_observed_at_ms,
    ) > max_link_snapshot_age_ms {
        return Err(PolicyDropReason::StaleInput);
    }
    if deadline_at_ms < created_at_ms || created_at_ms > now_ms.saturating_add(skew)
        || now_ms.saturating_sub(created_at_ms) > traffic_class.max_age_ms() {
        return Err(PolicyDropReason::StaleInput);
    }
    if now_ms > deadline_at_ms {
        return Err(PolicyDropReason::DeadlineExpired);
    }
    let capability = match gate.authorize(now_ms, security, action) {
        Ok(capability) => capability,
        Err(reason) => return Err(reason),
    };
    if !traffic_class.permits(action) {
        return Err(PolicyDropReason::TrafficClassMismatch);
    }
    Ok(capability)
}

/// The capability that an allowed action is granted as.
pub open spec fn capability_for(action: RequestedAction) -> Option<AuthorizedCapability> {
    match action {
        RequestedAction::Observe => Some(AuthorizedCapability::Observe),
        RequestedAction::StateSync => Some(AuthorizedCapability::StateSync),
        RequestedAction::SnapshotRequest => Some(AuthorizedCapability::SnapshotRequest),
        RequestedAction::NonbindingAdvisory => Some(AuthorizedCapability::NonbindingAdvisory),
        RequestedAction::CooperativeTaskProposal { .. } => Some(
            AuthorizedCapability::CooperativeTaskProposal,
        ),
        _ => None,
    }
}

/// A context that passes every check that precedes the action itself.
pub open spec fn context_admissible(config: CapabilityGateConfig, now: u64, ctx: SecurityContext) -> bool {
    &&& ctx.authenticated_flag()
    &&& ctx.trusted_flag()
    &&& authority_rank(ctx.authority()) <= authority_rank(MAX_AUTHORITY)
    &&& context_is_fresh(config, now, ctx)
}

/// No flight or actuator action is ever authorized, whoever sends it, and a
/// context that is otherwise admissible is refused with `ForbiddenAction`.
pub proof fn law_flight_actions_never_authorized(
    config: CapabilityGateConfig,
    approved: Set<u64>,
    now: u64,
    ctx: SecurityContext,
    action: RequestedAction,
)
    requires
        is_flight_or_actuator_action(action),
    ensures
        authorize_outcome(config, approved, now, ctx, action) is Err,
        context_admissible(config, now, ctx) ==> authorize_outcome(config, approved, now, ctx, action)
            == Err::<AuthorizedCapability, PolicyDropReason>(PolicyDropReason::ForbiddenAction),
{
}

/// An unknown wire action never inherits a permissive default.
pub proof fn law_unknown_actions_never_authorized(
    config: CapabilityGateConfig,
    approved: Set<u64>,
    now: u64,
    ctx: SecurityContext,
    code: u16,
)
    ensures
        authorize_outcome(config, approved, now, ctx, RequestedAction::Unknown(code)) is Err,
        context_admissible(config, now, ctx) ==> authorize_outcome(
            config,
            approved,
            now,
            ctx,
            RequestedAction::Unknown(code),
        ) == Err::<AuthorizedCapability, PolicyDropReason>(PolicyDropReason::UnknownAction),
{
}

/// Whatever a capability gate admits came from an authenticated, trusted, fresh
/// context that requested at most mission coordination; it is the capability
/// of the requested action; and an observe-class capability never carries
/// more than observe-only authority.
pub proof fn law_authorized_authority_is_bounded(
    config: CapabilityGateConfig,
    approved: Set<u64>,
    now: u64,
    ctx: SecurityContext,
    action: RequestedAction,
)
    requires
        authorize_outcome(config, approved, now, ctx, action) is Ok,
    ensures
        context_admissible(config, now, ctx),
        capability_for(action) == Some(authorize_outcome(config, approved, now, ctx, action)->Ok_0),
        !is_flight_or_actuator_action(action),
        authority_rank(ctx.authority()) <= authority_rank(AuthorityLevel::MissionCoordination),
        (action == RequestedAction::Observe || action == RequestedAction::StateSync || action
            == RequestedAction::SnapshotRequest) ==> ctx.authority() == AuthorityLevel::ObserveOnly,
{
}

/// A cooperative proposal within bounds is admitted exactly while its
/// manifest is locally approved: approving it (nonzero id) admits it, and
/// revoking it refuses it again with `ManifestNotApproved`.
pub proof fn law_manifest_approval_gates_proposals(
    config: CapabilityGateConfig,
    approved: Set<u64>,
    now: u64,
    ctx: SecurityContext,
    manifest_id: u64,
    participant_count: u16,
    ttl_ms: u32,
    effort_units: u32,
)
    requires
        manifest_id != 0,
        context_admissible(config, now, ctx),
        proposal_within_bounds(config, participant_count, ttl_ms, effort_units),
    ensures
        ({
            let action = RequestedAction::CooperativeTaskProposal {
                manifest_id,
                participant_count,
                ttl_ms,
                effort_units,
            };
            &&& authorize_outcome(config, approved.insert(manifest_id), now, ctx, action) == Ok::<
                AuthorizedCapability,
                PolicyDropReason,
            >(AuthorizedCapability::CooperativeTaskProposal)
            &&& authorize_outcome(config, approved.remove(manifest_id), now, ctx, action) == Err::<
                AuthorizedCapability,
                PolicyDropReason,
            >(PolicyDropReason::ManifestNotApproved)
        }),
{
}

/// Manifest zero is reserved: no gate state ever admits a proposal for it.
pub proof fn law_manifest_zero_never_admits(
    config: CapabilityGateConfig,
    approved: Set<u64>,
    now: u64,
    ctx: SecurityContext,
    participant_count: u16,
    ttl_ms: u32,
    effort_units: u32,
)
    ensures
        authorize_outcome(
            config,
            approved,
            now,
            ctx,
            RequestedAction::CooperativeTaskProposal {
                manifest_id: 0,
                participant_count,
                ttl_ms,
                effort_units,
            },
        ) is Err,
{
}

/// A priority label cannot bypass the action class or the authority gate:
/// every admitted message carries an action its class permits, passed the
/// capability gate with the same capability, and had not reached its deadline.
pub proof fn law_admission_implies_gate_and_class(
    config: CapabilityGateConfig,
    approved: Set<u64>,
    max_link_snapshot_age_ms: u64,
    now: u64,
    link_observed_at_ms: u64,
    class: TrafficClass,
    created_at_ms: u64,
    deadline_at_ms: u64,
    ctx: SecurityContext,
    action: RequestedAction,
)
    requires
        admission_outcome(
            config,
            approved,
            max_link_snapshot_age_ms,
            now,
            link_observed_at_ms,
            class,
            created_at_ms,
            deadline_at_ms,
            ctx,
            action,
        ) is Ok,
    ensures
        class_permits(class, action),
        authorize_outcome(config, approved, now, ctx, action) == admission_outcome(
            config,
            approved,
            max_link_snapshot_age_ms,
            now,
            link_observed_at_ms,
            class,
            created_at_ms,
            deadline_at_ms,
            ctx,
            action,
        ),
        created_at_ms <= now + config.max_clock_skew_ms,
        now <= deadline_at_ms,
        now - created_at_ms <= class_max_age(class),
        !is_flight_or_actuator_action(action),
{
}

/// A cooperative proposal is admitted only with a locally approved, nonzero
/// manifest and with its participants, TTL and effort each nonzero and at
/// most the configured ceiling; and an otherwise admissible proposal for an
/// approved manifest whose participants, TTL or effort is zero or above its
/// ceiling is refused with `ProposalOutOfBounds`.
pub proof fn law_proposals_stay_within_ceilings(
    config: CapabilityGateConfig,
    approved: Set<u64>,
    now: u64,
    ctx: SecurityContext,
    manifest_id: u64,
    participant_count: u16,
    ttl_ms: u32,
    effort_units: u32,
)
    ensures
        ({
            let action = RequestedAction::CooperativeTaskProposal {
                manifest_id,
                participant_count,
                ttl_ms,
                effort_units,
            };
            &&& authorize_outcome(config, approved, now, ctx, action) is Ok ==> {
                &&& manifest_id != 0
                &&& approved.contains(manifest_id)
                &&& 1 <= participant_count <= config.max_proposal_participants
                &&& 1 <= ttl_ms <= config.max_proposal_ttl_ms
                &&& 1 <= effort_units <= config.max_proposal_effort_units
            }
            &&& (context_admissible(config, now, ctx) && manifest_id != 0 && approved.contains(
                manifest_id,
            ) && (participant_count == 0 || participant_count > config.max_proposal_participants
                || ttl_ms == 0 || ttl_ms > config.max_proposal_ttl_ms || effort_units == 0
                || effort_units > config.max_proposal_effort_units)) ==> authorize_outcome(
                config,
                approved,
                now,
                ctx,
                action,
            ) == Err::<AuthorizedCapability, PolicyDropReason>(PolicyDropReason::ProposalOutOfBounds)
        }),
{
}

/// Delivery is refused only on a lost link (80 % loss or more), or on a
/// severe one (65 % to 80 %) for traffic other than coordination and
/// cooperative tasks; every other pairing is delivered. Redundancy depends
/// on the loss alone: one plain copy below 10 %, one copy with 20 % parity
/// below 25 %, two copies with 35 % parity below 50 %, and three copies with
/// 50 % parity from there on. Acknowledgement is required for coordination
/// and cooperative-task traffic and from 25 % loss up; otherwise it is
/// opportunistic for state and snapshot requests and from 10 % loss up; a
/// clean link carries other traffic unacknowledged.
pub proof fn law_delivery_by_loss_and_class(band: LossBand, class: TrafficClass)
    ensures
        treatment(band, class) is None <==> (band == LossBand::Lost || (band == LossBand::Severe
            && class != TrafficClass::CriticalCoordination && class != TrafficClass::CooperativeTask)),
        treatment(band, class) matches Some((ack, red)) ==> {
            &&& band == LossBand::Clean ==> red.copies == 1 && red.parity_percent == 0
            &&& band == LossBand::Light ==> red.copies == 1 && red.parity_percent == 20
            &&& band == LossBand::Moderate ==> red.copies == 2 && red.parity_percent == 35
            &&& (band == LossBand::Heavy || band == LossBand::Severe) ==> red.copies == 3
                && red.parity_percent == 50
            &&& (ack == AckMode::Required) <==> (class == TrafficClass::CriticalCoordination
                || class == TrafficClass::CooperativeTask || band == LossBand::Moderate || band
                == LossBand::Heavy || band == LossBand::Severe)
            &&& (ack == AckMode::NoAck) <==> (band == LossBand::Clean && (class
                == TrafficClass::Observation || class == TrafficClass::LearnedResidual || class
                == TrafficClass::BulkSnapshot))
        },
{
}

/// Learned-residual traffic passes the residual screen exactly when its
/// evidence is present, its metrics are well formed and within bounds, it
/// was evaluated no later than the allowed clock skew ahead and no longer
/// than the evidence age ago, it has at least the minimum samples, and its
/// causal controls, model compatibility, decoder trust and semantic fallback
/// all hold; malformed metrics are refused as `InvalidMetric`, and any other
/// shortfall as `ResidualNotValidated`.
pub proof fn law_residual_screen_checks_every_fact(
    l: ResidualLimits,
    now: u64,
    evidence: Option<ResidualFacts>,
)
    ensures
        residual_outcome(l, now, TrafficClass::LearnedResidual, evidence) is Ok <==> (evidence
            matches Some(e) && {
            &&& e.metrics_valid
            &&& e.metrics_meet_bounds
            &&& e.evaluated_at_ms <= now + l.max_clock_skew_ms
            &&& now - e.evaluated_at_ms <= l.max_evidence_age_ms
            &&& e.sample_count >= l.min_samples
            &&& e.causal_controls_passed
            &&& e.model_compatible
            &&& e.decoder_trusted
            &&& e.semantic_fallback_available
        }),
        evidence matches Some(e) && !e.metrics_valid ==> residual_outcome(
            l,
            now,
            TrafficClass::LearnedResidual,
            evidence,
        ) == Err::<(), PolicyDropReason>(PolicyDropReason::InvalidMetric),
        residual_outcome(l, now, TrafficClass::LearnedResidual, evidence) is Err && !(evidence matches Some(
            e,
        ) && !e.metrics_valid) ==> residual_outcome(l, now, TrafficClass::LearnedResidual, evidence)
            == Err::<(), PolicyDropReason>(PolicyDropReason::ResidualNotValidated),
{
}

/// A message is admitted only over a fresh link sample: one observed no
/// later than the allowed clock skew ahead and no longer ago than the
/// snapshot age limit. A sample outside either bound refuses any message as
/// `StaleInput`.
pub proof fn law_admission_needs_fresh_link_sample(
    config: CapabilityGateConfig,
    approved: Set<u64>,
    max_link_snapshot_age_ms: u64,
    now: u64,
    link_observed_at_ms: u64,
    class: TrafficClass,
    created_at_ms: u64,
    deadline_at_ms: u64,
    ctx: SecurityContext,
    action: RequestedAction,
)
    ensures
        ({
            let outcome = admission_outcome(
                config,
                approved,
                max_link_snapshot_age_ms,
                now,
                link_observed_at_ms,
                class,
                created_at_ms,
                deadline_at_ms,
                ctx,
                action,
            );
            &&& outcome is Ok ==> link_observed_at_ms <= now + config.max_clock_skew_ms && now
                - link_observed_at_ms <= max_link_snapshot_age_ms
            &&& (link_observed_at_ms > now + config.max_clock_skew_ms || now - link_observed_at_ms
                > max_link_snapshot_age_ms) ==> outcome == Err::<
                AuthorizedCapability,
                PolicyDropReason,
            >(PolicyDropReason::StaleInput)
        }),
{
}

} // verus!
